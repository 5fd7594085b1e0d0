//! What follows from the contracts of the store: the laws that relate
//! several of its operations.
use super::model::{bump, hop, StoreView, Telling};
use super::AnyResourceId;
use vstd::prelude::*;

verus! {

impl<R> StoreView<R> {
    /// A cleanup pass spares every resource that has an owner: its slot and
    /// its index entries are what they were.
    pub proof fn lemma_reaped_all_spares(self, queue: Seq<AnyResourceId>, id: AnyResourceId)
        requires
            self.live(id),
            self.owners(id) > 0,
        ensures
            self.reaped_all(queue).slots.len() == self.slots.len(),
            self.reaped_all(queue).slots[id.idx as int] == self.slots[id.idx as int],
            forall|p: Seq<char>| #[trigger]
                self.names.contains_key(p) && self.names[p] == id ==> self.reaped_all(
                    queue,
                ).names.contains_key(p) && self.reaped_all(queue).names[p] == id,
        decreases queue.len(),
    {
        if queue.len() > 0 {
            let step = self.reaped(queue[0]);
            assert(step.slots[id.idx as int] == self.slots[id.idx as int]);
            step.lemma_reaped_all_spares(queue.drop_first(), id);
            assert forall|p: Seq<char>| #[trigger]
                self.names.contains_key(p) && self.names[p] == id implies self.reaped_all(
                queue,
            ).names.contains_key(p) && self.reaped_all(queue).names[p] == id by {
                assert(step.names.contains_key(p) && step.names[p] == id);
            }
        }
    }

    /// A cleanup pass never fills a slot: a name that is dead before it is
    /// dead after it.
    pub proof fn lemma_reaped_all_dead(self, queue: Seq<AnyResourceId>, id: AnyResourceId)
        requires
            !self.live(id),
        ensures
            !self.reaped_all(queue).live(id),
        decreases queue.len(),
    {
        if queue.len() > 0 {
            self.reaped(queue[0]).lemma_reaped_all_dead(queue.drop_first(), id);
        }
    }

    /// A cleanup pass frees every resource without owners that is in its
    /// queue and whose value is in its slot.
    pub proof fn lemma_reaped_all_frees(self, queue: Seq<AnyResourceId>, id: AnyResourceId)
        requires
            queue.contains(id),
            self.available(id),
            self.owners(id) == 0,
        ensures
            !self.reaped_all(queue).live(id),
        decreases queue.len(),
    {
        let step = self.reaped(queue[0]);
        if queue[0] == id {
            step.lemma_reaped_all_dead(queue.drop_first(), id);
        } else {
            let k = choose|k: int| 0 <= k < queue.len() && queue[k] == id;
            assert(queue.drop_first()[k - 1] == id);
            assert(step.slots[id.idx as int] == self.slots[id.idx as int]);
            step.lemma_reaped_all_frees(queue.drop_first(), id);
        }
    }

    /// The cleanup pass changes nothing that can be seen through a handle
    /// that still counts: the resource, its value and its index entries stay.
    pub proof fn lemma_sweep_spares_owned(self, id: AnyResourceId)
        requires
            self.live(id),
            self.owners(id) > 0,
        ensures
            self.swept().slots.len() == self.slots.len(),
            self.swept().slots[id.idx as int] == self.slots[id.idx as int],
            self.swept().value(id) == self.value(id),
            forall|p: Seq<char>| #[trigger]
                self.names.contains_key(p) && self.names[p] == id ==> self.swept().names.contains_key(
                    p,
                ) && self.swept().names[p] == id,
    {
        let start = StoreView { pending: Seq::empty(), ..self };
        start.lemma_reaped_all_spares(self.pending, id);
        assert forall|p: Seq<char>| #[trigger]
            self.names.contains_key(p) && self.names[p] == id implies self.swept().names.contains_key(
            p,
        ) && self.swept().names[p] == id by {
            assert(start.names.contains_key(p));
        }
    }

    /// Generation safety. A name whose resource is freed names nothing from
    /// then on: not while the slot is free, and not when the slot is handed
    /// out again, for the new occupancy has another generation.
    pub proof fn lemma_generation_safety(self, id: AnyResourceId, path: Seq<char>, value: R)
        requires
            self.inv(),
            self.available(id),
        ensures
            self.freed(id).value(id) is None,
            self.freed(id).next_id().idx == id.idx,
            self.freed(id).next_id().generation == bump(id.generation),
            self.freed(id).next_id() != id,
            self.freed(id).reserved().value(id) is None,
            self.freed(id).reserved().settled(self.freed(id).next_id(), path, value).value(id)
                is None,
            self.freed(id).reserved().settled(self.freed(id).next_id(), path, value).value(
                self.freed(id).next_id(),
            ) == Some(value),
    {
        let freed = self.freed(id);
        self.lemma_freed(id);
        freed.lemma_in_range();
        assert(freed.free[0] == id.idx);
    }

    /// Generation safety, whenever the reuse comes. Whatever happened since a
    /// slot was freed, the allocation that hands it out again gives it a
    /// generation other than that of its last occupancy, so the old name
    /// stays dead once the slot is filled.
    pub proof fn lemma_reuse_renames(self, id: AnyResourceId, path: Seq<char>, value: R)
        requires
            self.inv(),
            self.free.len() > 0,
            id.idx == self.free[0],
            id.generation == self.slots[id.idx as int].generation(),
        ensures
            self.next_id().idx == id.idx,
            self.next_id() != id,
            self.reserved().settled(self.next_id(), path, value).value(id) is None,
    {
        self.lemma_in_range();
    }

    /// What a successful load leaves behind: the new resource is live with
    /// one owner, its path is indexed, and its parent is the load that was in
    /// progress around it, if there was one.
    pub proof fn lemma_loaded(self, path: Seq<char>, id: AnyResourceId, end: Self)
        requires
            self.inv(),
            self.has_room(),
            self.constructed(path, Some(id), end),
        ensures
            end.inv(),
            end.available(id),
            end.owners(id) == 1,
            end.names.contains_key(path) && end.names[path] == id,
            end.parent(id) == (if self.loading.len() > 0 {
                Some(self.loading.last())
            } else {
                None
            }),
            end.loading == self.loading,
    {
        let mid = choose|mid: Self| #[trigger]
            self.reserved().nested(mid) && mid.inv() && id == self.next_id() && exists|value: R|
                end == #[trigger] mid.settled(id, path, value);
        let value = choose|value: R| end == #[trigger] mid.settled(id, path, value);
        self.lemma_reserved();
        let start = self.reserved();
        let top = start.loading.len() - 1;
        assert(start.loading[top] == id);
        assert(mid.loading[top] == id);
        mid.lemma_in_range();
        mid.lemma_settled(id, path, value);
        assert(end.loading =~= self.loading);
        if self.loading.len() > 0 {
            assert(mid.loading[top - 1] == self.loading[top - 1]);
        }
    }

    /// Dedup. Once a path is loaded, a second load of a path with the same
    /// canonical form finds it indexed, whatever the cleanup pass frees
    /// first: the second load returns the name of the first, and its contract
    /// then says that the constructor's context is untouched.
    pub proof fn lemma_dedup(self, path: Seq<char>, id: AnyResourceId, end: Self)
        requires
            self.inv(),
            self.has_room(),
            self.constructed(path, Some(id), end),
        ensures
            end.swept().names.contains_key(path),
            end.swept().names[path] == id,
            end.swept().shared(id).value(id) == end.value(id),
    {
        self.lemma_loaded(path, id, end);
        end.lemma_sweep_spares_owned(id);
        assert(end.names.contains_key(path));
    }

    /// Rollback. A load whose constructor fails leaves no reservation behind:
    /// the loads in progress are those from before, the slot is free and is
    /// the next to be handed out, and the failed load itself indexed nothing,
    /// so that a later load of the path runs the constructor again.
    pub proof fn lemma_rollback(self, path: Seq<char>, mid: Self)
        requires
            self.inv(),
            self.has_room(),
            self.reserved().nested(mid),
            mid.inv(),
        ensures
            self.constructed(path, None, mid.rolled_back(self.next_id())),
            mid.rolled_back(self.next_id()).inv(),
            mid.rolled_back(self.next_id()).loading == self.loading,
            mid.rolled_back(self.next_id()).slots[self.next_id().idx as int] is Empty,
            mid.rolled_back(self.next_id()).head() == Some(self.next_id().idx),
            mid.rolled_back(self.next_id()).next_id().idx == self.next_id().idx,
            mid.rolled_back(self.next_id()).names == mid.names,
            !mid.names.contains_key(path) ==> !mid.rolled_back(self.next_id()).swept().names.contains_key(
                path,
            ),
    {
        let id = self.next_id();
        let end = mid.rolled_back(id);
        self.lemma_reserved();
        let start = self.reserved();
        let top = start.loading.len() - 1;
        assert(start.loading[top] == id);
        assert(mid.loading[top] == id);
        mid.lemma_in_range();
        mid.lemma_rolled_back(id);
        assert(end.loading =~= self.loading);
        assert(end.free[0] == id.idx);
        if !mid.names.contains_key(path) {
            (StoreView { pending: Seq::empty(), ..end }).lemma_reaped_all_indexes_nothing(
                end.pending,
                path,
            );
        }
    }

    /// A cleanup pass indexes nothing.
    pub proof fn lemma_reaped_all_indexes_nothing(self, queue: Seq<AnyResourceId>, path: Seq<char>)
        requires
            !self.names.contains_key(path),
        ensures
            !self.reaped_all(queue).names.contains_key(path),
        decreases queue.len(),
    {
        if queue.len() > 0 {
            self.reaped(queue[0]).lemma_reaped_all_indexes_nothing(queue.drop_first(), path);
        }
    }

    /// Cleanup idempotence. Of two owners of one resource, the first to let go
    /// frees nothing, cleanup pass or not; the second queues the name, and the
    /// cleanup pass that follows frees the slot.
    pub proof fn lemma_last_release_frees(self, id: AnyResourceId)
        requires
            self.inv(),
            self.available(id),
            self.owners(id) == 1,
        ensures
            self.shared(id).owners(id) == 2,
            self.shared(id).released(id).owners(id) == 1,
            self.shared(id).released(id).value(id) == self.value(id),
            self.shared(id).released(id).swept().value(id) == self.value(id),
            self.shared(id).released(id).released(id).value(id) == self.value(id),
            self.shared(id).released(id).released(id).swept().value(id) is None,
            !self.shared(id).released(id).released(id).swept().live(id),
    {
        let two = self.shared(id);
        let one = two.released(id);
        let zero = one.released(id);
        assert(one.slots[id.idx as int] == self.slots[id.idx as int]);
        one.lemma_sweep_spares_owned(id);
        assert(zero.pending == one.pending.push(id));
        assert(zero.pending[zero.pending.len() - 1] == id);
        (StoreView { pending: Seq::empty(), ..zero }).lemma_reaped_all_frees(zero.pending, id);
    }

    /// A release is counted once: a name whose last owner is gone has no
    /// owner left to let go, and further releases change nothing.
    pub proof fn lemma_release_spent(self, id: AnyResourceId)
        requires
            self.live(id),
            self.owners(id) == 0,
        ensures
            self.released(id) == self,
    {
    }

    /// Propagation pruning. Where the first resource told answers that it is
    /// not affected, the walk is over: nobody else is told, the walk has not
    /// failed, and the store is what it was.
    pub proof fn lemma_unaffected_ends_walk(
        self,
        at: AnyResourceId,
        changed: AnyResourceId,
        tellings: Seq<Telling<R>>,
        failed: bool,
        end: Self,
    )
        requires
            self.walked(at, changed, tellings, failed, end),
            tellings.len() > 0,
            !tellings[0].affected,
        ensures
            tellings.len() == 1,
            !failed,
            self.value(at) == Some(tellings[0].after),
            end == self,
    {
        assert(self.with_value(at, Some(tellings[0].after)).slots =~= self.slots);
    }

    /// Propagation continuation. Where the first resource told answers that
    /// it is affected, and its parent is there to be told, the parent is told
    /// next, and what it is told has changed is the resource that was told
    /// first. The walk goes on unless the parent fails to answer.
    pub proof fn lemma_affected_tells_parent(
        self,
        at: AnyResourceId,
        changed: AnyResourceId,
        tellings: Seq<Telling<R>>,
        failed: bool,
        end: Self,
    )
        requires
            self.inv(),
            self.walked(at, changed, tellings, failed, end),
            tellings.len() > 0,
            tellings[0].affected,
            self.parent(at) is Some,
            self.available(self.parent(at)->0),
        ensures
            tellings.len() >= 2 || failed,
            tellings.len() >= 2 ==> tellings[1].told == self.parent(at)->0 && tellings[1].changed
                == at,
    {
        let parent = self.parent(at)->0;
        let step = self.with_value(at, Some(tellings[0].after));
        self.lemma_parent_lower(at);
        assert(step.available(parent));
        let tail = tellings.drop_first();
        assert(step.walked(parent, at, tail, failed, end));
        if tail.len() > 0 {
            assert(tail[0] == tellings[1]);
        }
    }

    /// Each step of a walk after the first tells a resource that was filled
    /// later than the one the walk began with.
    pub proof fn lemma_walk_descends(
        self,
        at: AnyResourceId,
        changed: AnyResourceId,
        tellings: Seq<Telling<R>>,
        failed: bool,
        end: Self,
        k: int,
    )
        requires
            self.inv(),
            self.walked(at, changed, tellings, failed, end),
            1 <= k < tellings.len(),
        ensures
            self.height(tellings[k].told) < self.height(at),
        decreases tellings.len(),
    {
        let step = self.with_value(at, Some(tellings[0].after));
        let tail = tellings.drop_first();
        let next = hop(tellings[0].affected, self.parent(at))->0;
        self.lemma_parent_lower(at);
        self.lemma_with_value(at, Some(tellings[0].after));
        assert(step.walked(next, at, tail, failed, end));
        assert(tail[k - 1] == tellings[k]);
        if k == 1 {
            assert(tail[0].told == next);
        } else {
            step.lemma_walk_descends(next, at, tail, failed, end, k - 1);
            assert(step.height(tellings[k].told) == self.height(tellings[k].told));
            assert(step.height(next) == self.height(next));
        }
    }

    /// No resource is told twice in one walk.
    pub proof fn lemma_told_once(
        self,
        at: AnyResourceId,
        changed: AnyResourceId,
        tellings: Seq<Telling<R>>,
        failed: bool,
        end: Self,
        j: int,
        k: int,
    )
        requires
            self.inv(),
            self.walked(at, changed, tellings, failed, end),
            0 <= j < k < tellings.len(),
        ensures
            tellings[j].told != tellings[k].told,
        decreases tellings.len(),
    {
        if j == 0 {
            self.lemma_walk_descends(at, changed, tellings, failed, end, k);
        } else {
            let step = self.with_value(at, Some(tellings[0].after));
            let tail = tellings.drop_first();
            let next = hop(tellings[0].affected, self.parent(at))->0;
            self.lemma_with_value(at, Some(tellings[0].after));
            assert(step.walked(next, at, tail, failed, end));
            assert(tail[j - 1] == tellings[j]);
            assert(tail[k - 1] == tellings[k]);
            step.lemma_told_once(next, at, tail, failed, end, j - 1, k - 1);
        }
    }

    /// Reload preserves the value on failure. A reload whose rebuild fails
    /// leaves the value of the resource as it was.
    pub proof fn lemma_failed_rebuild_keeps_value(self, id: AnyResourceId, end: Self)
        requires
            self.rebuilt(id, true, end),
        ensures
            end.value(id) == self.value(id),
    {
    }

    /// An unrelated reload is a no-op. A reload that finds nothing at its
    /// path leaves behind what a cleanup pass leaves, and that changes nothing
    /// that can be seen through a handle that still counts.
    pub proof fn lemma_unrelated_reload(self, path: Seq<char>, id: AnyResourceId)
        requires
            !self.swept().reloadable(path),
            self.live(id),
            self.owners(id) > 0,
        ensures
            self.swept().value(id) == self.value(id),
            self.swept().parent(id) == self.parent(id),
            self.swept().owners(id) == self.owners(id),
    {
        self.lemma_sweep_spares_owned(id);
    }

    /// Every name in the queue is that of a resource whose value is out.
    pub open spec fn holds_back_only_busy(self) -> bool {
        forall|k: int|
            0 <= k < self.pending.len() ==> self.live(#[trigger] self.pending[k])
                && !self.available(self.pending[k])
    }

    /// What a cleanup pass puts back in the queue are resources whose value
    /// is out, and nothing else.
    pub proof fn lemma_reaped_all_holds_back(self, queue: Seq<AnyResourceId>)
        requires
            self.holds_back_only_busy(),
        ensures
            self.reaped_all(queue).holds_back_only_busy(),
        decreases queue.len(),
    {
        if queue.len() > 0 {
            let id = queue[0];
            let step = self.reaped(id);
            assert forall|k: int| 0 <= k < step.pending.len() implies step.live(
                #[trigger] step.pending[k],
            ) && !step.available(step.pending[k]) by {
                if k < self.pending.len() {
                    assert(self.live(self.pending[k]) && !self.available(self.pending[k]));
                }
            }
            step.lemma_reaped_all_holds_back(queue.drop_first());
        }
    }

    /// No resource is forgotten. After a cleanup pass every resource that is
    /// still there has an owner, unless its value is out for reload: such a
    /// one waits in the queue for the next pass.
    pub proof fn lemma_sweep_leaves_no_unowned(self, id: AnyResourceId)
        requires
            self.inv(),
            self.swept().available(id),
        ensures
            self.swept().owners(id) > 0,
    {
        let start = StoreView { pending: Seq::empty(), ..self };
        start.lemma_reaped_all_holds_back(self.pending);
        self.lemma_swept();
        let swept = self.swept();
        if swept.owners(id) == 0 {
            swept.lemma_queued_at(id);
            let k = choose|k: int| 0 <= k < swept.pending.len() && swept.pending[k] == id;
            assert(!swept.available(swept.pending[k]));
        }
    }
}

} // verus!
