//! The mathematical model of the store: what its contracts are stated over.
use super::AnyResourceId;
use vstd::prelude::*;

verus! {

/// One slot of the arena, as the contracts see it.
pub enum Slot<R> {
    /// Free: on the free list, waiting to be handed out again. `next` is the
    /// slot that follows it there.
    Empty { generation: u32, next: Option<u32> },
    /// Handed out to a load that is still running its constructor.
    Reserved { generation: u32 },
    /// Holds a resource. `value` is `None` only while the resource is being
    /// reloaded or is reacting to a reload: the value is then out of the slot.
    /// `stamp` is the store's clock at the moment the slot was filled.
    Filled {
        generation: u32,
        parent: Option<AnyResourceId>,
        path: Seq<char>,
        value: Option<R>,
        owners: nat,
        stamp: nat,
    },
}

impl<R> Slot<R> {
    pub open spec fn generation(self) -> u32 {
        match self {
            Slot::Empty { generation, .. } => generation,
            Slot::Reserved { generation } => generation,
            Slot::Filled { generation, .. } => generation,
        }
    }

    /// The slot is filled, by the occupancy of that generation.
    pub open spec fn holds(self, generation: u32) -> bool {
        self is Filled && self.generation() == generation
    }

    /// The slot is filled and its value is out.
    pub open spec fn busy(self) -> bool {
        self matches Slot::Filled { value, .. } && value is None
    }

    /// Both are the same occupancy with its value out; only the number of
    /// owners may differ.
    pub open spec fn same_busy(self, other: Self) -> bool {
        &&& self.busy()
        &&& other.busy()
        &&& self.generation() == other.generation()
        &&& self->parent == other->parent
        &&& self->path == other->path
        &&& self->stamp == other->stamp
    }

    /// The same slot but for the value it holds.
    pub open spec fn with_value(self, value: Option<R>) -> Self {
        Slot::Filled {
            generation: self->Filled_generation,
            parent: self->parent,
            path: self->path,
            value,
            owners: self->owners,
            stamp: self->stamp,
        }
    }

    /// The same slot but for the number of its owners.
    pub open spec fn with_owners(self, owners: nat) -> Self {
        Slot::Filled {
            generation: self->Filled_generation,
            parent: self->parent,
            path: self->path,
            value: self->value,
            owners,
            stamp: self->stamp,
        }
    }
}

/// The generation that follows `g`. Generations wrap.
pub open spec fn bump(g: u32) -> u32 {
    if g == u32::MAX {
        0
    } else {
        (g + 1) as u32
    }
}

/// The owner count after one more owner: it sticks at the ceiling.
pub open spec fn one_more(owners: nat) -> nat {
    if owners < u64::MAX {
        owners + 1
    } else {
        owners
    }
}

/// A count that has reached the ceiling is never taken down again: the slot
/// then stays for the life of the store.
pub open spec fn counted(owners: nat) -> bool {
    0 < owners < u64::MAX
}

/// One step of a walk up the parent edges: `told` heard that `changed` was
/// reloaded, answered `affected`, and has the value `after` since.
pub struct Telling<R> {
    pub told: AnyResourceId,
    pub changed: AnyResourceId,
    pub affected: bool,
    pub after: R,
}

/// Whom a walk tells next: the parent of the resource that was told, where
/// that one answered that it was affected; nobody, where it answered that it
/// was not.
pub open spec fn hop(affected: bool, parent: Option<AnyResourceId>) -> Option<AnyResourceId> {
    if affected {
        parent
    } else {
        None
    }
}

/// The store, as the contracts see it.
pub struct StoreView<R> {
    /// The arena.
    pub slots: Seq<Slot<R>>,
    /// The free list, head first.
    pub free: Seq<u32>,
    /// The index from canonical path to the resource loaded from it.
    pub names: Map<Seq<char>, AnyResourceId>,
    /// The loads in progress, innermost last.
    pub loading: Seq<AnyResourceId>,
    /// The occupancies whose last owner is gone and that wait to be freed,
    /// oldest first.
    pub pending: Seq<AnyResourceId>,
    /// The number of slots filled so far.
    pub clock: nat,
}

impl<R> StoreView<R> {
    /// The store before anything was loaded.
    pub open spec fn empty() -> Self {
        StoreView {
            slots: Seq::empty(),
            free: Seq::empty(),
            names: Map::empty(),
            loading: Seq::empty(),
            pending: Seq::empty(),
            clock: 0,
        }
    }

    /// `id` names a filled slot of its own generation.
    pub open spec fn live(self, id: AnyResourceId) -> bool {
        id.idx < self.slots.len() && self.slots[id.idx as int].holds(id.generation)
    }

    /// What the store answers when asked for `id`.
    pub open spec fn value(self, id: AnyResourceId) -> Option<R> {
        if self.live(id) {
            self.slots[id.idx as int]->value
        } else {
            None
        }
    }

    /// `id` is live and its value is in its slot.
    pub open spec fn available(self, id: AnyResourceId) -> bool {
        self.live(id) && !self.slots[id.idx as int].busy()
    }

    /// The resource whose load triggered the load of `id`.
    pub open spec fn parent(self, id: AnyResourceId) -> Option<AnyResourceId> {
        if self.live(id) {
            self.slots[id.idx as int]->parent
        } else {
            None
        }
    }

    /// The number of handles that count for `id`.
    pub open spec fn owners(self, id: AnyResourceId) -> nat {
        if self.live(id) {
            self.slots[id.idx as int]->owners
        } else {
            0
        }
    }

    /// The entry for `path` names a live resource that was loaded from `path`.
    pub open spec fn indexed_ok(self, path: Seq<char>) -> bool {
        self.live(self.names[path]) && self.slots[self.names[path].idx as int]->path == path
    }

    /// The head of the free list.
    pub open spec fn head(self) -> Option<u32> {
        if self.free.len() > 0 {
            Some(self.free[0])
        } else {
            None
        }
    }

    /// The free list holds each free slot once and no other, and the slots
    /// are linked in its order.
    #[verifier::opaque]
    pub open spec fn free_ok(self) -> bool {
        &&& self.free.no_duplicates()
        &&& forall|k: int|
            0 <= k < self.free.len() ==> (#[trigger] self.free[k]) < self.slots.len()
                && self.slots[self.free[k] as int] is Empty && self.slots[self.free[k] as int]->next
                == (if k + 1 < self.free.len() {
                Some(self.free[k + 1])
            } else {
                None
            })
        &&& forall|i: int|
            0 <= i < self.slots.len() && (#[trigger] self.slots[i]) is Empty
                ==> self.free.contains(i as u32)
    }

    /// Each load in progress has a reserved slot of its own, and no other slot
    /// is reserved.
    #[verifier::opaque]
    pub open spec fn loading_ok(self) -> bool {
        &&& forall|k: int|
            0 <= k < self.loading.len() ==> (#[trigger] self.loading[k]).idx < self.slots.len()
                && self.slots[self.loading[k].idx as int] == (Slot::<R>::Reserved {
                generation: self.loading[k].generation,
            })
        &&& forall|j: int, k: int|
            0 <= j < k < self.loading.len() ==> (#[trigger] self.loading[j]).idx
                != (#[trigger] self.loading[k]).idx
        &&& forall|i: int|
            0 <= i < self.slots.len() && (#[trigger] self.slots[i]) is Reserved ==> exists|k: int|
                0 <= k < self.loading.len() && (#[trigger] self.loading[k]).idx == i
    }

    /// Each indexed path leads to a live resource that was loaded from it.
    #[verifier::opaque]
    pub open spec fn names_ok(self) -> bool {
        forall|p: Seq<char>| #[trigger] self.names.contains_key(p) ==> self.indexed_ok(p)
    }

    /// The parent that slot `i` names is live.
    pub open spec fn has_live_parent(self, i: int) -> bool {
        &&& self.slots[i] is Filled
        &&& self.slots[i]->parent is Some
        &&& self.live(self.slots[i]->parent->0)
    }

    /// Counts are in range, every filled slot was filled before now, and a
    /// parent after its child: the parent edges cannot form a cycle.
    #[verifier::opaque]
    pub open spec fn filled_ok(self) -> bool {
        &&& forall|i: int|
            0 <= i < self.slots.len() && (#[trigger] self.slots[i]) is Filled
                ==> self.slots[i]->owners <= u64::MAX && self.slots[i]->stamp < self.clock
        &&& forall|i: int|
            0 <= i < self.slots.len() && #[trigger] self.has_live_parent(i)
                ==> self.slots[i]->stamp < self.slots[self.slots[i]->parent->0.idx as int]->stamp
    }

    /// The name of the occupancy of slot `i`.
    pub open spec fn name_at(self, i: int) -> AnyResourceId {
        AnyResourceId { idx: i as u32, generation: self.slots[i].generation() }
    }

    /// The slot `i` holds a resource that nobody owns.
    pub open spec fn unowned(self, i: int) -> bool {
        self.slots[i] is Filled && self.slots[i]->owners == 0
    }

    /// Every resource that nobody owns is queued for the cleanup pass: none
    /// is forgotten.
    #[verifier::opaque]
    pub open spec fn queued_ok(self) -> bool {
        forall|i: int|
            0 <= i < self.slots.len() && #[trigger] self.unowned(i) ==> self.pending.contains(
                self.name_at(i),
            )
    }

    /// What holds of the arena, the index and the loads in progress, whatever
    /// the queue.
    pub open spec fn sound(self) -> bool {
        &&& self.slots.len() <= u32::MAX
        &&& self.free_ok()
        &&& self.loading_ok()
        &&& self.names_ok()
        &&& self.filled_ok()
    }

    /// What holds of the store between any two operations.
    pub open spec fn inv(self) -> bool {
        self.sound() && self.queued_ok()
    }

    /// Another slot can be handed out: one is free, or the index space is not
    /// exhausted.
    pub open spec fn has_room(self) -> bool {
        self.free.len() > 0 || self.slots.len() < u32::MAX
    }

    /// The name that the next allocation hands out: the head of the free list
    /// with its generation advanced, or a new slot of generation 0.
    pub open spec fn next_id(self) -> AnyResourceId {
        if self.free.len() > 0 {
            AnyResourceId {
                idx: self.free[0],
                generation: bump(self.slots[self.free[0] as int].generation()),
            }
        } else {
            AnyResourceId { idx: self.slots.len() as u32, generation: 0 }
        }
    }

    /// The store after a slot was reserved for a load that begins.
    pub open spec fn reserved(self) -> Self {
        let id = self.next_id();
        if self.free.len() > 0 {
            StoreView {
                slots: self.slots.update(
                    id.idx as int,
                    Slot::Reserved { generation: id.generation },
                ),
                free: self.free.drop_first(),
                loading: self.loading.push(id),
                ..self
            }
        } else {
            StoreView {
                slots: self.slots.push(Slot::Reserved { generation: id.generation }),
                loading: self.loading.push(id),
                ..self
            }
        }
    }

    /// The innermost load but one: the parent of what the innermost load
    /// produces.
    pub open spec fn loader(self) -> Option<AnyResourceId> {
        if self.loading.len() >= 2 {
            Some(self.loading[self.loading.len() - 2])
        } else {
            None
        }
    }

    /// The store after the innermost load, that of `id`, succeeded with
    /// `value`.
    pub open spec fn settled(self, id: AnyResourceId, path: Seq<char>, value: R) -> Self {
        StoreView {
            slots: self.slots.update(
                id.idx as int,
                Slot::Filled {
                    generation: id.generation,
                    parent: self.loader(),
                    path,
                    value: Some(value),
                    owners: 1,
                    stamp: self.clock,
                },
            ),
            names: self.names.insert(path, id),
            loading: self.loading.drop_last(),
            clock: self.clock + 1,
            ..self
        }
    }

    /// The store after the innermost load, that of `id`, failed: the slot is
    /// free again, at the head of the free list.
    pub open spec fn rolled_back(self, id: AnyResourceId) -> Self {
        StoreView {
            slots: self.slots.update(
                id.idx as int,
                Slot::Empty { generation: id.generation, next: self.head() },
            ),
            free: seq![id.idx] + self.free,
            loading: self.loading.drop_last(),
            ..self
        }
    }

    /// The index without the entry of `id`, if `id` has one.
    pub open spec fn names_without(self, id: AnyResourceId) -> Map<Seq<char>, AnyResourceId> {
        let path = self.slots[id.idx as int]->path;
        if self.names.contains_key(path) && self.names[path] == id {
            self.names.remove(path)
        } else {
            self.names
        }
    }

    /// The store after `id` was freed. A name that is not live, or whose value
    /// is out, frees nothing. The generation stays: only an allocation
    /// advances it.
    pub open spec fn freed(self, id: AnyResourceId) -> Self {
        if self.available(id) {
            StoreView {
                slots: self.slots.update(
                    id.idx as int,
                    Slot::Empty { generation: id.generation, next: self.head() },
                ),
                free: seq![id.idx] + self.free,
                names: self.names_without(id),
                ..self
            }
        } else {
            self
        }
    }

    /// The store after the cleanup pass has looked at one pending name: it
    /// frees a resource without owners, puts back in the queue one whose value
    /// is out, and forgets any other.
    pub open spec fn reaped(self, id: AnyResourceId) -> Self {
        if self.live(id) && self.owners(id) == 0 {
            if self.available(id) {
                self.freed(id)
            } else {
                StoreView { pending: self.pending.push(id), ..self }
            }
        } else {
            self
        }
    }

    /// The store after the cleanup pass has looked at each name of `queue` in
    /// turn.
    pub open spec fn reaped_all(self, queue: Seq<AnyResourceId>) -> Self
        decreases queue.len(),
    {
        if queue.len() == 0 {
            self
        } else {
            self.reaped(queue[0]).reaped_all(queue.drop_first())
        }
    }

    /// The store after a cleanup pass.
    pub open spec fn swept(self) -> Self {
        StoreView { pending: Seq::empty(), ..self }.reaped_all(self.pending)
    }

    /// The slot of `id` with another number of owners.
    pub open spec fn with_owners(self, id: AnyResourceId, owners: nat) -> Self {
        StoreView {
            slots: self.slots.update(
                id.idx as int,
                self.slots[id.idx as int].with_owners(owners),
            ),
            ..self
        }
    }

    /// The slot of `id` with another value, or with its value out.
    pub open spec fn with_value(self, id: AnyResourceId, value: Option<R>) -> Self {
        StoreView {
            slots: self.slots.update(id.idx as int, self.slots[id.idx as int].with_value(value)),
            ..self
        }
    }

    /// The store after `id` got one more owner.
    pub open spec fn shared(self, id: AnyResourceId) -> Self {
        if self.live(id) {
            self.with_owners(id, one_more(self.owners(id)))
        } else {
            self
        }
    }

    /// The store after one owner of `id` let go. The last owner's release
    /// queues the name for the next cleanup pass.
    pub open spec fn released(self, id: AnyResourceId) -> Self {
        if self.live(id) && counted(self.owners(id)) {
            let less = self.with_owners(id, (self.owners(id) - 1) as nat);
            if self.owners(id) == 1 {
                StoreView { pending: less.pending.push(id), ..less }
            } else {
                less
            }
        } else {
            self
        }
    }

    /// What an operation that runs inside another may have done by the time
    /// it returns: the loads in progress are the same, and the values that
    /// were out are still out, of the same resources.
    pub open spec fn nested(self, next: Self) -> bool {
        &&& next.loading == self.loading
        &&& self.slots.len() <= next.slots.len()
        &&& forall|i: int|
            0 <= i < self.slots.len() && (#[trigger] self.slots[i]).busy()
                ==> self.slots[i].same_busy(next.slots[i])
        &&& forall|i: int|
            0 <= i < next.slots.len() && (#[trigger] next.slots[i]).busy() ==> i
                < self.slots.len() && self.slots[i].busy()
    }

    /// `path` is indexed and the value of its resource is in its slot.
    pub open spec fn reloadable(self, path: Seq<char>) -> bool {
        self.names.contains_key(path) && self.available(self.names[path])
    }

    /// `next` is this store but for the values of resources whose value is
    /// in: such a value may be another.
    pub open spec fn revalued(self, next: Self) -> bool {
        &&& next.slots.len() == self.slots.len()
        &&& next.free == self.free
        &&& next.names == self.names
        &&& next.loading == self.loading
        &&& next.pending == self.pending
        &&& next.clock == self.clock
        &&& forall|i: int|
            0 <= i < self.slots.len() ==> (#[trigger] next.slots[i]) == self.slots[i] || (
            self.slots[i] is Filled && !self.slots[i].busy() && next.slots[i]->value is Some
                && next.slots[i] == self.slots[i].with_value(next.slots[i]->value))
    }

    /// What a load that ran the constructor leaves. `id` is the name of the
    /// new resource, or `None` where the constructor failed. Between the
    /// reservation of the slot and the end of the load the constructor ran,
    /// and may have used the store as `nested` allows.
    pub open spec fn constructed(
        self,
        path: Seq<char>,
        id: Option<AnyResourceId>,
        end: Self,
    ) -> bool {
        exists|mid: Self| #[trigger]
            self.reserved().nested(mid) && mid.inv() && match id {
                Some(id) => id == self.next_id() && exists|value: R|
                    end == #[trigger] mid.settled(id, path, value),
                None => end == mid.rolled_back(self.next_id()),
            }
    }

    /// What the reload of `id` leaves: while the value was out the resource
    /// rebuilt itself, and may have used the store as `nested` allows; then
    /// the value, rebuilt or as it was, went back into its slot.
    pub open spec fn rebuilt(self, id: AnyResourceId, failed: bool, end: Self) -> bool {
        exists|mid: Self| #[trigger]
            self.with_value(id, None).nested(mid) && mid.inv() && end.value(id) is Some && end
                == mid.with_value(id, end.value(id)) && (failed ==> end.value(id) == self.value(
                id,
            ))
    }

    /// What a walk leaves that starts by telling `at` that `changed` was
    /// reloaded. `tellings` are its steps in order, those whose resource
    /// answered. A resource that is not there to be told ends the walk; so
    /// does one that fails to answer, and the walk has then failed. A
    /// resource that answers that it is not affected has the value it had.
    /// After each answer the walk goes where `hop` says, with the resource
    /// that was just told as the one that changed.
    pub open spec fn walked(
        self,
        at: AnyResourceId,
        changed: AnyResourceId,
        tellings: Seq<Telling<R>>,
        failed: bool,
        end: Self,
    ) -> bool
        decreases tellings.len(),
    {
        if tellings.len() == 0 {
            end == self && failed == self.available(at)
        } else {
            let first = tellings[0];
            let step = self.with_value(at, Some(first.after));
            &&& self.available(at)
            &&& first.told == at
            &&& first.changed == changed
            &&& first.affected || self.value(at) == Some(first.after)
            &&& match hop(first.affected, self.parent(at)) {
                Some(next) => step.walked(next, at, tellings.drop_first(), failed, end),
                None => tellings.len() == 1 && !failed && end == step,
            }
        }
    }

    /// What telling the ancestors of `id` leaves: a walk from its parent,
    /// where it has one.
    pub open spec fn told_up(
        self,
        parent: Option<AnyResourceId>,
        id: AnyResourceId,
        tellings: Seq<Telling<R>>,
        failed: bool,
        end: Self,
    ) -> bool {
        match parent {
            Some(parent) => self.walked(parent, id, tellings, failed, end),
            None => tellings.len() == 0 && !failed && end == self,
        }
    }

    /// What a reload leaves that found `id` at its path: the rebuild failed
    /// and nobody was told; or the resource was rebuilt and its ancestors
    /// were told.
    pub open spec fn reloaded(self, id: AnyResourceId, failed: bool, end: Self) -> bool {
        ||| failed && self.rebuilt(id, true, end)
        ||| exists|rebuilt: Self, tellings: Seq<Telling<R>>|
            self.rebuilt(id, false, rebuilt) && #[trigger] rebuilt.told_up(
                self.parent(id),
                id,
                tellings,
                failed,
                end,
            )
    }

    /// No slot became or ceased to be free, and the free slots are untouched:
    /// the free list is still in order.
    pub proof fn lemma_free_kept(self, next: Self)
        requires
            self.free_ok(),
            next.free == self.free,
            next.slots.len() >= self.slots.len(),
            forall|i: int|
                0 <= i < self.slots.len() && (#[trigger] self.slots[i]) is Empty ==> next.slots[i]
                    == self.slots[i],
            forall|i: int|
                0 <= i < next.slots.len() && (#[trigger] next.slots[i]) is Empty ==> i
                    < self.slots.len() && self.slots[i] is Empty,
        ensures
            next.free_ok(),
    {
        reveal(StoreView::free_ok);
        assert forall|k: int| 0 <= k < next.free.len() implies (#[trigger] next.free[k])
            < next.slots.len() && next.slots[next.free[k] as int] is Empty
            && next.slots[next.free[k] as int]->next == (if k + 1 < next.free.len() {
            Some(next.free[k + 1])
        } else {
            None
        }) by {
            assert(self.slots[self.free[k] as int] is Empty);
        }
        assert forall|i: int|
            0 <= i < next.slots.len() && (#[trigger] next.slots[i]) is Empty implies next.free.contains(
            i as u32,
        ) by {
            assert(self.slots[i] is Empty);
        }
    }

    /// A slot that was not free went to the head of the free list: the free
    /// list is still in order.
    pub proof fn lemma_free_grown(self, next: Self, idx: u32)
        requires
            self.free_ok(),
            self.slots.len() <= u32::MAX,
            idx < self.slots.len(),
            !(self.slots[idx as int] is Empty),
            next.slots.len() == self.slots.len(),
            next.slots[idx as int] is Empty,
            next.slots[idx as int]->next == self.head(),
            forall|i: int|
                0 <= i < self.slots.len() && i != idx ==> (#[trigger] next.slots[i]) is Empty
                    == self.slots[i] is Empty && (self.slots[i] is Empty ==> next.slots[i]
                    == self.slots[i]),
            next.free == seq![idx] + self.free,
        ensures
            next.free_ok(),
    {
        reveal(StoreView::free_ok);
        assert forall|k: int| 1 <= k < next.free.len() implies next.free[k] == self.free[k - 1]
            && next.free[k] != idx by {
            assert(self.slots[self.free[k - 1] as int] is Empty);
        }
        assert(next.free[0] == idx);
        assert forall|i: int, j: int|
            0 <= i < next.free.len() && 0 <= j < next.free.len() && i != j implies next.free[i]
            != next.free[j] by {
            if i > 0 && j > 0 {
                assert(self.free[i - 1] != self.free[j - 1]);
            }
        }
        assert forall|k: int| 0 <= k < next.free.len() implies (#[trigger] next.free[k])
            < next.slots.len() && next.slots[next.free[k] as int] is Empty
            && next.slots[next.free[k] as int]->next == (if k + 1 < next.free.len() {
            Some(next.free[k + 1])
        } else {
            None
        }) by {
            if k > 0 {
                assert(self.slots[self.free[k - 1] as int] is Empty);
                assert(next.slots[self.free[k - 1] as int] == self.slots[self.free[k - 1] as int]);
                if k + 1 < next.free.len() {
                    assert(next.free[k + 1] == self.free[k]);
                }
            } else {
                if 1 < next.free.len() {
                    assert(next.free[1] == self.free[0]);
                }
            }
        }
        assert forall|i: int|
            0 <= i < next.slots.len() && (#[trigger] next.slots[i]) is Empty implies next.free.contains(
            i as u32,
        ) by {
            if i == idx {
                assert(next.free[0] == i as u32);
            } else {
                assert(self.slots[i] is Empty);
                let k = choose|k: int| 0 <= k < self.free.len() && self.free[k] == i as u32;
                assert(next.free[k + 1] == i as u32);
            }
        }
    }

    /// The head of the free list was taken off and is free no longer: the
    /// free list is still in order.
    pub proof fn lemma_free_shrunk(self, next: Self)
        requires
            self.free_ok(),
            self.slots.len() <= u32::MAX,
            self.free.len() > 0,
            next.free == self.free.drop_first(),
            next.slots.len() == self.slots.len(),
            !(next.slots[self.free[0] as int] is Empty),
            forall|i: int|
                0 <= i < self.slots.len() && i != self.free[0] ==> (#[trigger] next.slots[i])
                    == self.slots[i],
        ensures
            next.free_ok(),
    {
        reveal(StoreView::free_ok);
        let head = self.free[0];
        assert forall|k: int| 0 <= k < next.free.len() implies next.free[k] == self.free[k + 1]
            && next.free[k] != head by {}
        assert forall|k: int| 0 <= k < next.free.len() implies (#[trigger] next.free[k])
            < next.slots.len() && next.slots[next.free[k] as int] is Empty
            && next.slots[next.free[k] as int]->next == (if k + 1 < next.free.len() {
            Some(next.free[k + 1])
        } else {
            None
        }) by {
            assert(self.slots[self.free[k + 1] as int] is Empty);
            assert(next.slots[self.free[k + 1] as int] == self.slots[self.free[k + 1] as int]);
        }
        assert forall|i: int|
            0 <= i < next.slots.len() && (#[trigger] next.slots[i]) is Empty implies next.free.contains(
            i as u32,
        ) by {
            assert(i != head);
            assert(self.slots[i] is Empty);
            let k = choose|k: int| 0 <= k < self.free.len() && self.free[k] == i as u32;
            assert(next.free[k - 1] == i as u32);
        }
    }

    /// What the free list says of its `k`th slot.
    pub proof fn lemma_free_at(self, k: int)
        requires
            self.free_ok(),
            0 <= k < self.free.len(),
        ensures
            self.free[k] < self.slots.len(),
            self.slots[self.free[k] as int] is Empty,
            self.slots[self.free[k] as int]->next == (if k + 1 < self.free.len() {
                Some(self.free[k + 1])
            } else {
                None
            }),
    {
        reveal(StoreView::free_ok);
    }

    /// The loads in progress and their slots are untouched.
    pub proof fn lemma_loading_kept(self, next: Self)
        requires
            self.loading_ok(),
            next.loading == self.loading,
            next.slots.len() >= self.slots.len(),
            forall|i: int|
                0 <= i < self.slots.len() && (#[trigger] self.slots[i]) is Reserved
                    ==> next.slots[i] == self.slots[i],
            forall|i: int|
                0 <= i < next.slots.len() && (#[trigger] next.slots[i]) is Reserved ==> i
                    < self.slots.len() && self.slots[i] is Reserved,
        ensures
            next.loading_ok(),
    {
        reveal(StoreView::loading_ok);
        assert forall|k: int| 0 <= k < next.loading.len() implies (#[trigger] next.loading[k]).idx
            < next.slots.len() && next.slots[next.loading[k].idx as int] == (Slot::<R>::Reserved {
            generation: next.loading[k].generation,
        }) by {
            assert(self.slots[self.loading[k].idx as int] is Reserved);
        }
        assert forall|i: int|
            0 <= i < next.slots.len() && (#[trigger] next.slots[i]) is Reserved implies exists|
            k: int,
        |
            0 <= k < next.loading.len() && (#[trigger] next.loading[k]).idx == i by {
            assert(self.slots[i] is Reserved);
            let k = choose|k: int|
                0 <= k < self.loading.len() && (#[trigger] self.loading[k]).idx == i;
            assert(next.loading[k].idx == i);
        }
    }

    /// What the invariant says of the `k`th load in progress.
    pub proof fn lemma_loading_at(self, k: int)
        requires
            self.loading_ok(),
            0 <= k < self.loading.len(),
        ensures
            self.loading[k].idx < self.slots.len(),
            self.slots[self.loading[k].idx as int] == (Slot::<R>::Reserved {
                generation: self.loading[k].generation,
            }),
            forall|j: int|
                0 <= j < self.loading.len() && j != k ==> (#[trigger] self.loading[j]).idx
                    != self.loading[k].idx,
    {
        reveal(StoreView::loading_ok);
        assert forall|j: int| 0 <= j < self.loading.len() && j != k implies (
        #[trigger] self.loading[j]).idx != self.loading[k].idx by {
            if j < k {
                assert(self.loading[j].idx != self.loading[k].idx);
            } else {
                assert(self.loading[k].idx != self.loading[j].idx);
            }
        }
    }

    /// The innermost load ended and its slot is reserved no longer; the other
    /// loads and their slots are untouched.
    pub proof fn lemma_loading_popped(self, next: Self)
        requires
            self.loading_ok(),
            self.loading.len() > 0,
            next.loading == self.loading.drop_last(),
            next.slots.len() == self.slots.len(),
            !(next.slots[self.loading.last().idx as int] is Reserved),
            forall|i: int|
                0 <= i < self.slots.len() && i != self.loading.last().idx ==> (
                #[trigger] next.slots[i]) == self.slots[i],
        ensures
            next.loading_ok(),
    {
        reveal(StoreView::loading_ok);
        let top = self.loading.len() - 1;
        assert forall|i: int|
            0 <= i < next.slots.len() && (#[trigger] next.slots[i]) is Reserved implies exists|
            k: int,
        |
            0 <= k < next.loading.len() && (#[trigger] next.loading[k]).idx == i by {
            assert(i != self.loading[top].idx);
            assert(self.slots[i] is Reserved);
            let k = choose|k: int|
                0 <= k < self.loading.len() && (#[trigger] self.loading[k]).idx == i;
            assert(k != top);
            assert(next.loading[k].idx == i);
        }
        assert forall|k: int| 0 <= k < next.loading.len() implies (#[trigger] next.loading[k]).idx
            < next.slots.len() && next.slots[next.loading[k].idx as int] == (Slot::<R>::Reserved {
            generation: next.loading[k].generation,
        }) by {
            assert(self.loading[k] == next.loading[k]);
            assert(self.loading[k].idx != self.loading[top].idx);
        }
        assert forall|j: int, k: int| 0 <= j < k < next.loading.len() implies (
        #[trigger] next.loading[j]).idx != (#[trigger] next.loading[k]).idx by {
            assert(self.loading[j] == next.loading[j]);
            assert(self.loading[k] == next.loading[k]);
        }
    }

    /// A load began in a slot that was not reserved; the other loads and
    /// their slots are untouched.
    pub proof fn lemma_loading_pushed(self, next: Self, id: AnyResourceId)
        requires
            self.loading_ok(),
            next.loading == self.loading.push(id),
            next.slots.len() == self.slots.len() || (next.slots.len() == self.slots.len() + 1
                && id.idx == self.slots.len()),
            id.idx < next.slots.len(),
            next.slots[id.idx as int] == (Slot::<R>::Reserved { generation: id.generation }),
            id.idx < self.slots.len() ==> !(self.slots[id.idx as int] is Reserved),
            forall|i: int|
                0 <= i < self.slots.len() && i != id.idx ==> (#[trigger] next.slots[i])
                    == self.slots[i],
        ensures
            next.loading_ok(),
    {
        reveal(StoreView::loading_ok);
        assert forall|i: int|
            0 <= i < next.slots.len() && (#[trigger] next.slots[i]) is Reserved implies exists|
            k: int,
        |
            0 <= k < next.loading.len() && (#[trigger] next.loading[k]).idx == i by {
            if i == id.idx {
                assert(next.loading[self.loading.len() as int].idx == i);
            } else {
                assert(i < self.slots.len());
                assert(self.slots[i] is Reserved);
                let k = choose|k: int|
                    0 <= k < self.loading.len() && (#[trigger] self.loading[k]).idx == i;
                assert(next.loading[k].idx == i);
            }
        }
        assert forall|k: int| 0 <= k < next.loading.len() implies (#[trigger] next.loading[k]).idx
            < next.slots.len() && next.slots[next.loading[k].idx as int] == (Slot::<R>::Reserved {
            generation: next.loading[k].generation,
        }) by {
            if k < self.loading.len() {
                assert(next.loading[k] == self.loading[k]);
                assert(self.slots[self.loading[k].idx as int] is Reserved);
            }
        }
        assert forall|j: int, k: int| 0 <= j < k < next.loading.len() implies (
        #[trigger] next.loading[j]).idx != (#[trigger] next.loading[k]).idx by {
            assert(next.loading[j] == self.loading[j]);
            assert(self.slots[self.loading[j].idx as int] is Reserved);
            if k < self.loading.len() {
                assert(next.loading[k] == self.loading[k]);
            }
        }
    }

    /// The index lost entries at most, and the resources it leads to are the
    /// same occupancies of the same paths.
    pub proof fn lemma_names_kept(self, next: Self)
        requires
            self.names_ok(),
            next.slots.len() >= self.slots.len(),
            forall|p: Seq<char>| #[trigger]
                next.names.contains_key(p) ==> self.names.contains_key(p) && next.names[p]
                    == self.names[p],
            forall|i: int|
                0 <= i < self.slots.len() && (#[trigger] self.slots[i]) is Filled ==> (
                next.slots[i] is Filled && next.slots[i].generation() == self.slots[i].generation()
                    && next.slots[i]->path == self.slots[i]->path) || forall|p: Seq<char>|
                    next.names.contains_key(p) ==> (#[trigger] next.names[p]).idx != i,
        ensures
            next.names_ok(),
    {
        reveal(StoreView::names_ok);
        assert forall|p: Seq<char>| #[trigger] next.names.contains_key(p) implies next.indexed_ok(
            p,
        ) by {
            assert(self.indexed_ok(p));
            let i = self.names[p].idx as int;
            assert(self.slots[i] is Filled);
            assert(next.names[p].idx == i);
        }
    }

    /// What the invariant says of an indexed path.
    pub proof fn lemma_names_at(self, path: Seq<char>)
        requires
            self.names_ok(),
            self.names.contains_key(path),
        ensures
            self.indexed_ok(path),
    {
        reveal(StoreView::names_ok);
    }

    /// No slot was filled, and the filled slots kept generation, parent and
    /// stamp.
    pub proof fn lemma_filled_kept(self, next: Self)
        requires
            self.filled_ok(),
            next.clock >= self.clock,
            next.slots.len() >= self.slots.len(),
            forall|i: int|
                0 <= i < next.slots.len() && (#[trigger] next.slots[i]) is Filled ==> i
                    < self.slots.len() && self.slots[i] is Filled && next.slots[i].generation()
                    == self.slots[i].generation() && next.slots[i]->parent == self.slots[i]->parent
                    && next.slots[i]->stamp == self.slots[i]->stamp && (next.slots[i]->owners
                    <= u64::MAX || next.slots[i]->owners == self.slots[i]->owners),
        ensures
            next.filled_ok(),
    {
        reveal(StoreView::filled_ok);
        assert forall|i: int|
            0 <= i < next.slots.len() && #[trigger] next.has_live_parent(i) implies
            next.slots[i]->stamp < next.slots[next.slots[i]->parent->0.idx as int]->stamp by {
            let p = next.slots[i]->parent->0;
            assert(next.slots[i] is Filled);
            assert(next.slots[p.idx as int] is Filled);
            assert(self.has_live_parent(i));
        }
    }

    /// What the invariant says of a filled slot.
    pub proof fn lemma_filled_at(self, i: int)
        requires
            self.filled_ok(),
            0 <= i < self.slots.len(),
            self.slots[i] is Filled,
        ensures
            self.slots[i]->owners <= u64::MAX,
            self.slots[i]->stamp < self.clock,
            self.has_live_parent(i) ==> self.slots[i]->stamp
                < self.slots[self.slots[i]->parent->0.idx as int]->stamp,
    {
        reveal(StoreView::filled_ok);
    }

    /// The queue lost no name, and a resource that nobody owns was without
    /// owners before, or is queued.
    pub proof fn lemma_queued_kept(self, next: Self)
        requires
            self.queued_ok(),
            self.slots.len() <= next.slots.len(),
            forall|x: AnyResourceId| self.pending.contains(x) ==> #[trigger] next.pending.contains(x),
            forall|i: int|
                0 <= i < next.slots.len() && #[trigger] next.unowned(i) ==> (i < self.slots.len()
                    && self.unowned(i) && self.name_at(i) == next.name_at(i))
                    || next.pending.contains(next.name_at(i)),
        ensures
            next.queued_ok(),
    {
        reveal(StoreView::queued_ok);
        assert forall|i: int|
            0 <= i < next.slots.len() && #[trigger] next.unowned(i) implies next.pending.contains(
            next.name_at(i),
        ) by {
            if !next.pending.contains(next.name_at(i)) {
                assert(self.unowned(i));
                assert(self.pending.contains(self.name_at(i)));
            }
        }
    }

    /// What the invariant says of a resource that nobody owns.
    pub proof fn lemma_queued_at(self, id: AnyResourceId)
        requires
            self.queued_ok(),
            self.live(id),
            self.owners(id) == 0,
        ensures
            self.pending.contains(id),
    {
        reveal(StoreView::queued_ok);
        assert(self.unowned(id.idx as int));
        assert(self.name_at(id.idx as int) == id);
    }

    /// A name put at the end of the queue is in the queue, with all that were.
    pub proof fn lemma_push_contains(queue: Seq<AnyResourceId>, id: AnyResourceId)
        ensures
            queue.push(id).contains(id),
            forall|x: AnyResourceId| queue.contains(x) ==> #[trigger] queue.push(id).contains(x),
    {
        assert(queue.push(id)[queue.len() as int] == id);
        assert forall|x: AnyResourceId| queue.contains(x) implies #[trigger] queue.push(
            id,
        ).contains(x) by {
            let k = choose|k: int| 0 <= k < queue.len() && queue[k] == x;
            assert(queue.push(id)[k] == x);
        }
    }

    /// What the invariant says of the places the store reaches for: the head
    /// of the free list is a free slot, and the innermost load has a slot.
    pub proof fn lemma_in_range(self)
        requires
            self.sound(),
        ensures
            self.slots.len() <= u32::MAX,
            self.free.len() > 0 ==> self.free[0] < self.slots.len()
                && self.slots[self.free[0] as int] is Empty
                && self.slots[self.free[0] as int]->next == (if self.free.len() > 1 {
                Some(self.free[1])
            } else {
                None
            }),
            self.loading.len() > 0 ==> self.loading.last().idx < self.slots.len()
                && self.slots[self.loading.last().idx as int] == (Slot::<R>::Reserved {
                generation: self.loading.last().generation,
            }),
    {
        if self.free.len() > 0 {
            self.lemma_free_at(0);
        }
        if self.loading.len() > 0 {
            self.lemma_loading_at(self.loading.len() - 1);
        }
    }

    /// An empty store is in order.
    pub proof fn lemma_empty()
        ensures
            Self::empty().inv(),
    {
        reveal(StoreView::free_ok);
        reveal(StoreView::loading_ok);
        reveal(StoreView::names_ok);
        reveal(StoreView::filled_ok);
        reveal(StoreView::queued_ok);
    }

    pub proof fn lemma_reserved(self)
        requires
            self.inv(),
            self.has_room(),
        ensures
            self.reserved().inv(),
            self.reserved().loading.last() == self.next_id(),
    {
        let next = self.reserved();
        let id = self.next_id();
        if self.free.len() > 0 {
            self.lemma_free_at(0);
            self.lemma_free_shrunk(next);
        } else {
            self.lemma_free_kept(next);
        }
        self.lemma_loading_pushed(next, id);
        self.lemma_names_kept(next);
        self.lemma_filled_kept(next);
        self.lemma_queued_kept(next);
    }

    pub proof fn lemma_settled(self, id: AnyResourceId, path: Seq<char>, value: R)
        requires
            self.inv(),
            self.loading.len() > 0,
            self.loading.last() == id,
        ensures
            self.settled(id, path, value).inv(),
    {
        let next = self.settled(id, path, value);
        let top = self.loading.len() - 1;
        self.lemma_loading_at(top);
        self.lemma_free_kept(next);
        self.lemma_loading_popped(next);
        assert(next.names_ok()) by {
            reveal(StoreView::names_ok);
            assert forall|p: Seq<char>| #[trigger] next.names.contains_key(p) implies next.indexed_ok(
                p,
            ) by {
                if p != path {
                    assert(self.indexed_ok(p));
                }
            }
        }
        assert(next.filled_ok()) by {
            reveal(StoreView::filled_ok);
            assert forall|i: int|
                0 <= i < next.slots.len() && #[trigger] next.has_live_parent(i) implies next.slots[i]->stamp
                < next.slots[next.slots[i]->parent->0.idx as int]->stamp by {
                let p = next.slots[i]->parent->0;
                if i == id.idx {
                    assert(self.loader() == Some(p));
                    assert(self.loading[top - 1] == p);
                    self.lemma_loading_at(top - 1);
                } else if p.idx == id.idx {
                } else {
                    assert(self.has_live_parent(i));
                }
            }
        }
        self.lemma_queued_kept(next);
    }

    pub proof fn lemma_rolled_back(self, id: AnyResourceId)
        requires
            self.inv(),
            self.loading.len() > 0,
            self.loading.last() == id,
        ensures
            self.rolled_back(id).inv(),
    {
        let next = self.rolled_back(id);
        self.lemma_loading_at(self.loading.len() - 1);
        self.lemma_free_grown(next, id.idx);
        self.lemma_loading_popped(next);
        self.lemma_names_kept(next);
        self.lemma_filled_kept(next);
        self.lemma_queued_kept(next);
    }

    /// To free a resource keeps the arena, the index and the loads in
    /// progress in order.
    pub proof fn lemma_freed_sound(self, id: AnyResourceId)
        requires
            self.sound(),
        ensures
            self.freed(id).sound(),
    {
        let next = self.freed(id);
        if self.available(id) {
            self.lemma_free_grown(next, id.idx);
            self.lemma_loading_kept(next);
            assert forall|p: Seq<char>|
                next.names.contains_key(p) implies (#[trigger] next.names[p]).idx != id.idx by {
                self.lemma_names_at(p);
                if self.names[p].idx == id.idx {
                    assert(self.names[p] == id);
                }
            }
            self.lemma_names_kept(next);
            self.lemma_filled_kept(next);
        }
    }

    pub proof fn lemma_freed(self, id: AnyResourceId)
        requires
            self.inv(),
        ensures
            self.freed(id).inv(),
    {
        self.lemma_freed_sound(id);
        self.lemma_queued_kept(self.freed(id));
    }

    pub proof fn lemma_with_value(self, id: AnyResourceId, value: Option<R>)
        requires
            self.inv(),
            self.live(id),
        ensures
            self.with_value(id, value).inv(),
    {
        let next = self.with_value(id, value);
        self.lemma_filled_at(id.idx as int);
        self.lemma_free_kept(next);
        self.lemma_loading_kept(next);
        self.lemma_names_kept(next);
        self.lemma_filled_kept(next);
        self.lemma_queued_kept(next);
    }

    pub proof fn lemma_with_owners(self, id: AnyResourceId, owners: nat)
        requires
            self.inv(),
            self.live(id),
            owners <= u64::MAX,
            owners > 0 || self.pending.contains(id),
        ensures
            self.with_owners(id, owners).inv(),
    {
        let next = self.with_owners(id, owners);
        self.lemma_free_kept(next);
        self.lemma_loading_kept(next);
        self.lemma_names_kept(next);
        assert forall|i: int|
            0 <= i < next.slots.len() && (#[trigger] next.slots[i]) is Filled implies next.slots[i]->owners
            <= u64::MAX by {
            if i != id.idx {
                self.lemma_filled_at(i);
            }
        }
        self.lemma_filled_kept(next);
        assert(next.name_at(id.idx as int) == id);
        self.lemma_queued_kept(next);
    }

    /// The arena, the index and the loads in progress are in order whatever
    /// the queue.
    pub proof fn lemma_queue_free(self, pending: Seq<AnyResourceId>)
        requires
            self.sound(),
        ensures
            (StoreView { pending, ..self }).sound(),
    {
        let next = StoreView { pending, ..self };
        self.lemma_free_kept(next);
        self.lemma_loading_kept(next);
        self.lemma_names_kept(next);
        assert forall|i: int|
            0 <= i < next.slots.len() && (#[trigger] next.slots[i]) is Filled implies next.slots[i]->owners
            <= u64::MAX by {
            self.lemma_filled_at(i);
        }
        self.lemma_filled_kept(next);
    }

    pub proof fn lemma_shared(self, id: AnyResourceId)
        requires
            self.inv(),
        ensures
            self.shared(id).inv(),
    {
        if self.live(id) {
            self.lemma_filled_at(id.idx as int);
            self.lemma_with_owners(id, one_more(self.owners(id)));
        }
    }

    pub proof fn lemma_released(self, id: AnyResourceId)
        requires
            self.inv(),
        ensures
            self.released(id).inv(),
    {
        let next = self.released(id);
        if self.live(id) && counted(self.owners(id)) {
            let less = self.with_owners(id, (self.owners(id) - 1) as nat);
            Self::lemma_push_contains(self.pending, id);
            self.lemma_free_kept(less);
            self.lemma_loading_kept(less);
            self.lemma_names_kept(less);
            assert forall|i: int|
                0 <= i < less.slots.len() && (#[trigger] less.slots[i]) is Filled implies
                less.slots[i]->owners <= u64::MAX by {
                if i != id.idx {
                    self.lemma_filled_at(i);
                }
            }
            self.lemma_filled_kept(less);
            less.lemma_queue_free(next.pending);
            assert(next.name_at(id.idx as int) == id);
            self.lemma_queued_kept(next);
        }
    }

    pub proof fn lemma_reaped_sound(self, id: AnyResourceId)
        requires
            self.sound(),
        ensures
            self.reaped(id).sound(),
    {
        self.lemma_freed_sound(id);
        self.lemma_queue_free(self.pending.push(id));
    }

    pub proof fn lemma_reaped_all_sound(self, queue: Seq<AnyResourceId>)
        requires
            self.sound(),
        ensures
            self.reaped_all(queue).sound(),
        decreases queue.len(),
    {
        if queue.len() > 0 {
            self.lemma_reaped_sound(queue[0]);
            self.reaped(queue[0]).lemma_reaped_all_sound(queue.drop_first());
        }
    }

    /// Every resource that nobody owns is in the queue of the pass or was
    /// put back already.
    pub open spec fn awaited(self, queue: Seq<AnyResourceId>) -> bool {
        forall|i: int|
            0 <= i < self.slots.len() && #[trigger] self.unowned(i) ==> self.pending.contains(
                self.name_at(i),
            ) || queue.contains(self.name_at(i))
    }

    /// A cleanup pass forgets no resource without owners: those it cannot
    /// free yet it puts back in the queue.
    pub proof fn lemma_reaped_all_queued(self, queue: Seq<AnyResourceId>)
        requires
            self.slots.len() <= u32::MAX,
            self.awaited(queue),
        ensures
            self.reaped_all(queue).queued_ok(),
        decreases queue.len(),
    {
        reveal(StoreView::queued_ok);
        if queue.len() > 0 {
            let id = queue[0];
            let step = self.reaped(id);
            let rest = queue.drop_first();
            Self::lemma_push_contains(self.pending, id);
            assert forall|i: int|
                0 <= i < step.slots.len() && #[trigger] step.unowned(i) implies step.pending.contains(
                step.name_at(i),
            ) || rest.contains(step.name_at(i)) by {
                assert(self.unowned(i));
                assert(step.name_at(i) == self.name_at(i));
                let name = self.name_at(i);
                if self.pending.contains(name) {
                    assert(step.pending.contains(name));
                } else {
                    let k = choose|k: int| 0 <= k < queue.len() && queue[k] == name;
                    if k == 0 {
                        assert(name == id);
                        assert(self.live(id) && self.owners(id) == 0);
                        assert(!self.available(id));
                        assert(step.pending.contains(name));
                    } else {
                        assert(rest[k - 1] == name);
                    }
                }
            }
            step.lemma_reaped_all_queued(rest);
        }
    }

    pub proof fn lemma_swept(self)
        requires
            self.inv(),
        ensures
            self.swept().inv(),
    {
        reveal(StoreView::queued_ok);
        let start = StoreView { pending: Seq::empty(), ..self };
        self.lemma_queue_free(Seq::empty());
        start.lemma_reaped_all_sound(self.pending);
        assert forall|i: int|
            0 <= i < start.slots.len() && #[trigger] start.unowned(i) implies start.pending.contains(
            start.name_at(i),
        ) || self.pending.contains(start.name_at(i)) by {
            assert(self.unowned(i));
        }
        start.lemma_reaped_all_queued(self.pending);
    }

    pub proof fn lemma_nested_refl(self)
        ensures
            self.nested(self),
    {
    }

    pub proof fn lemma_nested_trans(self, mid: Self, end: Self)
        requires
            self.nested(mid),
            mid.nested(end),
        ensures
            self.nested(end),
    {
        assert forall|i: int|
            0 <= i < self.slots.len() && (#[trigger] self.slots[i]).busy() implies self.slots[i].same_busy(
            end.slots[i],
        ) by {
            assert(self.slots[i].same_busy(mid.slots[i]));
            assert(mid.slots[i].busy());
        }
        assert forall|i: int| 0 <= i < end.slots.len() && (#[trigger] end.slots[i]).busy() implies i
            < self.slots.len() && self.slots[i].busy() by {
            assert(mid.slots[i].busy());
        }
    }

    /// To free a resource is a nested step: a resource whose value is out is
    /// not freed.
    pub proof fn lemma_freed_nested(self, id: AnyResourceId)
        ensures
            self.nested(self.freed(id)),
            self.freed(id).slots.len() == self.slots.len(),
    {
    }

    /// A cleanup pass, whatever the queue, frees only resources whose value
    /// is in, and leaves the loads in progress alone.
    pub proof fn lemma_reaped_all_nested(self, queue: Seq<AnyResourceId>)
        ensures
            self.nested(self.reaped_all(queue)),
            self.reaped_all(queue).slots.len() == self.slots.len(),
            self.has_room() ==> self.reaped_all(queue).has_room(),
        decreases queue.len(),
    {
        if queue.len() > 0 {
            let step = self.reaped(queue[0]);
            step.lemma_reaped_all_nested(queue.drop_first());
            assert(self.nested(step));
            self.lemma_nested_trans(step, self.reaped_all(queue));
        }
    }

    pub proof fn lemma_swept_nested(self)
        ensures
            self.nested(self.swept()),
            self.swept().slots.len() == self.slots.len(),
            self.has_room() ==> self.swept().has_room(),
    {
        let start = StoreView { pending: Seq::empty(), ..self };
        start.lemma_reaped_all_nested(self.pending);
        assert(self.nested(start));
        self.lemma_nested_trans(start, self.swept());
    }

    /// A whole load, seen from outside, is a nested step.
    pub proof fn lemma_constructed_nested(
        self,
        path: Seq<char>,
        id: Option<AnyResourceId>,
        end: Self,
    )
        requires
            self.inv(),
            self.has_room(),
            self.constructed(path, id, end),
        ensures
            self.nested(end),
    {
        let mid = choose|mid: Self| #[trigger]
            self.reserved().nested(mid) && mid.inv() && match id {
                Some(id) => id == self.next_id() && exists|value: R|
                    end == #[trigger] mid.settled(id, path, value),
                None => end == mid.rolled_back(self.next_id()),
            };
        let own = self.next_id();
        let start = self.reserved();
        self.lemma_reserved();
        mid.lemma_in_range();
        assert(mid.loading.last() == own);
        assert(end.loading =~= self.loading);
        if self.free.len() > 0 {
            self.lemma_free_at(0);
        }
        assert forall|i: int|
            0 <= i < self.slots.len() && (#[trigger] self.slots[i]).busy() implies self.slots[i].same_busy(
            end.slots[i],
        ) by {
            assert(start.slots[i] == self.slots[i]);
            assert(start.slots[i].same_busy(mid.slots[i]));
        }
        assert forall|i: int| 0 <= i < end.slots.len() && (#[trigger] end.slots[i]).busy() implies i
            < self.slots.len() && self.slots[i].busy() by {
            assert(mid.slots[i].busy());
            assert(start.slots[i].busy());
        }
    }

    /// A whole reload of one resource, seen from outside, is a nested step.
    pub proof fn lemma_rebuilt_nested(self, id: AnyResourceId, failed: bool, end: Self)
        requires
            self.inv(),
            self.available(id),
            self.rebuilt(id, failed, end),
        ensures
            self.nested(end),
            end.inv(),
            end.available(id),
    {
        let mid = choose|mid: Self| #[trigger]
            self.with_value(id, None).nested(mid) && mid.inv() && end.value(id) is Some && end
                == mid.with_value(id, end.value(id)) && (failed ==> end.value(id) == self.value(
                id,
            ));
        let start = self.with_value(id, None);
        assert(start.slots[id.idx as int].busy());
        assert(start.slots[id.idx as int].same_busy(mid.slots[id.idx as int]));
        mid.lemma_with_value(id, end.value(id));
        assert forall|i: int|
            0 <= i < self.slots.len() && (#[trigger] self.slots[i]).busy() implies self.slots[i].same_busy(
            end.slots[i],
        ) by {
            assert(start.slots[i] == self.slots[i]);
            assert(start.slots[i].same_busy(mid.slots[i]));
        }
        assert forall|i: int| 0 <= i < end.slots.len() && (#[trigger] end.slots[i]).busy() implies i
            < self.slots.len() && self.slots[i].busy() by {
            assert(mid.slots[i].busy());
            assert(start.slots[i].busy());
        }
    }

    /// What a change of values alone leaves of each slot.
    pub proof fn lemma_revalued_at(self, next: Self, i: int)
        requires
            self.revalued(next),
            0 <= i < self.slots.len(),
        ensures
            next.slots[i].generation() == self.slots[i].generation(),
            next.slots[i] is Filled <==> self.slots[i] is Filled,
            next.slots[i] is Filled ==> next.slots[i]->parent == self.slots[i]->parent
                && next.slots[i]->path == self.slots[i]->path && next.slots[i]->owners
                == self.slots[i]->owners && next.slots[i]->stamp == self.slots[i]->stamp,
            !(self.slots[i] is Filled) ==> next.slots[i] == self.slots[i],
            next.slots[i].busy() <==> self.slots[i].busy(),
    {
        assert(next.slots[i] == next.slots[i]);
    }

    /// A change of values alone is a nested step, and keeps the invariant.
    pub proof fn lemma_revalued(self, next: Self)
        requires
            self.inv(),
            self.revalued(next),
        ensures
            self.nested(next),
            next.inv(),
    {
        assert forall|i: int|
            0 <= i < self.slots.len() && (#[trigger] self.slots[i]).busy() implies self.slots[i].same_busy(
            next.slots[i],
        ) by {
            self.lemma_revalued_at(next, i);
        }
        assert forall|i: int|
            0 <= i < next.slots.len() && (#[trigger] next.slots[i]).busy() implies i
            < self.slots.len() && self.slots[i].busy() by {
            self.lemma_revalued_at(next, i);
        }
        assert forall|i: int|
            0 <= i < self.slots.len() && (#[trigger] self.slots[i]) is Empty implies next.slots[i]
            == self.slots[i] by {
            self.lemma_revalued_at(next, i);
        }
        assert forall|i: int|
            0 <= i < next.slots.len() && (#[trigger] next.slots[i]) is Empty implies i
            < self.slots.len() && self.slots[i] is Empty by {
            self.lemma_revalued_at(next, i);
        }
        self.lemma_free_kept(next);
        assert forall|i: int|
            0 <= i < self.slots.len() && (#[trigger] self.slots[i]) is Reserved implies next.slots[i]
            == self.slots[i] by {
            self.lemma_revalued_at(next, i);
        }
        self.lemma_loading_kept(next);
        assert forall|i: int|
            0 <= i < self.slots.len() && (#[trigger] self.slots[i]) is Filled implies next.slots[i] is Filled
            && next.slots[i].generation() == self.slots[i].generation() && next.slots[i]->path
            == self.slots[i]->path by {
            self.lemma_revalued_at(next, i);
        }
        self.lemma_names_kept(next);
        assert forall|i: int|
            0 <= i < next.slots.len() && (#[trigger] next.slots[i]) is Filled implies i
            < self.slots.len() && self.slots[i] is Filled && next.slots[i].generation()
            == self.slots[i].generation() && next.slots[i]->parent == self.slots[i]->parent
            && next.slots[i]->stamp == self.slots[i]->stamp && next.slots[i]->owners
            <= u64::MAX by {
            self.lemma_revalued_at(next, i);
            self.lemma_filled_at(i);
        }
        self.lemma_filled_kept(next);
        assert forall|i: int| 0 <= i < next.slots.len() && #[trigger] next.unowned(i) implies i
            < self.slots.len() && self.unowned(i) && self.name_at(i) == next.name_at(i) by {
            self.lemma_revalued_at(next, i);
        }
        self.lemma_queued_kept(next);
    }

    pub proof fn lemma_revalued_trans(self, mid: Self, end: Self)
        requires
            self.revalued(mid),
            mid.revalued(end),
        ensures
            self.revalued(end),
    {
        assert forall|i: int| 0 <= i < self.slots.len() implies (#[trigger] end.slots[i])
            == self.slots[i] || (self.slots[i] is Filled && !self.slots[i].busy()
            && end.slots[i]->value is Some && end.slots[i] == self.slots[i].with_value(
            end.slots[i]->value,
        )) by {
            assert(mid.slots[i] == mid.slots[i]);
        }
    }

    /// To give a resource whose value is in another value changes values
    /// alone.
    pub proof fn lemma_value_revalued(self, id: AnyResourceId, value: R)
        requires
            self.available(id),
        ensures
            self.revalued(self.with_value(id, Some(value))),
    {
    }

    /// The distance from a name to the end of time: it shrinks along every
    /// parent edge, so a walk up the parents ends.
    pub open spec fn height(self, id: AnyResourceId) -> nat {
        if self.live(id) && self.slots[id.idx as int]->stamp < self.clock {
            (self.clock - self.slots[id.idx as int]->stamp) as nat
        } else {
            0
        }
    }

    pub proof fn lemma_parent_lower(self, id: AnyResourceId)
        requires
            self.inv(),
            self.live(id),
            self.parent(id) is Some,
        ensures
            self.height(self.parent(id)->0) < self.height(id),
    {
        let parent = self.parent(id)->0;
        self.lemma_filled_at(id.idx as int);
        if self.live(parent) {
            assert(self.has_live_parent(id.idx as int));
            self.lemma_filled_at(parent.idx as int);
        }
    }

    /// A walk changes values alone.
    pub proof fn lemma_walked_revalued(
        self,
        at: AnyResourceId,
        changed: AnyResourceId,
        tellings: Seq<Telling<R>>,
        failed: bool,
        end: Self,
    )
        requires
            self.walked(at, changed, tellings, failed, end),
        ensures
            self.revalued(end),
        decreases tellings.len(),
    {
        if tellings.len() > 0 {
            let step = self.with_value(at, Some(tellings[0].after));
            self.lemma_value_revalued(at, tellings[0].after);
            match hop(tellings[0].affected, self.parent(at)) {
                Some(next) => {
                    step.lemma_walked_revalued(next, at, tellings.drop_first(), failed, end);
                    self.lemma_revalued_trans(step, end);
                },
                None => {},
            }
        }
    }
}

} // verus!
