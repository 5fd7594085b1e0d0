//! The store: the arena, the path index, the dependency tracker and the
//! pending-free queue.
use super::model::{hop, Slot, StoreView, Telling};
use super::{AnyResourceId, LoadError, Resource, ResourceId};
use vstd::hash_map::StringHashMap;
use vstd::prelude::*;

verus! {

/// A free slot: the generation of its last occupancy and the next free slot.
pub struct Empty {
    generation: u32,
    next: Option<u32>,
}

/// A filled slot.
pub struct Filled<R> {
    generation: u32,
    /// The resource whose load triggered the load of this one.
    parent: Option<AnyResourceId>,
    /// The canonical path the resource was loaded from.
    name: String,
    /// The resource; `None` while it is out for reload.
    file: Option<R>,
    /// The number of handles that count for this occupancy.
    owners: u64,
    /// The store's clock when the slot was filled.
    stamp: Ghost<nat>,
}

/// One slot of the arena.
pub enum ResourceEntry<R> {
    Empty(Empty),
    /// Handed out to a load that has not ended, under the generation that the
    /// resource will have.
    Loading(u32),
    File(Filled<R>),
}

impl<R> View for ResourceEntry<R> {
    type V = Slot<R>;

    closed spec fn view(&self) -> Slot<R> {
        match *self {
            ResourceEntry::Empty(e) => Slot::Empty { generation: e.generation, next: e.next },
            ResourceEntry::Loading(generation) => Slot::Reserved { generation },
            ResourceEntry::File(f) => Slot::Filled {
                generation: f.generation,
                parent: f.parent,
                path: f.name@,
                value: f.file,
                owners: f.owners as nat,
                stamp: f.stamp@,
            },
        }
    }
}

impl<R> ResourceEntry<R> {
    pub fn as_filled(&self) -> (r: Option<&Filled<R>>)
        ensures
            r is Some <==> self@ is Filled,
            r matches Some(f) ==> *self == ResourceEntry::File(*f),
    {
        match self {
            ResourceEntry::File(x) => Some(x),
            _ => None,
        }
    }

    pub fn as_filled_mut(&mut self) -> (r: Option<&mut Filled<R>>)
        ensures
            r is Some <==> old(self)@ is Filled,
            r matches Some(f) ==> *old(self) == ResourceEntry::File(*f) && *final(self)
                == ResourceEntry::File(*final(f)),
            r is None ==> *final(self) == *old(self),
    {
        match self {
            ResourceEntry::File(x) => Some(x),
            _ => None,
        }
    }

    pub fn as_empty_mut(&mut self) -> (r: Option<&mut Empty>)
        ensures
            r is Some <==> old(self)@ is Empty,
            r matches Some(e) ==> *old(self) == ResourceEntry::<R>::Empty(*e) && *final(self)
                == ResourceEntry::<R>::Empty(*final(e)),
            r is None ==> *final(self) == *old(self),
    {
        match self {
            ResourceEntry::Empty(x) => Some(x),
            _ => None,
        }
    }

    pub fn as_empty(&self) -> (r: Option<&Empty>)
        ensures
            r is Some <==> self@ is Empty,
            r matches Some(e) ==> *self == ResourceEntry::<R>::Empty(*e),
    {
        match self {
            ResourceEntry::Empty(x) => Some(x),
            _ => None,
        }
    }
}

/// The resource store.
pub struct Resources<R> {
    names: StringHashMap<AnyResourceId>,
    res: Vec<ResourceEntry<R>>,
    first_empty: Option<u32>,
    parent_stack: Vec<AnyResourceId>,
    pending: Vec<AnyResourceId>,
    free_order: Ghost<Seq<u32>>,
    clock: Ghost<nat>,
}

impl<R> View for Resources<R> {
    type V = StoreView<R>;

    closed spec fn view(&self) -> StoreView<R> {
        StoreView {
            slots: Seq::new(self.res@.len(), |i: int| self.res@[i]@),
            free: self.free_order@,
            names: self.names@,
            loading: self.parent_stack@,
            pending: self.pending@,
            clock: self.clock@,
        }
    }
}

impl<R> Resources<R> {
    /// The store knows the head of its free list.
    pub closed spec fn head_ok(&self) -> bool {
        self.first_empty == self@.head()
    }

    /// The store is well formed.
    pub open spec fn wf(&self) -> bool {
        self@.inv() && self.head_ok()
    }

    /// An empty store.
    pub fn new() -> (s: Self)
        ensures
            s.wf(),
            s@ == StoreView::<R>::empty(),
    {
        let s = Resources {
            names: StringHashMap::new(),
            res: Vec::new(),
            first_empty: None,
            parent_stack: Vec::new(),
            pending: Vec::new(),
            free_order: Ghost(Seq::empty()),
            clock: Ghost(0),
        };
        proof {
            StoreView::<R>::lemma_empty();
            assert(s@.slots =~= StoreView::<R>::empty().slots);
        }
        s
    }

    /// The number of slots, free ones included.
    pub fn entries(&self) -> (n: usize)
        ensures
            n == self@.slots.len(),
    {
        self.res.len()
    }

    /// No further slot can be handed out.
    pub fn is_full(&self) -> (full: bool)
        requires
            self.wf(),
        ensures
            full == !self@.has_room(),
    {
        self.first_empty.is_none() && self.res.len() >= u32::MAX as usize
    }

    /// The resource that `id` names, unless the occupancy is over or the
    /// value is out for reload.
    pub fn get(&self, id: &ResourceId) -> (r: Option<&R>)
        ensures
            match r {
                Some(v) => self@.value(id@) == Some(*v),
                None => self@.value(id@) is None,
            },
    {
        self.get_any(id.into_any())
    }

    /// As `get`, by the ownership-free name.
    pub fn get_any(&self, id: AnyResourceId) -> (r: Option<&R>)
        ensures
            match r {
                Some(v) => self@.value(id) == Some(*v),
                None => self@.value(id) is None,
            },
    {
        let idx: usize = id.idx as usize;
        if idx >= self.res.len() {
            return None;
        }
        match &self.res[idx] {
            ResourceEntry::File(filled) => {
                if filled.generation != id.generation {
                    None
                } else {
                    filled.file.as_ref()
                }
            },
            _ => None,
        }
    }

    /// `next` is this store with `value` in the filled slot `idx`, and nothing
    /// else changed.
    spec fn put(self, next: Self, idx: int, value: R) -> bool {
        &&& 0 <= idx < self.res@.len()
        &&& self.res@[idx] matches ResourceEntry::File(f) && next.res@ =~= self.res@.update(
            idx,
            ResourceEntry::File(Filled { file: Some(value), ..f }),
        )
        &&& next.names == self.names
        &&& next.first_empty == self.first_empty
        &&& next.parent_stack == self.parent_stack
        &&& next.pending == self.pending
        &&& next.free_order == self.free_order
        &&& next.clock == self.clock
    }

    proof fn lemma_put(self, next: Self, id: AnyResourceId, value: R)
        requires
            self.wf(),
            self@.live(id),
            self.put(next, id.idx as int, value),
        ensures
            next.wf(),
            next@ == self@.with_value(id, Some(value)),
    {
        assert(next@.slots =~= self@.with_value(id, Some(value)).slots);
        self@.lemma_with_value(id, Some(value));
    }

    fn value_mut(&mut self, id: AnyResourceId) -> (r: Option<&mut R>)
        ensures
            match r {
                Some(v) => old(self)@.value(id) == Some(*v) && old(self).put(
                    *final(self),
                    id.idx as int,
                    *final(v),
                ),
                None => old(self)@.value(id) is None && *final(self) == *old(self),
            },
    {
        let idx: usize = id.idx as usize;
        if idx >= self.res.len() {
            return None;
        }
        let present = match &self.res[idx] {
            ResourceEntry::File(filled) => filled.generation == id.generation
                && filled.file.is_some(),
            _ => false,
        };
        if !present {
            return None;
        }
        match &mut self.res[idx] {
            ResourceEntry::File(filled) => filled.file.as_mut(),
            _ => None,
        }
    }

    /// As `get`, for writing.
    pub fn get_mut(&mut self, id: &ResourceId) -> (r: Option<&mut R>)
        requires
            old(self).wf(),
        ensures
            final(self).wf(),
            match r {
                Some(v) => old(self)@.value(id@) == Some(*v) && final(self)@ == old(self)@.with_value(
                    id@,
                    Some(*final(v)),
                ),
                None => old(self)@.value(id@) is None && final(self)@ == old(self)@,
            },
            old(self)@.nested(final(self)@),
    {
        let any = id.into_any();
        proof {
            assert forall|next: Self, value: R| #[trigger]
                old(self).put(next, any.idx as int, value) && old(self)@.live(any) implies next.wf()
                && next@ == old(self)@.with_value(any, Some(value)) by {
                old(self).lemma_put(next, any, value);
            }
        }
        self.value_mut(any)
    }

    /// One more owner for the resource that `id` names. The new handle names
    /// the same occupancy; where that is over, nothing is counted.
    pub fn share(&mut self, id: &ResourceId) -> (h: ResourceId)
        requires
            old(self).wf(),
        ensures
            final(self).wf(),
            h@ == id@,
            final(self)@ == old(self)@.shared(id@),
            old(self)@.nested(final(self)@),
    {
        self.retain(id.into_any());
        ResourceId::wrap(id.into_any())
    }

    fn retain(&mut self, id: AnyResourceId)
        requires
            old(self).wf(),
        ensures
            final(self).wf(),
            final(self)@ == old(self)@.shared(id),
    {
        let idx: usize = id.idx as usize;
        if idx < self.res.len() {
            match &mut self.res[idx] {
                ResourceEntry::File(filled) => {
                    if filled.generation == id.generation && filled.owners < u64::MAX {
                        filled.owners = filled.owners + 1;
                    }
                },
                _ => {},
            }
        }
        proof {
            assert(self@.slots =~= old(self)@.shared(id).slots);
            old(self)@.lemma_shared(id);
        }
    }

    /// One owner of the resource lets go. The release of the last owner queues
    /// the name; the slot is freed by the cleanup pass that comes next.
    pub fn release(&mut self, id: ResourceId)
        requires
            old(self).wf(),
        ensures
            final(self).wf(),
            final(self)@ == old(self)@.released(id@),
            old(self)@.nested(final(self)@),
    {
        let any = id.into_any();
        let idx: usize = any.idx as usize;
        let mut last = false;
        if idx < self.res.len() {
            match &mut self.res[idx] {
                ResourceEntry::File(filled) => {
                    if filled.generation == any.generation && 0 < filled.owners && filled.owners
                        < u64::MAX {
                        filled.owners = filled.owners - 1;
                        last = filled.owners == 0;
                    }
                },
                _ => {},
            }
        }
        if last {
            self.pending.push(any);
        }
        proof {
            assert(self@.slots =~= old(self)@.released(any).slots);
            old(self)@.lemma_released(any);
        }
    }

    /// Hands out a slot for a load that begins: the head of the free list,
    /// its generation advanced, or a new slot.
    fn allocate(&mut self) -> (id: AnyResourceId)
        requires
            old(self).wf(),
            old(self)@.has_room(),
        ensures
            final(self).wf(),
            id == old(self)@.next_id(),
            final(self)@ == old(self)@.reserved(),
    {
        proof {
            old(self)@.lemma_in_range();
            old(self)@.lemma_reserved();
        }
        let id = match self.first_empty {
            Some(x) => {
                let (generation, next) = match &self.res[x as usize] {
                    ResourceEntry::Empty(e) => (e.generation.wrapping_add(1), e.next),
                    _ => (0u32, None),
                };
                self.first_empty = next;
                self.res[x as usize] = ResourceEntry::Loading(generation);
                proof {
                    self.free_order@ = self.free_order@.drop_first();
                }
                AnyResourceId { idx: x, generation }
            },
            None => {
                let idx: usize = self.res.len();
                self.res.push(ResourceEntry::Loading(0));
                AnyResourceId { idx: idx as u32, generation: 0 }
            },
        };
        self.parent_stack.push(id);
        proof {
            assert(self@.slots =~= old(self)@.reserved().slots);
        }
        id
    }

    /// Ends the innermost load, that of `id`, with the value it built: the
    /// slot is filled, its parent is the load that is now innermost, and the
    /// path is indexed.
    fn fill(&mut self, id: AnyResourceId, name: String, value: R)
        requires
            old(self).wf(),
            old(self)@.loading.len() > 0,
            old(self)@.loading.last() == id,
        ensures
            final(self).wf(),
            final(self)@ == old(self)@.settled(id, name@, value),
    {
        proof {
            old(self)@.lemma_in_range();
            old(self)@.lemma_settled(id, name@, value);
        }
        self.parent_stack.pop();
        let depth: usize = self.parent_stack.len();
        let parent = if depth > 0 {
            Some(self.parent_stack[depth - 1])
        } else {
            None
        };
        let key = name.clone();
        let ghost stamp = self.clock@;
        self.res[id.idx as usize] = ResourceEntry::File(
            Filled {
                generation: id.generation,
                parent,
                name,
                file: Some(value),
                owners: 1,
                stamp: Ghost(stamp),
            },
        );
        proof {
            self.clock@ = stamp + 1;
        }
        self.names.insert(key, id);
        proof {
            let goal = old(self)@.settled(id, name@, value);
            assert(self@.loading =~= goal.loading);
            assert(parent == old(self)@.loader());
            assert(self@.slots =~= goal.slots);
            assert(self@.names == goal.names);
            assert(self@ == goal);
        }
    }

    /// Ends the innermost load, that of `id`, without a value: the slot goes
    /// back to the head of the free list.
    fn rollback(&mut self, id: AnyResourceId)
        requires
            old(self).wf(),
            old(self)@.loading.len() > 0,
            old(self)@.loading.last() == id,
        ensures
            final(self).wf(),
            final(self)@ == old(self)@.rolled_back(id),
    {
        proof {
            old(self)@.lemma_in_range();
            old(self)@.lemma_rolled_back(id);
        }
        self.parent_stack.pop();
        self.res[id.idx as usize] = ResourceEntry::Empty(
            Empty { generation: id.generation, next: self.first_empty },
        );
        self.first_empty = Some(id.idx);
        proof {
            self.free_order@ = seq![id.idx] + self.free_order@;
            assert(self@.slots =~= old(self)@.rolled_back(id).slots);
        }
    }

    /// Frees the slot that `id` names. A name that is not live, or whose value
    /// is out, frees nothing.
    fn free(&mut self, id: AnyResourceId)
        requires
            old(self).wf(),
        ensures
            final(self).wf(),
            final(self)@ == old(self)@.freed(id),
    {
        let idx: usize = id.idx as usize;
        if idx >= self.res.len() {
            return ;
        }
        let hit = match &self.res[idx] {
            ResourceEntry::File(filled) => {
                if filled.generation == id.generation && filled.file.is_some() {
                    let indexed = match self.names.get(filled.name.as_str()) {
                        Some(found) => found.idx == id.idx && found.generation == id.generation,
                        None => false,
                    };
                    if indexed {
                        self.names.remove(filled.name.as_str());
                    }
                    true
                } else {
                    false
                }
            },
            _ => false,
        };
        if hit {
            self.res[idx] = ResourceEntry::Empty(
                Empty { generation: id.generation, next: self.first_empty },
            );
            self.first_empty = Some(id.idx);
            proof {
                self.free_order@ = seq![id.idx] + self.free_order@;
                assert(self@.slots =~= old(self)@.freed(id).slots);
                assert(self@.names =~= old(self)@.freed(id).names);
                old(self)@.lemma_freed(id);
            }
        }
    }

    /// Frees the resource that `id` names at once, whoever still owns it:
    /// every handle to it names nothing from now on. A name that is not live
    /// removes nothing, nor does one whose value is out for reload.
    pub fn remove_any(&mut self, id: AnyResourceId)
        requires
            old(self).wf(),
        ensures
            final(self).wf(),
            final(self)@ == old(self)@.freed(id),
            old(self)@.nested(final(self)@),
    {
        proof {
            old(self)@.lemma_freed_nested(id);
        }
        self.free(id)
    }

    /// As `remove_any`, by a handle, which is given up.
    pub fn remove(&mut self, id: ResourceId)
        requires
            old(self).wf(),
        ensures
            final(self).wf(),
            final(self)@ == old(self)@.freed(id@),
            old(self)@.nested(final(self)@),
    {
        self.remove_any(id.into_any())
    }

    /// What the cleanup pass makes of one pending name: `Some(out)` where it
    /// names a resource that nobody owns, with `out` telling whether the value
    /// is out of its slot; `None` for any other name.
    fn unowned(&self, id: AnyResourceId) -> (r: Option<bool>)
        ensures
            r == (if self@.live(id) && self@.owners(id) == 0 {
                Some(!self@.available(id))
            } else {
                None
            }),
    {
        let idx: usize = id.idx as usize;
        if idx >= self.res.len() {
            return None;
        }
        match &self.res[idx] {
            ResourceEntry::File(filled) => {
                if filled.generation == id.generation && filled.owners == 0 {
                    Some(filled.file.is_none())
                } else {
                    None
                }
            },
            _ => None,
        }
    }

    /// The cleanup pass: frees every resource whose last owner is gone. A
    /// resource whose value is out waits for the pass after its return.
    pub fn clean(&mut self)
        requires
            old(self).wf(),
        ensures
            final(self).wf(),
            final(self)@ == old(self)@.swept(),
            old(self)@.nested(final(self)@),
    {
        proof {
            old(self)@.lemma_swept_nested();
            old(self)@.lemma_swept();
        }
        let mut kept: Vec<AnyResourceId> = Vec::new();
        let mut k: usize = 0;
        assert(self@.pending.skip(0) =~= self@.pending);
        while k < self.pending.len()
            invariant
                0 <= k <= self.pending.len(),
                self.wf(),
                self@.pending == old(self)@.pending,
                (StoreView { pending: kept@, ..self@ }).reaped_all(
                    old(self)@.pending.skip(k as int),
                ) == old(self)@.swept(),
            decreases self.pending.len() - k,
        {
            let id = self.pending[k];
            let ghost before = StoreView { pending: kept@, ..self@ };
            proof {
                assert(old(self)@.pending.skip(k as int).drop_first() =~= old(self)@.pending.skip(
                    k as int + 1,
                ));
                assert(old(self)@.pending.skip(k as int)[0] == id);
                assert(before.slots == self@.slots);
            }
            match self.unowned(id) {
                Some(true) => {
                    kept.push(id);
                },
                Some(false) => {
                    self.free(id);
                },
                None => {},
            }
            proof {
                assert((StoreView { pending: kept@, ..self@ }) == before.reaped(id));
            }
            k = k + 1;
        }
        self.pending = kept;
    }

    /// Takes the value of `id` out of its slot.
    fn detach(&mut self, id: AnyResourceId) -> (r: Option<R>)
        requires
            old(self).wf(),
        ensures
            final(self).wf(),
            r == old(self)@.value(id),
            final(self)@ == (if r is Some {
                old(self)@.with_value(id, None)
            } else {
                old(self)@
            }),
    {
        let idx: usize = id.idx as usize;
        if idx >= self.res.len() {
            return None;
        }
        let present = match &self.res[idx] {
            ResourceEntry::File(filled) => filled.generation == id.generation
                && filled.file.is_some(),
            _ => false,
        };
        if !present {
            return None;
        }
        let r = match &mut self.res[idx] {
            ResourceEntry::File(filled) => filled.file.take(),
            _ => None,
        };
        proof {
            assert(self@.slots =~= old(self)@.with_value(id, None).slots);
            old(self)@.lemma_with_value(id, None);
        }
        r
    }

    /// Puts a value back into the slot of `id`, whose value is out.
    fn attach(&mut self, id: AnyResourceId, value: R)
        requires
            old(self).wf(),
            old(self)@.live(id),
        ensures
            final(self).wf(),
            final(self)@ == old(self)@.with_value(id, Some(value)),
    {
        let idx: usize = id.idx as usize;
        match &mut self.res[idx] {
            ResourceEntry::File(filled) => {
                filled.file = Some(value);
            },
            _ => {},
        }
        proof {
            assert(self@.slots =~= old(self)@.with_value(id, Some(value)).slots);
            old(self)@.lemma_with_value(id, Some(value));
        }
    }

    /// The resource whose load triggered the load of `id`.
    pub fn parent_of(&self, id: AnyResourceId) -> (parent: Option<AnyResourceId>)
        ensures
            parent == self@.parent(id),
    {
        let idx: usize = id.idx as usize;
        if idx >= self.res.len() {
            return None;
        }
        match &self.res[idx] {
            ResourceEntry::File(filled) => {
                if filled.generation == id.generation {
                    filled.parent
                } else {
                    None
                }
            },
            _ => None,
        }
    }

    /// The resource loaded from `path`, a canonical path.
    pub fn lookup(&self, path: &str) -> (id: Option<AnyResourceId>)
        ensures
            id == (if self@.names.contains_key(path@) {
                Some(self@.names[path@])
            } else {
                None
            }),
    {
        match self.names.get(path) {
            Some(id) => Some(*id),
            None => None,
        }
    }
}

/// Whom a walk tells next, as `hop` says.
pub fn next_hop(affected: bool, parent: Option<AnyResourceId>) -> (next: Option<AnyResourceId>)
    ensures
        next == hop(affected, parent),
{
    if affected {
        parent
    } else {
        None
    }
}

impl<R: Resource> Resources<R> {
    /// Loads the resource found at `path`, the canonical form of the
    /// requested path, or `None` where the request has no canonical form.
    ///
    /// After a cleanup pass: a path that is indexed gives another owner of the
    /// resource it leads to, and the constructor does not run. Any other path
    /// gets a slot and the constructor runs; the slot is filled where the
    /// constructor succeeds, with the load that is in progress around this
    /// one as parent, and free again where it fails.
    pub fn insert(&mut self, path: Option<String>, ctx: &mut R::Context) -> (r: Result<
        ResourceId,
        LoadError<R::Error>,
    >)
        requires
            old(self).wf(),
            old(self)@.has_room(),
        ensures
            final(self).wf(),
            old(self)@.nested(final(self)@),
            match path {
                None => r matches Err(LoadError::PathError) && final(self)@ == old(self)@.swept()
                    && *final(ctx) == *old(ctx),
                Some(name) => {
                    let swept = old(self)@.swept();
                    if swept.names.contains_key(name@) {
                        &&& r matches Ok(h) && h@ == swept.names[name@]
                        &&& final(self)@ == swept.shared(swept.names[name@])
                        &&& *final(ctx) == *old(ctx)
                    } else {
                        match r {
                            Ok(h) => swept.constructed(name@, Some(h@), final(self)@),
                            Err(LoadError::Construct(_)) => swept.constructed(
                                name@,
                                None,
                                final(self)@,
                            ),
                            Err(LoadError::PathError) => false,
                        }
                    }
                },
            },
    {
        self.clean();
        let ghost swept = self@;
        proof {
            old(self)@.lemma_swept_nested();
        }
        let name = match path {
            Some(name) => name,
            None => {
                return Err(LoadError::PathError);
            },
        };
        match self.lookup(name.as_str()) {
            Some(id) => {
                self.retain(id);
                proof {
                    assert(swept.nested(self@));
                    old(self)@.lemma_nested_trans(swept, self@);
                }
                return Ok(ResourceId::wrap(id));
            },
            None => {},
        }
        let id = self.allocate();
        let ghost start = self@;
        proof {
            swept.lemma_reserved();
        }
        let outcome = R::load(name.as_str(), ctx, self);
        let ghost mid = self@;
        proof {
            let top = start.loading.len() - 1;
            assert(start.loading[top] == id);
            assert(mid.loading[top] == id);
        }
        let ghost built = outcome;
        let r = self.settle(id, name, outcome);
        proof {
            match built {
                Ok(value) => {
                    assert(self@ == mid.settled(id, name@, value));
                    assert(swept.constructed(name@, Some(id), self@));
                    swept.lemma_constructed_nested(name@, Some(id), self@);
                },
                Err(_) => {
                    assert(swept.constructed(name@, None, self@));
                    swept.lemma_constructed_nested(name@, None, self@);
                },
            }
            old(self)@.lemma_nested_trans(swept, self@);
        }
        r
    }

    /// Ends the innermost load, that of `id`, with what its constructor
    /// returned: a value fills the slot, under the path `name`, and the
    /// answer is a handle to it; an error frees the slot again, and the
    /// answer is that error.
    fn settle(&mut self, id: AnyResourceId, name: String, outcome: Result<R, R::Error>) -> (r:
        Result<ResourceId, LoadError<R::Error>>)
        requires
            old(self).wf(),
            old(self)@.loading.len() > 0,
            old(self)@.loading.last() == id,
        ensures
            final(self).wf(),
            match outcome {
                Ok(value) => r matches Ok(h) && h@ == id && final(self)@ == old(self)@.settled(
                    id,
                    name@,
                    value,
                ),
                Err(e) => r matches Err(LoadError::Construct(inner)) && inner == e && final(self)@
                    == old(self)@.rolled_back(id),
            },
    {
        match outcome {
            Ok(value) => {
                self.fill(id, name, value);
                Ok(ResourceId::wrap(id))
            },
            Err(e) => {
                self.rollback(id);
                Err(LoadError::Construct(e))
            },
        }
    }

    /// Re-derives one resource in place, without telling its ancestors. The
    /// value is out of its slot while the resource rebuilds itself, and goes
    /// back whatever the outcome: rebuilt on success, as it was on failure.
    /// The answer is `false`, and nothing happens, where `id` is not live or
    /// its value is out already.
    pub fn reconstruct(&mut self, id: AnyResourceId, path: &str, ctx: &mut R::Context) -> (r:
        Result<bool, R::Error>)
        requires
            old(self).wf(),
        ensures
            final(self).wf(),
            old(self)@.nested(final(self)@),
            !old(self)@.available(id) ==> {
                &&& r == Ok::<bool, R::Error>(false)
                &&& final(self)@ == old(self)@
                &&& *final(ctx) == *old(ctx)
            },
            old(self)@.available(id) ==> r != Ok::<bool, R::Error>(false) && old(self)@.rebuilt(
                id,
                r is Err,
                final(self)@,
            ),
            r is Err ==> final(self)@.value(id) == old(self)@.value(id),
    {
        let mut value = match self.detach(id) {
            Some(value) => value,
            None => {
                proof {
                    old(self)@.lemma_nested_refl();
                }
                return Ok(false);
            },
        };
        let ghost start = self@;
        let ghost before = value;
        let outcome = value.reload(path, ctx, self);
        let ghost mid = self@;
        proof {
            assert(start.slots[id.idx as int].busy());
            assert(start.slots[id.idx as int].same_busy(mid.slots[id.idx as int]));
        }
        let ghost failed = outcome is Err;
        let r = self.restore(id, value, outcome);
        proof {
            assert(old(self)@.rebuilt(id, failed, self@));
            old(self)@.lemma_rebuilt_nested(id, failed, self@);
        }
        r
    }

    /// Ends the reload of `id` with what its rebuilding returned: the value
    /// goes back into its slot, and the answer is `true`, or the error.
    fn restore(&mut self, id: AnyResourceId, value: R, outcome: Result<(), R::Error>) -> (r:
        Result<bool, R::Error>)
        requires
            old(self).wf(),
            old(self)@.live(id),
        ensures
            final(self).wf(),
            final(self)@ == old(self)@.with_value(id, Some(value)),
            r == (match outcome {
                Ok(()) => Ok::<bool, R::Error>(true),
                Err(e) => Err::<bool, R::Error>(e),
            }),
    {
        self.attach(id, value);
        match outcome {
            Ok(()) => Ok(true),
            Err(e) => Err(e),
        }
    }

    /// Tells one resource that `changed`, which it loaded while it was built,
    /// has been reloaded, and hands on its answer. A resource that is not
    /// live, or whose value is out, is not told: the answer is `None`. The
    /// value is out of its slot while the resource makes up its mind.
    fn tell(&mut self, at: AnyResourceId, changed: AnyResourceId, ctx: &mut R::Context) -> (r:
        Result<Option<bool>, R::Error>)
        requires
            old(self).wf(),
        ensures
            final(self).wf(),
            !old(self)@.available(at) ==> r == Ok::<Option<bool>, R::Error>(None) && final(self)@
                == old(self)@ && *final(ctx) == *old(ctx),
            old(self)@.available(at) ==> {
                &&& r != Ok::<Option<bool>, R::Error>(None)
                &&& final(self)@.value(at) is Some
                &&& final(self)@ == old(self)@.with_value(at, final(self)@.value(at))
            },
            r is Err ==> final(self)@ == old(self)@,
            r matches Ok(Some(affected)) ==> affected || final(self)@ == old(self)@,
    {
        let mut value = match self.detach(at) {
            Some(value) => value,
            None => {
                return Ok(None);
            },
        };
        let ghost before = value;
        let outcome = value.reload_dependency(changed, ctx, &*self);
        let r = self.heard(at, value, outcome);
        proof {
            assert(self@.slots =~= old(self)@.with_value(at, Some(value)).slots);
            if value == before {
                assert(self@.slots =~= old(self)@.slots);
            }
        }
        r
    }

    /// Ends the telling of `at` with what it answered: the value goes back
    /// into its slot, and the answer is handed on, or the error.
    fn heard(&mut self, at: AnyResourceId, value: R, outcome: Result<bool, R::Error>) -> (r:
        Result<Option<bool>, R::Error>)
        requires
            old(self).wf(),
            old(self)@.live(at),
        ensures
            final(self).wf(),
            final(self)@ == old(self)@.with_value(at, Some(value)),
            r == (match outcome {
                Ok(affected) => Ok::<Option<bool>, R::Error>(Some(affected)),
                Err(e) => Err::<Option<bool>, R::Error>(e),
            }),
    {
        self.attach(at, value);
        match outcome {
            Ok(affected) => Ok(Some(affected)),
            Err(e) => Err(e),
        }
    }

    /// Walks the parent edges upward from `id`: tells `id` that `reloaded`
    /// has changed, then, as long as the one told answers that it was
    /// affected, tells its parent that it has changed. The walk ends at the
    /// first resource that is unaffected, has no parent, or is not there to be
    /// told, and fails where one of them fails. It changes values, nothing
    /// else.
    pub fn reload_dependency(
        &mut self,
        id: AnyResourceId,
        reloaded: AnyResourceId,
        ctx: &mut R::Context,
    ) -> (r: Result<(), R::Error>)
        requires
            old(self).wf(),
        ensures
            final(self).wf(),
            old(self)@.nested(final(self)@),
            exists|tellings: Seq<Telling<R>>| #[trigger]
                old(self)@.walked(id, reloaded, tellings, r is Err, final(self)@),
            !old(self)@.available(id) ==> *final(ctx) == *old(ctx),
        decreases old(self)@.height(id),
    {
        let parent = self.parent_of(id);
        let ghost mut tellings: Seq<Telling<R>> = Seq::empty();
        proof {
            old(self)@.lemma_nested_refl();
        }
        let r = match self.tell(id, reloaded, ctx) {
            Err(e) => Err(e),
            Ok(None) => Ok(()),
            Ok(Some(affected)) => {
                let ghost step = self@;
                let ghost first = Telling {
                    told: id,
                    changed: reloaded,
                    affected,
                    after: step.value(id)->0,
                };
                proof {
                    old(self)@.lemma_value_revalued(id, first.after);
                    old(self)@.lemma_revalued(step);
                }
                match next_hop(affected, parent) {
                    None => {
                        proof {
                            tellings = seq![first];
                            assert(tellings[0] == first);
                        }
                        Ok(())
                    },
                    Some(next) => {
                        proof {
                            old(self)@.lemma_parent_lower(id);
                            assert(step.height(next) == old(self)@.height(next));
                        }
                        let r = self.reload_dependency(next, id, ctx);
                        proof {
                            let tail = choose|tail: Seq<Telling<R>>| #[trigger]
                                step.walked(next, id, tail, r is Err, self@);
                            tellings = seq![first] + tail;
                            assert(tellings[0] == first);
                            assert(tellings.drop_first() =~= tail);
                            old(self)@.lemma_nested_trans(step, self@);
                        }
                        r
                    },
                }
            },
        };
        proof {
            assert(old(self)@.walked(id, reloaded, tellings, r is Err, self@));
        }
        r
    }

    /// Reloads the resource loaded from `path`, a canonical path, after a
    /// cleanup pass. Where no resource is indexed at `path`, or its value is
    /// out already, the answer is `false` and nothing else happens. Otherwise
    /// the resource rebuilds itself in place, and where that succeeds its
    /// ancestors are told, from its parent upward.
    pub fn reload(&mut self, path: &str, ctx: &mut R::Context) -> (r: Result<bool, R::Error>)
        requires
            old(self).wf(),
        ensures
            final(self).wf(),
            old(self)@.nested(final(self)@),
            !old(self)@.swept().reloadable(path@) ==> {
                &&& r == Ok::<bool, R::Error>(false)
                &&& final(self)@ == old(self)@.swept()
                &&& *final(ctx) == *old(ctx)
            },
            old(self)@.swept().reloadable(path@) ==> {
                &&& r != Ok::<bool, R::Error>(false)
                &&& old(self)@.swept().reloaded(
                    old(self)@.swept().names[path@],
                    r is Err,
                    final(self)@,
                )
            },
    {
        self.clean();
        let ghost swept = self@;
        proof {
            old(self)@.lemma_swept_nested();
        }
        let id = match self.lookup(path) {
            Some(id) => id,
            None => {
                return Ok(false);
            },
        };
        let parent = self.parent_of(id);
        match self.reconstruct(id, path, ctx) {
            Ok(false) => {
                return Ok(false);
            },
            Ok(true) => {},
            Err(e) => {
                proof {
                    old(self)@.lemma_nested_trans(swept, self@);
                    assert(swept.rebuilt(id, true, self@));
                }
                return Err(e);
            },
        }
        let ghost rebuilt = self@;
        proof {
            old(self)@.lemma_nested_trans(swept, rebuilt);
        }
        match parent {
            Some(parent) => {
                let told = self.reload_dependency(parent, id, ctx);
                proof {
                    old(self)@.lemma_nested_trans(rebuilt, self@);
                    let tellings = choose|tellings: Seq<Telling<R>>| #[trigger]
                        rebuilt.walked(parent, id, tellings, told is Err, self@);
                    assert(swept.rebuilt(id, false, rebuilt));
                    assert(rebuilt.told_up(swept.parent(id), id, tellings, told is Err, self@));
                    assert(swept.reloaded(id, told is Err, self@));
                }
                match told {
                    Ok(()) => Ok(true),
                    Err(e) => Err(e),
                }
            },
            None => {
                proof {
                    let none = Seq::<Telling<R>>::empty();
                    assert(swept.rebuilt(id, false, rebuilt));
                    assert(rebuilt.told_up(swept.parent(id), id, none, false, self@));
                    assert(swept.reloaded(id, false, self@));
                }
                Ok(true)
            },
        }
    }
}

} // verus!
