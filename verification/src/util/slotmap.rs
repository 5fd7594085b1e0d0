//! A slot map: a vector whose freed slots are linked into a free list, so
//! that values are inserted and removed in constant time and keep their
//! index while they live.
use vstd::prelude::*;

verus! {

/// The version that follows `v`. Versions wrap.
pub open spec fn next_of(v: u32) -> u32 {
    if v == u32::MAX {
        0
    } else {
        (v + 1) as u32
    }
}

/// A key into a slot map: an index and, for the key types that carry one, the
/// version of the occupancy it names. A key type without versions reports
/// version 0 throughout.
pub trait SlotKey: Copy {
    /// Keys of this type tell one occupancy of a slot from the next.
    spec fn versioned() -> bool;

    /// The largest index a key of this type can hold.
    spec fn spec_max() -> usize;

    spec fn spec_index(&self) -> usize;

    spec fn spec_version(&self) -> u32;

    fn new(v: usize) -> (key: Self)
        requires
            v <= Self::spec_max(),
        ensures
            key.spec_index() == v,
            key.spec_version() == 0,
    ;

    fn new_version(idx: usize, version: u32) -> (key: Self)
        requires
            idx <= Self::spec_max(),
        ensures
            key.spec_index() == idx,
            key.spec_version() == (if Self::versioned() {
                version
            } else {
                0
            }),
    ;

    fn index(&self) -> (idx: usize)
        ensures
            idx == self.spec_index(),
            idx <= Self::spec_max(),
    ;

    fn max() -> (max: usize)
        ensures
            max == Self::spec_max(),
    ;

    fn version(&self) -> (version: u32)
        ensures
            version == self.spec_version(),
    ;

    fn next_version(self) -> (key: Self)
        ensures
            key.spec_index() == self.spec_index(),
            key.spec_version() == (if Self::versioned() {
                next_of(self.spec_version())
            } else {
                self.spec_version()
            }),
    ;
}

/// A key that carries a version: a key that outlives its value finds nothing,
/// also once the slot is in use again.
#[derive(Clone, Copy, Default, PartialEq, Eq, Structural, Hash, Debug)]
pub struct VersionKey {
    idx: u32,
    version: u32,
}

impl SlotKey for VersionKey {
    open spec fn versioned() -> bool {
        true
    }

    open spec fn spec_max() -> usize {
        u32::MAX as usize
    }

    closed spec fn spec_index(&self) -> usize {
        self.idx as usize
    }

    closed spec fn spec_version(&self) -> u32 {
        self.version
    }

    fn new(idx: usize) -> (key: Self) {
        VersionKey { idx: idx as u32, version: 0 }
    }

    fn new_version(idx: usize, version: u32) -> (key: Self) {
        VersionKey { idx: idx as u32, version }
    }

    fn index(&self) -> (idx: usize) {
        self.idx as usize
    }

    fn max() -> (max: usize) {
        u32::MAX as usize
    }

    fn version(&self) -> (version: u32) {
        self.version
    }

    fn next_version(self) -> (key: Self) {
        VersionKey { idx: self.idx, version: self.version.wrapping_add(1) }
    }
}

impl SlotKey for usize {
    open spec fn versioned() -> bool {
        false
    }

    open spec fn spec_max() -> usize {
        usize::MAX
    }

    open spec fn spec_index(&self) -> usize {
        *self
    }

    open spec fn spec_version(&self) -> u32 {
        0
    }

    fn new(x: usize) -> (key: Self) {
        x
    }

    fn new_version(idx: usize, version: u32) -> (key: Self) {
        idx
    }

    fn index(&self) -> (idx: usize) {
        *self
    }

    fn max() -> (max: usize) {
        usize::MAX
    }

    fn version(&self) -> (version: u32) {
        0
    }

    fn next_version(self) -> (key: Self) {
        self
    }
}

impl SlotKey for u32 {
    open spec fn versioned() -> bool {
        false
    }

    open spec fn spec_max() -> usize {
        u32::MAX as usize
    }

    open spec fn spec_index(&self) -> usize {
        *self as usize
    }

    open spec fn spec_version(&self) -> u32 {
        0
    }

    fn new(x: usize) -> (key: Self) {
        x as u32
    }

    fn new_version(idx: usize, version: u32) -> (key: Self) {
        idx as u32
    }

    fn index(&self) -> (idx: usize) {
        *self as usize
    }

    fn max() -> (max: usize) {
        u32::MAX as usize
    }

    fn version(&self) -> (version: u32) {
        0
    }

    fn next_version(self) -> (key: Self) {
        self
    }
}

impl SlotKey for u16 {
    open spec fn versioned() -> bool {
        false
    }

    open spec fn spec_max() -> usize {
        u16::MAX as usize
    }

    open spec fn spec_index(&self) -> usize {
        *self as usize
    }

    open spec fn spec_version(&self) -> u32 {
        0
    }

    fn new(x: usize) -> (key: Self) {
        x as u16
    }

    fn new_version(idx: usize, version: u32) -> (key: Self) {
        idx as u16
    }

    fn index(&self) -> (idx: usize) {
        *self as usize
    }

    fn max() -> (max: usize) {
        u16::MAX as usize
    }

    fn version(&self) -> (version: u32) {
        0
    }

    fn next_version(self) -> (key: Self) {
        self
    }
}

impl SlotKey for u8 {
    open spec fn versioned() -> bool {
        false
    }

    open spec fn spec_max() -> usize {
        u8::MAX as usize
    }

    open spec fn spec_index(&self) -> usize {
        *self as usize
    }

    open spec fn spec_version(&self) -> u32 {
        0
    }

    fn new(x: usize) -> (key: Self) {
        x as u8
    }

    fn new_version(idx: usize, version: u32) -> (key: Self) {
        idx as u8
    }

    fn index(&self) -> (idx: usize) {
        *self as usize
    }

    fn max() -> (max: usize) {
        u8::MAX as usize
    }

    fn version(&self) -> (version: u32) {
        0
    }

    fn next_version(self) -> (key: Self) {
        self
    }
}

/// One slot of a slot map, as the contracts see it.
pub enum Cell<T> {
    /// Free; `next` is the slot that follows it on the free list, with the
    /// version of that slot's last occupancy.
    Free { next: Option<(usize, u32)> },
    /// In use.
    Value { value: T, version: u32 },
}

/// A slot map, as the contracts see it.
pub struct SlotMapView<T> {
    pub cells: Seq<Cell<T>>,
    /// The free list, head first: each free slot with the version of its last
    /// occupancy.
    pub free: Seq<(usize, u32)>,
}

impl<T> SlotMapView<T> {
    /// The head of the free list.
    pub open spec fn head(self) -> Option<(usize, u32)> {
        if self.free.len() > 0 {
            Some(self.free[0])
        } else {
            None
        }
    }

    /// The free list holds each free slot once and no other, and the slots
    /// are linked in its order.
    pub open spec fn inv(self) -> bool {
        &&& self.cells.len() <= usize::MAX
        &&& forall|j: int, k: int|
            0 <= j < k < self.free.len() ==> (#[trigger] self.free[j]).0 != (
            #[trigger] self.free[k]).0
        &&& forall|k: int|
            0 <= k < self.free.len() ==> (#[trigger] self.free[k]).0 < self.cells.len()
                && self.cells[self.free[k].0 as int] is Free
                && self.cells[self.free[k].0 as int]->next == (if k + 1 < self.free.len() {
                Some(self.free[k + 1])
            } else {
                None
            })
        &&& forall|i: int|
            0 <= i < self.cells.len() && (#[trigger] self.cells[i]) is Free ==> exists|k: int|
                0 <= k < self.free.len() && (#[trigger] self.free[k]).0 == i
    }

    /// The slot `index` holds a value, under that version.
    pub open spec fn present(self, index: usize, version: u32) -> bool {
        index < self.cells.len() && self.cells[index as int] is Value
            && self.cells[index as int]->version == version
    }

    /// What a key of that index and version finds.
    pub open spec fn value(self, index: usize, version: u32) -> Option<T> {
        if self.present(index, version) {
            Some(self.cells[index as int]->value)
        } else {
            None
        }
    }

    /// Index and version of the key that the next insertion returns: the head
    /// of the free list, its version advanced where keys carry one, or a new
    /// slot.
    pub open spec fn next_key(self, versioned: bool) -> (usize, u32) {
        if self.free.len() > 0 {
            (
                self.free[0].0,
                if versioned {
                    next_of(self.free[0].1)
                } else {
                    self.free[0].1
                },
            )
        } else {
            (self.cells.len() as usize, 0)
        }
    }

    /// The map after the insertion of `value`.
    pub open spec fn inserted(self, value: T, versioned: bool) -> Self {
        let key = self.next_key(versioned);
        if self.free.len() > 0 {
            SlotMapView {
                cells: self.cells.update(key.0 as int, Cell::Value { value, version: key.1 }),
                free: self.free.drop_first(),
            }
        } else {
            SlotMapView {
                cells: self.cells.push(Cell::Value { value, version: key.1 }),
                free: self.free,
            }
        }
    }

    /// The map after the removal through a key of that index and version. A
    /// key that finds nothing removes nothing.
    pub open spec fn removed(self, index: usize, version: u32) -> Self {
        if self.present(index, version) {
            SlotMapView {
                cells: self.cells.update(index as int, Cell::Free { next: self.head() }),
                free: seq![(index, version)] + self.free,
            }
        } else {
            self
        }
    }

    /// All values, in the order of their slots.
    pub open spec fn values(self) -> Seq<T> {
        values_from(self.cells, 0)
    }

    pub proof fn lemma_inserted(self, value: T, versioned: bool)
        requires
            self.inv(),
            self.free.len() > 0 || self.cells.len() < usize::MAX,
        ensures
            self.inserted(value, versioned).inv(),
            self.inserted(value, versioned).value(
                self.next_key(versioned).0,
                self.next_key(versioned).1,
            ) == Some(value),
    {
        let next = self.inserted(value, versioned);
        if self.free.len() > 0 {
            let i = self.free[0].0;
            assert(self.cells[i as int] is Free);
            assert forall|k: int| 0 <= k < next.free.len() implies next.free[k] == self.free[k + 1]
                && next.free[k].0 != i by {}
            assert forall|k: int| 0 <= k < next.free.len() implies (#[trigger] next.free[k]).0
                < next.cells.len() && next.cells[next.free[k].0 as int] is Free
                && next.cells[next.free[k].0 as int]->next == (if k + 1 < next.free.len() {
                Some(next.free[k + 1])
            } else {
                None
            }) by {
                assert(self.cells[self.free[k + 1].0 as int] is Free);
            }
            assert forall|i2: int|
                0 <= i2 < next.cells.len() && (#[trigger] next.cells[i2]) is Free implies exists|
                k: int,
            |
                0 <= k < next.free.len() && (#[trigger] next.free[k]).0 == i2 by {
                assert(self.cells[i2] is Free);
                let k = choose|k: int| 0 <= k < self.free.len() && (#[trigger] self.free[k]).0 == i2;
                assert(next.free[k - 1].0 == i2);
            }
        } else {
            assert forall|i2: int|
                0 <= i2 < next.cells.len() && (#[trigger] next.cells[i2]) is Free implies exists|
                k: int,
            |
                0 <= k < next.free.len() && (#[trigger] next.free[k]).0 == i2 by {
                assert(self.cells[i2] is Free);
            }
        }
    }

    pub proof fn lemma_removed(self, index: usize, version: u32)
        requires
            self.inv(),
        ensures
            self.removed(index, version).inv(),
            self.removed(index, version).value(index, version) is None,
    {
        let next = self.removed(index, version);
        if self.present(index, version) {
            assert forall|k: int| 1 <= k < next.free.len() implies next.free[k] == self.free[k - 1]
                && next.free[k].0 != index by {
                assert(self.cells[self.free[k - 1].0 as int] is Free);
            }
            assert(next.free[0] == (index, version));
            assert forall|j: int, k: int| 0 <= j < k < next.free.len() implies (
            #[trigger] next.free[j]).0 != (#[trigger] next.free[k]).0 by {
                if j > 0 {
                    assert(self.free[j - 1].0 != self.free[k - 1].0);
                }
            }
            assert forall|k: int| 0 <= k < next.free.len() implies (#[trigger] next.free[k]).0
                < next.cells.len() && next.cells[next.free[k].0 as int] is Free
                && next.cells[next.free[k].0 as int]->next == (if k + 1 < next.free.len() {
                Some(next.free[k + 1])
            } else {
                None
            }) by {
                if k > 0 {
                    assert(self.cells[self.free[k - 1].0 as int] is Free);
                    if k + 1 < next.free.len() {
                        assert(next.free[k + 1] == self.free[k]);
                    }
                } else {
                    if 1 < next.free.len() {
                        assert(next.free[1] == self.free[0]);
                    }
                }
            }
            assert forall|i2: int|
                0 <= i2 < next.cells.len() && (#[trigger] next.cells[i2]) is Free implies exists|
                k: int,
            |
                0 <= k < next.free.len() && (#[trigger] next.free[k]).0 == i2 by {
                if i2 == index {
                    assert(next.free[0].0 == i2);
                } else {
                    assert(self.cells[i2] is Free);
                    let k = choose|k: int|
                        0 <= k < self.free.len() && (#[trigger] self.free[k]).0 == i2;
                    assert(next.free[k + 1].0 == i2);
                }
            }
        }
    }

    /// A key that is removed finds nothing afterwards, also once its slot is
    /// in use again, provided that keys carry a version.
    pub proof fn lemma_stale_key(self, index: usize, version: u32, value: T)
        requires
            self.inv(),
            self.present(index, version),
        ensures
            self.removed(index, version).next_key(true) == (index, next_of(version)),
            self.removed(index, version).inserted(value, true).value(index, version) is None,
            self.removed(index, version).inserted(value, true).value(index, next_of(version))
                == Some(value),
    {
        let next = self.removed(index, version);
        assert(next.free[0] == (index, version));
    }
}

/// The values in the slots from `from` on, in the order of the slots.
pub open spec fn values_from<T>(cells: Seq<Cell<T>>, from: int) -> Seq<T>
    decreases cells.len() - from,
{
    if from < 0 || from >= cells.len() {
        Seq::empty()
    } else if cells[from] is Value {
        seq![cells[from]->value] + values_from(cells, from + 1)
    } else {
        values_from(cells, from + 1)
    }
}

/// One slot of a slot map.
pub enum SlotMapValue<T, Idx: SlotKey> {
    Free(Option<Idx>),
    Value { value: T, version: u32 },
}

/// The index and version of a key, or of no key.
pub open spec fn key_view<Idx: SlotKey>(key: Option<Idx>) -> Option<(usize, u32)> {
    match key {
        Some(key) => Some((key.spec_index(), key.spec_version())),
        None => None,
    }
}

impl<T, Idx: SlotKey> View for SlotMapValue<T, Idx> {
    type V = Cell<T>;

    open spec fn view(&self) -> Cell<T> {
        match *self {
            SlotMapValue::Free(next) => Cell::Free { next: key_view(next) },
            SlotMapValue::Value { value, version } => Cell::Value { value, version },
        }
    }
}

/// A data structure with an intrusive free list, which inserts and removes in
/// constant time without changing the index of any value.
pub struct SlotMap<T, Idx: SlotKey = usize> {
    values: Vec<SlotMapValue<T, Idx>>,
    free: Option<Idx>,
    free_order: Ghost<Seq<(usize, u32)>>,
}

impl<T, Idx: SlotKey> View for SlotMap<T, Idx> {
    type V = SlotMapView<T>;

    closed spec fn view(&self) -> SlotMapView<T> {
        SlotMapView {
            cells: Seq::new(self.values@.len(), |i: int| self.values@[i]@),
            free: self.free_order@,
        }
    }
}

/// The capacity of a vector; `Vec::capacity`, of which the contract claims
/// what its documentation says of every vector: the capacity is no less than
/// the length.
#[verifier::external_body]
fn vec_capacity<V>(v: &Vec<V>) -> (capacity: usize)
    ensures
        capacity >= v@.len(),
{
    v.capacity()
}

impl<T, Idx: SlotKey> SlotMap<T, Idx> {
    /// The map is well formed.
    pub closed spec fn wf(&self) -> bool {
        &&& self@.inv()
        &&& key_view(self.free) == self@.head()
        &&& self.values@.len() <= Idx::spec_max()
    }

    /// Another value can be inserted: a slot is free, or the key type has an
    /// index left.
    pub open spec fn has_room(&self) -> bool {
        self@.free.len() > 0 || self@.cells.len() < Idx::spec_max()
    }

    pub proof fn lemma_wf(&self)
        requires
            self.wf(),
        ensures
            self@.inv(),
            self@.cells.len() <= Idx::spec_max(),
    {
    }

    /// Create a new list.
    pub fn new() -> (map: Self)
        ensures
            map.wf(),
            map@.cells.len() == 0,
            map@.free.len() == 0,
    {
        SlotMap { values: Vec::new(), free: None, free_order: Ghost(Seq::empty()) }
    }

    /// Create a list with a given capacity.
    pub fn with_capacity(capacity: usize) -> (map: SlotMap<T>)
        ensures
            map.wf(),
            map@.cells.len() == 0,
            map@.free.len() == 0,
    {
        SlotMap { values: Vec::with_capacity(capacity), free: None, free_order: Ghost(Seq::empty()) }
    }

    /// The value that `idx` names, unless the slot is free or holds a value
    /// of another version.
    pub fn get(&self, idx: Idx) -> (r: Option<&T>)
        ensures
            match r {
                Some(v) => self@.value(idx.spec_index(), idx.spec_version()) == Some(*v),
                None => self@.value(idx.spec_index(), idx.spec_version()) is None,
            },
    {
        let i: usize = idx.index();
        if i >= self.values.len() {
            return None;
        }
        match &self.values[i] {
            SlotMapValue::Value { value, version } => {
                if idx.version() == *version {
                    Some(value)
                } else {
                    None
                }
            },
            SlotMapValue::Free(_) => None,
        }
    }

    /// `next` is this map with `value` in the slot `i`, which held a value.
    spec fn put(self, next: Self, i: int, value: T) -> bool {
        &&& 0 <= i < self.values@.len()
        &&& self.values@[i] matches SlotMapValue::Value { version, .. } && next.values@
            =~= self.values@.update(i, SlotMapValue::Value { value, version })
        &&& next.free == self.free
        &&& next.free_order == self.free_order
    }

    /// The map with another value in the slot `index`.
    pub open spec fn with_value(view: SlotMapView<T>, index: usize, value: T) -> SlotMapView<T> {
        SlotMapView {
            cells: view.cells.update(
                index as int,
                Cell::Value { value, version: view.cells[index as int]->version },
            ),
            free: view.free,
        }
    }

    proof fn lemma_put(self, next: Self, i: int, value: T)
        requires
            self.wf(),
            self.put(next, i, value),
        ensures
            next.wf(),
            next@ == Self::with_value(self@, i as usize, value),
    {
        assert(next@.cells =~= Self::with_value(self@, i as usize, value).cells);
        assert forall|k: int| 0 <= k < next@.free.len() implies (#[trigger] next@.free[k]).0
            < next@.cells.len() && next@.cells[next@.free[k].0 as int] is Free
            && next@.cells[next@.free[k].0 as int]->next == (if k + 1 < next@.free.len() {
            Some(next@.free[k + 1])
        } else {
            None
        }) by {
            assert(self@.cells[self@.free[k].0 as int] is Free);
        }
        assert forall|i2: int|
            0 <= i2 < next@.cells.len() && (#[trigger] next@.cells[i2]) is Free implies exists|
            k: int,
        |
            0 <= k < next@.free.len() && (#[trigger] next@.free[k]).0 == i2 by {
            assert(self@.cells[i2] is Free);
        }
    }

    fn value_mut(&mut self, idx: Idx) -> (r: Option<&mut T>)
        ensures
            match r {
                Some(v) => old(self)@.value(idx.spec_index(), idx.spec_version()) == Some(*v)
                    && old(self).put(*final(self), idx.spec_index() as int, *final(v)),
                None => old(self)@.value(idx.spec_index(), idx.spec_version()) is None
                    && *final(self) == *old(self),
            },
    {
        let i: usize = idx.index();
        if i >= self.values.len() {
            return None;
        }
        let present = match &self.values[i] {
            SlotMapValue::Value { version, .. } => idx.version() == *version,
            SlotMapValue::Free(_) => false,
        };
        if !present {
            return None;
        }
        match &mut self.values[i] {
            SlotMapValue::Value { value, .. } => Some(value),
            SlotMapValue::Free(_) => None,
        }
    }

    /// As `get`, for writing.
    pub fn get_mut(&mut self, idx: Idx) -> (r: Option<&mut T>)
        requires
            old(self).wf(),
        ensures
            final(self).wf(),
            match r {
                Some(v) => old(self)@.value(idx.spec_index(), idx.spec_version()) == Some(*v)
                    && final(self)@ == Self::with_value(
                    old(self)@,
                    idx.spec_index(),
                    *final(v),
                ),
                None => old(self)@.value(idx.spec_index(), idx.spec_version()) is None
                    && final(self)@ == old(self)@,
            },
    {
        proof {
            assert forall|next: Self, value: T| #[trigger]
                old(self).put(next, idx.spec_index() as int, value) implies next.wf() && next@
                == Self::with_value(old(self)@, idx.spec_index(), value) by {
                old(self).lemma_put(next, idx.spec_index() as int, value);
            }
        }
        self.value_mut(idx)
    }

    /// Insert a value into the list.
    /// Returns the index at which the value was inserted.
    pub fn insert(&mut self, v: T) -> (key: Idx)
        requires
            old(self).wf(),
            old(self).has_room(),
        ensures
            final(self).wf(),
            (key.spec_index(), key.spec_version()) == old(self)@.next_key(Idx::versioned()),
            final(self)@ == old(self)@.inserted(v, Idx::versioned()),
            final(self)@.value(key.spec_index(), key.spec_version()) == Some(v),
    {
        proof {
            old(self)@.lemma_inserted(v, Idx::versioned());
        }
        let key = match self.free {
            Some(x) => {
                let i: usize = x.index();
                let next = match &self.values[i] {
                    SlotMapValue::Free(next) => *next,
                    _ => None,
                };
                let key = x.next_version();
                self.free = next;
                self.values[i] = SlotMapValue::Value { value: v, version: key.version() };
                proof {
                    self.free_order@ = self.free_order@.drop_first();
                }
                key
            },
            None => {
                let idx: usize = self.values.len();
                let key = Idx::new(idx);
                self.values.push(SlotMapValue::Value { value: v, version: key.version() });
                key
            },
        };
        proof {
            assert(self@.cells =~= old(self)@.inserted(v, Idx::versioned()).cells);
        }
        key
    }

    /// Remove a value at the given index.
    /// Returns `Some` if there is a value at the given index else returns none.
    pub fn remove(&mut self, idx: Idx) -> (r: Option<T>)
        requires
            old(self).wf(),
        ensures
            final(self).wf(),
            r == old(self)@.value(idx.spec_index(), idx.spec_version()),
            final(self)@ == old(self)@.removed(idx.spec_index(), idx.spec_version()),
    {
        let i: usize = idx.index();
        if i >= self.values.len() {
            return None;
        }
        let present = match &self.values[i] {
            SlotMapValue::Value { version, .. } => idx.version() == *version,
            SlotMapValue::Free(_) => false,
        };
        if !present {
            return None;
        }
        proof {
            old(self)@.lemma_removed(idx.spec_index(), idx.spec_version());
        }
        let mut cell = SlotMapValue::Free(self.free);
        core::mem::swap(&mut cell, &mut self.values[i]);
        self.free = Some(idx);
        proof {
            self.free_order@ = seq![(idx.spec_index(), idx.spec_version())] + self.free_order@;
            assert(self@.cells =~= old(self)@.removed(idx.spec_index(), idx.spec_version()).cells);
        }
        match cell {
            SlotMapValue::Value { value, .. } => Some(value),
            SlotMapValue::Free(_) => None,
        }
    }

    /// Returns wether a value is present at the given index.
    pub fn is_present(&self, idx: Idx) -> (r: bool)
        ensures
            r == self@.present(idx.spec_index(), idx.spec_version()),
    {
        let i: usize = idx.index();
        i < self.values.len() && match &self.values[i] {
            SlotMapValue::Free(_) => false,
            SlotMapValue::Value { version, .. } => *version == idx.version(),
        }
    }

    /// Returns the amount of entries used, both free and used.
    pub fn entries(&self) -> (n: usize)
        ensures
            n == self@.cells.len(),
    {
        self.values.len()
    }

    /// Returns the amount of values that can be inserted before a new allocations.
    pub fn capacity(&self) -> (n: usize)
        ensures
            n >= self@.cells.len(),
    {
        vec_capacity(&self.values)
    }

    /// Returns an iterator over all present values.
    pub fn iter<'a>(&'a self) -> (it: Iter<'a, T, Idx>)
        ensures
            it.remaining() == self@.values(),
    {
        Iter { v: &self.values, pos: 0 }
    }
}

/// Walks the values of a slot map in the order of their slots.
pub struct Iter<'a, T, Idx: SlotKey> {
    v: &'a Vec<SlotMapValue<T, Idx>>,
    pos: usize,
}

impl<'a, T, Idx: SlotKey> Iter<'a, T, Idx> {
    /// The values still to come.
    pub closed spec fn remaining(&self) -> Seq<T> {
        values_from(Seq::new(self.v@.len(), |i: int| self.v@[i]@), self.pos as int)
    }

    /// The next value, or `None` when all have been seen.
    pub fn next(&mut self) -> (r: Option<&'a T>)
        ensures
            match r {
                Some(v) => old(self).remaining() == seq![*v] + final(self).remaining(),
                None => old(self).remaining() == Seq::<T>::empty() && final(self).remaining()
                    == Seq::<T>::empty(),
            },
    {
        let v: &'a Vec<SlotMapValue<T, Idx>> = self.v;
        let ghost cells = Seq::new(v@.len(), |i: int| v@[i]@);
        loop
            invariant
                self.v == v,
                cells == Seq::new(v@.len(), |i: int| v@[i]@),
                values_from(cells, self.pos as int) == old(self).remaining(),
            decreases v@.len() - self.pos,
        {
            if self.pos >= v.len() {
                return None;
            }
            let i: usize = self.pos;
            self.pos = i + 1;
            match &v[i] {
                SlotMapValue::Value { value, .. } => {
                    return Some(value);
                },
                SlotMapValue::Free(_) => {},
            }
        }
    }
}

} // verus!
