//! Handles, the resource contract, and the store itself.
use vstd::prelude::*;

pub mod laws;
pub mod model;
pub mod resources;

pub use model::{Slot, StoreView};
pub use resources::{Empty, Filled, ResourceEntry, Resources};

verus! {

/// Names one occupancy of one slot: the slot's index and the generation the
/// slot had when it was handed out. It owns nothing and keeps nothing alive;
/// it serves to compare ("is this the resource that changed?") and to ask the
/// store, which answers `None` once the occupancy is over.
#[derive(Clone, Copy, PartialEq, Eq, Structural, Hash, Debug)]
pub struct AnyResourceId {
    pub idx: u32,
    pub generation: u32,
}

/// A counted owner of one occupancy. The store keeps a count of owners for
/// every filled slot; `Resources::share` adds one, `Resources::release` gives
/// one back, and the slot is freed by the cleanup pass that follows the last
/// release.
#[derive(PartialEq, Eq, Structural, Debug)]
pub struct ResourceId {
    id: AnyResourceId,
}

impl View for ResourceId {
    type V = AnyResourceId;

    closed spec fn view(&self) -> AnyResourceId {
        self.id
    }
}

impl ResourceId {
    pub(crate) fn wrap(id: AnyResourceId) -> (h: ResourceId)
        ensures
            h@ == id,
    {
        ResourceId { id }
    }

    /// The index of the slot this handle names.
    pub fn id(&self) -> (idx: u32)
        ensures
            idx == self@.idx,
    {
        self.id.idx
    }

    /// The generation of the occupancy this handle names.
    pub fn generation(&self) -> (generation: u32)
        ensures
            generation == self@.generation,
    {
        self.id.generation
    }

    /// The ownership-free name of the same occupancy.
    pub fn into_any(&self) -> (any: AnyResourceId)
        ensures
            any == self@,
    {
        self.id
    }
}

/// Why a load did not produce a resource.
#[derive(Debug)]
pub enum LoadError<E> {
    /// The requested path has no canonical form: the file is missing or may
    /// not be read.
    PathError,
    /// The resource's own constructor failed; the slot it was to fill is free
    /// again.
    Construct(E),
}

/// What a type must offer to be kept in a store.
///
/// All three operations run while the store is in the middle of an operation
/// of its own. `load` and `reload` are handed the store and may load further
/// resources through it; whatever they do, they must leave the loads that are
/// in progress, and the values that are out for reload, as they found them.
/// Every mutating operation of `Resources` promises just that
/// (`StoreView::nested`), so an implementation that reaches the store only
/// through them keeps the promise.
pub trait Resource: Sized {
    /// Whatever the constructors need besides the path.
    type Context;

    /// What a failed construction reports.
    type Error;

    /// Builds the resource found at `path`, a canonical path.
    fn load(path: &str, ctx: &mut Self::Context, res: &mut Resources<Self>) -> (r: Result<
        Self,
        Self::Error,
    >)
        requires
            old(res).wf(),
        ensures
            final(res).wf(),
            old(res)@.nested(final(res)@),
    ;

    /// Builds the resource anew in place. On failure the value is what it was.
    /// Unless a type says otherwise, the resource is built as by `load` and
    /// the new value takes the place of the old one, as `replace_with` says.
    fn reload(&mut self, path: &str, ctx: &mut Self::Context, res: &mut Resources<Self>) -> (r:
        Result<(), Self::Error>)
        requires
            old(res).wf(),
        ensures
            final(res).wf(),
            old(res)@.nested(final(res)@),
            r is Err ==> *final(self) == *old(self),
    {
        let built = Self::load(path, ctx, res);
        replace_with(self, built)
    }

    /// Reacts to the reload of `dependency`, a resource that this one loaded
    /// while it was built. The answer is `true` where this resource was
    /// affected and has re-derived itself, and `false` where nothing about it
    /// had to change: the value is then what it was, as it is on failure.
    /// Unless a type says otherwise, a resource is not affected.
    fn reload_dependency(
        &mut self,
        dependency: AnyResourceId,
        ctx: &mut Self::Context,
        res: &Resources<Self>,
    ) -> (r: Result<bool, Self::Error>)
        requires
            res.wf(),
        ensures
            r is Err ==> *final(self) == *old(self),
            r matches Ok(affected) ==> affected || *final(self) == *old(self),
    {
        Ok(false)
    }
}

/// Ends a rebuild with what the constructor returned: a new value takes the
/// place of `current`; an error is handed on, and `current` stays.
pub fn replace_with<T, E>(current: &mut T, built: Result<T, E>) -> (r: Result<(), E>)
    ensures
        match built {
            Ok(fresh) => r is Ok && *final(current) == fresh,
            Err(e) => r == Err::<(), E>(e) && *final(current) == *old(current),
        },
{
    match built {
        Ok(fresh) => {
            *current = fresh;
            Ok(())
        },
        Err(e) => Err(e),
    }
}

} // verus!
