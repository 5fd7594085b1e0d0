//! A generational resource store with dependency-tracked reload propagation.
//!
//! Resources are loaded from files, may load each other while they are being
//! built, and are re-derived in place when a file changes. The store hands out
//! generation-checked handles, records which load triggered which, and on a
//! change walks those edges upward until an ancestor reports that it is not
//! affected.
pub mod config;
pub mod geom;
pub mod gui;
pub mod resources;
pub mod state;
pub mod util;

pub use resources::{AnyResourceId, LoadError, Resource, ResourceId, Resources};
