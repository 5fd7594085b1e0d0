//! The configuration of a scene: its data, and the rules that tie the names
//! in it together.
pub mod link;
pub mod pass;
pub mod ser;
pub mod settings;
pub mod texture;

pub use link::{LinkError, LoadedTarget};
pub use pass::{BuiltinUniform, UniformBinding};
