//! General data structures.
pub mod cell_vec;
pub mod slotmap;

pub use cell_vec::CellVec;
pub use slotmap::SlotMap;
