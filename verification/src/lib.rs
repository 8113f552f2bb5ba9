//! A growable, contiguous sequence container with an explicit split between
//! allocated capacity and initialized length, a doubling growth policy, and a
//! consuming double-ended iterator, together with a single-slot heap cell.

pub mod cell;
pub mod laws;
pub mod vector;

pub use crate::cell::Cell;
pub use crate::vector::IntoIter;
pub use crate::vector::Vec;
