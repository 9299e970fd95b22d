//! A lock-free bit allocator: a fixed-capacity bitmap whose bits stand for
//! allocatable slots, claimed and released through atomic word updates.
//!
//! - `word`: the rules for one bitmap word, as pure functions.
//! - `cell`: the atomic cells and the updates made to them.
//! - `bitalloc`: the allocator.
//! - `history`: any interleaving of atomic updates; no slot is handed out twice.
//! - `sequential`: one caller at a time; what allocation and release then do.
//! - `descriptors`: the descriptor tables whose slots the allocator hands out.
//! - `vgpu`: stand-ins for the types of the GPU interface.

pub mod bitalloc;
pub mod cell;
pub mod descriptors;
pub mod history;
pub mod sequential;
pub mod vgpu;
pub mod word;
