//! Plain types describing render-pass attachments and memory hints.

use std::ops::Range;
use vstd::prelude::*;

verus! {

/// Operation to perform to the output attachment at the start of a render pass.
#[derive(Copy, Clone, Debug, Hash, Eq, PartialEq)]
pub enum LoadOp<V> {
    /// Clears the attachment to the given value.
    Clear(V),
    /// Loads the existing value for this attachment into the render pass.
    Load,
}

impl<V: Default> Default for LoadOp<V> {
    /// Clearing is the default.
    fn default() -> (r: Self)
        ensures
            r is Clear,
    {
        Self::Clear(Default::default())
    }
}

/// Operation to perform to the output attachment at the end of a render pass.
#[derive(Copy, Clone, Debug, Hash, Eq, PartialEq)]
pub enum StoreOp {
    /// Stores the resulting value of the render pass for this attachment.
    Store,
    /// Discards the resulting value; the attachment is uninitialized afterwards.
    Discard,
}

impl Default for StoreOp {
    /// Storing is the default.
    fn default() -> (r: Self)
        ensures
            r == StoreOp::Store,
    {
        StoreOp::Store
    }
}

/// Pair of load and store operations for an attachment aspect.
#[derive(Copy, Clone, Debug, Hash, Eq, PartialEq)]
pub struct Operations<V> {
    /// How data should be read through this attachment.
    pub load: LoadOp<V>,
    /// Whether data will be written to through this attachment.
    pub store: StoreOp,
}

impl<V: Default> Default for Operations<V> {
    /// Clear on load, store at the end.
    fn default() -> (r: Self)
        ensures
            r.load is Clear,
            r.store == StoreOp::Store,
    {
        Self { load: LoadOp::<V>::default(), store: StoreOp::default() }
    }
}

/// `Range::clone` of std: clones both ends. Nothing is claimed of the copy,
/// since `Idx::clone` may be any function.
pub assume_specification<Idx: Clone>[ <Range<Idx> as Clone>::clone ](range: &Range<Idx>) -> (r:
    Range<Idx>)
;

/// Hints to the device about the memory allocation strategy.
#[derive(Clone, Debug)]
pub enum MemoryHints {
    /// Favor performance over memory usage (the default value).
    Performance,
    /// Favor memory usage over performance.
    MemoryUsage,
    /// The caller sets the allocation configuration.
    Manual {
        /// The range of allowed memory block sizes for sub-allocated
        /// resources: its start is the initial block size, its end the limit
        /// up to which later blocks may grow.
        suballocated_device_memory_block_size: Range<u64>,
    },
}

impl Default for MemoryHints {
    /// Performance is the default.
    fn default() -> (r: Self)
        ensures
            r is Performance,
    {
        MemoryHints::Performance
    }
}

} // verus!
