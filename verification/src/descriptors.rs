//! The descriptor tables of a bindless GPU set-up: which tables there are,
//! which descriptor set each lives in, and how many descriptors each may hold
//! on a given device.
//!
//! Slot indices handed out by the bit allocator are indices into these
//! tables. Talking to the device is not done here; this module works out
//! what to ask it for.

use vstd::prelude::*;

verus! {

/// Number of descriptor sets that the descriptor pool is made for.
pub const MAX_DESCRIPTOR_SETS: u32 = 4;

/// The types of descriptor tables. These live in the GPU.
#[derive(Debug, Clone, Copy, PartialEq, Eq)]
pub enum DescriptorTableType {
    /// Table of storage buffers, descriptor set 0.
    StorageBuffer,
    /// Table of sampled images, descriptor set 1.
    SampledImage,
    /// Table of storage images, descriptor set 2.
    StorageImage,
}

/// What a device allows per descriptor table: for each table type the
/// largest number of update-after-bind descriptors in one set, and in one
/// shader stage.
#[derive(Debug, Clone, Copy, PartialEq, Eq)]
pub struct DescriptorLimits {
    /// Storage buffers in one descriptor set.
    pub max_descriptor_set_update_after_bind_storage_buffers: u32,
    /// Storage buffers in one shader stage.
    pub max_per_stage_descriptor_update_after_bind_storage_buffers: u32,
    /// Sampled images in one descriptor set.
    pub max_descriptor_set_update_after_bind_sampled_images: u32,
    /// Sampled images in one shader stage.
    pub max_per_stage_descriptor_update_after_bind_sampled_images: u32,
    /// Storage images in one descriptor set.
    pub max_descriptor_set_update_after_bind_storage_images: u32,
    /// Storage images in one shader stage.
    pub max_per_stage_descriptor_update_after_bind_storage_images: u32,
}

/// The smaller of two counts.
pub open spec fn spec_min(a: u32, b: u32) -> u32 {
    if a <= b {
        a
    } else {
        b
    }
}

impl DescriptorTableType {
    /// All table types, in the order of their descriptor sets.
    pub open spec fn spec_all_types() -> Seq<DescriptorTableType> {
        seq![
            DescriptorTableType::StorageBuffer,
            DescriptorTableType::SampledImage,
            DescriptorTableType::StorageImage,
        ]
    }

    /// The descriptor set that holds this table.
    pub open spec fn spec_set_index(self) -> u32 {
        match self {
            DescriptorTableType::StorageBuffer => 0,
            DescriptorTableType::SampledImage => 1,
            DescriptorTableType::StorageImage => 2,
        }
    }

    /// The number of descriptors that this table may hold under `limits`:
    /// the smaller of the per-set and the per-stage limit for its type.
    pub open spec fn spec_max_count(self, limits: DescriptorLimits) -> u32 {
        match self {
            DescriptorTableType::StorageBuffer => spec_min(
                limits.max_descriptor_set_update_after_bind_storage_buffers,
                limits.max_per_stage_descriptor_update_after_bind_storage_buffers,
            ),
            DescriptorTableType::SampledImage => spec_min(
                limits.max_descriptor_set_update_after_bind_sampled_images,
                limits.max_per_stage_descriptor_update_after_bind_sampled_images,
            ),
            DescriptorTableType::StorageImage => spec_min(
                limits.max_descriptor_set_update_after_bind_storage_images,
                limits.max_per_stage_descriptor_update_after_bind_storage_images,
            ),
        }
    }

    /// Return all the types.
    pub fn all_types() -> (r: Vec<DescriptorTableType>)
        ensures
            r@ == Self::spec_all_types(),
    {
        let mut all: Vec<DescriptorTableType> = Vec::new();
        all.push(DescriptorTableType::StorageBuffer);
        all.push(DescriptorTableType::SampledImage);
        all.push(DescriptorTableType::StorageImage);
        assert(all@ =~= Self::spec_all_types());
        all
    }

    /// The descriptor set that holds this table.
    pub fn set_index(self) -> (r: u32)
        ensures
            r == self.spec_set_index(),
    {
        match self {
            DescriptorTableType::StorageBuffer => 0,
            DescriptorTableType::SampledImage => 1,
            DescriptorTableType::StorageImage => 2,
        }
    }

    /// The table type of a descriptor set. Only the sets of storage buffers
    /// and of sampled images can be looked up this way.
    pub fn from_set_index(set_index: u32) -> (r: Self)
        requires
            set_index < 2,
        ensures
            r.spec_set_index() == set_index,
    {
        if set_index == 0 {
            DescriptorTableType::StorageBuffer
        } else {
            DescriptorTableType::SampledImage
        }
    }

    /// Display name.
    pub fn name(self) -> (r: &'static str)
        ensures
            self == DescriptorTableType::StorageBuffer ==> r@ == "storage_buffer"@,
            self == DescriptorTableType::SampledImage ==> r@ == "sampled_image"@,
            self == DescriptorTableType::StorageImage ==> r@ == "storage_image"@,
    {
        match self {
            DescriptorTableType::StorageBuffer => "storage_buffer",
            DescriptorTableType::SampledImage => "sampled_image",
            DescriptorTableType::StorageImage => "storage_image",
        }
    }

    /// The name under which the descriptor set of this table is shown in
    /// debugging tools.
    pub fn set_debug_name(self) -> (r: &'static str)
        ensures
            self == DescriptorTableType::StorageBuffer ==> r@ == "buffer_descriptor_set"@,
            self == DescriptorTableType::SampledImage ==> r@ == "sampled_image_descriptor_set"@,
            self == DescriptorTableType::StorageImage ==> r@ == "storage_image_descriptor_index"@,
    {
        match self {
            DescriptorTableType::StorageBuffer => "buffer_descriptor_set",
            DescriptorTableType::SampledImage => "sampled_image_descriptor_set",
            DescriptorTableType::StorageImage => "storage_image_descriptor_index",
        }
    }

    /// The number of descriptors that this table may hold under `limits`.
    pub fn max_count(self, limits: &DescriptorLimits) -> (r: u32)
        ensures
            r == self.spec_max_count(*limits),
    {
        match self {
            DescriptorTableType::StorageBuffer => smaller(
                limits.max_descriptor_set_update_after_bind_storage_buffers,
                limits.max_per_stage_descriptor_update_after_bind_storage_buffers,
            ),
            DescriptorTableType::SampledImage => smaller(
                limits.max_descriptor_set_update_after_bind_sampled_images,
                limits.max_per_stage_descriptor_update_after_bind_sampled_images,
            ),
            DescriptorTableType::StorageImage => smaller(
                limits.max_descriptor_set_update_after_bind_storage_images,
                limits.max_per_stage_descriptor_update_after_bind_storage_images,
            ),
        }
    }
}

/// The smaller of two counts.
pub fn smaller(a: u32, b: u32) -> (r: u32)
    ensures
        r == spec_min(a, b),
{
    if a <= b {
        a
    } else {
        b
    }
}

/// The descriptor count to ask for, for each table type in the order of
/// `all_types`: what the pool must hold of that type, and the size of its
/// descriptor set.
pub fn descriptor_counts(limits: &DescriptorLimits) -> (r: Vec<u32>)
    ensures
        r@.len() == DescriptorTableType::spec_all_types().len(),
        forall|i: int|
            0 <= i < r@.len() ==> r@[i] == DescriptorTableType::spec_all_types()[i].spec_max_count(
                *limits,
            ),
{
    let types = DescriptorTableType::all_types();
    let mut counts: Vec<u32> = Vec::new();
    let mut i: usize = 0;
    while i < types.len()
        invariant
            types@ == DescriptorTableType::spec_all_types(),
            i <= types@.len(),
            counts@.len() == i,
            forall|k: int| 0 <= k < i ==> counts@[k] == types@[k].spec_max_count(*limits),
        decreases types@.len() - i,
    {
        counts.push(types[i].max_count(limits));
        i = i + 1;
    }
    counts
}

} // verus!
