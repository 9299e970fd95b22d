use bitalloc::descriptors::descriptor_counts;
use bitalloc::descriptors::smaller;
use bitalloc::descriptors::DescriptorLimits;
use bitalloc::descriptors::DescriptorTableType;
use bitalloc::descriptors::MAX_DESCRIPTOR_SETS;

fn limits() -> DescriptorLimits {
    DescriptorLimits {
        max_descriptor_set_update_after_bind_storage_buffers: 500000,
        max_per_stage_descriptor_update_after_bind_storage_buffers: 400000,
        max_descriptor_set_update_after_bind_sampled_images: 1000,
        max_per_stage_descriptor_update_after_bind_sampled_images: 2000,
        max_descriptor_set_update_after_bind_storage_images: 77,
        max_per_stage_descriptor_update_after_bind_storage_images: 77,
    }
}

#[test]
fn all_types_in_set_order() {
    assert_eq!(
        DescriptorTableType::all_types(),
        vec![
            DescriptorTableType::StorageBuffer,
            DescriptorTableType::SampledImage,
            DescriptorTableType::StorageImage
        ]
    );
    assert_eq!(MAX_DESCRIPTOR_SETS, 4);
}

#[test]
fn set_indices() {
    assert_eq!(DescriptorTableType::StorageBuffer.set_index(), 0);
    assert_eq!(DescriptorTableType::SampledImage.set_index(), 1);
    assert_eq!(DescriptorTableType::StorageImage.set_index(), 2);
    assert_eq!(DescriptorTableType::from_set_index(0), DescriptorTableType::StorageBuffer);
    assert_eq!(DescriptorTableType::from_set_index(1), DescriptorTableType::SampledImage);
}

#[test]
fn names() {
    assert_eq!(DescriptorTableType::StorageBuffer.name(), "storage_buffer");
    assert_eq!(DescriptorTableType::SampledImage.name(), "sampled_image");
    assert_eq!(DescriptorTableType::StorageImage.name(), "storage_image");
    assert_eq!(DescriptorTableType::StorageBuffer.set_debug_name(), "buffer_descriptor_set");
    assert_eq!(DescriptorTableType::SampledImage.set_debug_name(), "sampled_image_descriptor_set");
    assert_eq!(
        DescriptorTableType::StorageImage.set_debug_name(),
        "storage_image_descriptor_index"
    );
}

#[test]
fn max_count_is_the_smaller_limit() {
    let l = limits();
    assert_eq!(DescriptorTableType::StorageBuffer.max_count(&l), 400000);
    assert_eq!(DescriptorTableType::SampledImage.max_count(&l), 1000);
    assert_eq!(DescriptorTableType::StorageImage.max_count(&l), 77);
    assert_eq!(smaller(3, 9), 3);
    assert_eq!(smaller(9, 3), 3);
    assert_eq!(smaller(u32::MAX, u32::MAX), u32::MAX);
}

#[test]
fn descriptor_counts_follow_all_types() {
    assert_eq!(descriptor_counts(&limits()), vec![400000, 1000, 77]);
}
