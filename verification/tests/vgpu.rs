use bitalloc::vgpu::stubs::Features;
use bitalloc::vgpu::stubs::Instance;
use bitalloc::vgpu::stubs::Limits;
use bitalloc::vgpu::stubs::MultisampleState;
use bitalloc::vgpu::stubs::PowerPreference;
use bitalloc::vgpu::stubs::PrimitiveState;
use bitalloc::vgpu::wgputypes::LoadOp;
use bitalloc::vgpu::wgputypes::MemoryHints;
use bitalloc::vgpu::wgputypes::Operations;
use bitalloc::vgpu::wgputypes::StoreOp;

#[test]
fn stand_ins_can_be_made() {
    let _instance = Instance::default();
    let _power = PowerPreference::default();
    let _features = Features::empty();
    let _limits = Limits::downlevel_webgl2_defaults();
    let _primitive = PrimitiveState::default();
    let _multisample = MultisampleState::default();
}

#[test]
fn load_op_defaults_to_clear() {
    assert_eq!(LoadOp::<u32>::default(), LoadOp::Clear(0));
    assert_ne!(LoadOp::<u32>::default(), LoadOp::Load);
}

#[test]
fn store_op_defaults_to_store() {
    assert_eq!(StoreOp::default(), StoreOp::Store);
    assert_ne!(StoreOp::default(), StoreOp::Discard);
}

#[test]
fn operations_default_clears_and_stores() {
    let ops = Operations::<u8>::default();
    assert_eq!(ops, Operations { load: LoadOp::Clear(0), store: StoreOp::Store });
}

#[test]
fn memory_hints_default_to_performance() {
    assert!(matches!(MemoryHints::default(), MemoryHints::Performance));
    let manual = MemoryHints::Manual { suballocated_device_memory_block_size: 16..4096 };
    match manual.clone() {
        MemoryHints::Manual { suballocated_device_memory_block_size } => {
            assert_eq!(suballocated_device_memory_block_size, 16..4096);
        }
        _ => panic!("clone changed the variant"),
    }
}
