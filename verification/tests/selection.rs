use pixel_engine::phys_device::{
    MemoryHeap, PhysicalDeviceInfo, DEVICE_TYPE_DISCRETE_GPU, MEMORY_HEAP_DEVICE_LOCAL,
};
use pixel_engine::queues::{
    QueueFamilyChoice, QUEUE_COMPUTE, QUEUE_GRAPHICS, QUEUE_SPARSE_BINDING, QUEUE_TRANSFER,
};
use pixel_engine::PixelEngine;

#[test]
fn queue_flag_constants_match_ash() {
    assert_eq!(QUEUE_GRAPHICS, ash::vk::QueueFlags::GRAPHICS.as_raw());
    assert_eq!(QUEUE_COMPUTE, ash::vk::QueueFlags::COMPUTE.as_raw());
    assert_eq!(QUEUE_TRANSFER, ash::vk::QueueFlags::TRANSFER.as_raw());
    assert_eq!(QUEUE_SPARSE_BINDING, ash::vk::QueueFlags::SPARSE_BINDING.as_raw());
}

#[test]
fn device_constants_match_ash() {
    assert_eq!(DEVICE_TYPE_DISCRETE_GPU, ash::vk::PhysicalDeviceType::DISCRETE_GPU.as_raw());
    assert_eq!(MEMORY_HEAP_DEVICE_LOCAL, ash::vk::MemoryHeapFlags::DEVICE_LOCAL.as_raw());
}

#[test]
fn family_indices_of_a_typical_gpu() {
    // family 0: graphics+compute+transfer, family 1: transfer, family 2: compute+transfer
    let families = vec![0x7, 0x4, 0x6];
    assert_eq!(PixelEngine::get_index_family_queues(&families, QUEUE_GRAPHICS), vec![0]);
    assert_eq!(PixelEngine::get_index_family_queues(&families, QUEUE_TRANSFER), vec![0, 1, 2]);
    assert_eq!(PixelEngine::get_index_family_queues(&families, QUEUE_COMPUTE), vec![0, 2]);
    assert_eq!(
        PixelEngine::get_index_family_queues(&families, QUEUE_COMPUTE | QUEUE_GRAPHICS),
        vec![0]
    );
    assert_eq!(PixelEngine::get_index_family_queues(&families, QUEUE_SPARSE_BINDING), Vec::<u32>::new());
}

#[test]
fn family_indices_edge_cases() {
    assert_eq!(PixelEngine::get_index_family_queues(&vec![], QUEUE_GRAPHICS), Vec::<u32>::new());
    // the empty requirement is met by every family
    assert_eq!(PixelEngine::get_index_family_queues(&vec![0, 0x8], 0), vec![0, 1]);
}

#[test]
fn queue_choice_prefers_separate_families() {
    let choice = PixelEngine::choose_queue_families(&vec![0], &vec![0, 1, 2], &vec![0, 2]);
    // transfer: the last family other than graphics; compute can only share with transfer
    assert_eq!(choice, QueueFamilyChoice { graphics: 0, transfer: 2, compute: 2 });
    let choice = PixelEngine::choose_queue_families(&vec![0], &vec![0, 1, 2], &vec![0, 2, 3, 1]);
    // compute: the first family that is neither graphics nor transfer
    assert_eq!(choice, QueueFamilyChoice { graphics: 0, transfer: 2, compute: 3 });
}

#[test]
fn queue_choice_falls_back_when_shared() {
    // every family is the graphics family
    let choice = PixelEngine::choose_queue_families(&vec![0], &vec![0], &vec![0]);
    assert_eq!(choice, QueueFamilyChoice { graphics: 0, transfer: 0, compute: 0 });
    // compute can only share with transfer
    let choice = PixelEngine::choose_queue_families(&vec![0, 1], &vec![0, 1], &vec![1, 0]);
    assert_eq!(choice, QueueFamilyChoice { graphics: 0, transfer: 1, compute: 1 });
    // transfer falls back to its first family
    let choice = PixelEngine::choose_queue_families(&vec![3], &vec![3, 3], &vec![3]);
    assert_eq!(choice, QueueFamilyChoice { graphics: 3, transfer: 3, compute: 3 });
}

#[test]
fn queue_choice_from_flag_lists() {
    let families = vec![0x7, 0x4, 0x6];
    let g = PixelEngine::get_index_family_queues(&families, QUEUE_GRAPHICS);
    let t = PixelEngine::get_index_family_queues(&families, QUEUE_TRANSFER);
    let c = PixelEngine::get_index_family_queues(&families, QUEUE_COMPUTE);
    let plan = PixelEngine::plan_device(&g, &t, &c);
    assert_eq!(plan.queue_families, QueueFamilyChoice { graphics: 0, transfer: 2, compute: 2 });
    assert_eq!(plan.extensions, vec!["VK_KHR_swapchain".to_string()]);
    assert!(plan.shader_clip_distance);
}

#[test]
fn device_extension_name_matches_ash() {
    let names = PixelEngine::device_extensions();
    assert_eq!(names.len(), 1);
    assert_eq!(names[0].as_bytes(), ash::khr::swapchain::NAME.to_bytes());
}

fn heap(size: u64, flags: u32) -> MemoryHeap {
    MemoryHeap { size, flags }
}

#[test]
fn physical_device_prefers_last_discrete() {
    let devices = vec![
        PhysicalDeviceInfo { device_type: 1, heaps: vec![heap(100, 1), heap(50, 0)] },
        PhysicalDeviceInfo { device_type: 2, heaps: vec![heap(1000, 1)] },
        PhysicalDeviceInfo { device_type: 4, heaps: vec![] },
        PhysicalDeviceInfo { device_type: 2, heaps: vec![heap(7, 3), heap(0, 1)] },
    ];
    let choice = PixelEngine::choose_physical_device(&devices);
    assert_eq!(choice.index, 3);
    // device-local memory of all the devices together
    assert_eq!(choice.memory, 1107);
}

#[test]
fn physical_device_without_discrete_is_the_first() {
    let devices = vec![
        PhysicalDeviceInfo { device_type: 1, heaps: vec![heap(64, 0)] },
        PhysicalDeviceInfo { device_type: 3, heaps: vec![heap(32, 1)] },
    ];
    let choice = PixelEngine::choose_physical_device(&devices);
    assert_eq!(choice.index, 0);
    assert_eq!(choice.memory, 32);
}

#[test]
fn memory_overflow_is_detected() {
    let fits = vec![
        PhysicalDeviceInfo { device_type: 2, heaps: vec![heap(u64::MAX, 0), heap(u64::MAX - 1, 1)] },
        PhysicalDeviceInfo { device_type: 1, heaps: vec![heap(1, 1)] },
    ];
    assert!(PixelEngine::device_local_memory_fits(&fits));
    assert_eq!(PixelEngine::choose_physical_device(&fits).memory, u64::MAX);
    let overflows = vec![
        PhysicalDeviceInfo { device_type: 2, heaps: vec![heap(u64::MAX, 1)] },
        PhysicalDeviceInfo { device_type: 1, heaps: vec![heap(1, 1)] },
    ];
    assert!(!PixelEngine::device_local_memory_fits(&overflows));
    assert!(PixelEngine::device_local_memory_fits(&vec![]));
}
