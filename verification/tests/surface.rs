use pixel_engine::swapchain::{
    Extent2D, SurfaceCapabilities, SurfaceFormat, COLOR_SPACE_SRGB_NONLINEAR,
    COMPOSITE_ALPHA_OPAQUE, FORMAT_B8G8R8A8_SRGB, FORMAT_R8G8B8A8_SRGB,
    IMAGE_USAGE_COLOR_ATTACHMENT, PRESENT_MODE_FIFO, SHARING_MODE_EXCLUSIVE,
};
use pixel_engine::PixelEngine;

#[test]
fn surface_constants_match_ash() {
    assert_eq!(FORMAT_B8G8R8A8_SRGB, ash::vk::Format::B8G8R8A8_SRGB.as_raw());
    assert_eq!(FORMAT_R8G8B8A8_SRGB, ash::vk::Format::R8G8B8A8_SRGB.as_raw());
    assert_eq!(COLOR_SPACE_SRGB_NONLINEAR, ash::vk::ColorSpaceKHR::SRGB_NONLINEAR.as_raw());
    assert_eq!(PRESENT_MODE_FIFO, ash::vk::PresentModeKHR::FIFO.as_raw());
    assert_eq!(IMAGE_USAGE_COLOR_ATTACHMENT, ash::vk::ImageUsageFlags::COLOR_ATTACHMENT.as_raw());
    assert_eq!(COMPOSITE_ALPHA_OPAQUE, ash::vk::CompositeAlphaFlagsKHR::OPAQUE.as_raw());
    assert_eq!(SHARING_MODE_EXCLUSIVE, ash::vk::SharingMode::EXCLUSIVE.as_raw());
}

fn fmt(format: i32, color_space: i32) -> SurfaceFormat {
    SurfaceFormat { format, color_space }
}

#[test]
fn matching_formats_keep_order_and_repeats() {
    let formats = vec![fmt(44, 0), fmt(50, 0), fmt(50, 1000104001), fmt(43, 0), fmt(50, 0)];
    let wanted = fmt(FORMAT_B8G8R8A8_SRGB, COLOR_SPACE_SRGB_NONLINEAR);
    assert_eq!(PixelEngine::matching_surface_formats(&formats, wanted), vec![fmt(50, 0), fmt(50, 0)]);
    let debug_wanted = fmt(FORMAT_R8G8B8A8_SRGB, COLOR_SPACE_SRGB_NONLINEAR);
    assert_eq!(PixelEngine::matching_surface_formats(&formats, debug_wanted), vec![fmt(43, 0)]);
    assert!(PixelEngine::matching_surface_formats(&vec![fmt(44, 0)], wanted).is_empty());
}

#[test]
fn fifo_modes() {
    assert_eq!(PixelEngine::fifo_present_modes(&vec![0, 2, 1, 3, 2]), vec![2, 2]);
    assert!(PixelEngine::fifo_present_modes(&vec![0, 1]).is_empty());
}

#[test]
fn presentable_families() {
    assert_eq!(PixelEngine::presentable_queue_families(&vec![true, false, true]), vec![0, 2]);
    assert_eq!(PixelEngine::presentable_queue_families(&vec![false]), Vec::<u32>::new());
}

#[test]
fn swapchain_plan() {
    let caps = SurfaceCapabilities {
        min_image_count: 2,
        current_transform: 1,
        current_extent: Extent2D { width: 720, height: 480 },
    };
    let formats = vec![fmt(44, 0), fmt(50, 0)];
    let plan = PixelEngine::plan_swapchain(&caps, &formats, &vec![1, 2], &vec![true, true, false]);
    assert_eq!(plan.format, fmt(50, 0));
    assert_eq!(plan.present_mode, PRESENT_MODE_FIFO);
    assert_eq!(plan.min_image_count, 2);
    assert_eq!(plan.pre_transform, 1);
    assert_eq!(plan.image_array_layers, 1);
    assert_eq!(plan.image_usage, IMAGE_USAGE_COLOR_ATTACHMENT);
    assert_eq!(plan.composite_alpha, COMPOSITE_ALPHA_OPAQUE);
    assert_eq!(plan.sharing_mode, SHARING_MODE_EXCLUSIVE);
    assert!(plan.clipped);
    assert_eq!(plan.queue_family_indices, vec![0, 1]);
}
