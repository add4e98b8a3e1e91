//! The swapchain's surface format, present mode and queue families, and the
//! settings the swapchain is created with.

use vstd::prelude::*;

use crate::queues::ascending_positions;
use crate::PixelEngine;

verus! {

broadcast use vstd::seq_lib::group_filter_ensures;

/// `VK_FORMAT_B8G8R8A8_SRGB`.
pub const FORMAT_B8G8R8A8_SRGB: i32 = 50;

/// `VK_FORMAT_R8G8B8A8_SRGB`.
pub const FORMAT_R8G8B8A8_SRGB: i32 = 43;

/// `VK_COLOR_SPACE_SRGB_NONLINEAR_KHR`.
pub const COLOR_SPACE_SRGB_NONLINEAR: i32 = 0;

/// `VK_PRESENT_MODE_FIFO_KHR`.
pub const PRESENT_MODE_FIFO: i32 = 2;

/// `VK_IMAGE_USAGE_COLOR_ATTACHMENT_BIT`.
pub const IMAGE_USAGE_COLOR_ATTACHMENT: u32 = 0x10;

/// `VK_COMPOSITE_ALPHA_OPAQUE_BIT_KHR`.
pub const COMPOSITE_ALPHA_OPAQUE: u32 = 0x1;

/// `VK_SHARING_MODE_EXCLUSIVE`.
pub const SHARING_MODE_EXCLUSIVE: i32 = 0;

/// A surface format the surface offers: raw `VkFormat` and `VkColorSpaceKHR`.
#[derive(Clone, Copy, Debug, PartialEq, Eq, Structural)]
pub struct SurfaceFormat {
    pub format: i32,
    pub color_space: i32,
}

/// A two-dimensional extent in pixels.
#[derive(Clone, Copy, Debug, PartialEq, Eq, Structural)]
pub struct Extent2D {
    pub width: u32,
    pub height: u32,
}

/// What the engine reads of the surface capabilities: the minimum image
/// count, the raw current transform and the current extent.
#[derive(Clone, Copy, Debug, PartialEq, Eq, Structural)]
pub struct SurfaceCapabilities {
    pub min_image_count: u32,
    pub current_transform: u32,
    pub current_extent: Extent2D,
}

/// The settings the swapchain is created with.
#[derive(Debug)]
pub struct SwapchainPlan {
    pub format: SurfaceFormat,
    pub present_mode: i32,
    pub min_image_count: u32,
    pub pre_transform: u32,
    pub image_array_layers: u32,
    pub image_usage: u32,
    pub composite_alpha: u32,
    pub sharing_mode: i32,
    pub clipped: bool,
    pub queue_family_indices: Vec<u32>,
}

/// The format the engine renders in: B8G8R8A8 sRGB, non-linear sRGB colour space.
pub open spec fn engine_surface_format() -> SurfaceFormat {
    SurfaceFormat { format: FORMAT_B8G8R8A8_SRGB, color_space: COLOR_SPACE_SRGB_NONLINEAR }
}

/// `f` is the format the engine renders in.
pub open spec fn is_engine_format(f: SurfaceFormat) -> bool {
    f == engine_surface_format()
}

/// The present mode the engine uses: FIFO.
pub open spec fn is_engine_present_mode(mode: i32) -> bool {
    mode == PRESENT_MODE_FIFO
}

impl PixelEngine {
    /// The surface formats, in the surface's order, that equal `wanted`.
    pub fn matching_surface_formats(formats: &Vec<SurfaceFormat>, wanted: SurfaceFormat) -> (matching: Vec<SurfaceFormat>)
        ensures
            matching@ == formats@.filter(|f: SurfaceFormat| f == wanted),
    {
        let ghost pred = |f: SurfaceFormat| f == wanted;
        let mut matching: Vec<SurfaceFormat> = Vec::new();
        let mut i: usize = 0;
        while i < formats.len()
            invariant
                i <= formats.len(),
                pred == (|g: SurfaceFormat| g == wanted),
                matching@ == formats@.take(i as int).filter(pred),
            decreases formats.len() - i,
        {
            let f = formats[i];
            proof {
                let t = formats@.take(i + 1);
                assert(t.drop_last() =~= formats@.take(i as int));
                assert(t.last() == f);
                reveal_with_fuel(Seq::filter, 1);
            }
            if f.format == wanted.format && f.color_space == wanted.color_space {
                matching.push(f);
            }
            i += 1;
        }
        assert(formats@.take(formats.len() as int) =~= formats@);
        matching
    }

    /// The present modes, in the surface's order, that are FIFO.
    pub fn fifo_present_modes(modes: &Vec<i32>) -> (fifo: Vec<i32>)
        ensures
            fifo@ == modes@.filter(|m: i32| is_engine_present_mode(m)),
    {
        let ghost pred = |m: i32| is_engine_present_mode(m);
        let mut fifo: Vec<i32> = Vec::new();
        let mut i: usize = 0;
        while i < modes.len()
            invariant
                i <= modes.len(),
                pred == (|m: i32| is_engine_present_mode(m)),
                fifo@ == modes@.take(i as int).filter(pred),
            decreases modes.len() - i,
        {
            proof {
                let t = modes@.take(i + 1);
                assert(t.drop_last() =~= modes@.take(i as int));
                assert(t.last() == modes@[i as int]);
                reveal_with_fuel(Seq::filter, 1);
            }
            if modes[i] == PRESENT_MODE_FIFO {
                fifo.push(modes[i]);
            }
            i += 1;
        }
        assert(modes@.take(modes.len() as int) =~= modes@);
        fifo
    }

    /// The queue families that can present to the surface (`support[i]`
    /// tells whether family `i` can), in increasing order.
    pub fn presentable_queue_families(support: &Vec<bool>) -> (families: Vec<u32>)
        requires
            support.len() <= u32::MAX,
        ensures
            ascending_positions(support.len() as nat, |i: int| support@[i], families@),
    {
        let mut families: Vec<u32> = Vec::new();
        let mut n: usize = 0;
        while n < support.len()
            invariant
                n <= support.len() <= u32::MAX,
                forall|k: int| 0 <= k < families.len() ==> #[trigger] families@[k] < n && support@[families@[k] as int],
                forall|k1: int, k2: int|
                    0 <= k1 < k2 < families.len() ==> #[trigger] families@[k1] < #[trigger] families@[k2],
                forall|i: int| 0 <= i < n && #[trigger] support@[i] ==> families@.contains(i as u32),
            decreases support.len() - n,
        {
            let ghost before = families@;
            if support[n] {
                families.push(n as u32);
                assert(families@[before.len() as int] == n as u32);
                assert forall|i: int| 0 <= i < n && #[trigger] support@[i] implies families@.contains(i as u32) by {
                    let j = choose|j: int| 0 <= j < before.len() && before[j] == i as u32;
                    assert(families@[j] == i as u32);
                }
            }
            n += 1;
        }
        families
    }

    /// The settings of the swapchain: the first surface format that is the
    /// engine's format, the first FIFO present mode, the surface's minimum
    /// image count and current transform, and the queue families that can
    /// present; one array layer, colour-attachment usage, opaque alpha,
    /// exclusive sharing, clipped.
    pub fn plan_swapchain(
        caps: &SurfaceCapabilities,
        formats: &Vec<SurfaceFormat>,
        present_modes: &Vec<i32>,
        support: &Vec<bool>,
    ) -> (plan: SwapchainPlan)
        requires
            exists|i: int| 0 <= i < formats.len() && is_engine_format(#[trigger] formats@[i]),
            exists|i: int| 0 <= i < present_modes.len() && is_engine_present_mode(#[trigger] present_modes@[i]),
            support.len() <= u32::MAX,
        ensures
            plan.format == formats@.filter(|f: SurfaceFormat| f == engine_surface_format())[0],
            plan.present_mode == present_modes@.filter(|m: i32| is_engine_present_mode(m))[0],
            is_engine_format(plan.format),
            formats@.contains(plan.format),
            plan.present_mode == PRESENT_MODE_FIFO,
            plan.min_image_count == caps.min_image_count,
            plan.pre_transform == caps.current_transform,
            plan.image_array_layers == 1,
            plan.image_usage == IMAGE_USAGE_COLOR_ATTACHMENT,
            plan.composite_alpha == COMPOSITE_ALPHA_OPAQUE,
            plan.sharing_mode == SHARING_MODE_EXCLUSIVE,
            plan.clipped,
            ascending_positions(support.len() as nat, |i: int| support@[i], plan.queue_family_indices@),
    {
        let wanted = SurfaceFormat { format: FORMAT_B8G8R8A8_SRGB, color_space: COLOR_SPACE_SRGB_NONLINEAR };
        assert(wanted == engine_surface_format());
        let matching = Self::matching_surface_formats(formats, wanted);
        let fifo = Self::fifo_present_modes(present_modes);
        proof {
            let i = choose|i: int| 0 <= i < formats.len() && is_engine_format(#[trigger] formats@[i]);
            assert(formats@.filter(|f: SurfaceFormat| f == wanted).contains(formats@[i]));
            let j = choose|j: int| 0 <= j < present_modes.len() && is_engine_present_mode(#[trigger] present_modes@[j]);
            assert(present_modes@.filter(|m: i32| is_engine_present_mode(m)).contains(present_modes@[j]));
        }
        let families = Self::presentable_queue_families(support);
        let format = matching[0];
        let present_mode = fifo[0];
        assert(is_engine_format(format));
        assert(formats@.contains(format));
        assert(is_engine_present_mode(present_mode));
        SwapchainPlan {
            format,
            present_mode,
            min_image_count: caps.min_image_count,
            pre_transform: caps.current_transform,
            image_array_layers: 1,
            image_usage: IMAGE_USAGE_COLOR_ATTACHMENT,
            composite_alpha: COMPOSITE_ALPHA_OPAQUE,
            sharing_mode: SHARING_MODE_EXCLUSIVE,
            clipped: true,
            queue_family_indices: families,
        }
    }
}

} // verus!
