//! The logical device: the families of its queues, its extensions and
//! its features.

use vstd::prelude::*;

use crate::instance::names;
use crate::queues::{chosen_compute, chosen_transfer, QueueFamilyChoice};
use crate::PixelEngine;

verus! {

/// The device extensions the engine enables: the swapchain extension.
pub open spec fn engine_device_extensions() -> Seq<Seq<char>> {
    seq!["VK_KHR_swapchain"@]
}

/// What the logical device is created with, and the families its three
/// queues are taken from.
#[derive(Debug)]
pub struct DevicePlan {
    pub queue_families: QueueFamilyChoice,
    pub extensions: Vec<String>,
    pub shader_clip_distance: bool,
}

impl PixelEngine {
    /// The device extensions the engine enables.
    pub fn device_extensions() -> (extensions: Vec<String>)
        ensures
            names(extensions@) == engine_device_extensions(),
    {
        let mut extensions: Vec<String> = Vec::new();
        extensions.push("VK_KHR_swapchain".to_owned());
        assert(names(extensions@) =~= engine_device_extensions());
        extensions
    }

    /// The settings of the logical device, given the families that support
    /// graphics, transfer and compute: the queue families of
    /// `choose_queue_families`, the swapchain extension, and the
    /// shader clip distance feature.
    pub fn plan_device(graphics: &Vec<u32>, transfer: &Vec<u32>, compute: &Vec<u32>) -> (plan: DevicePlan)
        requires
            graphics.len() > 0,
            transfer.len() > 0,
            compute.len() > 0,
        ensures
            plan.queue_families.graphics == graphics@[0],
            plan.queue_families.transfer == chosen_transfer(graphics@[0], transfer@),
            plan.queue_families.compute == chosen_compute(
                graphics@[0],
                plan.queue_families.transfer,
                compute@,
            ),
            names(plan.extensions@) == engine_device_extensions(),
            plan.shader_clip_distance,
    {
        DevicePlan {
            queue_families: Self::choose_queue_families(graphics, transfer, compute),
            extensions: Self::device_extensions(),
            shader_clip_distance: true,
        }
    }
}

} // verus!
