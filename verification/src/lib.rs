//! Decision logic of the Pixel engine's Vulkan start-up and frame loop,
//! written over plain values and verified with Verus.

use vstd::prelude::*;

pub mod vulkan;
pub mod queues;
pub mod device;
pub mod phys_device;
pub mod swapchain;
pub mod instance;
pub mod debug;
pub mod frame;

verus! {

/// The engine; its operations are associated functions over plain values.
pub struct PixelEngine {}

} // verus!
