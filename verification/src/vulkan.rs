//! The calls into `ash` that the engine's logic makes, each behind a
//! trusted wrapper whose contract restates what `ash`'s source computes.

use vstd::prelude::*;

verus! {

/// Packs a Vulkan API version the way `ash::vk::make_api_version` does:
/// the variant in bits 29.., the major number in bits 22.., the minor
/// number in bits 12.. and the patch number in the low bits.
pub open spec fn api_version(variant: u32, major: u32, minor: u32, patch: u32) -> u32 {
    (variant << 29u32) | (major << 22u32) | (minor << 12u32) | patch
}

/// Calls `ash::vk::make_api_version`, whose body in `ash` 0.38 is the
/// expression of `api_version`; the contract claims exactly that.
#[verifier::external_body]
pub(crate) fn make_api_version(variant: u32, major: u32, minor: u32, patch: u32) -> (v: u32)
    ensures
        v == api_version(variant, major, minor, patch),
{
    ash::vk::make_api_version(variant, major, minor, patch)
}

/// Calls `ash::vk::QueueFlags::contains` on the two raw masks; `ash` computes
/// `self & other == other`, which is what the contract claims.
#[verifier::external_body]
pub(crate) fn queue_flags_contain(flags: u32, required: u32) -> (res: bool)
    ensures
        res == (flags & required == required),
{
    ash::vk::QueueFlags::from_raw(flags).contains(ash::vk::QueueFlags::from_raw(required))
}

/// Calls `ash::vk::MemoryHeapFlags::contains` on the two raw masks; `ash`
/// computes `self & other == other`, which is what the contract claims.
#[verifier::external_body]
pub(crate) fn memory_heap_flags_contain(flags: u32, required: u32) -> (res: bool)
    ensures
        res == (flags & required == required),
{
    ash::vk::MemoryHeapFlags::from_raw(flags).contains(ash::vk::MemoryHeapFlags::from_raw(required))
}

} // verus!
