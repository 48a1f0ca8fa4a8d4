//! Flag words, as the `ash` crate lays them out.

use vstd::prelude::*;

verus! {

/// The flag word of an instance created without any flag.
///
/// Calls `ash::vk::InstanceCreateFlags::empty` and hands out its raw word,
/// taken to be zero.
#[verifier::external_body]
pub(crate) fn no_instance_flags() -> (bits: u32)
    ensures
        bits == 0,
{
    ash::vk::InstanceCreateFlags::empty().as_raw()
}

/// The flag word `bits` with the flag that asks for portability
/// enumeration added.
///
/// Applies `|=` of `ash::vk::InstanceCreateFlags` to
/// `ENUMERATE_PORTABILITY_KHR`, taken to be the lowest bit and to be joined
/// to the word by a bitwise or.
#[verifier::external_body]
pub(crate) fn with_enumerate_portability(bits: u32) -> (flags: u32)
    ensures
        flags == bits | 0x1,
{
    let mut flags = ash::vk::InstanceCreateFlags::from_raw(bits);
    flags |= ash::vk::InstanceCreateFlags::ENUMERATE_PORTABILITY_KHR;
    flags.as_raw()
}

/// Whether the queue flag word `bits` has the graphics flag.
///
/// Calls `ash::vk::QueueFlags::contains` with `GRAPHICS`, taken to be the
/// lowest bit and to be contained when that bit of the word is set.
#[verifier::external_body]
pub(crate) fn contains_graphics(bits: u32) -> (has: bool)
    ensures
        has == (bits & 0x1 == 0x1),
{
    ash::vk::QueueFlags::from_raw(bits).contains(ash::vk::QueueFlags::GRAPHICS)
}

} // verus!
