//! A fixed-capacity, reference-counted slot registry and the pure rules of a
//! small Vulkan bootstrap layer built on top of it.

pub mod arc_array;
pub mod vk;
