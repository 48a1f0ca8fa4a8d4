//! Rules of the Vulkan bootstrap layer: which extensions and layers are
//! known and available, how an instance is described, and how handles to a
//! registered instance are counted. Talking to the Vulkan loader itself is
//! left to the caller, who passes in what the loader reported.

pub mod extension;
pub mod flags;
pub mod instance;
pub mod names;
pub mod physical_device;
pub mod validation_layer;

pub use extension::Extension;
pub use instance::Instance;
pub use validation_layer::ValidationLayer;
