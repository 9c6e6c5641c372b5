//! Shared Vulkan foundation: which device, queues, memory and commands the GPU
//! work asks for.

pub mod blit;
pub mod context;
pub mod error;
pub mod flow;
pub mod memory;
pub mod program;
pub mod queues;
pub mod video;

pub use error::VulkanError;
pub use queues::{QueueCapabilities, QueueRequest};
pub use video::{VideoCodec, VideoEncodeCapabilities};
