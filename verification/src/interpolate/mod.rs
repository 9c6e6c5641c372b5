//! Frame interpolation: frames between the captured ones.

pub mod backend;
pub mod backends;
pub mod bicubic;
pub mod blend;
pub mod error;
pub mod factor;
pub mod frame;
pub mod manager;

pub use backend::{BackendDetector, BackendKind};
pub use blend::{FrameInterpolator, LinearBlendInterpolator};
pub use error::InterpolateError;
pub use frame::GpuFrame;
pub use manager::InterpolationManager;
