//! FSR3 backend: Frame Generation via `FidelityFX` SDK + FSR2 upscaling.

use vstd::prelude::*;

use crate::interpolate::backends::common;
use crate::interpolate::error::InterpolateError;
use crate::interpolate::factor;
use crate::interpolate::frame::GpuFrame;

verus! {

/// How a frame is upscaled.
#[derive(Debug, Clone, Copy, PartialEq, Eq, Structural)]
pub enum UpscaleRoute {
    /// By the FSR 2 upscaler.
    Native,
    /// Bicubically, on the CPU.
    Bicubic,
}

/// FSR3 backend: which of its two parts are there.
///
/// - Interpolation uses `FidelityFX` Frame Generation (Vulkan).
/// - Upscaling uses FSR 2, or the CPU where FSR 2 is unavailable.
#[derive(Debug, Clone, Copy)]
pub struct Fsr3Interpolator {
    /// Whether frame generation is there.
    pub frame_gen: bool,
    /// Whether the FSR 2 upscaler is there.
    pub upscaler: bool,
}

impl Fsr3Interpolator {
    /// Create a new FSR3 backend, from what became of the setup of its parts.
    ///
    /// # Errors
    ///
    /// Frame generation could not be set up. An upscaler that could not be set
    /// up is no error.
    pub fn new(
        frame_gen: Result<(), InterpolateError>,
        upscaler: Result<(), InterpolateError>,
    ) -> (r: Result<Fsr3Interpolator, InterpolateError>)
        ensures
            match frame_gen {
                Ok(_) => r == Ok::<Fsr3Interpolator, InterpolateError>(
                    Fsr3Interpolator { frame_gen: true, upscaler: upscaler is Ok },
                ),
                Err(e) => r == Err::<Fsr3Interpolator, InterpolateError>(e),
            },
    {
        match frame_gen {
            Ok(_) => Ok(Fsr3Interpolator { frame_gen: true, upscaler: upscaler.is_ok() }),
            Err(e) => Err(e),
        }
    }

    /// Check the factor and the frames before a frame is generated.
    ///
    /// Frame generation always makes the frame halfway between the two, but
    /// what it is asked for is checked as every backend checks it.
    ///
    /// # Errors
    ///
    /// The factor is out of range, or else the frames differ in their dimensions.
    pub fn check_request(&self, a: &GpuFrame, b: &GpuFrame, t: u32) -> (r: Result<
        (),
        InterpolateError,
    >)
        ensures
            !factor::in_unit_range(t) ==> r == Err::<(), _>(InterpolateError::InvalidFactor(t)),
            factor::in_unit_range(t) && !a@.same_dimensions(b@) ==> r == Err::<(), _>(
                InterpolateError::DimensionMismatch(a.width, a.height, b.width, b.height),
            ),
            factor::in_unit_range(t) && a@.same_dimensions(b@) ==> r is Ok,
    {
        common::check_request(a, b, t)
    }

    /// Check that a frame can be generated.
    ///
    /// # Errors
    ///
    /// Frame generation is not there.
    pub fn check_frame_gen(&self) -> (r: Result<(), InterpolateError>)
        ensures
            if self.frame_gen {
                r is Ok
            } else {
                r matches Err(InterpolateError::InterpolateFailed(m)) && m@
                    == "FSR3 FrameGen unavailable — is libFidelityFX.so loaded?"@
            },
    {
        if self.frame_gen {
            Ok(())
        } else {
            Err(
                InterpolateError::InterpolateFailed(
                    String::from_str("FSR3 FrameGen unavailable — is libFidelityFX.so loaded?"),
                ),
            )
        }
    }

    /// How a frame is upscaled.
    #[must_use]
    pub fn upscale_route(&self) -> (r: UpscaleRoute)
        ensures
            r == if self.upscaler {
                UpscaleRoute::Native
            } else {
                UpscaleRoute::Bicubic
            },
    {
        if self.upscaler {
            UpscaleRoute::Native
        } else {
            UpscaleRoute::Bicubic
        }
    }

    /// Estimated latency in milliseconds: 16.67, as IEEE 754 single-precision bits.
    #[must_use]
    pub fn latency_ms(&self) -> (r: u32)
        ensures
            r == 0x4185_5c29,
    {
        0x4185_5c29
    }

    /// Human-readable name of this backend.
    #[must_use]
    pub fn name(&self) -> (r: &'static str)
        ensures
            r@ == "fsr3"@,
    {
        "fsr3"
    }
}

} // verus!
