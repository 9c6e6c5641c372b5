//! FSR2 + RIFE backend: RIFE neural net interpolation + FSR SDK upscaling.
//!
//! `interpolate()` delegates to [`RifeInterpolator`] for neural frame
//! interpolation. Upscaling is done by the FSR SDK upscaler that has to be set
//! up before.

use vstd::prelude::*;

use crate::interpolate::backends::common;
use crate::interpolate::backends::rife;
use crate::interpolate::backends::rife::{ModelCandidate, RifeInterpolator};
use crate::interpolate::blend::FrameInterpolator;
use crate::interpolate::error::InterpolateError;
use crate::interpolate::frame::{FrameView, GpuFrame};

verus! {

/// Width and height, in render and in display resolution, that the upscaler is
/// set up for.
pub const UPSCALER_W: u32 = 1920;

/// Height that the upscaler is set up for.
pub const UPSCALER_H: u32 = 1080;

/// FSR2 + RIFE hybrid backend.
#[derive(Debug)]
pub struct Fsr2RifeInterpolator;

/// What the hybrid answers, given what was found at the places of the model.
/// The factor and the frames are checked before the model is looked for.
pub open spec fn hybrid_answer(
    candidates: Seq<ModelCandidate>,
    a: FrameView,
    b: FrameView,
    t: u32,
    r: Result<GpuFrame, InterpolateError>,
) -> bool {
    match common::refusal(a, b, t) {
        Some(e) => r == Err::<GpuFrame, _>(e),
        None => exists|model: Result<RifeInterpolator, InterpolateError>|
            #[trigger] rife::default_answer(candidates, model) && match model {
                Ok(rife) => rife::rife_answer(rife.spec_path(), a, b, t, r),
                Err(e) => r matches Err(InterpolateError::InterpolateFailed(m)) && m@ == "rife: "@
                    + e.spec_message(Seq::empty()),
            },
    }
}

impl Fsr2RifeInterpolator {
    /// Create a new FSR2 + RIFE hybrid, once the upscaler was set up.
    ///
    /// # Errors
    ///
    /// The error of the upscaler's setup, if it failed.
    pub fn new(upscaler: Result<(), InterpolateError>) -> (r: Result<
        Fsr2RifeInterpolator,
        InterpolateError,
    >)
        ensures
            match upscaler {
                Ok(_) => r is Ok,
                Err(e) => r == Err::<Fsr2RifeInterpolator, _>(e),
            },
    {
        match upscaler {
            Ok(_) => Ok(Fsr2RifeInterpolator),
            Err(e) => Err(e),
        }
    }

    /// RIFE neural network interpolation, with the model at the first of the
    /// candidates where something exists.
    pub fn interpolate(
        &mut self,
        candidates: &Vec<ModelCandidate>,
        a: &GpuFrame,
        b: &GpuFrame,
        t: u32,
    ) -> (r: Result<GpuFrame, InterpolateError>)
        ensures
            hybrid_answer(candidates@, a@, b@, t, r),
    {
        match common::check_request(a, b, t) {
            Ok(_) => {},
            Err(e) => {
                return Err(e);
            },
        }
        let model = RifeInterpolator::from_default_path(candidates);
        let ghost found = model;
        assert(rife::default_answer(candidates@, found));
        match model {
            Ok(mut rife) => rife.interpolate(a, b, t),
            Err(e) => {
                let mut m = String::from_str("rife: ");
                m.append(e.message("").as_str());
                proof {
                    reveal_strlit("");
                    assert(""@ =~= Seq::<char>::empty());
                }
                Err(InterpolateError::InterpolateFailed(m))
            },
        }
    }

    /// RIFE is GPU-heavy — ~50ms per frame. IEEE 754 single-precision bits.
    #[must_use]
    pub fn latency_ms(&self) -> (r: u32)
        ensures
            r == 0x4248_0000,
    {
        0x4248_0000
    }

    /// Human-readable name of this backend.
    #[must_use]
    pub fn name(&self) -> (r: &'static str)
        ensures
            r@ == "fsr2-rife"@,
    {
        "fsr2-rife"
    }
}

/// The request is checked before a model is looked for, and no frame is made without one
/// that can be used: where none can, the error says that it comes from RIFE.
pub proof fn law_request_is_checked_first(
    candidates: Seq<ModelCandidate>,
    a: FrameView,
    b: FrameView,
    t: u32,
    r: Result<GpuFrame, InterpolateError>,
)
    requires
        hybrid_answer(candidates, a, b, t, r),
    ensures
        common::refusal(a, b, t) matches Some(e) ==> r == Err::<GpuFrame, _>(e),
        common::refusal(a, b, t) is None ==> r matches Err(InterpolateError::InterpolateFailed(_)),
{
}

} // verus!
