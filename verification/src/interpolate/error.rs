//! Error types for frame interpolation.

use vstd::prelude::*;

use crate::text;

verus! {

/// Errors from interpolation backends.
#[derive(Debug)]
pub enum InterpolateError {
    /// No interpolation backend is available on this system.
    NoBackend,
    /// The GPU device was lost (driver crash, hot-unplug, etc.).
    DeviceLost,
    /// The two input frames have different dimensions.
    /// Fields: `a.width`, `a.height`, `b.width`, `b.height`.
    DimensionMismatch(u32, u32, u32, u32),
    /// The interpolation factor is outside the valid range `0.0..=1.0`.
    /// Holds its IEEE 754 single-precision bits.
    InvalidFactor(u32),
    /// Backend-specific initialization failure.
    InitFailed(String),
    /// Backend-specific interpolation failure.
    InterpolateFailed(String),
}

impl InterpolateError {
    /// Text of the error; `factor` is the decimal text of the factor that an
    /// `InvalidFactor` holds.
    pub open spec fn spec_message(self, factor: Seq<char>) -> Seq<char> {
        match self {
            InterpolateError::NoBackend => "no interpolation backend available"@,
            InterpolateError::DeviceLost => "GPU device lost"@,
            InterpolateError::DimensionMismatch(aw, ah, bw, bh) => "frame dimensions mismatch: "@
                + text::decimal(aw as nat) + "x"@ + text::decimal(ah as nat) + " vs "@
                + text::decimal(bw as nat) + "x"@ + text::decimal(bh as nat),
            InterpolateError::InvalidFactor(_) => "invalid interpolation factor: "@ + factor
                + " (must be 0.0..=1.0)"@,
            InterpolateError::InitFailed(what) => "backend initialization failed: "@ + what@,
            InterpolateError::InterpolateFailed(what) => "interpolation failed: "@ + what@,
        }
    }

    /// Human-readable message. `factor` is the decimal text of the factor that
    /// an `InvalidFactor` holds; the other errors do not use it.
    pub fn message(&self, factor: &str) -> (r: String)
        ensures
            r@ == self.spec_message(factor@),
    {
        match self {
            InterpolateError::NoBackend => String::from_str("no interpolation backend available"),
            InterpolateError::DeviceLost => String::from_str("GPU device lost"),
            InterpolateError::DimensionMismatch(aw, ah, bw, bh) => {
                let mut r = String::from_str("frame dimensions mismatch: ");
                text::push_decimal(&mut r, *aw as u64);
                r.append("x");
                text::push_decimal(&mut r, *ah as u64);
                r.append(" vs ");
                text::push_decimal(&mut r, *bw as u64);
                r.append("x");
                text::push_decimal(&mut r, *bh as u64);
                r
            },
            InterpolateError::InvalidFactor(_) => {
                let mut r = String::from_str("invalid interpolation factor: ");
                r.append(factor);
                r.append(" (must be 0.0..=1.0)");
                r
            },
            InterpolateError::InitFailed(what) => {
                let mut r = String::from_str("backend initialization failed: ");
                r.append(what.as_str());
                r
            },
            InterpolateError::InterpolateFailed(what) => {
                let mut r = String::from_str("interpolation failed: ");
                r.append(what.as_str());
                r
            },
        }
    }
}

} // verus!
