//! Core frame interpolation trait and CPU fallback.

use vstd::prelude::*;

use crate::interpolate::backends::common;
use crate::interpolate::error::InterpolateError;
use crate::interpolate::factor;
use crate::interpolate::frame::{FrameView, GpuFrame};

verus! {

/// Core trait for frame interpolation backends.
///
/// Implementations generate intermediate frames between two real captured
/// frames using motion estimation (optical flow) and warping. The factor `t`
/// controls temporal position: 0.0 = frame `a`, 1.0 = frame `b`. It is given
/// by its IEEE 754 single-precision bits.
pub trait FrameInterpolator {
    /// Whether the backend can be asked about these frames; unless it says
    /// otherwise, about any.
    open spec fn ready_for(&self, a: FrameView, b: FrameView, t: u32) -> bool {
        true
    }

    /// Whether the backend may answer this for these frames; unless it says
    /// otherwise, nothing is promised.
    open spec fn may_answer(
        &self,
        a: FrameView,
        b: FrameView,
        t: u32,
        r: Result<GpuFrame, InterpolateError>,
    ) -> bool {
        true
    }

    /// Interpolate between frames `a` and `b` at temporal position `t`.
    ///
    /// # Errors
    ///
    /// Returns [`InterpolateError::InvalidFactor`] if `t` is outside `0.0..=1.0`,
    /// [`InterpolateError::DimensionMismatch`] if frames differ in size, or
    /// [`InterpolateError::InterpolateFailed`] on GPU/compute errors.
    fn interpolate(&mut self, a: &GpuFrame, b: &GpuFrame, t: u32) -> (r: Result<
        GpuFrame,
        InterpolateError,
    >)
        requires
            old(self).ready_for(a@, b@, t),
        ensures
            old(self).may_answer(a@, b@, t, r),
            common::refusal(a@, b@, t) matches Some(e) ==> r == Err::<GpuFrame, _>(e),
    ;

    /// Estimated latency of a single interpolation call in milliseconds, as
    /// IEEE 754 single-precision bits.
    fn latency_ms(&self) -> u32;

    /// Human-readable name of this backend.
    fn name(&self) -> &'static str;
}

/// CPU-only linear blend interpolation (universal fallback).
///
/// Performs per-pixel alpha blending between frames. No motion estimation —
/// fast but produces ghosting on moving objects. Suitable as a baseline
/// and for static/slow content.
#[derive(Debug, Clone, Copy)]
pub struct LinearBlendInterpolator;

/// One byte between two others, at a factor of `t / 256`, rounded down.
pub open spec fn blend_byte(a: u8, b: u8, t: nat) -> u8 {
    ((a * (256 - t) + b * t) / 256) as u8
}

/// Length that two frames have in common.
pub open spec fn common_len(a: Seq<u8>, b: Seq<u8>) -> nat {
    if a.len() <= b.len() {
        a.len()
    } else {
        b.len()
    }
}

/// The blend of two frames at a factor.
pub open spec fn blended(a: FrameView, b: FrameView, t: u32) -> FrameView {
    FrameView {
        data: Seq::new(
            common_len(a.data, b.data),
            |i: int| blend_byte(a.data[i], b.data[i], factor::in_256ths(t)),
        ),
        width: a.width,
        height: a.height,
        stride: a.stride,
        timestamp_ns: factor::timestamp_between(a.timestamp_ns, b.timestamp_ns, t) as u64,
    }
}

/// What the linear blend answers.
pub open spec fn blend_answer(
    a: FrameView,
    b: FrameView,
    t: u32,
    r: Result<GpuFrame, InterpolateError>,
) -> bool {
    if !factor::in_unit_range(t) {
        r == Err::<GpuFrame, _>(InterpolateError::InvalidFactor(t))
    } else if !a.same_dimensions(b) {
        r == Err::<GpuFrame, _>(
            InterpolateError::DimensionMismatch(a.width, a.height, b.width, b.height),
        )
    } else {
        r matches Ok(f) && f@ == blended(a, b, t)
    }
}

/// Whether the timestamp between two frames can be represented.
pub open spec fn timestamp_fits(a: FrameView, b: FrameView, t: u32) -> bool {
    factor::in_unit_range(t) && a.same_dimensions(b) ==> factor::timestamp_between(
        a.timestamp_ns,
        b.timestamp_ns,
        t,
    ) <= u64::MAX
}

proof fn lemma_blend_bound(a: u8, b: u8, t: nat)
    requires
        t <= 256,
    ensures
        0 <= a * (256 - t) + b * t <= 65280,
        0 <= a * (256 - t) <= 65280,
        0 <= b * t <= 65280,
{
    assert(0 <= a * (256 - t) + b * t <= 65280 && 0 <= a * (256 - t) <= 65280 && 0 <= b * t
        <= 65280) by (nonlinear_arith)
        requires
            0 <= t <= 256,
            0 <= a <= 255,
            0 <= b <= 255,
    ;
}

impl FrameInterpolator for LinearBlendInterpolator {
    open spec fn ready_for(&self, a: FrameView, b: FrameView, t: u32) -> bool {
        timestamp_fits(a, b, t)
    }

    open spec fn may_answer(
        &self,
        a: FrameView,
        b: FrameView,
        t: u32,
        r: Result<GpuFrame, InterpolateError>,
    ) -> bool {
        blend_answer(a, b, t, r)
    }

    fn interpolate(&mut self, a: &GpuFrame, b: &GpuFrame, t: u32) -> (r: Result<
        GpuFrame,
        InterpolateError,
    >) {
        if !factor::is_in_unit_range(t) {
            return Err(InterpolateError::InvalidFactor(t));
        }
        if !a.same_dimensions(b) {
            return Err(
                InterpolateError::DimensionMismatch(a.width, a.height, b.width, b.height),
            );
        }
        let len: usize = if a.data.len() <= b.data.len() {
            a.data.len()
        } else {
            b.data.len()
        };
        // Quantize blend factor to 0..256 for integer math (no FP on hot path).
        let t_fixed: u16 = factor::to_256ths(t);
        let inv_t: u16 = 256 - t_fixed;
        let mut result: Vec<u8> = Vec::with_capacity(len);
        let ghost goal = blended(a@, b@, t);
        let mut i: usize = 0;
        while i < len
            invariant
                i <= len,
                len == common_len(a@.data, b@.data),
                t_fixed == factor::in_256ths(t),
                t_fixed <= 256,
                inv_t == 256 - t_fixed,
                goal == blended(a@, b@, t),
                result@ == goal.data.subrange(0, i as int),
            decreases len - i,
        {
            let va: u16 = a.data[i] as u16;
            let vb: u16 = b.data[i] as u16;
            proof {
                lemma_blend_bound(a.data@[i as int], b.data@[i as int], t_fixed as nat);
            }
            let sum: u16 = va * inv_t + vb * t_fixed;
            result.push((sum / 256) as u8);
            assert(result@ =~= goal.data.subrange(0, i + 1));
            i = i + 1;
        }
        assert(result@ =~= goal.data);
        Ok(
            GpuFrame {
                data: result,
                width: a.width,
                height: a.height,
                stride: a.stride,
                // Interpolated timestamp: linear between a and b.
                timestamp_ns: factor::timestamp_at(a.timestamp_ns, b.timestamp_ns, t),
            },
        )
    }

    /// ~0.5ms for 1080p on modern CPU.
    fn latency_ms(&self) -> (r: u32)
        ensures
            r == 0x3f00_0000,
    {
        0x3f00_0000
    }

    fn name(&self) -> (r: &'static str)
        ensures
            r@ == "linear-blend"@,
    {
        "linear-blend"
    }
}

/// A blended byte lies between the two it is made of, and moves towards the
/// second one as the factor grows.
pub proof fn law_blended_byte_is_between_and_monotone(a: u8, b: u8, s: nat, t: nat)
    requires
        s <= t <= 256,
    ensures
        a <= b ==> a <= blend_byte(a, b, s) <= blend_byte(a, b, t) <= b,
        b <= a ==> b <= blend_byte(a, b, t) <= blend_byte(a, b, s) <= a,
{
    let x = a * (256 - s) + b * s;
    let y = a * (256 - t) + b * t;
    assert(a <= b ==> a * 256 <= x <= y <= b * 256) by (nonlinear_arith)
        requires
            0 <= s <= t <= 256,
            x == a * (256 - s) + b * s,
            y == a * (256 - t) + b * t,
    ;
    assert(b <= a ==> b * 256 <= y <= x <= a * 256) by (nonlinear_arith)
        requires
            0 <= s <= t <= 256,
            x == a * (256 - s) + b * s,
            y == a * (256 - t) + b * t,
    ;
}

/// At factor 0, of either sign, the blend shows the first frame, at factor 1 the
/// second: in every byte that the two have in common, and in the timestamp where
/// the frames are in order; at factor 1 the time between them must also be a
/// number of double precision, as it is up to 2^53 nanoseconds.
pub proof fn law_blend_meets_both_ends(a: FrameView, b: FrameView)
    ensures
        blended(a, b, 0).data == a.data.subrange(0, common_len(a.data, b.data) as int),
        blended(a, b, 0).timestamp_ns == a.timestamp_ns,
        blended(a, b, factor::NEGATIVE_ZERO_BITS) == blended(a, b, 0),
        blended(a, b, factor::ONE_BITS).data == b.data.subrange(
            0,
            common_len(a.data, b.data) as int,
        ),
        a.timestamp_ns <= b.timestamp_ns && factor::round53(
            (b.timestamp_ns - a.timestamp_ns) as nat,
        ) == b.timestamp_ns - a.timestamp_ns ==> blended(a, b, factor::ONE_BITS).timestamp_ns
            == b.timestamp_ns,
        a.timestamp_ns <= b.timestamp_ns && b.timestamp_ns - a.timestamp_ns
            <= 0x20_0000_0000_0000 ==> blended(a, b, factor::ONE_BITS).timestamp_ns
            == b.timestamp_ns,
{
    factor::law_quantized_factor_is_monotone(0, factor::ONE_BITS);
    if a.timestamp_ns <= b.timestamp_ns {
        factor::law_timestamp_stays_between(a.timestamp_ns, b.timestamp_ns, 0);
        factor::law_timestamp_stays_between(a.timestamp_ns, b.timestamp_ns, factor::ONE_BITS);
    }
    let n = common_len(a.data, b.data) as int;
    assert(blended(a, b, 0).data =~= a.data.subrange(0, n));
    assert(blended(a, b, factor::ONE_BITS).data =~= b.data.subrange(0, n));
    assert(blended(a, b, factor::NEGATIVE_ZERO_BITS).data =~= blended(a, b, 0).data);
}

/// The later the position, the further every byte has moved from the first
/// frame to the second.
pub proof fn law_blend_is_monotone(a: FrameView, b: FrameView, s: u32, t: u32, i: int)
    requires
        factor::in_unit_range(s),
        factor::in_unit_range(t),
        factor::rank(s) <= factor::rank(t),
        0 <= i < common_len(a.data, b.data),
    ensures
        a.data[i] <= b.data[i] ==> a.data[i] <= blended(a, b, s).data[i] <= blended(
            a,
            b,
            t,
        ).data[i] <= b.data[i],
        b.data[i] <= a.data[i] ==> b.data[i] <= blended(a, b, t).data[i] <= blended(
            a,
            b,
            s,
        ).data[i] <= a.data[i],
{
    factor::law_quantized_factor_is_monotone(s, t);
    law_blended_byte_is_between_and_monotone(
        a.data[i],
        b.data[i],
        factor::in_256ths(s),
        factor::in_256ths(t),
    );
}

/// The blend is linear: at a factor of `t / 256`, a byte has gone `t / 256` of the
/// way from the first frame to the second, rounded down to a whole number. Half way
/// it is the mean of the two, and blending the other way round at the rest of the
/// factor gives the same.
pub proof fn law_blend_is_linear(a: u8, b: u8, t: nat)
    requires
        t <= 256,
    ensures
        256 * blend_byte(a, b, t) <= 256 * a + t * (b - a) < 256 * blend_byte(a, b, t) + 256,
        blend_byte(a, b, 128) == (a + b) / 2,
        blend_byte(a, b, t) == blend_byte(b, a, (256 - t) as nat),
{
    lemma_blend_bound(a, b, t);
    assert(a * (256 - t) + b * t == 256 * a + t * (b - a)) by (nonlinear_arith);
}

/// Every byte of a blend is that of the two frames at the same place, at the
/// quantized factor, and the layout is that of the frames.
pub proof fn law_blend_keeps_places(a: FrameView, b: FrameView, t: u32, i: int)
    requires
        factor::in_unit_range(t),
        a.same_dimensions(b),
        a.data.len() == b.data.len(),
        0 <= i < a.data.len(),
    ensures
        ({
            let f = blended(a, b, t);
            let q = factor::in_256ths(t);
            &&& f.data.len() == a.data.len()
            &&& 256 * f.data[i] <= 256 * a.data[i] + q * (b.data[i] - a.data[i]) < 256 * f.data[i]
                + 256
            &&& f.width == a.width
            &&& f.height == a.height
            &&& f.stride == a.stride
            &&& a.timestamp_ns <= b.timestamp_ns <= a.timestamp_ns + 0x2000_0000
                ==> a.timestamp_ns <= f.timestamp_ns <= b.timestamp_ns
            &&& b.timestamp_ns < a.timestamp_ns ==> f.timestamp_ns == a.timestamp_ns
        }),
{
    factor::law_quantized_factor_is_monotone(t, factor::ONE_BITS);
    law_blend_is_linear(a.data[i], b.data[i], factor::in_256ths(t));
    if a.timestamp_ns <= b.timestamp_ns {
        factor::law_timestamp_stays_between(a.timestamp_ns, b.timestamp_ns, t);
    }
}

/// The blend answers every request: with the refusal where the factor is out of range or
/// the frames differ, and otherwise with a frame of their layout, in which each byte has
/// gone as much of the way from the first to the second as the quantized factor says.
pub proof fn law_blend_answers_every_request(
    a: FrameView,
    b: FrameView,
    t: u32,
    r: Result<GpuFrame, InterpolateError>,
    i: int,
)
    requires
        blend_answer(a, b, t, r),
    ensures
        match r {
            Err(e) => common::refusal(a, b, t) == Some(e),
            Ok(f) => {
                &&& common::refusal(a, b, t) is None
                &&& f.width == a.width && f.height == a.height && f.stride == a.stride
                &&& a.data.len() == b.data.len() ==> f.data@.len() == a.data.len()
                &&& a.data.len() == b.data.len() && 0 <= i < a.data.len() ==> 256 * f.data@[i]
                    <= 256 * a.data[i] + factor::in_256ths(t) * (b.data[i] - a.data[i]) < 256
                    * f.data@[i] + 256
            },
        },
{
    if common::refusal(a, b, t) is None && a.data.len() == b.data.len() && 0 <= i < a.data.len() {
        law_blend_keeps_places(a, b, t, i);
        assert(r->Ok_0@.data == r->Ok_0.data@);
    }
}

} // verus!
