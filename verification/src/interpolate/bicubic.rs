//! Catmull-Rom bicubic upscaling on the CPU.
//!
//! The sixteen source samples around each output sample are found and laid out
//! here; how they are weighed is up to the caller, whose weights are real
//! numbers.

use vstd::prelude::*;

use crate::interpolate::error::InterpolateError;
use crate::interpolate::frame::{FrameView, GpuFrame};

verus! {

/// `n` moved into `0..size`.
pub open spec fn clamped(n: int, size: int) -> int {
    if n < 0 {
        0
    } else if n >= size {
        size - 1
    } else {
        n
    }
}

/// The `k`-th of the four sample positions around a position whose whole part
/// is `floor`, along an axis of `size` samples. Positions outside of the axis
/// are moved to its nearest end.
pub open spec fn tap(floor: int, size: int, k: int) -> int {
    clamped(clamped(floor, size) + k - 1, size)
}

/// The sixteen bytes of one channel around a source position, row by row.
pub open spec fn neighbourhood(src: FrameView, x: i32, y: i32, channel: int) -> Seq<u8> {
    Seq::new(
        16,
        |i: int|
            src.data[tap(y as int, src.height as int, i / 4) * src.stride + tap(
                x as int,
                src.width as int,
                i % 4,
            ) * 4 + channel],
    )
}

/// Whether all samples around a source position can be read.
pub open spec fn readable(src: FrameView, x: i32, y: i32) -> bool {
    let row = tap(y as int, src.height as int, 3) * src.stride;
    let col = tap(x as int, src.width as int, 3) * 4;
    &&& 0 < src.width <= i32::MAX
    &&& 0 < src.height <= i32::MAX
    &&& row <= u32::MAX
    &&& col <= u32::MAX
    &&& row + col + 3 < src.data.len()
}

/// Whether `byte` is what the weights make of the samples around the output
/// byte `j` of rows of `stride` bytes. `xs` and `ys` hold the whole parts of
/// the source positions of the columns and rows.
pub open spec fn byte_mixed<F: Fn([u8; 16], u32, u32) -> u8>(
    src: FrameView,
    xs: Seq<i32>,
    ys: Seq<i32>,
    mix: F,
    stride: int,
    j: int,
    byte: u8,
) -> bool {
    let dy = j / stride;
    let dx = (j % stride) / 4;
    exists|taps: [u8; 16]|
        taps@ == neighbourhood(src, xs[dx], ys[dy], j % 4) && #[trigger] mix.ensures(
            (taps, dx as u32, dy as u32),
            byte,
        )
}

/// The four sample positions around a position whose whole part is `floor`.
pub fn tap_positions(floor: i32, size: u32) -> (r: [u32; 4])
    requires
        0 < size <= i32::MAX,
    ensures
        forall|k: int| 0 <= k < 4 ==> #[trigger] r@[k] == tap(floor as int, size as int, k),
{
    let last: u32 = size - 1;
    let base: u32 = if floor < 0 {
        0
    } else if floor as u32 > last {
        last
    } else {
        floor as u32
    };
    let before: u32 = if base == 0 {
        0
    } else {
        base - 1
    };
    let after: u32 = if base + 1 > last {
        last
    } else {
        base + 1
    };
    let beyond: u32 = if base + 2 > last {
        last
    } else {
        base + 2
    };
    [before, base, after, beyond]
}

proof fn lemma_tap_offset(row: int, last_row: int, stride: int)
    by (nonlinear_arith)
    requires
        0 <= row <= last_row,
        0 <= stride,
    ensures
        0 <= row * stride <= last_row * stride,
{
}

/// The sixteen bytes of one channel around a source position, row by row.
pub fn gather(src: &GpuFrame, x: i32, y: i32, channel: u32) -> (r: [u8; 16])
    requires
        channel < 4,
        readable(src@, x, y),
    ensures
        r@ == neighbourhood(src@, x, y, channel as int),
{
    let rows = tap_positions(y, src.height);
    let cols = tap_positions(x, src.width);
    let mut out: [u8; 16] = [0u8; 16];
    let ghost goal = neighbourhood(src@, x, y, channel as int);
    let mut i: usize = 0;
    while i < 16
        invariant
            i <= 16,
            channel < 4,
            readable(src@, x, y),
            goal == neighbourhood(src@, x, y, channel as int),
            forall|k: int|
                0 <= k < 4 ==> #[trigger] rows@[k] == tap(y as int, src.height as int, k),
            forall|k: int|
                0 <= k < 4 ==> #[trigger] cols@[k] == tap(x as int, src.width as int, k),
            forall|k: int| 0 <= k < i ==> #[trigger] out@[k] == goal[k],
        decreases 16 - i,
    {
        let row: u32 = rows[i / 4];
        let col: u32 = cols[i % 4];
        proof {
            lemma_tap_offset(
                row as int,
                tap(y as int, src.height as int, 3),
                src.stride as int,
            );
        }
        let at: usize = (row * src.stride) as usize;
        assert(at + col * 4 + channel < src.data.len());
        out[i] = src.data[at + (col * 4) as usize + channel as usize];
        i = i + 1;
    }
    assert(out@ =~= goal);
    out
}

/// CPU Catmull-Rom bicubic upscale.
///
/// Used as the default way to upscale and as fallback when GPU upscaling is
/// unavailable. `xs` and `ys` hold, for every column and row of the output, the
/// whole part of the source position; `mix` weighs the sixteen samples around
/// the position of an output column and row. Gives a tightly packed frame of
/// the requested size, with the timestamp of the source.
pub fn cpu_bicubic_upscale<F: Fn([u8; 16], u32, u32) -> u8>(
    src: &GpuFrame,
    dst_w: u32,
    dst_h: u32,
    xs: &Vec<i32>,
    ys: &Vec<i32>,
    mix: F,
) -> (r: Result<GpuFrame, InterpolateError>)
    requires
        dst_w * 4 <= u32::MAX,
        dst_w * 4 * dst_h <= u32::MAX,
        xs@.len() == dst_w,
        ys@.len() == dst_h,
        forall|dx: int, dy: int|
            #![trigger xs@[dx], ys@[dy]]
            0 <= dx < dst_w && 0 <= dy < dst_h ==> readable(src@, xs@[dx], ys@[dy]),
        forall|taps: [u8; 16], dx: u32, dy: u32|
            dx < dst_w && dy < dst_h ==> #[trigger] mix.requires((taps, dx, dy)),
    ensures
        r is Ok,
        r->Ok_0.width == dst_w,
        r->Ok_0.height == dst_h,
        r->Ok_0.stride == dst_w * 4,
        r->Ok_0.timestamp_ns == src.timestamp_ns,
        r->Ok_0.data@.len() == dst_w * 4 * dst_h,
        forall|j: int|
            0 <= j < r->Ok_0.data@.len() ==> byte_mixed(
                src@,
                xs@,
                ys@,
                mix,
                dst_w * 4,
                j,
                #[trigger] r->Ok_0.data@[j],
            ),
{
    let stride: u32 = dst_w * 4;
    let total: u32 = stride * dst_h;
    let mut data: Vec<u8> = Vec::with_capacity(total as usize);
    let mut j: u32 = 0;
    while j < total
        invariant
            j <= total,
            data@.len() == j,
            stride == dst_w * 4,
            total == stride * dst_h,
            xs@.len() == dst_w,
            ys@.len() == dst_h,
            forall|dx: int, dy: int|
                #![trigger xs@[dx], ys@[dy]]
                0 <= dx < dst_w && 0 <= dy < dst_h ==> readable(src@, xs@[dx], ys@[dy]),
            forall|taps: [u8; 16], dx: u32, dy: u32|
                dx < dst_w && dy < dst_h ==> #[trigger] mix.requires((taps, dx, dy)),
            forall|k: int|
                0 <= k < j ==> byte_mixed(
                    src@,
                    xs@,
                    ys@,
                    mix,
                    dst_w * 4,
                    k,
                    #[trigger] data@[k],
                ),
        decreases total - j,
    {
        proof {
            lemma_byte_place(j as int, dst_w as int, dst_h as int);
        }
        let dy: u32 = j / stride;
        let dx: u32 = (j % stride) / 4;
        let taps = gather(src, xs[dx as usize], ys[dy as usize], j % 4);
        let byte = mix(taps, dx, dy);
        assert(mix.ensures((taps, dx, dy), byte));
        data.push(byte);
        j = j + 1;
    }
    Ok(
        GpuFrame {
            data,
            width: dst_w,
            height: dst_h,
            stride,
            timestamp_ns: src.timestamp_ns,
        },
    )
}

proof fn lemma_byte_place(j: int, w: int, h: int)
    requires
        0 <= w,
        0 <= h,
        0 <= j < w * 4 * h,
    ensures
        0 < w,
        0 <= j / (w * 4) < h,
        0 <= j % (w * 4) < w * 4,
        (j % (w * 4)) / 4 < w,
{
    assert(0 < w) by (nonlinear_arith)
        requires
            0 <= w,
            0 <= h,
            0 <= j < w * 4 * h,
    ;
    let s = w * 4;
    assert(0 <= j / s < h) by (nonlinear_arith)
        requires
            0 < s,
            0 <= j < s * h,
    ;
}

/// The four positions along an axis are those from one before to two behind the whole
/// part of the source position, each moved to the nearest end where it lies outside.
pub proof fn law_taps_surround_the_position(floor: int, size: int, k: int)
    requires
        0 < size,
        0 <= k < 4,
    ensures
        0 <= tap(floor, size, k) < size,
        0 <= floor < size && 0 <= floor + k - 1 < size ==> tap(floor, size, k) == floor + k - 1,
        floor + k - 1 < 0 && floor >= 0 ==> tap(floor, size, k) == 0,
        floor < size <= floor + k - 1 ==> tap(floor, size, k) == size - 1,
        floor < 0 ==> tap(floor, size, k) == tap(0, size, k),
        floor >= size ==> tap(floor, size, k) == tap(size - 1, size, k),
{
}

/// Away from the edges, the samples around a source position are those of the four by
/// four pixels around it, row by row, all of the same channel.
pub proof fn law_samples_are_the_pixels_around(
    src: FrameView,
    x: i32,
    y: i32,
    channel: int,
    row: int,
    column: int,
)
    requires
        1 <= x < src.width - 2,
        1 <= y < src.height - 2,
        0 <= row < 4,
        0 <= column < 4,
    ensures
        neighbourhood(src, x, y, channel).len() == 16,
        neighbourhood(src, x, y, channel)[4 * row + column] == src.data[(y + row - 1) * src.stride
            + (x + column - 1) * 4 + channel],
{
    assert((4 * row + column) / 4 == row && (4 * row + column) % 4 == column);
    law_taps_surround_the_position(x as int, src.width as int, column);
    law_taps_surround_the_position(y as int, src.height as int, row);
}

/// Each channel of an output pixel is mixed from the samples of the same channel around
/// the source position of its column and its row.
pub proof fn law_output_pixels_are_mixed_in_place<F: Fn([u8; 16], u32, u32) -> u8>(
    src: FrameView,
    xs: Seq<i32>,
    ys: Seq<i32>,
    mix: F,
    width: int,
    px: int,
    py: int,
    channel: int,
    byte: u8,
)
    requires
        0 <= px < width,
        0 <= py,
        0 <= channel < 4,
        byte_mixed(src, xs, ys, mix, width * 4, py * (width * 4) + px * 4 + channel, byte),
    ensures
        exists|taps: [u8; 16]|
            taps@ == neighbourhood(src, xs[px], ys[py], channel) && #[trigger] mix.ensures(
                (taps, px as u32, py as u32),
                byte,
            ),
{
    let stride = width * 4;
    let r = px * 4 + channel;
    let j = py * stride + r;
    vstd::arithmetic::div_mod::lemma_fundamental_div_mod_converse(j, stride, py, r);
    assert(j % 4 == channel) by {
        assert(py * (width * 4) == 4 * (py * width)) by (nonlinear_arith);
    }
}

} // verus!
