//! Server-side downscaling of RGBA frames.

use vstd::prelude::*;

verus! {

/// Position in the source that a destination position falls on.
pub open spec fn source_pos(d: int, src: int, dst: int) -> int {
    d * src / dst
}

/// End of the source span that a destination position covers: at least one
/// past its start, at most the source's length.
pub open spec fn source_end(d: int, src: int, dst: int) -> int {
    let start = source_pos(d, src, dst);
    let raw = source_pos(d + 1, src, dst);
    let end = if raw > start + 1 {
        raw
    } else {
        start + 1
    };
    if end < src {
        end
    } else {
        src
    }
}

/// Row of byte `k` in tightly packed RGBA rows of `w` pixels.
pub open spec fn row_of(k: int, w: int) -> int {
    k / (w * 4)
}

/// Column of byte `k` in tightly packed RGBA rows of `w` pixels.
pub open spec fn col_of(k: int, w: int) -> int {
    (k % (w * 4)) / 4
}

/// Channel of byte `k`.
pub open spec fn channel_of(k: int, w: int) -> int {
    (k % (w * 4)) % 4
}

/// The bytes of a nearest-neighbour image.
pub open spec fn nearest(
    src: Seq<u8>,
    src_w: int,
    src_h: int,
    src_stride: int,
    dst_w: int,
    dst_h: int,
) -> Seq<u8> {
    Seq::new(
        (dst_w * 4 * dst_h) as nat,
        |k: int|
            src[source_pos(row_of(k, dst_w), src_h, dst_h) * src_stride + source_pos(
                col_of(k, dst_w),
                src_w,
                dst_w,
            ) * 4 + channel_of(k, dst_w)],
    )
}

/// Whether the source pixels up to column `x` of row `y` can be addressed.
pub open spec fn addressable(len: int, stride: int, x: int, y: int) -> bool {
    &&& y * stride <= u32::MAX
    &&& x * 4 <= u32::MAX
    &&& y * stride + x * 4 + 4 <= len
}

/// Sum of one channel over the columns `x0..x1` of the row that starts at `base`.
pub open spec fn row_sum(src: Seq<u8>, base: int, x0: int, x1: int, c: int) -> nat
    decreases x1 - x0,
{
    if x1 <= x0 {
        0
    } else {
        row_sum(src, base, x0, x1 - 1, c) + src[base + (x1 - 1) * 4 + c] as nat
    }
}

/// Sum of one channel over the rectangle `x0..x1 × y0..y1`.
pub open spec fn block_sum(
    src: Seq<u8>,
    stride: int,
    x0: int,
    x1: int,
    y0: int,
    y1: int,
    c: int,
) -> nat
    decreases y1 - y0,
{
    if y1 <= y0 {
        0
    } else {
        block_sum(src, stride, x0, x1, y0, y1 - 1, c) + row_sum(src, (y1 - 1) * stride, x0, x1, c)
    }
}

/// Average of one channel over the rectangle, rounded down.
pub open spec fn block_average(
    src: Seq<u8>,
    stride: int,
    x0: int,
    x1: int,
    y0: int,
    y1: int,
    c: int,
) -> u8 {
    (block_sum(src, stride, x0, x1, y0, y1, c) as int / ((x1 - x0) * (y1 - y0))) as u8
}

/// Dimensions of a downscale: of the source, then of the destination.
#[derive(Debug, Clone, Copy)]
pub struct Scaling {
    /// Source width in pixels.
    pub src_w: u32,
    /// Source height in pixels.
    pub src_h: u32,
    /// Bytes per source row.
    pub src_stride: u32,
    /// Destination width in pixels.
    pub dst_w: u32,
    /// Destination height in pixels.
    pub dst_h: u32,
}

impl Scaling {
    /// The destination fits 32-bit arithmetic.
    pub open spec fn dst_fits(self) -> bool {
        self.dst_w * 4 <= u32::MAX && self.dst_w * 4 * self.dst_h <= u32::MAX
    }

    /// Every pixel that nearest-neighbour scaling picks can be addressed.
    pub open spec fn nearest_readable(self, len: int) -> bool {
        self.dst_w > 0 && self.dst_h > 0 ==> addressable(
            len,
            self.src_stride as int,
            source_pos(self.dst_w - 1, self.src_w as int, self.dst_w as int),
            source_pos(self.dst_h - 1, self.src_h as int, self.dst_h as int),
        )
    }

    /// Whether there are pixels to write and pixels to read.
    pub open spec fn nonempty(self) -> bool {
        self.dst_w > 0 && self.dst_h > 0 && self.src_w > 0 && self.src_h > 0
    }

    /// Every pixel that the box filter averages can be addressed, and no block
    /// has more than 32 bits can count.
    pub open spec fn box_readable(self, len: int) -> bool {
        self.nonempty() ==> {
            &&& addressable(
                len,
                self.src_stride as int,
                source_end(self.dst_w - 1, self.src_w as int, self.dst_w as int) - 1,
                source_end(self.dst_h - 1, self.src_h as int, self.dst_h as int) - 1,
            )
            &&& forall|dx: int, dy: int|
                0 <= dx < self.dst_w && 0 <= dy < self.dst_h ==> #[trigger] self.block_area(dx, dy)
                    <= u32::MAX
        }
    }

    /// Whether a destination pixel covers a source pixel.
    pub open spec fn covers(self, dx: int, dy: int, x: int, y: int) -> bool {
        &&& source_pos(dx, self.src_w as int, self.dst_w as int) <= x < source_end(
            dx,
            self.src_w as int,
            self.dst_w as int,
        )
        &&& source_pos(dy, self.src_h as int, self.dst_h as int) <= y < source_end(
            dy,
            self.src_h as int,
            self.dst_h as int,
        )
    }

    /// Number of source pixels that a destination pixel covers.
    pub open spec fn block_area(self, dx: int, dy: int) -> int {
        (source_end(dx, self.src_w as int, self.dst_w as int) - source_pos(
            dx,
            self.src_w as int,
            self.dst_w as int,
        )) * (source_end(dy, self.src_h as int, self.dst_h as int) - source_pos(
            dy,
            self.src_h as int,
            self.dst_h as int,
        ))
    }

    /// One channel of a destination pixel: the average over what it covers.
    pub open spec fn box_value(self, src: Seq<u8>, dx: int, dy: int, c: int) -> u8 {
        block_average(
            src,
            self.src_stride as int,
            source_pos(dx, self.src_w as int, self.dst_w as int),
            source_end(dx, self.src_w as int, self.dst_w as int),
            source_pos(dy, self.src_h as int, self.dst_h as int),
            source_end(dy, self.src_h as int, self.dst_h as int),
            c,
        )
    }

    /// The bytes of destination row `dy` of a box-filtered image.
    pub open spec fn box_row(self, src: Seq<u8>, dy: int) -> Seq<u8> {
        Seq::new((self.dst_w * 4) as nat, |k: int| self.box_value(src, k / 4, dy, k % 4))
    }

    /// The bytes of a box-filtered image: blank if the source has no pixel.
    pub open spec fn boxed(self, src: Seq<u8>) -> Seq<u8> {
        Seq::new(
            (self.dst_w * 4 * self.dst_h) as nat,
            |k: int|
                if self.nonempty() {
                    self.box_value(
                        src,
                        col_of(k, self.dst_w as int),
                        row_of(k, self.dst_w as int),
                        channel_of(k, self.dst_w as int),
                    )
                } else {
                    0u8
                },
        )
    }
}

/// Where a position falls grows with the position and stays inside the source.
proof fn lemma_source_pos(d: int, e: int, src: int, dst: int)
    requires
        0 <= d <= e,
        0 <= src,
        0 < dst,
    ensures
        0 <= source_pos(d, src, dst) <= source_pos(e, src, dst),
        d < dst ==> source_pos(d, src, dst) <= src,
        d < dst && src > 0 ==> source_pos(d, src, dst) < src,
        d <= dst ==> source_pos(d, src, dst) <= src,
{
    vstd::arithmetic::mul::lemma_mul_inequality(d, e, src);
    vstd::arithmetic::mul::lemma_mul_nonnegative(d, src);
    vstd::arithmetic::div_mod::lemma_div_is_ordered(d * src, e * src, dst);
    vstd::arithmetic::div_mod::lemma_div_pos_is_pos(d * src, dst);
    vstd::arithmetic::mul::lemma_mul_is_commutative(src, dst);
    if d <= dst {
        vstd::arithmetic::mul::lemma_mul_inequality(d, dst, src);
        vstd::arithmetic::div_mod::lemma_div_is_ordered(d * src, dst * src, dst);
        vstd::arithmetic::div_mod::lemma_div_multiples_vanish(src, dst);
    }
    if d < dst && src > 0 {
        vstd::arithmetic::mul::lemma_mul_strict_inequality(d, dst, src);
        vstd::arithmetic::div_mod::lemma_multiply_divide_lt(d * src, dst, src);
    }
}

/// The span of a destination position is not empty and ends inside the source;
/// the spans of later positions end no earlier.
proof fn lemma_source_span(d: int, e: int, src: int, dst: int)
    requires
        0 <= d <= e < dst,
        0 < src,
    ensures
        0 <= source_pos(d, src, dst) < source_end(d, src, dst) <= src,
        source_end(d, src, dst) <= source_end(e, src, dst),
{
    lemma_source_pos(d, e, src, dst);
    lemma_source_pos(d + 1, e + 1, src, dst);
}

/// Byte `(dy * w + dx) * 4 + c` is channel `c` of pixel `dx` in row `dy`.
proof fn lemma_pixel_index(dx: int, dy: int, c: int, w: int)
    requires
        0 <= dx < w,
        0 <= dy,
        0 <= c < 4,
    ensures
        row_of(dy * (w * 4) + dx * 4 + c, w) == dy,
        col_of(dy * (w * 4) + dx * 4 + c, w) == dx,
        channel_of(dy * (w * 4) + dx * 4 + c, w) == c,
{
    let k = dy * (w * 4) + dx * 4 + c;
    vstd::arithmetic::div_mod::lemma_fundamental_div_mod_converse(k, w * 4, dy, dx * 4 + c);
    vstd::arithmetic::div_mod::lemma_fundamental_div_mod_converse(dx * 4 + c, 4, dx, c);
}

/// Addressing is monotone: what reaches pixel `(x, y)` reaches every pixel
/// above and to the left of it.
proof fn lemma_addressable(len: int, stride: int, x: int, y: int, x2: int, y2: int)
    requires
        addressable(len, stride, x2, y2),
        0 <= x <= x2,
        0 <= y <= y2,
        0 <= stride,
    ensures
        addressable(len, stride, x, y),
        0 <= y * stride,
{
    vstd::arithmetic::mul::lemma_mul_inequality(y, y2, stride);
    vstd::arithmetic::mul::lemma_mul_nonnegative(y, stride);
}

/// Position in the source that a destination position falls on.
fn source_start(d: u32, src: u32, dst: u32) -> (r: u32)
    requires
        d <= dst,
        dst > 0,
    ensures
        r == source_pos(d as int, src as int, dst as int),
{
    proof {
        lemma_source_pos(d as int, d as int, src as int, dst as int);
        vstd::arithmetic::mul::lemma_mul_upper_bound(
            d as int,
            u32::MAX as int,
            src as int,
            u32::MAX as int,
        );
        vstd::arithmetic::mul::lemma_mul_nonnegative(d as int, src as int);
    }
    (d as u64 * src as u64 / dst as u64) as u32
}

/// Nearest-neighbor downscale of an RGBA frame.
///
/// `src` is the source pixel data, `src_w × src_h` at `src_stride` bytes per row.
/// Writes into `dst` (cleared first). Returns the destination stride.
///
/// Picks a single source pixel per destination pixel — fast but causes severe
/// aliasing on non-axis-aligned content and destroys the GPU's anti-aliasing.
/// Prefer `downscale_box` unless CPU budget is the binding constraint.
pub fn downscale_nearest(
    src: &[u8],
    src_w: u32,
    src_h: u32,
    src_stride: u32,
    dst_w: u32,
    dst_h: u32,
    dst: &mut Vec<u8>,
) -> (r: u32)
    requires
        (Scaling { src_w, src_h, src_stride, dst_w, dst_h }).dst_fits(),
        (Scaling { src_w, src_h, src_stride, dst_w, dst_h }).nearest_readable(src@.len() as int),
    ensures
        r == dst_w * 4,
        final(dst)@ == nearest(
            src@,
            src_w as int,
            src_h as int,
            src_stride as int,
            dst_w as int,
            dst_h as int,
        ),
{
    let s = Scaling { src_w, src_h, src_stride, dst_w, dst_h };
    let dst_stride: u32 = s.dst_w * 4;
    dst.clear();
    let ghost image = nearest(
        src@,
        s.src_w as int,
        s.src_h as int,
        s.src_stride as int,
        s.dst_w as int,
        s.dst_h as int,
    );
    let mut dy: u32 = 0;
    assert(dst@ =~= image.subrange(0, 0 * dst_stride));
    while dy < s.dst_h
        invariant
            dy <= s.dst_h,
            s.dst_fits(),
            s.nearest_readable(src@.len() as int),
            dst_stride == s.dst_w * 4,
            image == nearest(
                src@,
                s.src_w as int,
                s.src_h as int,
                s.src_stride as int,
                s.dst_w as int,
                s.dst_h as int,
            ),
            image.len() == dst_stride * s.dst_h,
            dy * dst_stride <= image.len(),
            dst@ == image.subrange(0, dy * dst_stride),
        decreases s.dst_h - dy,
    {
        let sy: u32 = source_start(dy, s.src_h, s.dst_h);
        let ghost row = dy * dst_stride;
        proof {
            vstd::arithmetic::mul::lemma_mul_inequality(dy + 1, s.dst_h as int, dst_stride as int);
            vstd::arithmetic::mul::lemma_mul_is_distributive_add_other_way(
                dst_stride as int,
                dy as int,
                1,
            );
            vstd::arithmetic::mul::lemma_mul_is_commutative(dst_stride as int, s.dst_h as int);
        }
        let mut dx: u32 = 0;
        while dx < s.dst_w
            invariant
                dx <= s.dst_w,
                dy < s.dst_h,
                s.dst_fits(),
                s.nearest_readable(src@.len() as int),
                dst_stride == s.dst_w * 4,
                sy == source_pos(dy as int, s.src_h as int, s.dst_h as int),
                image == nearest(
                    src@,
                    s.src_w as int,
                    s.src_h as int,
                    s.src_stride as int,
                    s.dst_w as int,
                    s.dst_h as int,
                ),
                row == dy * dst_stride,
                0 <= row,
                row + dst_stride <= image.len(),
                dst@ == image.subrange(0, row + dx * 4),
            decreases s.dst_w - dx,
        {
            let sx: u32 = source_start(dx, s.src_w, s.dst_w);
            proof {
                lemma_source_pos(dx as int, s.dst_w - 1, s.src_w as int, s.dst_w as int);
                lemma_source_pos(dy as int, s.dst_h - 1, s.src_h as int, s.dst_h as int);
                lemma_addressable(
                    src@.len() as int,
                    s.src_stride as int,
                    sx as int,
                    sy as int,
                    source_pos(s.dst_w - 1, s.src_w as int, s.dst_w as int),
                    source_pos(s.dst_h - 1, s.src_h as int, s.dst_h as int),
                );
                lemma_pixel_index(dx as int, dy as int, 0, s.dst_w as int);
                lemma_pixel_index(dx as int, dy as int, 1, s.dst_w as int);
                lemma_pixel_index(dx as int, dy as int, 2, s.dst_w as int);
                lemma_pixel_index(dx as int, dy as int, 3, s.dst_w as int);
            }
            assert(src@.len() == src.len());
            let si: usize = (sy * s.src_stride) as usize + (sx * 4) as usize;
            dst.push(src[si]);
            dst.push(src[si + 1]);
            dst.push(src[si + 2]);
            dst.push(src[si + 3]);
            assert(dst@ =~= image.subrange(0, row + (dx + 1) * 4));
            dx = dx + 1;
        }
        dy = dy + 1;
    }
    proof {
        vstd::arithmetic::mul::lemma_mul_is_commutative(dst_stride as int, s.dst_h as int);
        assert(image.subrange(0, dy * dst_stride) =~= image);
    }
    dst_stride
}

proof fn lemma_row_sum_bound(src: Seq<u8>, base: int, x0: int, x1: int, c: int)
    requires
        x0 <= x1,
    ensures
        row_sum(src, base, x0, x1, c) <= 255 * (x1 - x0),
    decreases x1 - x0,
{
    if x0 < x1 {
        lemma_row_sum_bound(src, base, x0, x1 - 1, c);
    }
}

proof fn lemma_block_sum_bound(
    src: Seq<u8>,
    stride: int,
    x0: int,
    x1: int,
    y0: int,
    y1: int,
    c: int,
)
    requires
        x0 <= x1,
        y0 <= y1,
    ensures
        block_sum(src, stride, x0, x1, y0, y1, c) <= 255 * ((x1 - x0) * (y1 - y0)),
    decreases y1 - y0,
{
    if y0 < y1 {
        lemma_block_sum_bound(src, stride, x0, x1, y0, y1 - 1, c);
        lemma_row_sum_bound(src, (y1 - 1) * stride, x0, x1, c);
        assert((x1 - x0) * (y1 - y0) == (x1 - x0) * (y1 - 1 - y0) + (x1 - x0)) by (nonlinear_arith);
    } else {
        assert((x1 - x0) * (y1 - y0) == 0) by (nonlinear_arith)
            requires
                y1 == y0,
        ;
    }
}

/// Sums of the four channels over a rectangle of the source.
struct Sums {
    r: u64,
    g: u64,
    b: u64,
    a: u64,
}

/// Sums the four channels over `x0..x1 × y0..y1`.
fn sum_block(src: &[u8], stride: u32, x0: u32, x1: u32, y0: u32, y1: u32) -> (t: Sums)
    requires
        x0 < x1,
        y0 < y1,
        addressable(src@.len() as int, stride as int, x1 - 1, y1 - 1),
        (x1 - x0) * (y1 - y0) <= u32::MAX,
    ensures
        t.r == block_sum(src@, stride as int, x0 as int, x1 as int, y0 as int, y1 as int, 0),
        t.g == block_sum(src@, stride as int, x0 as int, x1 as int, y0 as int, y1 as int, 1),
        t.b == block_sum(src@, stride as int, x0 as int, x1 as int, y0 as int, y1 as int, 2),
        t.a == block_sum(src@, stride as int, x0 as int, x1 as int, y0 as int, y1 as int, 3),
        t.r <= 255 * ((x1 - x0) * (y1 - y0)),
        t.g <= 255 * ((x1 - x0) * (y1 - y0)),
        t.b <= 255 * ((x1 - x0) * (y1 - y0)),
        t.a <= 255 * ((x1 - x0) * (y1 - y0)),
{
    let ghost p = src@;
    let ghost st = stride as int;
    let mut t = Sums { r: 0, g: 0, b: 0, a: 0 };
    let mut y: u32 = y0;
    while y < y1
        invariant
            x0 < x1,
            y0 <= y <= y1,
            p == src@,
            st == stride,
            addressable(src@.len() as int, stride as int, x1 - 1, y1 - 1),
            (x1 - x0) * (y1 - y0) <= u32::MAX,
            t.r == block_sum(p, st, x0 as int, x1 as int, y0 as int, y as int, 0),
            t.g == block_sum(p, st, x0 as int, x1 as int, y0 as int, y as int, 1),
            t.b == block_sum(p, st, x0 as int, x1 as int, y0 as int, y as int, 2),
            t.a == block_sum(p, st, x0 as int, x1 as int, y0 as int, y as int, 3),
        decreases y1 - y,
    {
        proof {
            lemma_addressable(p.len() as int, st, x1 - 1, y as int, x1 - 1, y1 - 1);
        }
        let row: usize = (y * stride) as usize;
        let ghost before = t;
        let mut x: u32 = x0;
        while x < x1
            invariant
                x0 <= x <= x1,
                x0 < x1,
                y0 <= y < y1,
                p == src@,
                st == stride,
                row == y * stride,
                addressable(src@.len() as int, stride as int, x1 - 1, y as int),
                (x1 - x0) * (y1 - y0) <= u32::MAX,
                before.r == block_sum(p, st, x0 as int, x1 as int, y0 as int, y as int, 0),
                before.g == block_sum(p, st, x0 as int, x1 as int, y0 as int, y as int, 1),
                before.b == block_sum(p, st, x0 as int, x1 as int, y0 as int, y as int, 2),
                before.a == block_sum(p, st, x0 as int, x1 as int, y0 as int, y as int, 3),
                t.r == before.r + row_sum(p, row as int, x0 as int, x as int, 0),
                t.g == before.g + row_sum(p, row as int, x0 as int, x as int, 1),
                t.b == before.b + row_sum(p, row as int, x0 as int, x as int, 2),
                t.a == before.a + row_sum(p, row as int, x0 as int, x as int, 3),
            decreases x1 - x,
        {
            proof {
                lemma_block_sum_bound(p, st, x0 as int, x1 as int, y0 as int, y as int, 0);
                lemma_block_sum_bound(p, st, x0 as int, x1 as int, y0 as int, y as int, 1);
                lemma_block_sum_bound(p, st, x0 as int, x1 as int, y0 as int, y as int, 2);
                lemma_block_sum_bound(p, st, x0 as int, x1 as int, y0 as int, y as int, 3);
                lemma_row_sum_bound(p, row as int, x0 as int, x as int, 0);
                lemma_row_sum_bound(p, row as int, x0 as int, x as int, 1);
                lemma_row_sum_bound(p, row as int, x0 as int, x as int, 2);
                lemma_row_sum_bound(p, row as int, x0 as int, x as int, 3);
                vstd::arithmetic::mul::lemma_mul_inequality(y - y0, y1 - y0, x1 - x0);
                vstd::arithmetic::mul::lemma_mul_is_commutative(y - y0, x1 - x0);
                vstd::arithmetic::mul::lemma_mul_is_commutative(y1 - y0, x1 - x0);
            }
            assert(src@.len() == src.len());
            let off: usize = row + (x * 4) as usize;
            t.r = t.r + src[off] as u64;
            t.g = t.g + src[off + 1] as u64;
            t.b = t.b + src[off + 2] as u64;
            t.a = t.a + src[off + 3] as u64;
            x = x + 1;
        }
        y = y + 1;
    }
    proof {
        lemma_block_sum_bound(p, st, x0 as int, x1 as int, y0 as int, y1 as int, 0);
        lemma_block_sum_bound(p, st, x0 as int, x1 as int, y0 as int, y1 as int, 1);
        lemma_block_sum_bound(p, st, x0 as int, x1 as int, y0 as int, y1 as int, 2);
        lemma_block_sum_bound(p, st, x0 as int, x1 as int, y0 as int, y1 as int, 3);
    }
    t
}

proof fn lemma_average_fits(sum: int, count: int)
    requires
        0 <= sum <= 255 * count,
        0 < count,
    ensures
        0 <= sum / count <= 255,
{
    vstd::arithmetic::div_mod::lemma_div_is_ordered(sum, 255 * count, count);
    vstd::arithmetic::div_mod::lemma_div_multiples_vanish(255, count);
    vstd::arithmetic::mul::lemma_mul_is_commutative(255, count);
    vstd::arithmetic::div_mod::lemma_div_pos_is_pos(sum, count);
}

/// Appends destination row `dy` of the box-filtered image to `dst`. The rows
/// are independent of each other, so workers can share them out.
pub fn append_box_row(src: &[u8], s: Scaling, dy: u32, dst: &mut Vec<u8>)
    requires
        s.nonempty(),
        s.dst_fits(),
        s.box_readable(src@.len() as int),
        dy < s.dst_h,
    ensures
        final(dst)@ == old(dst)@ + s.box_row(src@, dy as int),
{
    let ghost base = dst@;
    let ghost full = s.box_row(src@, dy as int);
    let y0: u32 = source_start(dy, s.src_h, s.dst_h);
    let y_raw: u32 = source_start(dy + 1, s.src_h, s.dst_h);
    proof {
        lemma_source_span(dy as int, s.dst_h - 1, s.src_h as int, s.dst_h as int);
    }
    let y_end: u32 = if y_raw > y0 + 1 {
        y_raw
    } else {
        y0 + 1
    };
    let y1: u32 = if y_end < s.src_h {
        y_end
    } else {
        s.src_h
    };
    let mut dx: u32 = 0;
    assert(dst@ =~= base + full.subrange(0, 0));
    while dx < s.dst_w
        invariant
            dx <= s.dst_w,
            dy < s.dst_h,
            s.nonempty(),
            s.dst_fits(),
            s.box_readable(src@.len() as int),
            y0 == source_pos(dy as int, s.src_h as int, s.dst_h as int),
            y1 == source_end(dy as int, s.src_h as int, s.dst_h as int),
            full == s.box_row(src@, dy as int),
            dst@ == base + full.subrange(0, dx * 4),
        decreases s.dst_w - dx,
    {
        let x0: u32 = source_start(dx, s.src_w, s.dst_w);
        let x_raw: u32 = source_start(dx + 1, s.src_w, s.dst_w);
        proof {
            lemma_source_span(dx as int, s.dst_w - 1, s.src_w as int, s.dst_w as int);
            lemma_source_span(dy as int, s.dst_h - 1, s.src_h as int, s.dst_h as int);
        }
        let x_end: u32 = if x_raw > x0 + 1 {
            x_raw
        } else {
            x0 + 1
        };
        let x1: u32 = if x_end < s.src_w {
            x_end
        } else {
            s.src_w
        };
        proof {
            assert(s.block_area(dx as int, dy as int) <= u32::MAX);
            lemma_addressable(
                src@.len() as int,
                s.src_stride as int,
                x1 - 1,
                y1 - 1,
                source_end(s.dst_w - 1, s.src_w as int, s.dst_w as int) - 1,
                source_end(s.dst_h - 1, s.src_h as int, s.dst_h as int) - 1,
            );
        }
        let t = sum_block(src, s.src_stride, x0, x1, y0, y1);
        assert(0 < (x1 - x0) * (y1 - y0)) by (nonlinear_arith)
            requires
                x0 < x1,
                y0 < y1,
        ;
        let count: u64 = (x1 - x0) as u64 * (y1 - y0) as u64;
        proof {
            lemma_average_fits(t.r as int, count as int);
            lemma_average_fits(t.g as int, count as int);
            lemma_average_fits(t.b as int, count as int);
            lemma_average_fits(t.a as int, count as int);
        }
        dst.push((t.r / count) as u8);
        dst.push((t.g / count) as u8);
        dst.push((t.b / count) as u8);
        dst.push((t.a / count) as u8);
        proof {
            assert(full[dx * 4] == s.box_value(src@, dx as int, dy as int, 0));
            assert(full[dx * 4 + 1] == s.box_value(src@, dx as int, dy as int, 1));
            assert(full[dx * 4 + 2] == s.box_value(src@, dx as int, dy as int, 2));
            assert(full[dx * 4 + 3] == s.box_value(src@, dx as int, dy as int, 3));
            assert(dst@ =~= base + full.subrange(0, (dx + 1) * 4));
        }
        dx = dx + 1;
    }
    assert(full.subrange(0, dx * 4) =~= full);
}

/// Row `dy` of the image is what the row alone is.
proof fn lemma_boxed_row(s: Scaling, src: Seq<u8>, dy: int)
    requires
        s.nonempty(),
        0 <= dy < s.dst_h,
    ensures
        dy * (s.dst_w * 4) + s.dst_w * 4 <= s.boxed(src).len(),
        0 <= dy * (s.dst_w * 4),
        s.boxed(src).subrange(dy * (s.dst_w * 4), dy * (s.dst_w * 4) + s.dst_w * 4) == s.box_row(
            src,
            dy,
        ),
{
    let w4 = s.dst_w * 4;
    vstd::arithmetic::mul::lemma_mul_inequality(dy + 1, s.dst_h as int, w4);
    vstd::arithmetic::mul::lemma_mul_is_distributive_add_other_way(w4, dy, 1);
    vstd::arithmetic::mul::lemma_mul_is_commutative(w4, s.dst_h as int);
    vstd::arithmetic::mul::lemma_mul_nonnegative(dy, w4);
    let part = s.boxed(src).subrange(dy * w4, dy * w4 + w4);
    assert forall|k: int| 0 <= k < w4 implies part[k] == s.box_row(src, dy)[k] by {
        lemma_pixel_index(k / 4, dy, k % 4, s.dst_w as int);
        assert(dy * w4 + k == dy * (s.dst_w * 4) + (k / 4) * 4 + k % 4);
    }
    assert(part =~= s.box_row(src, dy));
}

/// Area-weighted (box-filter) downscale of an RGBA frame.
///
/// Each destination pixel is the unweighted average of every source pixel in
/// the half-open rectangle `[sx0, sx1) × [sy0, sy1)` that the destination
/// pixel covers, with the bounds derived from the integer ratio
/// `dst_w / src_w × dst_h / src_h`. This preserves the energy/anti-aliasing
/// already present in the source — critical for keeping text strokes and
/// thin UI lines intact through the wire so the client-side FSR upscaler
/// has something coherent to reconstruct from.
///
/// For 0.5× scale every destination pixel averages a clean 2×2 block; for
/// non-integer ratios some destination pixels cover 2×2 and others 3×2 / 3×3,
/// which is correct (it varies by sub-pixel alignment).
///
/// Where the destination is no smaller than the source in some direction, a
/// destination pixel covers at least the one source pixel that it falls on.
/// The caller should skip downscaling where it is smaller in neither.
pub fn downscale_box(
    src: &[u8],
    src_w: u32,
    src_h: u32,
    src_stride: u32,
    dst_w: u32,
    dst_h: u32,
    dst: &mut Vec<u8>,
) -> (r: u32)
    requires
        (Scaling { src_w, src_h, src_stride, dst_w, dst_h }).dst_fits(),
        (Scaling { src_w, src_h, src_stride, dst_w, dst_h }).box_readable(src@.len() as int),
    ensures
        r == dst_w * 4,
        final(dst)@ == (Scaling { src_w, src_h, src_stride, dst_w, dst_h }).boxed(src@),
{
    let s = Scaling { src_w, src_h, src_stride, dst_w, dst_h };
    let dst_stride: u32 = s.dst_w * 4;
    dst.clear();
    let ghost image = s.boxed(src@);
    if s.dst_w == 0 || s.dst_h == 0 || s.src_w == 0 || s.src_h == 0 {
        dst.resize((dst_stride * s.dst_h) as usize, 0);
        assert(dst@ =~= image);
        return dst_stride;
    }
    let mut dy: u32 = 0;
    assert(dst@ =~= image.subrange(0, 0 * dst_stride));
    while dy < s.dst_h
        invariant
            dy <= s.dst_h,
            s.nonempty(),
            s.dst_fits(),
            s.box_readable(src@.len() as int),
            dst_stride == s.dst_w * 4,
            image == s.boxed(src@),
            dy * dst_stride <= image.len(),
            dst@ == image.subrange(0, dy * dst_stride),
        decreases s.dst_h - dy,
    {
        append_box_row(src, s, dy, dst);
        proof {
            lemma_boxed_row(s, src@, dy as int);
            vstd::arithmetic::mul::lemma_mul_is_distributive_add_other_way(
                dst_stride as int,
                dy as int,
                1,
            );
            assert(dst@ =~= image.subrange(0, (dy + 1) * dst_stride));
        }
        dy = dy + 1;
    }
    proof {
        vstd::arithmetic::mul::lemma_mul_is_commutative(dst_stride as int, s.dst_h as int);
        assert(image.subrange(0, dy * dst_stride) =~= image);
    }
    dst_stride
}

proof fn lemma_row_sum_range(src: Seq<u8>, base: int, x0: int, x1: int, c: int, lo: u8, hi: u8)
    requires
        x0 <= x1,
        forall|x: int|
            x0 <= x < x1 ==> lo <= #[trigger] src[base + x * 4 + c] <= hi,
    ensures
        lo * (x1 - x0) <= row_sum(src, base, x0, x1, c) <= hi * (x1 - x0),
    decreases x1 - x0,
{
    if x0 < x1 {
        lemma_row_sum_range(src, base, x0, x1 - 1, c, lo, hi);
        assert(lo <= src[base + (x1 - 1) * 4 + c] <= hi);
        vstd::arithmetic::mul::lemma_mul_is_distributive_add(lo as int, x1 - 1 - x0, 1);
        vstd::arithmetic::mul::lemma_mul_is_distributive_add(hi as int, x1 - 1 - x0, 1);
    } else {
        vstd::arithmetic::mul::lemma_mul_basics(lo as int);
        vstd::arithmetic::mul::lemma_mul_basics(hi as int);
    }
}

proof fn lemma_block_sum_range(
    src: Seq<u8>,
    stride: int,
    x0: int,
    x1: int,
    y0: int,
    y1: int,
    c: int,
    lo: u8,
    hi: u8,
)
    requires
        x0 <= x1,
        y0 <= y1,
        forall|x: int, y: int|
            x0 <= x < x1 && y0 <= y < y1 ==> lo <= #[trigger] src[y * stride + x * 4 + c] <= hi,
    ensures
        lo * ((x1 - x0) * (y1 - y0)) <= block_sum(src, stride, x0, x1, y0, y1, c) <= hi * ((x1 - x0)
            * (y1 - y0)),
    decreases y1 - y0,
{
    if y0 < y1 {
        lemma_block_sum_range(src, stride, x0, x1, y0, y1 - 1, c, lo, hi);
        assert forall|x: int| x0 <= x < x1 implies lo <= #[trigger] src[(y1 - 1) * stride + x * 4
            + c] <= hi by {}
        lemma_row_sum_range(src, (y1 - 1) * stride, x0, x1, c, lo, hi);
        let w = x1 - x0;
        let h = y1 - 1 - y0;
        assert(w * (y1 - y0) == w * h + w) by (nonlinear_arith)
            requires
                h == y1 - 1 - y0,
        ;
        vstd::arithmetic::mul::lemma_mul_is_distributive_add(lo as int, w * h, w);
        vstd::arithmetic::mul::lemma_mul_is_distributive_add(hi as int, w * h, w);
    } else {
        assert((x1 - x0) * (y1 - y0) == 0) by (nonlinear_arith)
            requires
                y1 == y0,
        ;
        vstd::arithmetic::mul::lemma_mul_basics(lo as int);
        vstd::arithmetic::mul::lemma_mul_basics(hi as int);
    }
}

/// A box average lies between the smallest and the largest value that the
/// channel has in the block. In particular a uniform colour comes out
/// unchanged.
pub proof fn law_box_average_is_between(
    s: Scaling,
    src: Seq<u8>,
    dx: int,
    dy: int,
    c: int,
    lo: u8,
    hi: u8,
)
    requires
        s.src_w > 0,
        s.src_h > 0,
        0 <= dx < s.dst_w,
        0 <= dy < s.dst_h,
        forall|x: int, y: int|
            s.covers(dx, dy, x, y) ==> lo <= #[trigger] src[y * s.src_stride + x * 4 + c] <= hi,
    ensures
        lo <= s.box_value(src, dx, dy, c) <= hi,
{
    let x0 = source_pos(dx, s.src_w as int, s.dst_w as int);
    let x1 = source_end(dx, s.src_w as int, s.dst_w as int);
    let y0 = source_pos(dy, s.src_h as int, s.dst_h as int);
    let y1 = source_end(dy, s.src_h as int, s.dst_h as int);
    lemma_source_span(dx, dx, s.src_w as int, s.dst_w as int);
    lemma_source_span(dy, dy, s.src_h as int, s.dst_h as int);
    let n = (x1 - x0) * (y1 - y0);
    assert(0 < n) by (nonlinear_arith)
        requires
            x0 < x1,
            y0 < y1,
            n == (x1 - x0) * (y1 - y0),
    ;
    lemma_block_sum_range(src, s.src_stride as int, x0, x1, y0, y1, c, lo, hi);
    let sum = block_sum(src, s.src_stride as int, x0, x1, y0, y1, c) as int;
    vstd::arithmetic::div_mod::lemma_div_is_ordered(lo * n, sum, n);
    vstd::arithmetic::div_mod::lemma_div_is_ordered(sum, hi * n, n);
    vstd::arithmetic::div_mod::lemma_div_multiples_vanish(lo as int, n);
    vstd::arithmetic::div_mod::lemma_div_multiples_vanish(hi as int, n);
    vstd::arithmetic::mul::lemma_mul_is_commutative(lo as int, n);
    vstd::arithmetic::mul::lemma_mul_is_commutative(hi as int, n);
}

/// Downscaling a frame of one colour gives that colour everywhere.
pub proof fn law_box_preserves_solid_colour(s: Scaling, src: Seq<u8>, v: u8)
    requires
        s.src_w > 0,
        s.src_h > 0,
        forall|x: int, y: int, c: int|
            0 <= x < s.src_w && 0 <= y < s.src_h && 0 <= c < 4 ==> #[trigger] src[y * s.src_stride
                + x * 4 + c] == v,
    ensures
        s.boxed(src) == Seq::new((s.dst_w * 4 * s.dst_h) as nat, |k: int| v),
{
    let n = s.dst_w * 4 * s.dst_h;
    assert forall|k: int| 0 <= k < n implies #[trigger] s.boxed(src)[k] == v by {
        let w4 = s.dst_w * 4;
        let dy = row_of(k, s.dst_w as int);
        let dx = col_of(k, s.dst_w as int);
        let c = channel_of(k, s.dst_w as int);
        vstd::arithmetic::div_mod::lemma_div_pos_is_pos(k, w4);
        vstd::arithmetic::div_mod::lemma_mod_bound(k, w4);
        vstd::arithmetic::div_mod::lemma_multiply_divide_lt(k, w4, s.dst_h as int);
        vstd::arithmetic::mul::lemma_mul_is_commutative(w4, s.dst_h as int);
        lemma_source_span(dx, dx, s.src_w as int, s.dst_w as int);
        lemma_source_span(dy, dy, s.src_h as int, s.dst_h as int);
        assert forall|x: int, y: int| s.covers(dx, dy, x, y) implies v <= #[trigger] src[y
            * s.src_stride + x * 4 + c] <= v by {}
        law_box_average_is_between(s, src, dx, dy, c, v, v);
    }
    assert(s.boxed(src) =~= Seq::new(n as nat, |k: int| v));
}

/// At half scale every destination pixel averages a clean block of two: the
/// span of position `d` is `2d..2d + 2`.
pub proof fn law_half_scale_takes_pairs(d: int, dst: int)
    requires
        0 <= d < dst,
    ensures
        source_pos(d, 2 * dst, dst) == 2 * d,
        source_end(d, 2 * dst, dst) == 2 * d + 2,
{
    assert(d * (2 * dst) == dst * (2 * d)) by (nonlinear_arith);
    assert((d + 1) * (2 * dst) == dst * (2 * d + 2)) by (nonlinear_arith);
    vstd::arithmetic::div_mod::lemma_div_multiples_vanish(2 * d, dst);
    vstd::arithmetic::div_mod::lemma_div_multiples_vanish(2 * d + 2, dst);
    assert(2 * d + 2 <= 2 * dst);
}

/// When shrinking, the spans follow each other without gap or overlap and the
/// last one ends where the source does: each source position is averaged into
/// exactly one destination position.
pub proof fn law_spans_tile_the_source(d: int, src: int, dst: int)
    requires
        0 <= d < dst <= src,
    ensures
        source_pos(0, src, dst) == 0,
        source_end(d, src, dst) == if d + 1 < dst {
            source_pos(d + 1, src, dst)
        } else {
            src
        },
        source_pos(d, src, dst) < source_end(d, src, dst),
{
    let start = source_pos(d, src, dst);
    let raw = source_pos(d + 1, src, dst);
    lemma_source_span(d, d, src, dst);
    lemma_source_pos(d + 1, d + 1, src, dst);
    vstd::arithmetic::mul::lemma_mul_is_distributive_add_other_way(src, d, 1);
    vstd::arithmetic::div_mod::lemma_div_is_ordered(d * src + dst, d * src + src, dst);
    vstd::arithmetic::div_mod::lemma_div_plus_one(d * src, dst);
    assert(raw >= start + 1);
    vstd::arithmetic::div_mod::lemma_div_multiples_vanish(src, dst);
    vstd::arithmetic::div_mod::lemma_basic_div(0, dst);
    vstd::arithmetic::mul::lemma_mul_basics(src);
}

/// Box filtering to the same size copies a tightly packed frame.
pub proof fn law_box_same_size_is_copy(s: Scaling, src: Seq<u8>)
    requires
        s.src_w == s.dst_w,
        s.src_h == s.dst_h,
        s.src_stride == s.src_w * 4,
        src.len() == s.src_w * 4 * s.src_h,
    ensures
        s.boxed(src) == src,
{
    let w = s.src_w as int;
    let h = s.src_h as int;
    assert forall|k: int| 0 <= k < src.len() implies #[trigger] s.boxed(src)[k] == src[k] by {
        let w4 = w * 4;
        let y = row_of(k, w);
        let x = col_of(k, w);
        let c = channel_of(k, w);
        let m = k % w4;
        if w == 0 || h == 0 {
            vstd::arithmetic::mul::lemma_mul_basics(w4);
            vstd::arithmetic::mul::lemma_mul_basics(h);
        }
        vstd::arithmetic::div_mod::lemma_fundamental_div_mod(k, w4);
        vstd::arithmetic::div_mod::lemma_fundamental_div_mod(m, 4);
        vstd::arithmetic::div_mod::lemma_mod_bound(k, w4);
        vstd::arithmetic::div_mod::lemma_div_pos_is_pos(k, w4);
        vstd::arithmetic::mul::lemma_mul_is_commutative(w4, h);
        vstd::arithmetic::div_mod::lemma_multiply_divide_lt(k, w4, h);
        vstd::arithmetic::mul::lemma_mul_is_commutative(w4, y);
        lemma_own_span(x, w);
        lemma_own_span(y, h);
        assert(row_sum(src, y * w4, x, x + 1, c) == src[y * w4 + x * 4 + c]) by {
            reveal_with_fuel(row_sum, 2);
        }
        assert(block_sum(src, w4, x, x + 1, y, y + 1, c) == row_sum(src, y * w4, x, x + 1, c)) by {
            reveal_with_fuel(block_sum, 2);
        }
        assert((x + 1 - x) * (y + 1 - y) == 1) by (nonlinear_arith);
        assert(s.box_value(src, x, y, c) == src[y * w4 + x * 4 + c]);
        assert(k == y * w4 + x * 4 + c);
    }
    assert(s.boxed(src) =~= src);
}

/// At equal lengths a position covers itself.
proof fn lemma_own_span(d: int, n: int)
    requires
        0 <= d < n,
    ensures
        source_pos(d, n, n) == d,
        source_end(d, n, n) == d + 1,
{
    vstd::arithmetic::div_mod::lemma_div_multiples_vanish(d, n);
    vstd::arithmetic::div_mod::lemma_div_multiples_vanish(d + 1, n);
    vstd::arithmetic::mul::lemma_mul_is_commutative(d, n);
    vstd::arithmetic::mul::lemma_mul_is_commutative(d + 1, n);
}

/// Nearest-neighbour scaling to the same size copies a tightly packed frame.
pub proof fn law_nearest_same_size_is_copy(src: Seq<u8>, w: int, h: int)
    requires
        0 < w,
        0 < h,
        src.len() == w * 4 * h,
    ensures
        nearest(src, w, h, w * 4, w, h) == src,
{
    let image = nearest(src, w, h, w * 4, w, h);
    assert forall|k: int| 0 <= k < src.len() implies #[trigger] image[k] == src[k] by {
        let y = row_of(k, w);
        let m = k % (w * 4);
        vstd::arithmetic::div_mod::lemma_fundamental_div_mod(k, w * 4);
        vstd::arithmetic::div_mod::lemma_fundamental_div_mod(m, 4);
        vstd::arithmetic::div_mod::lemma_mod_bound(k, w * 4);
        vstd::arithmetic::div_mod::lemma_div_multiples_vanish(y, h);
        vstd::arithmetic::div_mod::lemma_div_multiples_vanish(col_of(k, w), w);
        vstd::arithmetic::mul::lemma_mul_is_commutative(y, h);
        vstd::arithmetic::mul::lemma_mul_is_commutative(col_of(k, w), w);
        vstd::arithmetic::mul::lemma_mul_is_commutative(w * 4, y);
    }
    assert(image =~= src);
}

/// Where the byte of a channel of a pixel stands in tightly packed rows.
proof fn lemma_place(w: int, h: int, x: int, y: int, c: int)
    requires
        0 <= x < w,
        0 <= y < h,
        0 <= c < 4,
    ensures
        ({
            let k = (y * w + x) * 4 + c;
            &&& 0 <= k < w * 4 * h
            &&& row_of(k, w) == y
            &&& col_of(k, w) == x
            &&& channel_of(k, w) == c
        }),
{
    let k = (y * w + x) * 4 + c;
    assert(k == y * (w * 4) + x * 4 + c && 0 <= k < w * 4 * h) by (nonlinear_arith)
        requires
            k == (y * w + x) * 4 + c,
            0 <= x < w,
            0 <= y < h,
            0 <= c < 4,
    ;
    lemma_pixel_index(x, y, c, w);
}

/// The position that is found is the one whose share of the source begins last at or
/// before that of the destination position.
proof fn lemma_position(d: int, src: int, dst: int, p: int)
    requires
        dst > 0,
        p * dst <= d * src < (p + 1) * dst,
    ensures
        source_pos(d, src, dst) == p,
{
    let r = d * src - p * dst;
    assert(0 <= r < dst) by (nonlinear_arith)
        requires
            r == d * src - p * dst,
            p * dst <= d * src < (p + 1) * dst,
    ;
    vstd::arithmetic::div_mod::lemma_fundamental_div_mod_converse(d * src, dst, p, r);
}

/// Nearest-neighbour scaling takes each pixel whole, all its channels in their order,
/// from the source pixel that the top left corner of the destination pixel falls
/// into: the one in column `sx` and row `sy`, where `sx` is the largest number with
/// `sx / src_w <= dx / dst_w`, and `sy` likewise.
pub proof fn law_nearest_takes_the_pixel_at_the_corner(
    src: Seq<u8>,
    s: Scaling,
    dx: int,
    dy: int,
    sx: int,
    sy: int,
    c: int,
)
    requires
        0 <= dx < s.dst_w,
        0 <= dy < s.dst_h,
        0 <= c < 4,
        sx * s.dst_w <= dx * s.src_w < (sx + 1) * s.dst_w,
        sy * s.dst_h <= dy * s.src_h < (sy + 1) * s.dst_h,
    ensures
        ({
            let image = nearest(
                src,
                s.src_w as int,
                s.src_h as int,
                s.src_stride as int,
                s.dst_w as int,
                s.dst_h as int,
            );
            &&& image.len() == s.dst_w * 4 * s.dst_h
            &&& image[(dy * s.dst_w + dx) * 4 + c] == src[sy * s.src_stride + sx * 4 + c]
        }),
{
    lemma_place(s.dst_w as int, s.dst_h as int, dx, dy, c);
    lemma_position(dx, s.src_w as int, s.dst_w as int, sx);
    lemma_position(dy, s.src_h as int, s.dst_h as int, sy);
}

/// Sum of numbers.
pub open spec fn total(values: Seq<int>) -> int
    decreases values.len(),
{
    if values.len() == 0 {
        0
    } else {
        total(values.drop_last()) + values.last()
    }
}

/// One channel of the `w × h` pixels from column `x0` and row `y0`, row by row.
pub open spec fn window(
    src: Seq<u8>,
    stride: int,
    x0: int,
    y0: int,
    w: int,
    h: int,
    c: int,
) -> Seq<int> {
    Seq::new((w * h) as nat, |i: int| src[(y0 + i / w) * stride + (x0 + i % w) * 4 + c] as int)
}

proof fn lemma_total_of_both(a: Seq<int>, b: Seq<int>)
    ensures
        total(a + b) == total(a) + total(b),
    decreases b.len(),
{
    if b.len() == 0 {
        assert(a + b =~= a);
    } else {
        lemma_total_of_both(a, b.drop_last());
        assert((a + b).drop_last() =~= a + b.drop_last());
    }
}

proof fn lemma_total_of_row(src: Seq<u8>, base: int, x0: int, n: int, c: int)
    requires
        0 <= n,
    ensures
        total(Seq::new(n as nat, |i: int| src[base + (x0 + i) * 4 + c] as int)) == row_sum(
            src,
            base,
            x0,
            x0 + n,
            c,
        ),
    decreases n,
{
    if n > 0 {
        lemma_total_of_row(src, base, x0, n - 1, c);
        assert(Seq::new(n as nat, |i: int| src[base + (x0 + i) * 4 + c] as int).drop_last()
            =~= Seq::new((n - 1) as nat, |i: int| src[base + (x0 + i) * 4 + c] as int));
    }
}

proof fn lemma_total_of_window(
    src: Seq<u8>,
    stride: int,
    x0: int,
    y0: int,
    w: int,
    h: int,
    c: int,
)
    requires
        0 < w,
        0 <= h,
    ensures
        total(window(src, stride, x0, y0, w, h, c)) == block_sum(
            src,
            stride,
            x0,
            x0 + w,
            y0,
            y0 + h,
            c,
        ),
    decreases h,
{
    let all = window(src, stride, x0, y0, w, h, c);
    if h == 0 {
        assert(w * h == 0) by (nonlinear_arith)
            requires
                h == 0,
        ;
    } else {
        let above = window(src, stride, x0, y0, w, h - 1, c);
        let base = (y0 + h - 1) * stride;
        let last = Seq::new(w as nat, |i: int| src[base + (x0 + i) * 4 + c] as int);
        lemma_total_of_window(src, stride, x0, y0, w, h - 1, c);
        lemma_total_of_row(src, base, x0, w, c);
        assert(w * h == w * (h - 1) + w && 0 <= w * (h - 1)) by (nonlinear_arith)
            requires
                0 < w,
                0 < h,
        ;
        assert forall|i: int| 0 <= i < all.len() implies all[i] == (above + last)[i] by {
            if i >= w * (h - 1) {
                let r = i - w * (h - 1);
                vstd::arithmetic::mul::lemma_mul_is_commutative(w, h - 1);
                vstd::arithmetic::div_mod::lemma_fundamental_div_mod_converse(i, w, h - 1, r);
            }
        }
        assert(all =~= above + last);
        lemma_total_of_both(above, last);
    }
}

proof fn lemma_last_end(src: int, dst: int)
    requires
        dst > 0,
    ensures
        source_pos(dst, src, dst) == src,
{
    vstd::arithmetic::mul::lemma_mul_is_commutative(src, dst);
    vstd::arithmetic::div_mod::lemma_div_multiples_vanish(src, dst);
}

/// When shrinking, a channel of a box-filtered pixel is the mean of that channel over
/// all the source pixels that the destination pixel covers, rounded down: those from
/// column `x0` up to column `x1` and from row `y0` up to row `y1`, where the edges are
/// those of the destination pixel, rounded down to whole source pixels. Every one of
/// them counts, and all count alike.
pub proof fn law_box_is_the_mean_of_what_is_covered(
    src: Seq<u8>,
    s: Scaling,
    dx: int,
    dy: int,
    x0: int,
    x1: int,
    y0: int,
    y1: int,
    c: int,
)
    requires
        s.dst_w <= s.src_w,
        s.dst_h <= s.src_h,
        0 <= dx < s.dst_w,
        0 <= dy < s.dst_h,
        0 <= c < 4,
        x0 * s.dst_w <= dx * s.src_w < (x0 + 1) * s.dst_w,
        x1 * s.dst_w <= (dx + 1) * s.src_w < (x1 + 1) * s.dst_w,
        y0 * s.dst_h <= dy * s.src_h < (y0 + 1) * s.dst_h,
        y1 * s.dst_h <= (dy + 1) * s.src_h < (y1 + 1) * s.dst_h,
    ensures
        ({
            let v = s.boxed(src)[(dy * s.dst_w + dx) * 4 + c];
            let n = (x1 - x0) * (y1 - y0);
            let sum = total(window(src, s.src_stride as int, x0, y0, x1 - x0, y1 - y0, c));
            &&& s.boxed(src).len() == s.dst_w * 4 * s.dst_h
            &&& x0 < x1 && y0 < y1
            &&& v * n <= sum < (v + 1) * n
        }),
{
    lemma_place(s.dst_w as int, s.dst_h as int, dx, dy, c);
    lemma_position(dx, s.src_w as int, s.dst_w as int, x0);
    lemma_position(dx + 1, s.src_w as int, s.dst_w as int, x1);
    lemma_position(dy, s.src_h as int, s.dst_h as int, y0);
    lemma_position(dy + 1, s.src_h as int, s.dst_h as int, y1);
    law_spans_tile_the_source(dx, s.src_w as int, s.dst_w as int);
    law_spans_tile_the_source(dy, s.src_h as int, s.dst_h as int);
    lemma_source_span(dx, dx, s.src_w as int, s.dst_w as int);
    lemma_source_span(dy, dy, s.src_h as int, s.dst_h as int);
    if dx + 1 == s.dst_w {
        lemma_last_end(s.src_w as int, s.dst_w as int);
    }
    if dy + 1 == s.dst_h {
        lemma_last_end(s.src_h as int, s.dst_h as int);
    }
    let n = (x1 - x0) * (y1 - y0);
    assert(0 < n) by (nonlinear_arith)
        requires
            x0 < x1,
            y0 < y1,
            n == (x1 - x0) * (y1 - y0),
    ;
    lemma_total_of_window(src, s.src_stride as int, x0, y0, x1 - x0, y1 - y0, c);
    let sum = block_sum(src, s.src_stride as int, x0, x1, y0, y1, c) as int;
    lemma_block_sum_range(src, s.src_stride as int, x0, x1, y0, y1, c, 0, 255);
    vstd::arithmetic::div_mod::lemma_fundamental_div_mod(sum, n);
    let q = sum / n;
    assert(q * n <= sum < (q + 1) * n && 0 <= q <= 255) by (nonlinear_arith)
        requires
            sum == n * q + sum % n,
            0 <= sum % n < n,
            0 <= sum <= 255 * n,
    ;
}

/// At any scale a channel of a box-filtered pixel is the mean of that channel over the
/// source pixels from its upper left corner to its lower right one, rounded down to whole
/// pixels, and over at least one column and one row. So where a side is enlarged, every
/// source pixel on it is repeated.
pub proof fn law_box_is_the_mean_at_any_scale(
    src: Seq<u8>,
    s: Scaling,
    dx: int,
    dy: int,
    x0: int,
    ex: int,
    y0: int,
    ey: int,
    c: int,
)
    requires
        0 < s.src_w,
        0 < s.src_h,
        0 <= dx < s.dst_w,
        0 <= dy < s.dst_h,
        0 <= c < 4,
        x0 * s.dst_w <= dx * s.src_w < (x0 + 1) * s.dst_w,
        ex * s.dst_w <= (dx + 1) * s.src_w < (ex + 1) * s.dst_w,
        y0 * s.dst_h <= dy * s.src_h < (y0 + 1) * s.dst_h,
        ey * s.dst_h <= (dy + 1) * s.src_h < (ey + 1) * s.dst_h,
    ensures
        ({
            let v = s.boxed(src)[(dy * s.dst_w + dx) * 4 + c];
            let w = if ex > x0 + 1 {
                ex - x0
            } else {
                1
            };
            let h = if ey > y0 + 1 {
                ey - y0
            } else {
                1
            };
            let sum = total(window(src, s.src_stride as int, x0, y0, w, h, c));
            v * (w * h) <= sum < (v + 1) * (w * h)
        }),
{
    lemma_place(s.dst_w as int, s.dst_h as int, dx, dy, c);
    lemma_position(dx, s.src_w as int, s.dst_w as int, x0);
    lemma_position(dx + 1, s.src_w as int, s.dst_w as int, ex);
    lemma_position(dy, s.src_h as int, s.dst_h as int, y0);
    lemma_position(dy + 1, s.src_h as int, s.dst_h as int, ey);
    lemma_source_span(dx, dx, s.src_w as int, s.dst_w as int);
    lemma_source_span(dy, dy, s.src_h as int, s.dst_h as int);
    lemma_end_inside(dx, s.src_w as int, s.dst_w as int);
    lemma_end_inside(dy, s.src_h as int, s.dst_h as int);
    let x1 = source_end(dx, s.src_w as int, s.dst_w as int);
    let y1 = source_end(dy, s.src_h as int, s.dst_h as int);
    let w = x1 - x0;
    let h = y1 - y0;
    assert(w == if ex > x0 + 1 {
        ex - x0
    } else {
        1
    });
    assert(h == if ey > y0 + 1 {
        ey - y0
    } else {
        1
    });
    let n = w * h;
    assert(0 < n) by (nonlinear_arith)
        requires
            0 < w,
            0 < h,
            n == w * h,
    ;
    lemma_total_of_window(src, s.src_stride as int, x0, y0, w, h, c);
    let sum = block_sum(src, s.src_stride as int, x0, x1, y0, y1, c) as int;
    lemma_block_sum_range(src, s.src_stride as int, x0, x1, y0, y1, c, 0, 255);
    vstd::arithmetic::div_mod::lemma_fundamental_div_mod(sum, n);
    let q = sum / n;
    assert(q * n <= sum < (q + 1) * n && 0 <= q <= 255) by (nonlinear_arith)
        requires
            sum == n * q + sum % n,
            0 <= sum % n < n,
            0 <= sum <= 255 * n,
    ;
}

proof fn lemma_end_inside(d: int, src: int, dst: int)
    requires
        0 <= d < dst,
        0 < src,
    ensures
        source_pos(d + 1, src, dst) <= src,
        source_pos(d, src, dst) + 1 <= src,
{
    lemma_last_end(src, dst);
    lemma_source_pos(d + 1, dst, src, dst);
    lemma_source_span(d, d, src, dst);
}

} // verus!
