//! Damage rectangles and the stripes a full frame is cut into.

use vstd::prelude::*;

verus! {

/// A rectangle of pixels that changed.
#[derive(Debug, Clone, Copy, PartialEq, Eq, Structural)]
pub struct DamageRect {
    /// Left edge in pixels.
    pub x: u32,
    /// Top edge in pixels.
    pub y: u32,
    /// Width in pixels.
    pub width: u32,
    /// Height in pixels.
    pub height: u32,
}

impl DamageRect {
    /// The rectangle with the given edges.
    pub fn new(x: u32, y: u32, width: u32, height: u32) -> (r: DamageRect)
        ensures
            r == (DamageRect { x, y, width, height }),
    {
        DamageRect { x, y, width, height }
    }

    /// Whether the rectangle covers a pixel.
    pub open spec fn covers(self, px: int, py: int) -> bool {
        self.x <= px < self.x + self.width && self.y <= py < self.y + self.height
    }
}

/// Number of stripes: one when fewer rows than stripes are asked for.
pub open spec fn stripe_count(height: u32, n: usize) -> nat {
    if n == 0 || height < n {
        1
    } else {
        n as nat
    }
}

/// Height of every stripe but the last.
pub open spec fn stripe_base(height: u32, n: usize) -> nat {
    (height as nat / stripe_count(height, n)) as nat
}

/// Stripe `i`: all have the same height, except that the last one absorbs the
/// rows that are left over.
pub open spec fn stripe(width: u32, height: u32, n: usize, i: int) -> DamageRect {
    let base = stripe_base(height, n);
    let y = i * base;
    DamageRect {
        x: 0,
        y: y as u32,
        width,
        height: if i == stripe_count(height, n) - 1 {
            (height - y) as u32
        } else {
            base as u32
        },
    }
}

/// The stripes of a frame, from the top down.
pub open spec fn stripes(width: u32, height: u32, n: usize) -> Seq<DamageRect> {
    Seq::new(stripe_count(height, n), |i: int| stripe(width, height, n, i))
}

proof fn lemma_stripe_bounds(height: u32, n: usize, i: int)
    requires
        0 <= i <= stripe_count(height, n),
    ensures
        0 <= i * stripe_base(height, n) <= height,
        stripe_base(height, n) <= height,
        (stripe_count(height, n) - 1) * stripe_base(height, n) + stripe_base(height, n) <= height,
{
    let k = stripe_count(height, n) as int;
    let base = stripe_base(height, n) as int;
    vstd::arithmetic::div_mod::lemma_fundamental_div_mod(height as int, k);
    vstd::arithmetic::mul::lemma_mul_inequality(i, k, base);
    vstd::arithmetic::mul::lemma_mul_nonnegative(i, base);
    vstd::arithmetic::mul::lemma_mul_is_commutative(base, k);
    vstd::arithmetic::mul::lemma_mul_is_distributive_sub_other_way(base, k, 1);
    vstd::arithmetic::div_mod::lemma_div_is_ordered_by_denominator(height as int, 1, k);
}

/// Cut a full `width × height` rect into equal horizontal stripes so
/// the compress pipeline can fan out across CPU cores.
///
/// Returns `n` non-overlapping `DamageRect`s that together cover the whole
/// frame. The last stripe absorbs the remainder if `height` is not divisible
/// by `n`. `n` is clamped to 1 when `height < n` (one-pixel-tall stripes
/// would just hurt cache locality without parallelism gain).
pub fn stripe_full_frame(width: u32, height: u32, n: usize) -> (r: Vec<DamageRect>)
    ensures
        r@ == stripes(width, height, n),
{
    let k: u32 = if n == 0 || (height as usize) < n {
        1
    } else {
        n as u32
    };
    let base: u32 = height / k;
    let mut out: Vec<DamageRect> = Vec::with_capacity(k as usize);
    let mut i: u32 = 0;
    let mut y: u32 = 0;
    while i < k
        invariant
            i <= k,
            k == stripe_count(height, n),
            base == stripe_base(height, n),
            y == i * base,
            y <= height,
            out@ == Seq::new(i as nat, |j: int| stripe(width, height, n, j)),
        decreases k - i,
    {
        proof {
            lemma_stripe_bounds(height, n, i as int);
            lemma_stripe_bounds(height, n, i + 1);
            vstd::arithmetic::mul::lemma_mul_is_distributive_add_other_way(
                base as int,
                i as int,
                1,
            );
        }
        let h: u32 = if i == k - 1 {
            height - y
        } else {
            base
        };
        out.push(DamageRect::new(0, y, width, h));
        assert(out@ =~= Seq::new((i + 1) as nat, |j: int| stripe(width, height, n, j)));
        y = y + base;
        i = i + 1;
    }
    assert(out@ =~= stripes(width, height, n));
    out
}

/// Which stripe a row falls into.
pub open spec fn stripe_of_row(height: u32, n: usize, row: int) -> int {
    let base = stripe_base(height, n) as int;
    let k = stripe_count(height, n) as int;
    if row / base < k {
        row / base
    } else {
        k - 1
    }
}

/// The stripes partition the frame: each pixel of it lies in exactly one
/// stripe, and no stripe reaches beyond the frame.
pub proof fn law_stripes_partition_the_frame(width: u32, height: u32, n: usize, px: int, py: int)
    ensures
        ({
            let s = stripes(width, height, n);
            &&& 0 <= px < width && 0 <= py < height ==> {
                let i = stripe_of_row(height, n, py);
                &&& 0 <= i < s.len()
                &&& s[i].covers(px, py)
                &&& forall|j: int|
                    0 <= j < s.len() && #[trigger] s[j].covers(px, py) ==> j == i
            }
            &&& forall|j: int|
                0 <= j < s.len() && #[trigger] s[j].covers(px, py) ==> 0 <= px < width && 0 <= py
                    < height
        }),
{
    let s = stripes(width, height, n);
    let k = stripe_count(height, n) as int;
    let base = stripe_base(height, n) as int;
    assert forall|j: int| 0 <= j < s.len() implies {
        &&& (#[trigger] s[j]).y == j * base
        &&& s[j].y + s[j].height == if j == k - 1 {
            height as int
        } else {
            (j + 1) * base
        }
        &&& s[j].y + s[j].height <= height
    } by {
        lemma_stripe_bounds(height, n, j);
        lemma_stripe_bounds(height, n, j + 1);
        vstd::arithmetic::mul::lemma_mul_is_distributive_add_other_way(base, j, 1);
    }
    if 0 <= px < width && 0 <= py < height {
        lemma_stripe_bounds(height, n, k);
        if n == 0 || height < n {
        } else {
            vstd::arithmetic::div_mod::lemma_div_non_zero(height as int, k);
        }
        let q = py / base;
        let i = stripe_of_row(height, n, py);
        vstd::arithmetic::div_mod::lemma_fundamental_div_mod(py, base);
        vstd::arithmetic::div_mod::lemma_div_pos_is_pos(py, base);
        vstd::arithmetic::mul::lemma_mul_is_commutative(base, q);
        vstd::arithmetic::mul::lemma_mul_is_distributive_add_other_way(base, q, 1);
        vstd::arithmetic::mul::lemma_mul_inequality(i, q, base);
        assert(s[i].covers(px, py));
        assert forall|j: int| 0 <= j < s.len() && #[trigger] s[j].covers(px, py) implies j == i by {
            if j < i {
                vstd::arithmetic::mul::lemma_mul_inequality(j + 1, i, base);
            }
            if j > i {
                vstd::arithmetic::mul::lemma_mul_inequality(i + 1, j, base);
            }
        }
    }
}

/// Whether some rectangle covers a pixel.
pub open spec fn covered(rects: Seq<DamageRect>, px: int, py: int) -> bool {
    exists|i: int| 0 <= i < rects.len() && (#[trigger] rects[i]).covers(px, py)
}

/// There are as many stripes as are asked for, unless that is more than there
/// are rows, or none: then there is one. The rows are shared out evenly, and what
/// is left over, less than a row for each stripe, goes to the last.
pub proof fn law_stripes_share_the_rows(width: u32, height: u32, n: usize, i: int)
    ensures
        ({
            let s = stripes(width, height, n);
            &&& 0 < n <= height ==> s.len() == n
            &&& n == 0 || height < n ==> s.len() == 1
            &&& 0 <= i < s.len() ==> s[i].x == 0 && s[i].width == width
            &&& 0 <= i < s.len() - 1 ==> {
                &&& s[i].height * s.len() <= height < (s[i].height + 1) * s.len()
                &&& s[i + 1].y == s[i].y + s[i].height
                &&& s[i].height <= s[s.len() - 1].height < s[i].height + s.len()
            }
            &&& s[0].y == 0
            &&& s[s.len() - 1].y + s[s.len() - 1].height == height
        }),
{
    let s = stripes(width, height, n);
    let k = stripe_count(height, n) as int;
    let base = stripe_base(height, n) as int;
    lemma_stripe_bounds(height, n, k);
    lemma_stripe_bounds(height, n, k - 1);
    lemma_stripe_bounds(height, n, 0);
    vstd::arithmetic::div_mod::lemma_fundamental_div_mod(height as int, k);
    assert(base * k <= height < base * k + k && (base + 1) * k == base * k + k && (k - 1) * base
        + base == base * k) by (nonlinear_arith)
        requires
            height == k * base + (height as int) % k,
            0 <= (height as int) % k < k,
    ;
    if 0 <= i < k - 1 {
        lemma_stripe_bounds(height, n, i);
        lemma_stripe_bounds(height, n, i + 1);
        vstd::arithmetic::mul::lemma_mul_is_distributive_add_other_way(base, i, 1);
    }
}

} // verus!
