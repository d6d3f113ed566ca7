//! Fixed-point scalar arithmetic.
//!
//! Every physical quantity in this crate (positions, charges, spring
//! constants, time steps) is a `Fx`: an `i64` count of millionths.  All
//! operations saturate at the `i64` bounds, and multiplication and division
//! truncate toward zero, so every operation is total and has an exact
//! mathematical description.

use vstd::prelude::*;

verus! {

/// Raw units per one: `Fx { raw: SCALE }` is the scalar 1.
pub const SCALE: i64 = 1_000_000;

/// Magnitude of a mathematical integer.
pub open spec fn mag(x: int) -> int {
    if x < 0 {
        -x
    } else {
        x
    }
}

/// Saturate a mathematical integer into the `i64` range.
pub open spec fn sat(x: int) -> int {
    if x > i64::MAX as int {
        i64::MAX as int
    } else if x < i64::MIN as int {
        i64::MIN as int
    } else {
        x
    }
}

/// Division truncated toward zero (the machine convention), with 0 for a
/// zero divisor.
pub open spec fn tdiv(x: int, y: int) -> int {
    if y == 0 {
        0
    } else {
        let q = mag(x) / mag(y);
        if (x < 0) != (y < 0) {
            -q
        } else {
            q
        }
    }
}

/// Saturating fixed-point addition.
pub open spec fn fx_add(a: int, b: int) -> int {
    sat(a + b)
}

/// Saturating fixed-point subtraction.
pub open spec fn fx_sub(a: int, b: int) -> int {
    sat(a - b)
}

/// Saturating fixed-point negation.
pub open spec fn fx_neg(a: int) -> int {
    sat(-a)
}

/// Saturating fixed-point multiplication: `(a * b) / SCALE`, truncated
/// toward zero.
pub open spec fn fx_mul(a: int, b: int) -> int {
    sat(tdiv(a * b, 1_000_000))
}

/// Saturating fixed-point division: `(a * SCALE) / b`, truncated toward
/// zero; 0 when `b` is 0.
pub open spec fn fx_div(a: int, b: int) -> int {
    if b == 0 {
        0
    } else {
        sat(tdiv(a * 1_000_000, b))
    }
}

/// Clamp into `[lo, hi]`.
pub open spec fn fx_clamp(x: int, lo: int, hi: int) -> int {
    if x < lo {
        lo
    } else if x > hi {
        hi
    } else {
        x
    }
}

/// `r` is the floor of the square root of `n`.
pub open spec fn is_floor_sqrt(n: int, r: int) -> bool {
    0 <= r && r * r <= n && n < (r + 1) * (r + 1)
}

/// Floor of the square root of a non-negative integer.
pub open spec fn floor_sqrt(n: int) -> int {
    choose|r: int| is_floor_sqrt(n, r)
}

/// Fixed-point square root: the raw result of `sqrt(a / SCALE)` is
/// `floor(sqrt(a * SCALE))`; 0 for a negative argument.
pub open spec fn fx_sqrt(a: int) -> int {
    if a < 0 {
        0
    } else {
        floor_sqrt(a * 1_000_000)
    }
}

proof fn lemma_floor_sqrt_exists(n: int) -> (r: int)
    requires
        n >= 0,
    ensures
        is_floor_sqrt(n, r),
    decreases n,
{
    if n == 0 {
        assert(is_floor_sqrt(0, 0)) by (nonlinear_arith);
        0
    } else {
        let p = lemma_floor_sqrt_exists(n - 1);
        if (p + 1) * (p + 1) <= n {
            assert(is_floor_sqrt(n, p + 1)) by (nonlinear_arith)
                requires
                    n - 1 < (p + 1) * (p + 1),
                    (p + 1) * (p + 1) <= n,
                    0 <= p,
            ;
            p + 1
        } else {
            assert(is_floor_sqrt(n, p));
            p
        }
    }
}

proof fn lemma_floor_sqrt_unique(n: int, a: int, b: int)
    by (nonlinear_arith)
    requires
        is_floor_sqrt(n, a),
        is_floor_sqrt(n, b),
    ensures
        a == b,
{
}

/// The defining property of `floor_sqrt` on non-negative arguments.
pub proof fn lemma_floor_sqrt(n: int)
    requires
        n >= 0,
    ensures
        is_floor_sqrt(n, floor_sqrt(n)),
{
    let r = lemma_floor_sqrt_exists(n);
    assert(is_floor_sqrt(n, r));
}

/// Scaling a non-negative value by a factor in `[0, 1]` keeps it in
/// `[0, value]`.
pub proof fn lemma_fx_mul_unit_bound(u: int, d: int)
    requires
        0 <= u <= SCALE as int,
        0 <= d <= i64::MAX as int,
    ensures
        0 <= fx_mul(u, d) <= d,
{
    let num = u * d;
    assert(0 <= num && num <= 1_000_000 * d) by (nonlinear_arith)
        requires
            num == u * d,
            0 <= u <= 1_000_000,
            0 <= d,
    ;
    assert(mag(num) == num);
    assert(tdiv(num, 1_000_000) == num / 1_000_000);
    assert(num / 1_000_000 <= (1_000_000 * d) / 1_000_000);
    assert((1_000_000 * d) / 1_000_000 == d);
}

/// A fixed-point scalar: `raw` millionths.
#[derive(Clone, Copy, PartialEq, Eq, Structural, Debug)]
pub struct Fx {
    pub raw: i64,
}

proof fn lemma_mag_mul(a: int, b: int)
    by (nonlinear_arith)
    ensures
        mag(a * b) == mag(a) * mag(b),
        (a * b < 0) == (((a < 0) != (b < 0)) && a != 0 && b != 0),
{
}

fn clip128(x: i128) -> (r: i64)
    ensures
        r as int == sat(x as int),
{
    if x > i64::MAX as i128 {
        i64::MAX
    } else if x < i64::MIN as i128 {
        i64::MIN
    } else {
        x as i64
    }
}

fn mag_u128(x: i64) -> (r: u128)
    ensures
        r as int == mag(x as int),
{
    if x >= 0 {
        x as u128
    } else {
        (-(x as i128)) as u128
    }
}

/// Reattach a sign to a magnitude and saturate into `i64`.
fn signed_clip(q: u128, neg: bool) -> (r: i64)
    ensures
        r as int == sat(
            if neg {
                -(q as int)
            } else {
                q as int
            },
        ),
{
    if neg {
        if q >= 0x8000_0000_0000_0000u128 {
            i64::MIN
        } else {
            -(q as i64)
        }
    } else {
        if q > i64::MAX as u128 {
            i64::MAX
        } else {
            q as i64
        }
    }
}

fn isqrt_u128(n: u128) -> (r: u128)
    ensures
        is_floor_sqrt(n as int, r as int),
{
    let mut lo: u128 = 0;
    let mut hi: u128 = 0x1_0000_0000_0000_0000u128;
    assert(n < hi * hi) by (nonlinear_arith)
        requires
            hi == 0x1_0000_0000_0000_0000u128,
            n <= u128::MAX,
    ;
    while hi - lo > 1
        invariant
            0 <= lo < hi <= 0x1_0000_0000_0000_0000u128,
            lo * lo <= n,
            n < hi * hi,
        decreases hi - lo,
    {
        let mid: u128 = lo + (hi - lo) / 2;
        assert(lo < mid < hi);
        assert(mid * mid <= u128::MAX) by (nonlinear_arith)
            requires
                mid < 0x1_0000_0000_0000_0000u128,
        ;
        if mid * mid <= n {
            lo = mid;
        } else {
            hi = mid;
        }
    }
    lo
}

impl Fx {
    /// The mathematical value, in raw units.
    pub open spec fn v(self) -> int {
        self.raw as int
    }

    /// Wrap a raw count of millionths.
    pub fn from_raw(raw: i64) -> (r: Fx)
        ensures
            r.v() == raw,
    {
        Fx { raw }
    }

    /// The scalar 0.
    pub fn zero() -> (r: Fx)
        ensures
            r.v() == 0,
    {
        Fx { raw: 0 }
    }

    /// The scalar 1.
    pub fn one() -> (r: Fx)
        ensures
            r.v() == SCALE,
    {
        Fx { raw: SCALE }
    }

    /// The scalar `i`, saturated.
    pub fn from_int(i: i64) -> (r: Fx)
        ensures
            r.v() == sat(i * 1_000_000),
    {
        Fx { raw: clip128((i as i128) * 1_000_000i128) }
    }

    pub fn add(self, o: Fx) -> (r: Fx)
        ensures
            r.v() == fx_add(self.v(), o.v()),
    {
        Fx { raw: clip128(self.raw as i128 + o.raw as i128) }
    }

    pub fn sub(self, o: Fx) -> (r: Fx)
        ensures
            r.v() == fx_sub(self.v(), o.v()),
    {
        Fx { raw: clip128(self.raw as i128 - o.raw as i128) }
    }

    pub fn neg(self) -> (r: Fx)
        ensures
            r.v() == fx_neg(self.v()),
    {
        Fx { raw: clip128(-(self.raw as i128)) }
    }

    pub fn mul(self, o: Fx) -> (r: Fx)
        ensures
            r.v() == fx_mul(self.v(), o.v()),
    {
        let aa = mag_u128(self.raw);
        let bb = mag_u128(o.raw);
        assert(aa * bb <= u128::MAX) by (nonlinear_arith)
            requires
                aa <= 0x8000_0000_0000_0000u128,
                bb <= 0x8000_0000_0000_0000u128,
        ;
        let q = (aa * bb) / 1_000_000u128;
        let neg = (self.raw < 0) != (o.raw < 0);
        proof {
            lemma_mag_mul(self.v(), o.v());
            let ab = self.v() * o.v();
            assert(aa as int * bb as int == mag(ab));
            assert(q as int == mag(ab) / 1_000_000);
            assert(tdiv(ab, 1_000_000) == if ab < 0 {
                -(q as int)
            } else {
                q as int
            });
        }
        Fx { raw: signed_clip(q, neg) }
    }

    pub fn div(self, o: Fx) -> (r: Fx)
        ensures
            r.v() == fx_div(self.v(), o.v()),
    {
        if o.raw == 0 {
            return Fx { raw: 0 };
        }
        let aa = mag_u128(self.raw);
        let bb = mag_u128(o.raw);
        let q = (aa * 1_000_000u128) / bb;
        let neg = (self.raw < 0) != (o.raw < 0);
        Fx { raw: signed_clip(q, neg) }
    }

    /// Clamp into `[lo, hi]`.
    pub fn clamp(self, lo: Fx, hi: Fx) -> (r: Fx)
        requires
            lo.v() <= hi.v(),
        ensures
            r.v() == fx_clamp(self.v(), lo.v(), hi.v()),
    {
        if self.raw < lo.raw {
            lo
        } else if self.raw > hi.raw {
            hi
        } else {
            self
        }
    }

    pub fn sqrt(self) -> (r: Fx)
        ensures
            r.v() == fx_sqrt(self.v()),
    {
        if self.raw < 0 {
            return Fx { raw: 0 };
        }
        let n = (self.raw as u128) * 1_000_000u128;
        let s = isqrt_u128(n);
        assert(s < 0x1_0000_0000_0000u128) by (nonlinear_arith)
            requires
                is_floor_sqrt(n as int, s as int),
                n <= (i64::MAX as u128) * 1_000_000u128,
        ;
        proof {
            lemma_floor_sqrt(n as int);
            lemma_floor_sqrt_unique(n as int, s as int, floor_sqrt(n as int));
        }
        Fx { raw: s as i64 }
    }

    /// Whole units of the value, truncated toward zero.
    pub fn trunc_units(self) -> (r: i64)
        ensures
            r as int == tdiv(self.v(), 1_000_000),
    {
        let m = mag_u128(self.raw);
        let q = m / 1_000_000u128;
        signed_clip(q, self.raw < 0)
    }
}

} // verus!
