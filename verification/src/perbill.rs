//! Parts-per-billion ratios and the floor of a ratio of an amount.
use vstd::arithmetic::div_mod::{lemma_fundamental_div_mod, lemma_fundamental_div_mod_converse_div};
use vstd::prelude::*;

verus! {

/// One billion: the denominator of a `Perbill`.
pub const BILLION: u32 = 1_000_000_000;

/// A ratio in parts per billion, at most one.
#[derive(Clone, Copy, PartialEq, Eq, Structural, Debug)]
pub struct Perbill {
    pub parts: u32,
}

/// `floor(x * parts / 10^9)`.
pub open spec fn spec_mul_floor(parts: u32, x: int) -> int {
    (x * parts) / (BILLION as int)
}

/// `floor(x * parts / 10^9) == q * parts + floor(r * parts / 10^9)` where `x == q * 10^9 + r`.
proof fn lemma_mul_floor_split(x: int, p: int)
    requires
        0 <= x,
        0 <= p <= BILLION,
    ensures
        (x * p) / (BILLION as int) == (x / (BILLION as int)) * p + ((x % (BILLION as int)) * p) / (
        BILLION as int),
        (x % (BILLION as int)) * p < (BILLION as int) * (BILLION as int),
        (x / (BILLION as int)) * p <= x,
{
    let d = BILLION as int;
    let q = x / d;
    let r = x % d;
    lemma_fundamental_div_mod(x, d);
    assert(x == d * q + r);
    assert(0 <= r < d);
    let rp = r * p;
    assert(rp >= 0) by (nonlinear_arith)
        requires
            rp == r * p,
            r >= 0,
            p >= 0,
    ;
    lemma_fundamental_div_mod(rp, d);
    let q2 = rp / d;
    let r2 = rp % d;
    assert(rp == d * q2 + r2);
    assert(x * p == (q * p + q2) * d + r2) by (nonlinear_arith)
        requires
            x == d * q + r,
            rp == r * p,
            rp == d * q2 + r2,
    ;
    lemma_fundamental_div_mod_converse_div(x * p, d, q * p + q2, r2);
    assert(rp < d * d) by (nonlinear_arith)
        requires
            0 <= r < d,
            0 <= p <= d,
            rp == r * p,
    ;
    assert(q >= 0) by (nonlinear_arith)
        requires
            x == d * q + r,
            0 <= r < d,
            x >= 0,
            d > 0,
    ;
    assert(q * p <= q * d) by (nonlinear_arith)
        requires
            q >= 0,
            p <= d,
    ;
    assert(q * d <= x) by (nonlinear_arith)
        requires
            x == d * q + r,
            r >= 0,
    ;
}

impl Perbill {
    /// A ratio of `x` percent, at most one hundred percent.
    pub fn from_percent(x: u32) -> (r: Perbill)
        ensures
            r.parts == (if x > 100 { 100 } else { x }) * 10_000_000,
    {
        let v = if x > 100 { 100 } else { x };
        Perbill { parts: v * 10_000_000 }
    }

    /// A ratio of `x` per thousand, at most one.
    pub fn from_perthousand(x: u32) -> (r: Perbill)
        ensures
            r.parts == (if x > 1000 { 1000 } else { x }) * 1_000_000,
    {
        let v = if x > 1000 { 1000 } else { x };
        Perbill { parts: v * 1_000_000 }
    }

    /// `floor(x * self)` for a balance.
    pub fn mul_floor(&self, x: u128) -> (r: u128)
        requires
            self.parts <= BILLION,
        ensures
            r == spec_mul_floor(self.parts, x as int),
            r <= x,
    {
        proof {
            lemma_mul_floor_split(x as int, self.parts as int);
        }
        let q = x / 1_000_000_000u128;
        let rem = x % 1_000_000_000u128;
        let p = self.parts as u128;
        assert(q * p <= x);
        let hi = q * p;
        assert(rem * p < 1_000_000_000_000_000_000);
        let lo = (rem * p) / 1_000_000_000u128;
        assert(lo <= rem * p);
        proof {
            assert(spec_mul_floor(self.parts, x as int) <= x) by (nonlinear_arith)
                requires
                    self.parts <= BILLION,
                    x >= 0,
            {
                assert((x as int) * (self.parts as int) <= (x as int) * (BILLION as int));
            }
        }
        hi + lo
    }

    /// `floor(x * self)` for a 32-bit value.
    pub fn mul_floor_u32(&self, x: u32) -> (r: u32)
        requires
            self.parts <= BILLION,
        ensures
            r == spec_mul_floor(self.parts, x as int),
            r <= x,
    {
        let r = self.mul_floor(x as u128);
        r as u32
    }
}

} // verus!
