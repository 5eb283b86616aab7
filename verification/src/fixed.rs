//! Fixed-point scalars: the number type of the whole tracer.
//!
//! A `Fix` counts millionths of a world unit in an `i64`.  Arithmetic
//! saturates at `±BOUND` (one hundred million world units), so every
//! operation is total and its result is stated exactly by a spec
//! function over the underlying integer: `fadd`, `fsub`, `fmul`, `fdiv`,
//! `fsqrt` and `fpow` are the mathematical model that all higher-level
//! contracts are written against.

use vstd::prelude::*;

verus! {

/// Fixed-point units per world unit.
pub const SCALE: i64 = 1_000_000;

/// Largest magnitude a well-formed `Fix` may hold, in units of `SCALE`
/// (one hundred million world units).
pub const BOUND: i64 = 100_000_000_000_000;

/// A fixed-point scalar: `bits` millionths of a world unit.
#[derive(Copy, Clone, Debug, PartialEq, Eq, Structural)]
pub struct Fix {
    pub bits: i64,
}

impl View for Fix {
    type V = int;

    open spec fn view(&self) -> int {
        self.bits as int
    }
}

/// Absolute value over mathematical integers.
pub open spec fn iabs(x: int) -> int {
    if x < 0 {
        -x
    } else {
        x
    }
}

/// Saturation of a raw bit count into the well-formed range.
pub open spec fn fclamp(b: int) -> int {
    if b > BOUND {
        BOUND as int
    } else if b < -(BOUND as int) {
        -(BOUND as int)
    } else {
        b
    }
}

/// Division truncating toward zero, as the executable code computes it.
pub open spec fn sdiv(p: int, q: int) -> int {
    if (p < 0) == (q < 0) {
        iabs(p) / iabs(q)
    } else {
        -(iabs(p) / iabs(q))
    }
}

/// Saturating fixed-point addition.
pub open spec fn fadd(a: int, b: int) -> int {
    fclamp(a + b)
}

/// Saturating fixed-point subtraction.
pub open spec fn fsub(a: int, b: int) -> int {
    fclamp(a - b)
}

/// Fixed-point negation.
pub open spec fn fneg(a: int) -> int {
    fclamp(-a)
}

/// Saturating fixed-point multiplication: the double-width product,
/// rescaled with truncation toward zero.
pub open spec fn fmul(a: int, b: int) -> int {
    fclamp(sdiv(a * b, SCALE as int))
}

/// Saturating fixed-point division; division by zero yields zero.
pub open spec fn fdiv(a: int, b: int) -> int {
    if b == 0 {
        0
    } else {
        fclamp(sdiv(a * (SCALE as int), b))
    }
}

/// The smaller of two bit counts.
pub open spec fn fmin(a: int, b: int) -> int {
    if a < b {
        a
    } else {
        b
    }
}

/// The larger of two bit counts.
pub open spec fn fmax(a: int, b: int) -> int {
    if a > b {
        a
    } else {
        b
    }
}

/// `r` is the integer square root of `x`.
pub open spec fn is_isqrt(x: int, r: int) -> bool {
    0 <= r && r * r <= x && x < (r + 1) * (r + 1)
}

/// The integer square root of `x` (zero for negative `x`).
pub open spec fn sqrt_b(x: int) -> int {
    if x >= 0 {
        choose|r: int| #[trigger] is_isqrt(x, r)
    } else {
        0
    }
}

/// Fixed-point square root: the square root of `a` world units,
/// rounded down to a whole number of bits.
pub open spec fn fsqrt(a: int) -> int {
    if a <= 0 {
        0
    } else {
        sqrt_b(a * (SCALE as int))
    }
}

/// Fixed-point power with a whole-number exponent, by repeated
/// fixed-point multiplication.
pub open spec fn fpow(b: int, e: nat) -> int
    decreases e,
{
    if e == 0 {
        SCALE as int
    } else {
        fmul(fpow(b, (e - 1) as nat), b)
    }
}

/// An integer square root exists for every non-negative integer.
pub proof fn lemma_isqrt_exists(x: int)
    requires
        x >= 0,
    ensures
        exists|r: int| is_isqrt(x, r),
    decreases x,
{
    if x == 0 {
        assert(is_isqrt(0, 0));
    } else {
        lemma_isqrt_exists(x - 1);
        let r = choose|r: int| #[trigger] is_isqrt(x - 1, r);
        if (r + 1) * (r + 1) <= x {
            assert(is_isqrt(x, r + 1)) by (nonlinear_arith)
                requires
                    is_isqrt(x - 1, r),
                    (r + 1) * (r + 1) <= x,
            ;
        } else {
            assert(is_isqrt(x, r));
        }
    }
}

/// The integer square root is unique.
pub proof fn lemma_isqrt_unique(x: int, r1: int, r2: int)
    requires
        is_isqrt(x, r1),
        is_isqrt(x, r2),
    ensures
        r1 == r2,
{
    if r1 < r2 {
        assert(r2 * r2 >= (r1 + 1) * (r1 + 1)) by (nonlinear_arith)
            requires
                0 <= r1 + 1 <= r2,
        ;
    }
    if r2 < r1 {
        assert(r1 * r1 >= (r2 + 1) * (r2 + 1)) by (nonlinear_arith)
            requires
                0 <= r2 + 1 <= r1,
        ;
    }
}

/// `fsqrt` of a positive scalar is the integer square root of the
/// rescaled bit count.
pub proof fn lemma_fsqrt_is_isqrt(a: int)
    requires
        a > 0,
    ensures
        is_isqrt(a * (SCALE as int), fsqrt(a)),
{
    assert(a * (SCALE as int) > 0) by (nonlinear_arith)
        requires
            a > 0,
    ;
    lemma_isqrt_exists(a * (SCALE as int));
}

/// A fixed-point square is never negative.
pub proof fn lemma_fmul_self_nonneg(a: int)
    ensures
        fmul(a, a) >= 0,
{
    assert(a * a >= 0) by (nonlinear_arith);
    assert(iabs(a * a) / iabs(SCALE as int) >= 0) by (nonlinear_arith)
        requires
            a * a >= 0,
    ;
}

/// Saturate a double-width bit count into the well-formed range.
fn clamp_bits(v: i128) -> (r: i64)
    ensures
        r as int == fclamp(v as int),
{
    if v > BOUND as i128 {
        BOUND
    } else if v < -(BOUND as i128) {
        -BOUND
    } else {
        v as i64
    }
}

/// Division of double-width bit counts, truncating toward zero.
fn div_trunc(p: i128, q: i128) -> (r: i128)
    requires
        q > 0,
        p > i128::MIN,
    ensures
        r as int == sdiv(p as int, q as int),
{
    if p >= 0 {
        ((p as u128) / (q as u128)) as i128
    } else {
        -((((-p) as u128) / (q as u128)) as i128)
    }
}

/// Binary-search integer square root on unsigned double-width values.
fn isqrt_u(x: u128) -> (r: u128)
    requires
        x <= 100_000_000_000_000_000_000u128,
    ensures
        is_isqrt(x as int, r as int),
{
    let mut lo: u128 = 0;
    let mut hi: u128 = 10_000_000_001;
    assert(x < hi * hi) by (nonlinear_arith)
        requires
            x <= 100_000_000_000_000_000_000u128,
            hi == 10_000_000_001u128,
    ;
    while lo + 1 < hi
        invariant
            lo < hi,
            hi <= 10_000_000_001,
            lo * lo <= x,
            x < hi * hi,
        decreases hi - lo,
    {
        let mid: u128 = lo + (hi - lo) / 2;
        assert(mid * mid <= 10_000_000_001u128 * 10_000_000_001u128) by (nonlinear_arith)
            requires
                0 <= mid <= 10_000_000_001u128,
        ;
        if mid * mid <= x {
            lo = mid;
        } else {
            hi = mid;
        }
    }
    lo
}

impl Fix {
    /// The scalar is within the saturation range.
    pub open spec fn wf(self) -> bool {
        -(BOUND as int) <= self@ <= BOUND as int
    }

    /// Build a scalar from a raw bit count (millionths of a world unit).
    pub fn from_bits(bits: i64) -> (r: Fix)
        requires
            -BOUND <= bits <= BOUND,
        ensures
            r@ == bits as int,
            r.wf(),
    {
        Fix { bits }
    }

    /// Build a scalar from a whole number of world units.
    pub fn from_units(u: i64) -> (r: Fix)
        requires
            -100_000_000 <= u <= 100_000_000,
        ensures
            r@ == u * (SCALE as int),
            r.wf(),
    {
        Fix { bits: u * SCALE }
    }

    /// Zero world units.
    pub fn zero() -> (r: Fix)
        ensures
            r@ == 0,
            r.wf(),
    {
        Fix { bits: 0 }
    }

    /// One world unit.
    pub fn one() -> (r: Fix)
        ensures
            r@ == SCALE as int,
            r.wf(),
    {
        Fix { bits: SCALE }
    }

    /// Saturating addition.
    pub fn add(self, rhs: Fix) -> (r: Fix)
        requires
            self.wf(),
            rhs.wf(),
        ensures
            r@ == fadd(self@, rhs@),
            r.wf(),
    {
        let s: i128 = self.bits as i128 + rhs.bits as i128;
        Fix { bits: clamp_bits(s) }
    }

    /// Saturating subtraction.
    pub fn sub(self, rhs: Fix) -> (r: Fix)
        requires
            self.wf(),
            rhs.wf(),
        ensures
            r@ == fsub(self@, rhs@),
            r.wf(),
    {
        let s: i128 = self.bits as i128 - rhs.bits as i128;
        Fix { bits: clamp_bits(s) }
    }

    /// Negation.
    pub fn neg(self) -> (r: Fix)
        requires
            self.wf(),
        ensures
            r@ == fneg(self@),
            r.wf(),
    {
        Fix { bits: -self.bits }
    }

    /// Saturating multiplication.
    pub fn mul(self, rhs: Fix) -> (r: Fix)
        requires
            self.wf(),
            rhs.wf(),
        ensures
            r@ == fmul(self@, rhs@),
            r.wf(),
    {
        proof {
            assert(-(10_000_000_000_000_000_000_000_000_000int) <= self@ * rhs@
                <= 10_000_000_000_000_000_000_000_000_000int) by (nonlinear_arith)
                requires
                    -(100_000_000_000_000int) <= self@ <= 100_000_000_000_000int,
                    -(100_000_000_000_000int) <= rhs@ <= 100_000_000_000_000int,
            ;
        }
        let p: i128 = (self.bits as i128) * (rhs.bits as i128);
        let t: i128 = div_trunc(p, SCALE as i128);
        Fix { bits: clamp_bits(t) }
    }

    /// Saturating division; the divisor must be non-zero.
    pub fn div(self, rhs: Fix) -> (r: Fix)
        requires
            self.wf(),
            rhs.wf(),
            rhs.bits != 0,
        ensures
            r@ == fdiv(self@, rhs@),
            r.wf(),
    {
        proof {
            assert(-(100_000_000_000_000_000_000int) <= self@ * (SCALE as int)
                <= 100_000_000_000_000_000_000int) by (nonlinear_arith)
                requires
                    -(100_000_000_000_000int) <= self@ <= 100_000_000_000_000int,
            ;
        }
        let p: i128 = (self.bits as i128) * (SCALE as i128);
        let q: i128 = rhs.bits as i128;
        let t: i128 = if q > 0 {
            div_trunc(p, q)
        } else {
            -div_trunc(p, -q)
        };
        assert(t as int == sdiv(p as int, q as int));
        Fix { bits: clamp_bits(t) }
    }

    /// Square root of a non-negative scalar, rounded down to a bit.
    pub fn sqrt(self) -> (r: Fix)
        requires
            self.wf(),
            self.bits >= 0,
        ensures
            r@ == fsqrt(self@),
            r.wf(),
            r@ >= 0,
    {
        if self.bits == 0 {
            return Fix { bits: 0 };
        }
        proof {
            assert((self.bits as int) * (SCALE as int) <= 100_000_000_000_000_000_000int
                && 0 <= (self.bits as int) * (SCALE as int)) by (nonlinear_arith)
                requires
                    0 <= self.bits as int <= 100_000_000_000_000int,
            ;
        }
        let x: u128 = (self.bits as u128) * (SCALE as u128);
        let s: u128 = isqrt_u(x);
        proof {
            lemma_isqrt_exists(x as int);
            let w = choose|r: int| #[trigger] is_isqrt(x as int, r);
            lemma_isqrt_unique(x as int, s as int, w);
            assert((s as int) * (s as int) <= 100_000_000_000_000_000_000int);
            assert(s as int <= 10_000_000_000int) by (nonlinear_arith)
                requires
                    0 <= s as int,
                    (s as int) * (s as int) <= 100_000_000_000_000_000_000int,
            ;
        }
        Fix { bits: s as i64 }
    }

    /// Power with a whole-number exponent, by repeated multiplication.
    pub fn pow(self, e: u32) -> (r: Fix)
        requires
            self.wf(),
        ensures
            r@ == fpow(self@, e as nat),
            r.wf(),
    {
        let mut acc: Fix = Fix { bits: SCALE };
        let mut i: u32 = 0;
        while i < e
            invariant
                i <= e,
                self.wf(),
                acc.wf(),
                acc@ == fpow(self@, i as nat),
            decreases e - i,
    {
            acc = acc.mul(self);
            i = i + 1;
        }
        acc
    }

    /// The smaller of two scalars.
    pub fn min(self, rhs: Fix) -> (r: Fix)
        ensures
            r@ == fmin(self@, rhs@),
    {
        if self.bits < rhs.bits {
            self
        } else {
            rhs
        }
    }

    /// The larger of two scalars.
    pub fn max(self, rhs: Fix) -> (r: Fix)
        ensures
            r@ == fmax(self@, rhs@),
    {
        if self.bits > rhs.bits {
            self
        } else {
            rhs
        }
    }
}

} // verus!
