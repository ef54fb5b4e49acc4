//! Fixed-point scalar kernel.
//!
//! All geometry in this crate is computed over a signed fixed-point scalar
//! with 16 fractional bits, kept inside a symmetric saturation range so that
//! every operation is total: sums, products and quotients that leave the
//! range saturate instead of wrapping or failing.  Products and quotients
//! round toward zero.  Division by zero saturates to the range bound with
//! the sign of the numerator (and `0 / 0 == 0`); square roots of negatives
//! are zero.  Each operation's contract states the exact result as integer
//! arithmetic on the raw representation.

use vstd::arithmetic::div_mod::{
    lemma_div_is_ordered, lemma_div_multiples_vanish, lemma_div_pos_is_pos,
    lemma_fundamental_div_mod, lemma_multiply_divide_lt,
};
use vstd::arithmetic::mul::{
    lemma_mul_inequality, lemma_mul_is_commutative, lemma_mul_nonnegative,
    lemma_mul_strict_inequality,
};
use vstd::arithmetic::power2::{lemma2_to64, lemma2_to64_rest, lemma_pow2_unfold, pow2};
use vstd::bits::{lemma_u64_pow2_no_overflow, lemma_u64_shl_is_mul};
use vstd::prelude::*;

verus! {

/// Number of raw units per one: the scalar has 16 fractional bits.
pub const SCALE: i64 = 65536;

/// Largest magnitude of a raw value: every well-formed scalar satisfies
/// `-RAW_MAX <= raw <= RAW_MAX`.
pub const RAW_MAX: i64 = 0x4000_0000_0000;

/// Magnitude of an integer.
pub open spec fn mag(a: int) -> int {
    if a < 0 {
        -a
    } else {
        a
    }
}

/// Saturate a raw value into the representable range.
pub open spec fn sat(a: int) -> int {
    if a > RAW_MAX as int {
        RAW_MAX as int
    } else if a < -(RAW_MAX as int) {
        -(RAW_MAX as int)
    } else {
        a
    }
}

pub open spec fn fx_add(a: int, b: int) -> int {
    sat(a + b)
}

pub open spec fn fx_sub(a: int, b: int) -> int {
    sat(a - b)
}

/// Raw product: multiply, drop the scale, round toward zero, saturate.
pub open spec fn fx_mul(a: int, b: int) -> int {
    let q = (mag(a) * mag(b)) / (SCALE as int);
    if (a < 0) != (b < 0) {
        sat(-q)
    } else {
        sat(q)
    }
}

/// Raw quotient: rescale, divide, round toward zero, saturate; division by
/// zero saturates with the sign of the numerator.
pub open spec fn fx_div(a: int, b: int) -> int {
    if b == 0 {
        if a > 0 {
            RAW_MAX as int
        } else if a < 0 {
            -(RAW_MAX as int)
        } else {
            0
        }
    } else {
        let q = (mag(a) * (SCALE as int)) / mag(b);
        if (a < 0) != (b < 0) {
            sat(-q)
        } else {
            sat(q)
        }
    }
}

pub open spec fn fx_min(a: int, b: int) -> int {
    if a < b {
        a
    } else {
        b
    }
}

pub open spec fn fx_max(a: int, b: int) -> int {
    if a > b {
        a
    } else {
        b
    }
}

/// Floor of the square root of an integer (zero below one).
pub open spec fn sqrt_floor(n: int) -> int
    decreases n,
{
    if n < 1 {
        0
    } else {
        let r = 2 * sqrt_floor(n / 4);
        if (r + 1) * (r + 1) <= n {
            r + 1
        } else {
            r
        }
    }
}

/// Raw result of the fixed-point square root: `floor(sqrt(a * SCALE))`,
/// so that the result is again in raw units.
pub open spec fn fx_sqrt(a: int) -> int {
    if a <= 0 {
        0
    } else {
        sqrt_floor(a * (SCALE as int))
    }
}

/// `s` is the floor square root of `n`.
pub open spec fn sqrt_bounds(n: int, s: int) -> bool {
    0 <= s && s * s <= n && n < (s + 1) * (s + 1)
}

pub proof fn lemma_sqrt_floor(n: int)
    requires
        n >= 0,
    ensures
        sqrt_bounds(n, sqrt_floor(n)),
    decreases n,
{
    if n < 1 {
        assert(sqrt_floor(n) == 0);
        assert(sqrt_bounds(n, 0)) by (nonlinear_arith)
            requires
                n == 0,
        ;
    } else {
        lemma_sqrt_floor(n / 4);
        let r = sqrt_floor(n / 4);
        lemma_fundamental_div_mod(n, 4);
        assert((2 * r) * (2 * r) == 4 * (r * r)) by (nonlinear_arith);
        assert((2 * r + 2) * (2 * r + 2) == 4 * ((r + 1) * (r + 1))) by (nonlinear_arith);
        assert(n <= 4 * (n / 4) + 3);
        assert(n < 4 * ((r + 1) * (r + 1)));
        let s = sqrt_floor(n);
        if (2 * r + 1) * (2 * r + 1) <= n {
            assert(s == 2 * r + 1);
            assert((s + 1) * (s + 1) == (2 * r + 2) * (2 * r + 2));
            assert(n < (s + 1) * (s + 1));
        } else {
            assert(s == 2 * r);
            assert(s * s == 4 * (r * r));
            assert(4 * (r * r) <= 4 * (n / 4));
            assert(n < (s + 1) * (s + 1));
        }
        assert(sqrt_bounds(n, s));
    }
}

/// The floor square root is the unique `r >= 0` with `r^2 <= n < (r+1)^2`.
pub proof fn lemma_sqrt_floor_unique(n: int, r: int)
    requires
        0 <= r,
        r * r <= n,
        n < (r + 1) * (r + 1),
    ensures
        r == sqrt_floor(n),
{
    lemma_sqrt_floor(n);
    let s = sqrt_floor(n);
    if r < s {
        assert((r + 1) * (r + 1) <= s * s) by (nonlinear_arith)
            requires
                0 <= r,
                r + 1 <= s,
        ;
    }
    if s < r {
        assert((s + 1) * (s + 1) <= r * r) by (nonlinear_arith)
            requires
                0 <= s,
                s + 1 <= r,
        ;
    }
}

/// A product with one factor in `[0, 1]` stays below the other factor.
pub proof fn lemma_fx_mul_le(a: int, b: int)
    requires
        0 <= a <= RAW_MAX as int,
        0 <= b <= SCALE as int,
    ensures
        0 <= fx_mul(a, b) <= a,
{
    let s = SCALE as int;
    lemma_mul_nonnegative(a, b);
    lemma_mul_inequality(b, s, a);
    lemma_mul_is_commutative(a, b);
    lemma_mul_is_commutative(a, s);
    lemma_div_is_ordered(a * b, s * a, s);
    lemma_div_multiples_vanish(a, s);
    lemma_div_pos_is_pos(a * b, s);
}

/// A zero factor gives a zero product.
pub proof fn lemma_fx_mul_zero(a: int)
    ensures
        fx_mul(a, 0) == 0,
        fx_mul(0, a) == 0,
{
    assert(mag(0) == 0);
    assert(mag(a) * mag(0) == 0) by (nonlinear_arith)
        requires
            mag(0) == 0,
    ;
    assert(mag(0) * mag(a) == 0) by (nonlinear_arith)
        requires
            mag(0) == 0,
    ;
}

/// A quotient whose numerator magnitude is below the denominator lies
/// strictly inside the unit range.
pub proof fn lemma_fx_div_unit(a: int, b: int)
    requires
        b > 0,
        mag(a) < b,
    ensures
        -(SCALE as int) < fx_div(a, b) < SCALE as int,
{
    let s = SCALE as int;
    lemma_mul_nonnegative(mag(a), s);
    lemma_mul_strict_inequality(mag(a), b, s);
    lemma_mul_is_commutative(b, s);
    lemma_multiply_divide_lt(mag(a) * s, b, s);
    lemma_div_pos_is_pos(mag(a) * s, b);
}

/// A fixed-point scalar: `raw` counts units of `1 / SCALE`.
#[derive(Clone, Copy, Debug, PartialEq, Eq, Structural)]
pub struct Fx {
    pub raw: i64,
}

impl View for Fx {
    type V = int;

    open spec fn view(&self) -> int {
        self.raw as int
    }
}

/// Saturate an arbitrary raw value into range.
fn clamp_raw(x: i64) -> (r: i64)
    ensures
        r as int == sat(x as int),
{
    if x > RAW_MAX {
        RAW_MAX
    } else if x < -RAW_MAX {
        -RAW_MAX
    } else {
        x
    }
}

/// Magnitude of an in-range raw value as an unsigned word.
fn mag_raw(x: i64) -> (r: u64)
    requires
        -RAW_MAX <= x <= RAW_MAX,
    ensures
        r as int == mag(x as int),
        r <= RAW_MAX as u64,
{
    if x < 0 {
        (-x) as u64
    } else {
        x as u64
    }
}

/// Floor of the square root of a 64-bit word.
fn isqrt64(n: u64) -> (r: u64)
    ensures
        (r as int) * (r as int) <= n as int,
        (n as int) < (r as int + 1) * (r as int + 1),
{
    let mut r: u64 = 0;
    let mut k: u32 = 32;
    proof {
        lemma2_to64();
        lemma2_to64_rest();
        assert((0 + pow2(32)) * (0 + pow2(32)) > n as int) by (nonlinear_arith)
            requires
                pow2(32) == 0x1_0000_0000,
                n <= 0xFFFF_FFFF_FFFF_FFFFu64,
        ;
    }
    while k > 0
        invariant
            k <= 32,
            r <= 0xFFFF_FFFFu64,
            (r as int) * (r as int) <= n as int,
            (n as int) < (r as int + pow2(k as nat)) * (r as int + pow2(k as nat)),
        decreases k,
    {
        k = k - 1;
        proof {
            lemma_u64_pow2_no_overflow(k as nat);
            lemma_u64_shl_is_mul(1u64, k as u64);
            lemma_pow2_unfold((k + 1) as nat);
        }
        let b: u64 = 1u64 << k;
        assert(b <= 0x8000_0000u64 && b >= 1) by (bit_vector)
            requires
                b == 1u64 << k,
                k < 32,
        ;
        let cand: u64 = r + b;
        proof {
            assert((cand as int) * (cand as int) <= 0x1_8000_0000int * 0x1_8000_0000int)
                by (nonlinear_arith)
                requires
                    0 <= cand as int <= 0x1_8000_0000,
            ;
        }
        let sq: u128 = (cand as u128) * (cand as u128);
        if sq <= n as u128 {
            proof {
                assert(cand <= 0xFFFF_FFFFu64) by (nonlinear_arith)
                    requires
                        (cand as int) * (cand as int) <= n as int,
                        n <= 0xFFFF_FFFF_FFFF_FFFFu64,
                ;
            }
            r = cand;
        }
    }
    proof {
        lemma2_to64();
    }
    r
}

impl Fx {
    /// A well-formed scalar stays inside the saturation range.
    pub open spec fn inv(self) -> bool {
        -(RAW_MAX as int) <= self@ <= RAW_MAX as int
    }

    /// Build a scalar from a raw count of `1 / SCALE` units, saturating.
    pub fn from_raw(raw: i64) -> (r: Fx)
        ensures
            r.inv(),
            r@ == sat(raw as int),
    {
        Fx { raw: clamp_raw(raw) }
    }

    /// Build a scalar from a whole number, saturating.
    pub fn from_int(i: i64) -> (r: Fx)
        ensures
            r.inv(),
            r@ == sat(i as int * SCALE as int),
    {
        let c: i64 = if i > RAW_MAX / SCALE {
            RAW_MAX / SCALE
        } else if i < -(RAW_MAX / SCALE) {
            -(RAW_MAX / SCALE)
        } else {
            i
        };
        Fx { raw: c * SCALE }
    }

    pub fn zero() -> (r: Fx)
        ensures
            r.inv(),
            r@ == 0,
    {
        Fx { raw: 0 }
    }

    pub fn one() -> (r: Fx)
        ensures
            r.inv(),
            r@ == SCALE as int,
    {
        Fx { raw: SCALE }
    }

    pub fn add(self, o: Fx) -> (r: Fx)
        requires
            self.inv(),
            o.inv(),
        ensures
            r.inv(),
            r@ == fx_add(self@, o@),
    {
        Fx { raw: clamp_raw(self.raw + o.raw) }
    }

    pub fn sub(self, o: Fx) -> (r: Fx)
        requires
            self.inv(),
            o.inv(),
        ensures
            r.inv(),
            r@ == fx_sub(self@, o@),
    {
        Fx { raw: clamp_raw(self.raw - o.raw) }
    }

    pub fn neg(self) -> (r: Fx)
        requires
            self.inv(),
        ensures
            r.inv(),
            r@ == -self@,
    {
        Fx { raw: -self.raw }
    }

    pub fn mul(self, o: Fx) -> (r: Fx)
        requires
            self.inv(),
            o.inv(),
        ensures
            r.inv(),
            r@ == fx_mul(self@, o@),
    {
        let opposite: bool = (self.raw < 0) != (o.raw < 0);
        let a: u64 = mag_raw(self.raw);
        let b: u64 = mag_raw(o.raw);
        proof {
            assert((a as int) * (b as int) <= 0x4000_0000_0000int * 0x4000_0000_0000int)
                by (nonlinear_arith)
                requires
                    0 <= a as int <= 0x4000_0000_0000,
                    0 <= b as int <= 0x4000_0000_0000,
            ;
        }
        let p: u128 = ((a as u128) * (b as u128)) / (SCALE as u128);
        let m: i64 = if p > RAW_MAX as u128 {
            RAW_MAX
        } else {
            p as i64
        };
        if opposite {
            Fx { raw: -m }
        } else {
            Fx { raw: m }
        }
    }

    pub fn div(self, o: Fx) -> (r: Fx)
        requires
            self.inv(),
            o.inv(),
        ensures
            r.inv(),
            r@ == fx_div(self@, o@),
    {
        if o.raw == 0 {
            if self.raw > 0 {
                Fx { raw: RAW_MAX }
            } else if self.raw < 0 {
                Fx { raw: -RAW_MAX }
            } else {
                Fx { raw: 0 }
            }
        } else {
            let opposite: bool = (self.raw < 0) != (o.raw < 0);
            let a: u64 = mag_raw(self.raw);
            let b: u64 = mag_raw(o.raw);
            proof {
                assert(a as int * 65536 <= 0x4000_0000_0000int * 65536);
                assert(b >= 1);
            }
            let q: u64 = (a * (SCALE as u64)) / b;
            let m: i64 = if q > RAW_MAX as u64 {
                RAW_MAX
            } else {
                q as i64
            };
            if opposite {
                Fx { raw: -m }
            } else {
                Fx { raw: m }
            }
        }
    }

    /// Fixed-point square root: zero on non-positive inputs.
    pub fn sqrt(self) -> (r: Fx)
        requires
            self.inv(),
        ensures
            r.inv(),
            r@ == fx_sqrt(self@),
            r@ >= 0,
    {
        if self.raw <= 0 {
            Fx { raw: 0 }
        } else {
            let n: u64 = (self.raw as u64) * (SCALE as u64);
            let s: u64 = isqrt64(n);
            proof {
                lemma_sqrt_floor_unique(n as int, s as int);
                assert(s as int <= RAW_MAX as int) by (nonlinear_arith)
                    requires
                        (s as int) * (s as int) <= n as int,
                        0 <= s,
                        n as int <= 0x4000_0000_0000int * 65536,
                ;
            }
            Fx { raw: s as i64 }
        }
    }

    pub fn min(self, o: Fx) -> (r: Fx)
        ensures
            r@ == fx_min(self@, o@),
    {
        if self.raw < o.raw {
            self
        } else {
            o
        }
    }

    pub fn max(self, o: Fx) -> (r: Fx)
        ensures
            r@ == fx_max(self@, o@),
    {
        if self.raw > o.raw {
            self
        } else {
            o
        }
    }

    pub fn lt(self, o: Fx) -> (r: bool)
        ensures
            r == (self@ < o@),
    {
        self.raw < o.raw
    }

    pub fn le(self, o: Fx) -> (r: bool)
        ensures
            r == (self@ <= o@),
    {
        self.raw <= o.raw
    }

    pub fn gt(self, o: Fx) -> (r: bool)
        ensures
            r == (self@ > o@),
    {
        self.raw > o.raw
    }

    pub fn ge(self, o: Fx) -> (r: bool)
        ensures
            r == (self@ >= o@),
    {
        self.raw >= o.raw
    }
}

} // verus!
