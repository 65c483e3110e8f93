//! The scalar type of the library: a signed fixed-point number with 32
//! fractional bits, stored in an `i64`.
//!
//! Every arithmetic operation is total: results that leave the `i64` range
//! saturate at the range's ends, the way floating-point arithmetic saturates
//! at its infinities.  Products and quotients are computed in `i128` and
//! rounded toward zero, so each operation has an exact mathematical
//! description, given by the spec functions below.

use vstd::prelude::*;

verus! {

use vstd::math::abs;

/// The unit of the fixed-point grid: `Fx` with `bits == FX_SCALE` is 1.
pub const FX_SCALE: i64 = 0x1_0000_0000;

/// A fixed-point scalar: the represented value is `bits / 2^32`.
#[derive(Clone, Copy, PartialEq, Eq, Structural, Debug)]
pub struct Fx {
    pub bits: i64,
}

/// Saturate an unbounded integer into the `i64` range.
pub open spec fn sat64(x: int) -> int {
    if x > i64::MAX {
        i64::MAX as int
    } else if x < i64::MIN {
        i64::MIN as int
    } else {
        x
    }
}

/// Division truncated toward zero (the semantics of Rust's `/` on signed
/// integers), made total by mapping a zero divisor to zero.
pub open spec fn tdiv(a: int, b: int) -> int {
    if b == 0 {
        0
    } else if (a >= 0) == (b >= 0) {
        abs(a) as int / abs(b) as int
    } else {
        -(abs(a) as int / abs(b) as int)
    }
}

/// The bits of the quotient `num / den`, rounded toward zero onto the
/// fixed-point grid; a zero divisor saturates toward the sign of `num`.
pub open spec fn ratio_bits(num: int, den: int) -> int {
    if den == 0 {
        if num >= 0 {
            i64::MAX as int
        } else {
            i64::MIN as int
        }
    } else {
        sat64(tdiv(num * (FX_SCALE as int), den))
    }
}

pub open spec fn sadd(a: Fx, b: Fx) -> Fx {
    Fx { bits: sat64(a.bits + b.bits) as i64 }
}

pub open spec fn ssub(a: Fx, b: Fx) -> Fx {
    Fx { bits: sat64(a.bits - b.bits) as i64 }
}

pub open spec fn sneg(a: Fx) -> Fx {
    Fx { bits: sat64(-a.bits) as i64 }
}

pub open spec fn smul(a: Fx, b: Fx) -> Fx {
    Fx { bits: sat64(tdiv(a.bits * b.bits, FX_SCALE as int)) as i64 }
}

pub open spec fn sdiv(a: Fx, b: Fx) -> Fx {
    Fx { bits: ratio_bits(a.bits as int, b.bits as int) as i64 }
}

pub open spec fn smin(a: Fx, b: Fx) -> Fx {
    if a.bits <= b.bits {
        a
    } else {
        b
    }
}

pub open spec fn smax(a: Fx, b: Fx) -> Fx {
    if a.bits >= b.bits {
        a
    } else {
        b
    }
}

/// The floor of the represented value, as an unbounded integer.
pub open spec fn sfloor(a: Fx) -> int {
    (a.bits as int) / (FX_SCALE as int)
}

/// The fixed-point image of the integer `i`.
pub open spec fn s_of_int(i: int) -> Fx {
    Fx { bits: sat64(i * (FX_SCALE as int)) as i64 }
}

/// Saturate an `i128` into the `i64` range.
fn sat_from_i128(x: i128) -> (r: i64)
    ensures
        r as int == sat64(x as int),
{
    if x > i64::MAX as i128 {
        i64::MAX
    } else if x < i64::MIN as i128 {
        i64::MIN
    } else {
        x as i64
    }
}

/// Division of `i128` values truncated toward zero, built from unsigned
/// division so that its result provably matches `tdiv`.
fn tdiv_i128(a: i128, b: i128) -> (q: i128)
    requires
        b != 0,
        a != i128::MIN,
        b != i128::MIN,
    ensures
        q as int == tdiv(a as int, b as int),
{
    let ua: u128 = if a >= 0 {
        a as u128
    } else {
        (-a) as u128
    };
    let ub: u128 = if b >= 0 {
        b as u128
    } else {
        (-b) as u128
    };
    let uq: u128 = ua / ub;
    proof {
        assert(ua as int == abs(a as int));
        assert(ub as int == abs(b as int));
        assert(ub >= 1);
        vstd::arithmetic::div_mod::lemma_fundamental_div_mod(ua as int, ub as int);
        vstd::arithmetic::div_mod::lemma_mod_bound(ua as int, ub as int);
        assert((ub as int) * (uq as int) <= ua as int);
        assert(uq as int <= (ub as int) * (uq as int)) by (nonlinear_arith)
            requires
                uq as int >= 0,
                ub as int >= 1,
        ;
        assert(uq as int <= ua as int);
    }
    if (a >= 0) == (b >= 0) {
        uq as i128
    } else {
        -(uq as i128)
    }
}

impl Fx {
    /// The scalar whose fixed-point bits are exactly `bits`.
    pub fn new(bits: i64) -> (r: Fx)
        ensures
            r.bits == bits,
    {
        Fx { bits }
    }

    pub fn zero() -> (r: Fx)
        ensures
            r.bits == 0,
    {
        Fx { bits: 0 }
    }

    pub fn one() -> (r: Fx)
        ensures
            r.bits == FX_SCALE,
    {
        Fx { bits: FX_SCALE }
    }

    /// The fixed-point image of an integer.
    pub fn from_int(v: i64) -> (r: Fx)
        ensures
            r == s_of_int(v as int),
    {
        proof {
            assert(FX_SCALE == 0x1_0000_0000);
        }
        let wide: i128 = (v as i128) * 0x1_0000_0000i128;
        Fx { bits: sat_from_i128(wide) }
    }

    pub fn from_usize(v: usize) -> (r: Fx)
        ensures
            r == s_of_int(v as int),
    {
        proof {
            assert(FX_SCALE == 0x1_0000_0000);
        }
        let wide: i128 = (v as i128) * 0x1_0000_0000i128;
        Fx { bits: sat_from_i128(wide) }
    }

    /// The nearest-toward-zero fixed-point value of the fraction `num / den`.
    pub fn from_ratio(num: i64, den: i64) -> (r: Fx)
        ensures
            r.bits as int == ratio_bits(num as int, den as int),
    {
        if den == 0 {
            if num >= 0 {
                Fx { bits: i64::MAX }
            } else {
                Fx { bits: i64::MIN }
            }
        } else {
            proof {
                assert(FX_SCALE == 0x1_0000_0000);
            }
            let wide: i128 = (num as i128) * 0x1_0000_0000i128;
            let q: i128 = tdiv_i128(wide, den as i128);
            Fx { bits: sat_from_i128(q) }
        }
    }

    pub fn fx_add(self, o: Fx) -> (r: Fx)
        ensures
            r == sadd(self, o),
    {
        let wide: i128 = (self.bits as i128) + (o.bits as i128);
        Fx { bits: sat_from_i128(wide) }
    }

    pub fn fx_sub(self, o: Fx) -> (r: Fx)
        ensures
            r == ssub(self, o),
    {
        let wide: i128 = (self.bits as i128) - (o.bits as i128);
        Fx { bits: sat_from_i128(wide) }
    }

    pub fn fx_neg(self) -> (r: Fx)
        ensures
            r == sneg(self),
    {
        let wide: i128 = -(self.bits as i128);
        Fx { bits: sat_from_i128(wide) }
    }

    pub fn fx_mul(self, o: Fx) -> (r: Fx)
        ensures
            r == smul(self, o),
    {
        proof {
            lemma_i64_product_fits(self.bits as int, o.bits as int);
        }
        let p: i128 = (self.bits as i128) * (o.bits as i128);
        let q: i128 = tdiv_i128(p, FX_SCALE as i128);
        Fx { bits: sat_from_i128(q) }
    }

    pub fn fx_div(self, o: Fx) -> (r: Fx)
        ensures
            r == sdiv(self, o),
    {
        if o.bits == 0 {
            if self.bits >= 0 {
                Fx { bits: i64::MAX }
            } else {
                Fx { bits: i64::MIN }
            }
        } else {
            proof {
                assert(FX_SCALE == 0x1_0000_0000);
            }
            let num: i128 = (self.bits as i128) * 0x1_0000_0000i128;
            let q: i128 = tdiv_i128(num, o.bits as i128);
            Fx { bits: sat_from_i128(q) }
        }
    }

    pub fn fx_min(self, o: Fx) -> (r: Fx)
        ensures
            r == smin(self, o),
    {
        if self.bits <= o.bits {
            self
        } else {
            o
        }
    }

    pub fn fx_max(self, o: Fx) -> (r: Fx)
        ensures
            r == smax(self, o),
    {
        if self.bits >= o.bits {
            self
        } else {
            o
        }
    }

    /// The floor of the represented value: the greatest integer at or below
    /// it.
    pub fn fx_floor(self) -> (r: i64)
        ensures
            r as int == sfloor(self),
    {
        if self.bits >= 0 {
            let q: u64 = (self.bits as u64) / (FX_SCALE as u64);
            q as i64
        } else {
            let na: u128 = (-(self.bits as i128)) as u128;
            let us: u128 = FX_SCALE as u128;
            let q: u128 = na / us;
            let rem: u128 = na % us;
            proof {
                vstd::arithmetic::div_mod::lemma_fundamental_div_mod(na as int, us as int);
                if rem == 0 {
                    vstd::arithmetic::div_mod::lemma_fundamental_div_mod_converse(
                        self.bits as int,
                        us as int,
                        -(q as int),
                        0,
                    );
                } else {
                    vstd::arithmetic::div_mod::lemma_fundamental_div_mod_converse(
                        self.bits as int,
                        us as int,
                        -(q as int) - 1,
                        us as int - rem as int,
                    );
                }
            }
            if rem == 0 {
                -(q as i64)
            } else {
                -(q as i64) - 1
            }
        }
    }
}

/// The magnitude of a product is the product of the magnitudes.
pub proof fn lemma_abs_mul(a: int, b: int)
    ensures
        abs(a * b) == abs(a) * abs(b),
{
    if a >= 0 && b >= 0 {
        assert(a * b >= 0) by (nonlinear_arith)
            requires
                a >= 0,
                b >= 0,
        ;
    } else if a >= 0 && b < 0 {
        assert(a * b <= 0 && -(a * b) == a * (-b)) by (nonlinear_arith)
            requires
                a >= 0,
                b < 0,
        ;
    } else if a < 0 && b >= 0 {
        assert(a * b <= 0 && -(a * b) == (-a) * b) by (nonlinear_arith)
            requires
                a < 0,
                b >= 0,
        ;
    } else {
        assert(a * b >= 0 && a * b == (-a) * (-b)) by (nonlinear_arith)
            requires
                a < 0,
                b < 0,
        ;
    }
}

/// Truncated division by a nonzero divisor cancels an exact multiple.
pub proof fn lemma_tdiv_mul_cancel(k: int, d: int)
    requires
        d != 0,
    ensures
        tdiv(k * d, d) == k,
{
    lemma_abs_mul(k, d);
    vstd::arithmetic::mul::lemma_mul_is_commutative(abs(k) as int, abs(d) as int);
    vstd::arithmetic::div_mod::lemma_div_multiples_vanish(abs(k) as int, abs(d) as int);
    assert(abs(k * d) as int / abs(d) as int == abs(k));
    if k == 0 {
        assert(k * d == 0) by (nonlinear_arith)
            requires
                k == 0,
        ;
    } else if k > 0 {
        if d > 0 {
            assert(k * d > 0) by (nonlinear_arith)
                requires
                    k > 0,
                    d > 0,
            ;
        } else {
            assert(k * d < 0) by (nonlinear_arith)
                requires
                    k > 0,
                    d < 0,
            ;
        }
    } else {
        if d > 0 {
            assert(k * d < 0) by (nonlinear_arith)
                requires
                    k < 0,
                    d > 0,
            ;
        } else {
            assert(k * d > 0) by (nonlinear_arith)
                requires
                    k < 0,
                    d < 0,
            ;
        }
    }
}

/// Multiplying by one is exact, on either side.
pub proof fn lemma_smul_one(a: Fx)
    ensures
        smul(a, Fx { bits: FX_SCALE }) == a,
        smul(Fx { bits: FX_SCALE }, a) == a,
{
    lemma_tdiv_mul_cancel(a.bits as int, FX_SCALE as int);
    vstd::arithmetic::mul::lemma_mul_is_commutative(a.bits as int, FX_SCALE as int);
}

/// Multiplying by zero gives exactly zero, on either side.
pub proof fn lemma_smul_zero(a: Fx)
    ensures
        smul(a, Fx { bits: 0 }) == (Fx { bits: 0 }),
        smul(Fx { bits: 0 }, a) == (Fx { bits: 0 }),
{
    assert(a.bits * 0 == 0) by (nonlinear_arith);
    assert(0 * a.bits == 0) by (nonlinear_arith);
    assert(tdiv(0, FX_SCALE as int) == 0);
}

/// Dividing by one is exact.
pub proof fn lemma_sdiv_one(a: Fx)
    ensures
        sdiv(a, Fx { bits: FX_SCALE }) == a,
{
    lemma_tdiv_mul_cancel(a.bits as int, FX_SCALE as int);
}

/// Dividing a nonzero value by itself gives exactly one.
pub proof fn lemma_sdiv_self(a: Fx)
    requires
        a.bits != 0,
    ensures
        sdiv(a, a) == (Fx { bits: FX_SCALE }),
{
    lemma_tdiv_mul_cancel(FX_SCALE as int, a.bits as int);
    vstd::arithmetic::mul::lemma_mul_is_commutative(a.bits as int, FX_SCALE as int);
}

/// Dividing zero by a nonzero value gives exactly zero.
pub proof fn lemma_sdiv_zero(b: Fx)
    requires
        b.bits != 0,
    ensures
        sdiv(Fx { bits: 0 }, b) == (Fx { bits: 0 }),
{
    assert(0 * (FX_SCALE as int) == 0) by (nonlinear_arith);
    assert(0 * (b.bits as int) == 0) by (nonlinear_arith);
    lemma_tdiv_mul_cancel(0, b.bits as int);
}

/// Adding zero changes nothing, on either side.
pub proof fn lemma_sadd_zero(a: Fx)
    ensures
        sadd(a, Fx { bits: 0 }) == a,
        sadd(Fx { bits: 0 }, a) == a,
        ssub(a, Fx { bits: 0 }) == a,
{
}

/// The product of two values in the `i64` range stays inside `i128`.
proof fn lemma_i64_product_fits(a: int, b: int)
    requires
        i64::MIN <= a <= i64::MAX,
        i64::MIN <= b <= i64::MAX,
    ensures
        -0x40000000000000000000000000000000 <= a * b <= 0x40000000000000000000000000000000,
{
    assert(-0x40000000000000000000000000000000 <= a * b
        <= 0x40000000000000000000000000000000) by (nonlinear_arith)
        requires
            -0x8000000000000000 <= a <= 0x8000000000000000,
            -0x8000000000000000 <= b <= 0x8000000000000000,
    ;
}

} // verus!
