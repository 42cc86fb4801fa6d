//! The share of an area that its master window takes.
//!
//! A share is held by the bit pattern of an IEEE 754 double, so that the pixel
//! counts come out as double-precision arithmetic rounds them.
use vstd::prelude::*;

verus! {

/// One tenth, as a double.
pub const LOWEST: u64 = 0x3FB9_9999_9999_999A;

/// Nine tenths, as a double.
pub const HIGHEST: u64 = 0x3FEC_CCCC_CCCC_CCCD;

/// 0.55, as a double.
pub const STANDARD: u64 = 0x3FE1_9999_9999_999A;

/// The bit patterns from here on have the sign bit set.
pub const SIGN: u64 = 0x8000_0000_0000_0000;

/// Among the patterns without a sign bit, infinity and what is no number start here.
pub const INFINITE: u64 = 0x7FF0_0000_0000_0000;

/// 2^52, the weight of the hidden bit.
pub const HIDDEN: u64 = 0x10_0000_0000_0000;

/// 2^53, the first number that takes more bits than a double's mantissa has.
pub const MANTISSA: u128 = 0x20_0000_0000_0000;

/// A double, by its bit pattern.
#[derive(Debug, Clone, Copy, PartialEq, Eq, Structural)]
pub struct Ratio {
    pub bits: u64,
}

/// The pattern without its sign bit.
pub open spec fn magnitude(bits: int) -> int {
    if bits >= SIGN {
        bits - SIGN
    } else {
        bits
    }
}

pub open spec fn is_finite(bits: int) -> bool {
    magnitude(bits) < INFINITE
}

/// The usable form of a share: what is no finite number becomes the standard
/// share, and the rest is held between a tenth and nine tenths. Doubles without
/// a sign bit are ordered as their patterns are.
pub open spec fn sanitized(bits: int) -> int {
    if !is_finite(bits) {
        STANDARD as int
    } else if bits >= SIGN || bits < LOWEST {
        LOWEST as int
    } else if bits > HIGHEST {
        HIGHEST as int
    } else {
        bits
    }
}

/// The least power of two, from `unit` on, by which `p` must be divided to fit a
/// double's mantissa.
pub open spec fn unit_for(p: nat, unit: nat) -> nat
    decreases p - unit,
    when unit > 0
{
    if p / unit < MANTISSA {
        unit
    } else {
        proof {
            assert(p >= 2 * unit) by (nonlinear_arith)
                requires
                    p / unit >= 2,
                    unit > 0,
            ;
        }
        unit_for(p, 2 * unit)
    }
}

/// `p` rounded to a multiple of `unit`, ties to the even multiple.
pub open spec fn to_multiple(p: nat, unit: nat) -> nat {
    let q = p / unit;
    let r = p % unit;
    if 2 * r > unit || (2 * r == unit && q % 2 == 1) {
        (q + 1) * unit
    } else {
        q * unit
    }
}

/// The product of two exactly represented numbers, as a double rounds it.
pub open spec fn rounded_product(a: nat, b: nat) -> nat {
    to_multiple(a * b, unit_for(a * b, 1))
}

/// The mantissa of a normal double, hidden bit and all.
pub open spec fn mantissa(bits: int) -> nat {
    (HIDDEN + bits % (HIDDEN as int)) as nat
}

/// What the mantissa is divided by, for a share from a tenth to nine tenths.
pub open spec fn divisor(bits: int) -> nat {
    let e = bits / (HIDDEN as int);
    if e <= 1019 {
        0x100_0000_0000_0000
    } else if e == 1020 {
        0x80_0000_0000_0000
    } else if e == 1021 {
        0x40_0000_0000_0000
    } else {
        0x20_0000_0000_0000
    }
}

/// The share of `len`, rounded to the nearest whole number, half away from zero.
pub open spec fn share(bits: int, len: int) -> int {
    let b = sanitized(bits);
    if len <= 0 {
        0
    } else {
        let d = divisor(b);
        let n = (2 * rounded_product(len as nat, mantissa(b)) + d) / (2 * d);
        if n > i32::MAX {
            i32::MAX as int
        } else {
            n as int
        }
    }
}

impl Ratio {
    pub fn from_bits(bits: u64) -> (r: Ratio)
        ensures
            r.bits == bits,
    {
        Ratio { bits }
    }

    /// The usable form of this share.
    pub fn sanitize(&self) -> (r: Ratio)
        ensures
            r.bits == sanitized(self.bits as int),
            LOWEST <= r.bits <= HIGHEST,
    {
        let mag: u64 = if self.bits >= SIGN {
            self.bits - SIGN
        } else {
            self.bits
        };
        let bits: u64 = if mag >= INFINITE {
            STANDARD
        } else if self.bits >= SIGN || self.bits < LOWEST {
            LOWEST
        } else if self.bits > HIGHEST {
            HIGHEST
        } else {
            self.bits
        };
        Ratio { bits }
    }

    /// The share of a length.
    pub fn of(&self, len: i32) -> (r: i32)
        ensures
            r == share(self.bits as int, len as int),
    {
        let bits: u64 = self.sanitize().bits;
        if len <= 0 {
            return 0;
        }
        let m: u128 = (HIDDEN + bits % HIDDEN) as u128;
        let e: u64 = bits / HIDDEN;
        let d: u128 = if e <= 1019 {
            0x100_0000_0000_0000
        } else if e == 1020 {
            0x80_0000_0000_0000
        } else if e == 1021 {
            0x40_0000_0000_0000
        } else {
            0x20_0000_0000_0000
        };
        assert(m == mantissa(bits as int));
        assert(d == divisor(bits as int));
        let n: u128 = len as u128;
        assert(n * m < 0x10_0000_0000_0000_0000_0000) by (nonlinear_arith)
            requires
                n < 0x8000_0000,
                m < 0x20_0000_0000_0000,
        ;
        let p: u128 = n * m;
        let mut unit: u128 = 1;
        while p / unit >= MANTISSA
            invariant
                0 < unit <= p + 1,
                p < 0x10_0000_0000_0000_0000_0000,
                unit_for(p as nat, 1) == unit_for(p as nat, unit as nat),
            decreases p + 1 - unit,
        {
            assert(p >= 2 * unit) by (nonlinear_arith)
                requires
                    p / unit >= 2,
                    unit > 0,
            ;
            unit = 2 * unit;
        }
        let q: u128 = p / unit;
        let r: u128 = p % unit;
        proof {
            assert(q <= p) by (nonlinear_arith)
                requires
                    q == p / unit,
                    unit > 0,
            ;
            assert(r < unit);
            assert(q * unit <= p) by (nonlinear_arith)
                requires
                    q == p / unit,
                    unit > 0,
            ;
            assert((q + 1) * unit == q * unit + unit) by (nonlinear_arith);
        }
        let rounded: u128 = if 2 * r > unit || (2 * r == unit && q % 2 == 1) {
            (q + 1) * unit
        } else {
            q * unit
        };
        assert(rounded == rounded_product(len as nat, mantissa(bits as int)));
        let v: u128 = (2 * rounded + d) / (2 * d);
        if v > 0x7FFF_FFFF {
            i32::MAX
        } else {
            v as i32
        }
    }
}

impl Default for Ratio {
    fn default() -> (r: Ratio)
        ensures
            r.bits == STANDARD,
    {
        Ratio { bits: STANDARD }
    }
}

/// A share that was made usable is usable as it is.
pub proof fn law_sanitized_is_stable(bits: u64)
    ensures
        sanitized(sanitized(bits as int)) == sanitized(bits as int),
        LOWEST <= sanitized(bits as int) <= HIGHEST,
{
}

proof fn lemma_unit(p: nat, unit: nat)
    requires
        unit > 0,
        unit == 1 || unit * 0x10_0000_0000_0000 <= p,
    ensures
        ({
            let u = unit_for(p, unit);
            u >= 1 && (u == 1 || u * 0x10_0000_0000_0000 <= p)
        }),
    decreases p - unit,
{
    if p / unit >= MANTISSA {
        assert(p >= 0x20_0000_0000_0000 * unit) by (nonlinear_arith)
            requires
                p / unit >= 0x20_0000_0000_0000,
                unit > 0,
        ;
        lemma_unit(p, 2 * unit);
    }
}

pub proof fn lemma_to_multiple(p: nat, unit: nat)
    requires
        unit > 0,
    ensures
        2 * p - unit <= 2 * to_multiple(p, unit) <= 2 * p + unit,
{
    let q = p / unit;
    let r = p % unit;
    vstd::arithmetic::div_mod::lemma_fundamental_div_mod(p as int, unit as int);
    vstd::arithmetic::div_mod::lemma_mod_bound(p as int, unit as int);
    assert((q + 1) * unit == q * unit + unit) by (nonlinear_arith);
    assert(unit * q == q * unit) by (nonlinear_arith);
}

/// The share of a length is the whole number next to the product of the two: it is off by
/// half a pixel at most, but for what the double itself is rounded by. A share between one
/// half and one is `mantissa` in 2^53 parts, one between a quarter and a half in 2^54.
pub proof fn law_shares_are_rounded_to_the_nearest(bits: int, len: int)
    requires
        0 < len <= i32::MAX,
        LOWEST <= bits <= HIGHEST,
    ensures
        ({
            let m = 0x10_0000_0000_0000 + bits % 0x10_0000_0000_0000;
            let d: int = if bits >= 0x3FE0_0000_0000_0000 {
                0x20_0000_0000_0000
            } else if bits >= 0x3FD0_0000_0000_0000 {
                0x40_0000_0000_0000
            } else if bits >= 0x3FC0_0000_0000_0000 {
                0x80_0000_0000_0000
            } else {
                0x100_0000_0000_0000
            };
            let n = share(bits, len);
            &&& 2 * d * n <= 2 * (len * m) + d + d / 0x10_0000
            &&& 2 * (len * m) < 2 * d * n + d + d / 0x10_0000 + 2
            &&& 0 <= n <= len
        }),
{
    let m = mantissa(bits) as int;
    let d = divisor(bits) as int;
    let p = len * m;
    assert(sanitized(bits) == bits);
    assert(0 < p <= 0x7FFF_FFFF * 0x20_0000_0000_0000) by (nonlinear_arith)
        requires
            0 < len <= 0x7FFF_FFFF,
            0x10_0000_0000_0000 <= m < 0x20_0000_0000_0000,
            p == len * m,
    ;
    let u = unit_for(p as nat, 1);
    lemma_unit(p as nat, 1);
    lemma_to_multiple(p as nat, u);
    assert(u <= 0xFFFF_FFFF);
    let r = rounded_product(len as nat, mantissa(bits)) as int;
    assert(r == to_multiple(p as nat, u));
    let x = 2 * r + d;
    let n = x / (2 * d);
    vstd::arithmetic::div_mod::lemma_fundamental_div_mod(x, 2 * d);
    vstd::arithmetic::div_mod::lemma_mod_bound(x, 2 * d);
    assert(2 * d * n <= x < 2 * d * n + 2 * d);
    assert(2 * m <= 2 * d - d / 0x10_0000) by {
        assert(bits <= 0x3FEC_CCCC_CCCC_CCCD);
    }
    assert(2 * p <= len * (2 * d - d / 0x10_0000)) by (nonlinear_arith)
        requires
            2 * m <= 2 * d - d / 0x10_0000,
            p == len * m,
            len > 0,
    ;
    assert(len * (2 * d - d / 0x10_0000) <= 2 * d * len - d / 0x10_0000) by (nonlinear_arith)
        requires
            len > 0,
            d / 0x10_0000 >= 0,
    ;
    assert(n <= len) by (nonlinear_arith)
        requires
            2 * d * n <= 2 * d * len + d,
            d > 0,
    ;
}

} // verus!
