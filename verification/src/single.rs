//! Single-precision arithmetic on bit patterns, as far as the tiling layout needs it.
use vstd::arithmetic::power2::pow2;
use vstd::prelude::*;

use crate::geometry::{sat, sat_i128};

verus! {

/// 0.1, as a single-precision number.
pub const TENTH: u32 = 0x3DCC_CCCD;

/// 0.9, as a single-precision number.
pub const NINE_TENTHS: u32 = 0x3F66_6666;

/// 0.55, as a single-precision number.
pub const STANDARD: u32 = 0x3F0C_CCCD;

/// The bit patterns from here on have the sign bit set.
pub const SIGN: u32 = 0x8000_0000;

/// The pattern of infinity; larger ones without a sign bit are no numbers.
pub const INFINITE: u32 = 0x7F80_0000;

/// 2^23, the weight of the hidden bit.
pub const HIDDEN: u32 = 0x80_0000;

/// The least power of two, from `unit` on, by which `p` must be divided to fit 24 bits.
pub open spec fn unit_for(p: nat, unit: nat) -> nat
    decreases p - unit,
    when unit > 0
{
    if p / unit < 0x100_0000 {
        unit
    } else {
        proof {
            assert(p >= 2 * unit) by (nonlinear_arith)
                requires
                    p / unit >= 2,
                    unit > 0,
            ;
        }
        unit_for(p, 2 * unit)
    }
}

/// A whole number rounded to 24 significant bits, ties to even.
pub open spec fn rounded(p: nat) -> nat {
    crate::ratio::to_multiple(p, unit_for(p, 1))
}

/// `v` divided by two `k` times, rounding down.
pub open spec fn halved(v: nat, k: nat) -> nat
    decreases k,
{
    if k == 0 {
        v
    } else {
        halved(v / 2, (k - 1) as nat)
    }
}

/// `v` doubled `k` times.
pub open spec fn doubled(v: nat, k: nat) -> nat
    decreases k,
{
    if k == 0 {
        v
    } else {
        doubled(2 * v, (k - 1) as nat)
    }
}

/// The mantissa, hidden bit and all, of a pattern without its sign bit.
pub open spec fn mantissa(magnitude: int) -> nat {
    if magnitude < HIDDEN {
        magnitude as nat
    } else {
        (HIDDEN + magnitude % (HIDDEN as int)) as nat
    }
}

/// The power of two by which the mantissa is multiplied.
pub open spec fn exponent(magnitude: int) -> int {
    if magnitude < HIDDEN {
        -149
    } else {
        magnitude / (HIDDEN as int) - 150
    }
}

pub open spec fn magnitude(bits: int) -> int {
    if bits >= SIGN {
        bits - SIGN
    } else {
        bits
    }
}

/// The product of a length and a finite positive number, cut to a whole number.
pub open spec fn cut_product(len: nat, magnitude: int) -> nat {
    let p = rounded(rounded(len) * mantissa(magnitude));
    let e = exponent(magnitude);
    if e >= 0 {
        doubled(p, e as nat)
    } else {
        halved(p, (-e) as nat)
    }
}

/// The single-precision product of a length and a number, cast to a whole number:
/// cut towards zero and held between the 32-bit bounds; what is no number counts as
/// zero.
pub open spec fn scaled(len: int, bits: int) -> int {
    let m = magnitude(bits);
    let negative = (len < 0) != (bits >= SIGN);
    let size = if len < 0 {
        (-len) as nat
    } else {
        len as nat
    };
    if m > INFINITE || (m == INFINITE && len == 0) {
        0
    } else if m == INFINITE {
        if negative {
            i32::MIN as int
        } else {
            i32::MAX as int
        }
    } else if negative {
        sat(-(cut_product(size, m) as int))
    } else {
        sat(cut_product(size, m) as int)
    }
}

/// A number held between a tenth and nine tenths; what is no number stays.
pub open spec fn clamped(bits: int) -> int {
    if magnitude(bits) > INFINITE {
        bits
    } else if bits >= SIGN || bits < TENTH {
        TENTH as int
    } else if bits > NINE_TENTHS {
        NINE_TENTHS as int
    } else {
        bits
    }
}

pub fn clamp(bits: u32) -> (r: u32)
    ensures
        r == clamped(bits as int),
{
    let m: u32 = if bits >= SIGN {
        bits - SIGN
    } else {
        bits
    };
    if m > INFINITE {
        bits
    } else if bits >= SIGN || bits < TENTH {
        TENTH
    } else if bits > NINE_TENTHS {
        NINE_TENTHS
    } else {
        bits
    }
}

fn round_to_single(p: u128) -> (r: u128)
    requires
        p < 0x1000_0000_0000_0000,
    ensures
        r == rounded(p as nat),
        r <= 2 * p,
{
    let mut unit: u128 = 1;
    while p / unit >= 0x100_0000
        invariant
            0 < unit <= p + 1,
            p >= 0x100_0000 ==> unit <= p,
            p < 0x1000_0000_0000_0000,
            unit_for(p as nat, 1) == unit_for(p as nat, unit as nat),
        decreases p + 1 - unit,
    {
        assert(p >= 2 * unit) by (nonlinear_arith)
            requires
                p / unit >= 2,
                unit > 0,
        ;
        unit = 2 * unit;
    }
    let q: u128 = p / unit;
    let rest: u128 = p % unit;
    proof {
        assert(q <= p) by (nonlinear_arith)
            requires
                q == p / unit,
                unit > 0,
        ;
        assert(q * unit + rest == p) by (nonlinear_arith)
            requires
                q == p / unit,
                rest == p % unit,
                unit > 0,
        ;
        assert((q + 1) * unit == q * unit + unit) by (nonlinear_arith);
        if p < 0x100_0000 {
            assert(p / 1 == p);
            assert(unit_for(p as nat, 1) == 1);
            assert(unit_for(p as nat, unit as nat) == unit);
            assert(rest == 0) by (nonlinear_arith)
                requires
                    rest == p % unit,
                    unit == 1,
            ;
        }
    }
    if 2 * rest > unit || (2 * rest == unit && q % 2 == 1) {
        (q + 1) * unit
    } else {
        q * unit
    }
}

proof fn lemma_doubled_grows(v: nat, k: nat)
    ensures
        doubled(v, k) >= v,
    decreases k,
{
    if k > 0 {
        lemma_doubled_grows(2 * v, (k - 1) as nat);
    }
}

fn cut_scaled(len: u64, m: u32) -> (r: i128)
    requires
        len <= 0x8000_0000,
        m < INFINITE,
    ensures
        0 <= r <= 0x1_0000_0000_0000_0000,
        r == cut_product(len as nat, m as int) || (r > 0x8000_0000 && cut_product(
            len as nat,
            m as int,
        ) > 0x8000_0000),
{
    let a: u128 = round_to_single(len as u128);
    let mant: u128 = if m < HIDDEN {
        m as u128
    } else {
        (HIDDEN + m % HIDDEN) as u128
    };
    assert(a * mant <= 0x1_0000_0000 * 0xFF_FFFF) by (nonlinear_arith)
        requires
            0 <= a <= 0x1_0000_0000,
            0 <= mant <= 0xFF_FFFF,
    ;
    let p: u128 = round_to_single(a * mant);
    let mut v: u128 = p;
    if m >= HIDDEN && m / HIDDEN >= 150 {
        let mut k: u32 = m / HIDDEN - 150;
        while k > 0 && v <= 0x8000_0000
            invariant
                v <= 0x2000_0000_0000_0000,
                doubled(p as nat, (m as int / HIDDEN as int - 150) as nat) == doubled(
                    v as nat,
                    k as nat,
                ),
            decreases k,
        {
            v = 2 * v;
            k = k - 1;
        }
        proof {
            lemma_doubled_grows(v as nat, k as nat);
        }
    } else {
        let mut k: u32 = if m < HIDDEN {
            149
        } else {
            150 - m / HIDDEN
        };
        while k > 0
            invariant
                v <= 0x2000_0000_0000_0000,
                halved(p as nat, (-exponent(m as int)) as nat) == halved(v as nat, k as nat),
            decreases k,
        {
            v = v / 2;
            k = k - 1;
        }
    }
    v as i128
}

/// The single-precision product of a length and a number, cast to a whole number.
pub fn scale(len: i32, bits: u32) -> (r: i32)
    ensures
        r == scaled(len as int, bits as int),
{
    let m: u32 = if bits >= SIGN {
        bits - SIGN
    } else {
        bits
    };
    let negative = (len < 0) != (bits >= SIGN);
    if m > INFINITE || (m == INFINITE && len == 0) {
        return 0;
    }
    if m == INFINITE {
        return if negative {
            i32::MIN
        } else {
            i32::MAX
        };
    }
    let size: u64 = if len < 0 {
        (-(len as i64)) as u64
    } else {
        len as u64
    };
    let v: i128 = cut_scaled(size, m);
    if negative {
        sat_i128(-v)
    } else {
        sat_i128(v)
    }
}

/// A clamped number stays as it is when it is clamped again.
pub proof fn law_clamped_is_stable(bits: u32)
    ensures
        clamped(clamped(bits as int)) == clamped(bits as int),
        magnitude(bits as int) <= INFINITE ==> TENTH <= clamped(bits as int) <= NINE_TENTHS,
{
}

proof fn lemma_unit(p: nat, unit: nat)
    requires
        unit > 0,
        unit == 1 || unit * 0x80_0000 <= p,
    ensures
        ({
            let u = unit_for(p, unit);
            u >= 1 && (u == 1 || u * 0x80_0000 <= p)
        }),
    decreases p - unit,
{
    if p / unit >= 0x100_0000 {
        assert(p >= 0x100_0000 * unit) by (nonlinear_arith)
            requires
                p / unit >= 0x100_0000,
                unit > 0,
        ;
        lemma_unit(p, 2 * unit);
    }
}

proof fn lemma_halved(v: nat, k: nat)
    ensures
        halved(v, k) * pow2(k) <= v < halved(v, k) * pow2(k) + pow2(k),
    decreases k,
{
    if k == 0 {
        vstd::arithmetic::power2::lemma2_to64();
    } else {
        let j = (k - 1) as nat;
        lemma_halved(v / 2, j);
        vstd::arithmetic::power2::lemma_pow2_unfold(k);
        let h = halved(v, k);
        let q = pow2(j);
        assert(h * (2 * q) == 2 * (h * q)) by (nonlinear_arith);
    }
}

/// The share of a length is the whole number just below the product of the two, but for
/// what the single-precision product is rounded by. A share between one half and one is
/// 2^23 and its fraction in 2^24 parts, one between a quarter and a half in 2^25.
pub proof fn law_shares_are_cut_to_whole_pixels(len: int, bits: int)
    requires
        0 < len < 0x100_0000,
        TENTH <= bits <= NINE_TENTHS,
    ensures
        ({
            let p = len * (0x80_0000 + bits % 0x80_0000);
            let d: int = if bits >= 0x3F00_0000 {
                0x100_0000
            } else if bits >= 0x3E80_0000 {
                0x200_0000
            } else if bits >= 0x3E00_0000 {
                0x400_0000
            } else {
                0x800_0000
            };
            let n = scaled(len, bits);
            &&& 0 <= n
            &&& d * n <= p + p / 0x100_0000 + 1
            &&& p <= d * n + d + p / 0x100_0000 + 1
        }),
{
    let m = mantissa(bits) as int;
    let p = len * m;
    assert(0 < p < 0x100_0000 * 0x100_0000) by (nonlinear_arith)
        requires
            0 < len < 0x100_0000,
            0 < m < 0x100_0000,
            p == len * m,
    ;
    assert(rounded(len as nat) == len) by {
        assert(len as nat / 1 < 0x100_0000);
        assert(unit_for(len as nat, 1) == 1);
    }
    let u = unit_for(p as nat, 1);
    lemma_unit(p as nat, 1);
    crate::ratio::lemma_to_multiple(p as nat, u);
    let r = rounded(p as nat);
    assert(2 * p - u <= 2 * r <= 2 * p + u);
    let e = exponent(bits);
    let k = (-e) as nat;
    assert(k == 24 || k == 25 || k == 26 || k == 27);
    vstd::arithmetic::power2::lemma2_to64();
    lemma_halved(r, k);
    let n = halved(r, k) as int;
    let d = pow2(k) as int;
    assert(d * n == n * d) by (nonlinear_arith);
    assert(r <= 0x100_0000 * 0x100_0000 + 0x200_0000);
    assert(n <= 0x200_0000) by (nonlinear_arith)
        requires
            n * d <= 0x100_0000 * 0x100_0000 + 0x200_0000,
            d >= 0x100_0000,
    ;
    assert(scaled(len, bits) == n);
}

} // verus!
