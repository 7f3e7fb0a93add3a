//! Doubles (IEEE 754 binary64) held as their 64 bits.
//!
//! A finite, non-negative double is `significand * 2^(scale - 1075)`.
use vstd::arithmetic::power2::*;
use vstd::prelude::*;

verus! {

/// Whether the sign bit is set.
pub open spec fn is_negative(bits: u64) -> bool {
    bits >= 0x8000_0000_0000_0000
}

/// The exponent field.
pub open spec fn exponent(bits: u64) -> nat {
    ((bits / 0x10_0000_0000_0000) % 2048) as nat
}

/// The fraction field.
pub open spec fn fraction(bits: u64) -> nat {
    (bits % 0x10_0000_0000_0000) as nat
}

/// Whether the bits stand for a number, not for an infinity or for no number.
pub open spec fn is_finite(bits: u64) -> bool {
    exponent(bits) != 2047
}

/// Whether the bits stand for no number.
pub open spec fn is_nan(bits: u64) -> bool {
    !is_finite(bits) && fraction(bits) != 0
}

/// The significand, with the leading one that normal numbers leave out.
pub open spec fn significand(bits: u64) -> nat {
    if exponent(bits) == 0 {
        fraction(bits)
    } else {
        fraction(bits) + 0x10_0000_0000_0000
    }
}

/// The exponent that the significand is scaled by, biased by 1075.
pub open spec fn scale(bits: u64) -> nat {
    if exponent(bits) == 0 {
        1
    } else {
        exponent(bits)
    }
}

/// Whether the double is above zero.
pub open spec fn is_positive(bits: u64) -> bool {
    !is_negative(bits) && !is_nan(bits) && bits != 0
}

/// Whether the double is at most `n`.
pub open spec fn at_most(bits: u64, n: nat) -> bool {
    &&& !is_nan(bits)
    &&& is_negative(bits) || (is_finite(bits) && if scale(bits) >= 1075 {
        significand(bits) * pow2((scale(bits) - 1075) as nat) <= n
    } else {
        significand(bits) <= n * pow2((1075 - scale(bits)) as nat)
    })
}

/// Whether the double is exactly the whole number `n`.
pub open spec fn equals(bits: u64, n: nat) -> bool {
    &&& !is_negative(bits)
    &&& is_finite(bits)
    &&& if scale(bits) >= 1075 {
        significand(bits) * pow2((scale(bits) - 1075) as nat) == n
    } else {
        significand(bits) == n * pow2((1075 - scale(bits)) as nat)
    }
}

/// The nearest whole number, halves away from zero, kept between 0 and 65535. What is no number
/// counts as 0.
pub open spec fn rounded(bits: u64) -> int {
    if is_nan(bits) || is_negative(bits) {
        0
    } else if !is_finite(bits) || scale(bits) >= 1075 {
        65535
    } else {
        let unit = pow2((1075 - scale(bits)) as nat);
        let whole = (2 * significand(bits) + unit) as int / (2 * unit) as int;
        if whole > 65535 {
            65535
        } else {
            whole
        }
    }
}

/// The place of the highest bit of `n`.
pub open spec fn high_bit(n: nat) -> nat
    decreases n,
{
    if n <= 1 {
        0
    } else {
        1 + high_bit(n / 2)
    }
}

/// The bits of the double that is the whole number `n`, for numbers below 65536.
pub open spec fn of_whole(n: nat) -> u64 {
    if n == 0 {
        0
    } else {
        let k = high_bit(n);
        ((1022 + k) * 0x10_0000_0000_0000 + n * pow2((52 - k) as nat)) as u64
    }
}

proof fn lemma_high_bit(n: nat)
    requires
        0 < n,
    ensures
        pow2(high_bit(n)) <= n < pow2(high_bit(n) + 1),
    decreases n,
{
    lemma2_to64();
    if n > 1 {
        lemma_high_bit(n / 2);
        lemma_pow2_unfold(high_bit(n));
        lemma_pow2_unfold(high_bit(n) + 1);
    }
}

/// `of_whole` gives the bits of the number that it is asked for.
pub proof fn of_whole_is_exact(n: nat)
    requires
        n <= 65535,
    ensures
        equals(of_whole(n), n),
{
    lemma2_to64();
    lemma2_to64_rest();
    if n > 0 {
        let k = high_bit(n);
        lemma_high_bit(n);
        if k >= 16 {
            if k > 16 {
                lemma_pow2_strictly_increases(16, k);
            }
            assert(false);
        }
        let unit = pow2((52 - k) as nat);
        lemma_pow2_adds(k, (52 - k) as nat);
        lemma_pow2_adds((k + 1) as nat, (52 - k) as nat);
        lemma_pow2_pos((52 - k) as nat);
        let m = n * unit;
        assert(pow2(52) <= m < pow2(53)) by (nonlinear_arith)
            requires
                pow2(k) <= n < pow2(k + 1),
                pow2(k) * unit == pow2(52),
                pow2(k + 1) * unit == pow2(53),
                m == n * unit,
                unit >= 1,
        ;
        let bits = of_whole(n);
        assert(bits == (1022 + k) * 0x10_0000_0000_0000 + m);
        assert(bits == (1023 + k) * 0x10_0000_0000_0000 + (m - 0x10_0000_0000_0000));
        assert(bits / 0x10_0000_0000_0000 == 1023 + k);
        assert(fraction(bits) == m - 0x10_0000_0000_0000);
        assert(exponent(bits) == 1023 + k);
    } else {
        assert(0 * pow2(1074) == 0);
    }
}

/// Two to the power of `k`.
fn two_to(k: u64) -> (r: u64)
    requires
        k < 64,
    ensures
        r == pow2(k as nat),
{
    let mut r: u64 = 1;
    let mut i: u64 = 0;
    proof {
        lemma2_to64();
    }
    while i < k
        invariant
            i <= k < 64,
            r == pow2(i as nat),
        decreases k - i,
    {
        proof {
            lemma_pow2_unfold((i + 1) as nat);
            lemma2_to64_rest();
            if i + 1 < 63 {
                lemma_pow2_strictly_increases((i + 1) as nat, 63);
            }
        }
        r = r * 2;
        i += 1;
    }
    r
}

/// Whether the double is above zero.
pub fn positive(bits: u64) -> (r: bool)
    ensures
        r == is_positive(bits),
{
    0 < bits && bits <= 0x7FF0_0000_0000_0000
}

/// Whether the double is at most ten.
pub fn at_most_ten(bits: u64) -> (r: bool)
    ensures
        r == at_most(bits, 10),
{
    let e: u64 = (bits / 0x10_0000_0000_0000) % 2048;
    let f: u64 = bits % 0x10_0000_0000_0000;
    if e == 2047 && f != 0 {
        return false;
    }
    if bits >= 0x8000_0000_0000_0000 {
        return true;
    }
    proof {
        lemma2_to64();
        lemma2_to64_rest();
        let s = scale(bits);
        if s < 1026 {
            lemma_pow2_strictly_increases(49, (1075 - s) as nat);
            if s < 1025 {
                lemma_pow2_strictly_increases(50, (1075 - s) as nat);
            }
        } else if 1026 < s < 1075 {
            if s > 1027 {
                lemma_pow2_strictly_increases((1075 - s) as nat, 48);
            }
        } else if s >= 1075 {
            lemma_pow2_pos((s - 1075) as nat);
            let p = pow2((s - 1075) as nat);
            let m = significand(bits);
            assert(m * p >= m) by (nonlinear_arith)
                requires
                    p >= 1,
                    m >= 0,
            ;
        }
    }
    e < 1026 || (e == 1026 && f <= 0x4_0000_0000_0000)
}

/// The nearest whole number, halves away from zero, kept between 0 and 65535.
pub fn round_to_u16(bits: u64) -> (r: u16)
    ensures
        r == rounded(bits),
{
    let e: u64 = (bits / 0x10_0000_0000_0000) % 2048;
    let f: u64 = bits % 0x10_0000_0000_0000;
    if bits >= 0x8000_0000_0000_0000 || (e == 2047 && f != 0) {
        return 0;
    }
    if e >= 1075 {
        return 65535;
    }
    let m: u64 = if e == 0 {
        f
    } else {
        f + 0x10_0000_0000_0000
    };
    let s: u64 = if e == 0 {
        1
    } else {
        e
    };
    let k: u64 = 1075 - s;
    proof {
        lemma2_to64();
        lemma2_to64_rest();
    }
    if k > 54 {
        proof {
            let unit = pow2(k as nat) as int;
            lemma_pow2_strictly_increases(54, k as nat);
            assert((2 * m + unit) / (2 * unit) == 0) by (nonlinear_arith)
                requires
                    0 <= 2 * m < unit,
            ;
        }
        return 0;
    }
    let unit: u64 = two_to(k);
    proof {
        if k < 54 {
            lemma_pow2_strictly_increases(k as nat, 54);
        }
        lemma_pow2_pos(k as nat);
    }
    let whole: u64 = (2 * m + unit) / (2 * unit);
    if whole > 65535 {
        65535
    } else {
        whole as u16
    }
}

/// A double that is a whole number below 65536 rounds to that number.
pub proof fn whole_rounds_to_itself(bits: u64, n: nat)
    requires
        n <= 65535,
        equals(bits, n),
    ensures
        rounded(bits) == n,
{
    lemma2_to64();
    lemma2_to64_rest();
    if scale(bits) >= 1075 {
        let p = pow2((scale(bits) - 1075) as nat);
        lemma_pow2_pos((scale(bits) - 1075) as nat);
        let m = significand(bits);
        assert(m * p >= m) by (nonlinear_arith)
            requires
                p >= 1,
                m >= 0,
        ;
    } else {
        let unit = pow2((1075 - scale(bits)) as nat);
        lemma_pow2_pos((1075 - scale(bits)) as nat);
        let m = significand(bits);
        assert((2 * m + unit) as int / (2 * unit) as int == n) by (nonlinear_arith)
            requires
                m == n * unit,
                unit >= 1,
        ;
    }
}

/// Rounding is to the nearest whole number from 0 to 65535, and upwards from halfway on; below zero,
/// and what is no number, is 0.
pub proof fn rounding_is_to_the_nearest(bits: u64)
    ensures
        0 <= rounded(bits) <= 65535,
        is_negative(bits) || is_nan(bits) ==> rounded(bits) == 0,
        !is_negative(bits) && !is_nan(bits) && (!is_finite(bits) || scale(bits) >= 1075)
            ==> rounded(bits) == 65535,
        !is_negative(bits) && is_finite(bits) && scale(bits) < 1075 ==> {
            let unit = pow2((1075 - scale(bits)) as nat);
            &&& 2 * rounded(bits) * unit <= 2 * significand(bits) + unit
            &&& rounded(bits) < 65535 ==> 2 * significand(bits) + unit < 2 * (rounded(bits) + 1)
                * unit
        },
{
    if !is_negative(bits) && is_finite(bits) && scale(bits) < 1075 {
        let unit = pow2((1075 - scale(bits)) as nat) as int;
        lemma_pow2_pos((1075 - scale(bits)) as nat);
        let n = 2 * significand(bits) + unit;
        let whole = n / (2 * unit);
        assert(0 <= whole && 2 * whole * unit <= n < 2 * (whole + 1) * unit) by (nonlinear_arith)
            requires
                unit >= 1,
                n >= 0,
                whole == n / (2 * unit),
        ;
        if whole > 65535 {
            assert(2 * 65535 * unit <= 2 * whole * unit) by (nonlinear_arith)
                requires
                    whole > 65535,
                    unit >= 1,
            ;
        }
    }
}

/// A number is above zero exactly where it is not at most zero.
pub proof fn positive_is_above_zero(bits: u64)
    requires
        !is_nan(bits),
    ensures
        is_positive(bits) <==> !at_most(bits, 0),
{
    let p = pow2((scale(bits) - 1075) as nat);
    let m = significand(bits);
    if scale(bits) >= 1075 {
        lemma_pow2_pos((scale(bits) - 1075) as nat);
        assert(m * p >= m) by (nonlinear_arith)
            requires
                p >= 1,
                m >= 0,
        ;
    }
    assert(bits == 0 ==> 0 * pow2(1074) == 0);
}

/// Whoever is at most a number is at most every larger one, and a whole number is at most itself.
pub proof fn at_most_is_an_order(bits: u64, n: nat, m: nat)
    requires
        n <= m,
    ensures
        at_most(bits, n) ==> at_most(bits, m),
        equals(bits, n) ==> at_most(bits, m),
        equals(bits, m) && n < m ==> !at_most(bits, n),
{
    if scale(bits) < 1075 {
        let unit = pow2((1075 - scale(bits)) as nat);
        lemma_pow2_pos((1075 - scale(bits)) as nat);
        assert(n * unit <= m * unit) by (nonlinear_arith)
            requires
                n <= m,
                unit >= 0,
        ;
        if n < m {
            assert(n * unit < m * unit) by (nonlinear_arith)
                requires
                    n < m,
                    unit >= 1,
            ;
        }
    }
}

} // verus!
