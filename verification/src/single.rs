//! Single-precision numbers by their bit patterns.
//!
//! A pattern is a sign bit, eight bits of exponent and 23 bits of fraction.
//! The patterns up to that of positive infinity stand for the numbers from
//! zero up, and among them the greater pattern stands for the greater
//! number: such numbers can be compared and cut to a range without
//! floating-point arithmetic.

use vstd::prelude::*;

verus! {

/// The pattern of positive infinity. The patterns above it stand for no
/// number or for a negative one.
pub const POSITIVE_INFINITY: u32 = 0x7f80_0000;

/// Two to the power `e`.
pub open spec fn pow2(e: nat) -> nat
    decreases e,
{
    if e == 0 {
        1
    } else {
        2 * pow2((e - 1) as nat)
    }
}

/// The exponent field of a pattern from zero up.
pub open spec fn exponent_of(bits: u32) -> nat {
    (bits / 0x80_0000) as nat
}

/// The fraction field of a pattern.
pub open spec fn fraction_of(bits: u32) -> nat {
    (bits % 0x80_0000) as nat
}

/// The number that a pattern below that of positive infinity stands for,
/// times two to the power 149, which makes it whole.
pub open spec fn scaled_value(bits: u32) -> nat {
    if exponent_of(bits) == 0 {
        fraction_of(bits)
    } else {
        (0x80_0000 + fraction_of(bits)) * pow2((exponent_of(bits) - 1) as nat)
    }
}

/// The pattern `bits` cut to the range from zero to the number whose pattern
/// is `limit`. A negative number, and a pattern that stands for no number,
/// gives zero; positive infinity gives the limit.
pub open spec fn clamp_pattern(bits: u32, limit: u32) -> u32 {
    if bits > POSITIVE_INFINITY {
        0
    } else if bits >= limit {
        limit
    } else {
        bits
    }
}

/// Cuts a pattern to the range from zero to the number whose pattern is
/// `limit`.
pub fn clamped_pattern(bits: u32, limit: u32) -> (r: u32)
    ensures
        r == clamp_pattern(bits, limit),
{
    if bits > POSITIVE_INFINITY {
        0
    } else if bits >= limit {
        limit
    } else {
        bits
    }
}

/// A greater exponent gives a greater power of two.
pub proof fn lemma_pow2_grows(low: nat, high: nat)
    requires
        low <= high,
    ensures
        1 <= pow2(low) <= pow2(high),
    decreases high,
{
    if low < high {
        lemma_pow2_grows(low, (high - 1) as nat);
    } else if low > 0 {
        lemma_pow2_grows((low - 1) as nat, (low - 1) as nat);
    }
}

/// Among the patterns below that of positive infinity the greater pattern
/// stands for the greater number.
pub proof fn lemma_patterns_are_ordered(a: u32, b: u32)
    requires
        a <= b < POSITIVE_INFINITY,
    ensures
        scaled_value(a) <= scaled_value(b),
        a < b ==> scaled_value(a) < scaled_value(b),
{
    let ea = exponent_of(a);
    let eb = exponent_of(b);
    let fa = fraction_of(a);
    let fb = fraction_of(b);
    assert(a == ea * 0x80_0000 + fa && b == eb * 0x80_0000 + fb);
    assert(ea <= eb);
    if ea == eb {
        if ea > 0 {
            let weight = pow2((ea - 1) as nat);
            lemma_pow2_grows(0, (ea - 1) as nat);
            assert((0x80_0000 + fa) * weight <= (0x80_0000 + fb) * weight) by (nonlinear_arith)
                requires
                    fa <= fb,
                    weight >= 1,
            ;
            if a < b {
                assert((0x80_0000 + fa) * weight < (0x80_0000 + fb) * weight) by (nonlinear_arith)
                    requires
                        fa < fb,
                        weight >= 1,
                ;
            }
        }
    } else {
        let high = pow2((eb - 1) as nat);
        if ea == 0 {
            lemma_pow2_grows(0, (eb - 1) as nat);
            assert(fa < (0x80_0000 + fb) * high) by (nonlinear_arith)
                requires
                    fa < 0x80_0000,
                    high >= 1,
            ;
        } else {
            let low = pow2((ea - 1) as nat);
            lemma_pow2_grows(ea, (eb - 1) as nat);
            assert(pow2(ea) == 2 * low);
            assert((0x80_0000 + fa) * low < (0x80_0000 + fb) * high) by (nonlinear_arith)
                requires
                    fa < 0x80_0000,
                    2 * low <= high,
                    low >= 1,
            ;
        }
    }
}

/// Cutting a pattern is cutting the number: of a pattern below that of
/// positive infinity, and a limit below it, the cut pattern stands for the
/// smaller of the two numbers.
pub proof fn lemma_clamp_is_numeric(bits: u32, limit: u32)
    requires
        bits < POSITIVE_INFINITY,
        limit < POSITIVE_INFINITY,
    ensures
        scaled_value(clamp_pattern(bits, limit)) == if scaled_value(bits) <= scaled_value(limit) {
            scaled_value(bits)
        } else {
            scaled_value(limit)
        },
{
    if bits >= limit {
        lemma_patterns_are_ordered(limit, bits);
    } else {
        lemma_patterns_are_ordered(bits, limit);
    }
}

/// The pattern of a whole number that fits in 24 bits, times a power of two:
/// with the exponent field `biased`, the pattern whose fraction is `whole`
/// without its top bit stands for `whole` times two to the power
/// `biased - 150`.
pub proof fn lemma_value_of_whole(biased: u32, whole: u32)
    requires
        1 <= biased < 0xff,
        0x80_0000 <= whole < 0x100_0000,
    ensures
        scaled_value((biased * 0x80_0000 + (whole - 0x80_0000)) as u32) == whole * pow2(
            (biased - 1) as nat,
        ),
{
    let bits = (biased * 0x80_0000 + (whole - 0x80_0000)) as u32;
    assert(bits == biased * 0x80_0000 + (whole - 0x80_0000)) by (nonlinear_arith)
        requires
            1 <= biased < 0xff,
            0x80_0000 <= whole < 0x100_0000,
            bits == (biased * 0x80_0000 + (whole - 0x80_0000)) as u32,
    ;
    assert(exponent_of(bits) == biased && fraction_of(bits) == whole - 0x80_0000) by {
        assert(bits / 0x80_0000 == biased && bits % 0x80_0000 == whole - 0x80_0000)
            by (nonlinear_arith)
            requires
                bits == biased * 0x80_0000 + (whole - 0x80_0000),
                0 <= whole - 0x80_0000 < 0x80_0000,
        ;
    }
}

} // verus!
