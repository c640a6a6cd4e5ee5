//! Ratios that come as the bits of a single-precision floating-point number.
use vstd::prelude::*;

verus! {

/// The bits of positive infinity, which follow those of the positive numbers.
pub const INFINITY_BITS: u32 = 0x7f80_0000;

/// The bits of 1000.
pub const THOUSAND_BITS: u32 = 0x447a_0000;

/// Whether the bits do not stand for a number.
pub open spec fn is_nan(bits: u32) -> bool {
    bits % 0x8000_0000 > INFINITY_BITS
}

/// The finite number, not below zero, that `bits` stands for, in units of two to the power
/// of -149 (of which every such number is a whole multiple).
pub open spec fn units(bits: u32) -> nat
    recommends
        bits < INFINITY_BITS,
{
    let exponent = (bits / 0x80_0000) as nat;
    let mantissa = (bits % 0x80_0000) as nat;
    if exponent == 0 {
        mantissa
    } else {
        (mantissa + 0x80_0000) * vstd::arithmetic::power2::pow2((exponent - 1) as nat)
    }
}

/// Whether a ratio is greater than zero and at most 1000.
pub open spec fn is_valid_ratio(bits: u32) -> bool {
    bits < INFINITY_BITS && 0 < units(bits) <= 1000 * vstd::arithmetic::power2::pow2(149)
}

proof fn lemma_units_step(bits: u32)
    requires
        bits + 1 < INFINITY_BITS,
    ensures
        units(bits) < units((bits + 1) as u32),
{
    let e = (bits / 0x80_0000) as nat;
    let m = (bits % 0x80_0000) as nat;
    let next = (bits + 1) as u32;
    if m + 1 < 0x80_0000 {
        assert(next / 0x80_0000 == e && next % 0x80_0000 == m + 1);
        if e > 0 {
            let p = vstd::arithmetic::power2::pow2((e - 1) as nat);
            vstd::arithmetic::power2::lemma_pow2_pos((e - 1) as nat);
            assert((m + 0x80_0000) * p < (m + 1 + 0x80_0000) * p) by (nonlinear_arith)
                requires
                    p > 0,
            ;
            assert(units(next) == (m + 1 + 0x80_0000) * p);
            assert(units(bits) == (m + 0x80_0000) * p);
        }
    } else {
        assert(next / 0x80_0000 == e + 1 && next % 0x80_0000 == 0);
        if e > 0 {
            let p = vstd::arithmetic::power2::pow2((e - 1) as nat);
            vstd::arithmetic::power2::lemma_pow2_pos((e - 1) as nat);
            vstd::arithmetic::power2::lemma_pow2_unfold(e);
            assert((m + 0x80_0000) * p < 0x80_0000 * (2 * p)) by (nonlinear_arith)
                requires
                    p > 0,
                    m == 0x7f_ffff,
            ;
            assert((e + 1 - 1) as nat == e);
            assert(units(next) == (0 + 0x80_0000) * vstd::arithmetic::power2::pow2(e));
            assert(units(bits) == (m + 0x80_0000) * p);
        } else {
            assert(units(next) == (0 + 0x80_0000) * vstd::arithmetic::power2::pow2(0));
            vstd::arithmetic::power2::lemma2_to64();
        }
    }
}

/// Of two numbers, the one with the smaller bits is the smaller one.
pub proof fn units_increase(a: u32, b: u32)
    requires
        a < b < INFINITY_BITS,
    ensures
        units(a) < units(b),
    decreases b - a,
{
    let c = (b - 1) as u32;
    if a < c {
        units_increase(a, c);
    }
    lemma_units_step(c);
}

proof fn lemma_thousand()
    ensures
        units(THOUSAND_BITS) == 1000 * vstd::arithmetic::power2::pow2(149),
{
    assert(THOUSAND_BITS / 0x80_0000 == 136 && THOUSAND_BITS % 0x80_0000 == 0x7a_0000);
    vstd::arithmetic::power2::lemma_pow2_adds(14, 135);
    vstd::arithmetic::power2::lemma2_to64();
    let p = vstd::arithmetic::power2::pow2(135);
    assert(vstd::arithmetic::power2::pow2(14) == 16384);
    assert((0x7a_0000 + 0x80_0000) * p == 1000 * (16384 * p)) by (nonlinear_arith);
}

/// Tells whether a ratio is greater than zero and at most 1000.
pub fn valid_ratio(bits: u32) -> (r: bool)
    ensures
        r == is_valid_ratio(bits),
{
    proof {
        lemma_thousand();
        if bits < INFINITY_BITS && bits != 0 {
            units_increase(0, bits);
        }
        if bits < THOUSAND_BITS {
            units_increase(bits, THOUSAND_BITS);
        } else if THOUSAND_BITS < bits < INFINITY_BITS {
            units_increase(THOUSAND_BITS, bits);
        }
    }
    bits != 0 && bits <= THOUSAND_BITS
}

/// A ratio is valid exactly if its bits are above those of zero and at most those of 1000, which
/// are `0x447a_0000`.
pub proof fn ratios_are_ordered_as_bits(bits: u32)
    ensures
        is_valid_ratio(bits) <==> 0 < bits <= 0x447a_0000,
        THOUSAND_BITS == 0x447a_0000,
{
    lemma_thousand();
    if bits < INFINITY_BITS && bits != 0 {
        units_increase(0, bits);
    }
    if bits < THOUSAND_BITS {
        units_increase(bits, THOUSAND_BITS);
    } else if THOUSAND_BITS < bits < INFINITY_BITS {
        units_increase(THOUSAND_BITS, bits);
    }
}

/// A ratio is found to be valid exactly if it is above zero and at most 1000.
pub proof fn valid_ratios_are_found(bits: u32, r: bool)
    requires
        call_ensures(valid_ratio, (bits,), r),
    ensures
        r <==> 0 < bits <= 0x447a_0000,
{
    ratios_are_ordered_as_bits(bits);
}

} // verus!
