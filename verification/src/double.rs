//! Double-precision numbers by their bits: as many decisions on JSON numbers as
//! this library takes.
use vstd::prelude::*;

verus! {

/// The sign bit is set.
pub open spec fn is_negative(bits: u64) -> bool {
    bits >= 0x8000_0000_0000_0000
}

/// The eleven bits of the exponent.
pub open spec fn exponent(bits: u64) -> u64 {
    (bits / 0x10_0000_0000_0000) % 0x800
}

/// The lowest 52 bits.
pub open spec fn fraction(bits: u64) -> u64 {
    bits % 0x10_0000_0000_0000
}

/// Zero, of either sign.
pub open spec fn is_zero(bits: u64) -> bool {
    bits % 0x8000_0000_0000_0000 == 0
}

/// The number without its fractional part, or the nearest 64-bit number where it
/// does not fit; what is not a number gives zero.
pub open spec fn truncated(bits: u64) -> u64 {
    if exponent(bits) == 0x7ff {
        if fraction(bits) == 0 && !is_negative(bits) {
            u64::MAX
        } else {
            0
        }
    } else if is_negative(bits) || exponent(bits) < 1023 {
        0
    } else {
        let value = (0x10_0000_0000_0000 + fraction(bits)) * vstd::arithmetic::power2::pow2(
            (exponent(bits) - 1023) as nat,
        ) / 0x10_0000_0000_0000;
        if value > u64::MAX {
            u64::MAX
        } else {
            value as u64
        }
    }
}

/// Whether the double with those bits is zero.
pub fn double_is_zero(bits: u64) -> (zero: bool)
    ensures
        zero == is_zero(bits),
{
    bits % 0x8000_0000_0000_0000 == 0
}

/// The double with those bits, truncated to a 64-bit number.
pub fn double_to_u64(bits: u64) -> (value: u64)
    ensures
        value == truncated(bits),
{
    let exponent: u64 = (bits / 0x10_0000_0000_0000) % 0x800;
    let fraction: u64 = bits % 0x10_0000_0000_0000;
    let negative = bits >= 0x8000_0000_0000_0000;
    if exponent == 0x7ff {
        return if fraction == 0 && !negative {
            u64::MAX
        } else {
            0
        };
    }
    if negative || exponent < 1023 {
        return 0;
    }
    let mantissa: u64 = 0x10_0000_0000_0000 + fraction;
    let shift: u64 = exponent - 1023;
    let ghost scaled = mantissa * vstd::arithmetic::power2::pow2(shift as nat);
    proof {
        vstd::arithmetic::power2::lemma2_to64();
        vstd::arithmetic::power2::lemma2_to64_rest();
    }
    if shift >= 64 {
        proof {
            vstd::arithmetic::power2::lemma_pow2_adds(64, (shift - 64) as nat);
            vstd::arithmetic::power2::lemma_pow2_pos((shift - 64) as nat);
            let rest = vstd::arithmetic::power2::pow2((shift - 64) as nat);
            assert(scaled >= 0x10_0000_0000_0000 * 0x1_0000_0000_0000_0000) by (nonlinear_arith)
                requires
                    scaled == mantissa * (0x1_0000_0000_0000_0000 * rest),
                    mantissa >= 0x10_0000_0000_0000,
                    rest >= 1,
            ;
        }
        u64::MAX
    } else if shift >= 52 {
        let up: u64 = shift - 52;
        proof {
            vstd::arithmetic::power2::lemma_pow2_adds(52, up as nat);
            let rest = vstd::arithmetic::power2::pow2(up as nat);
            vstd::arithmetic::power2::lemma_pow2_strictly_increases(up as nat, 12);
            assert(scaled / 0x10_0000_0000_0000 == mantissa * rest && mantissa * rest <= u64::MAX)
                by (nonlinear_arith)
                requires
                    scaled == mantissa * (0x10_0000_0000_0000 * rest),
                    mantissa < 0x20_0000_0000_0000,
                    1 <= rest <= 0x800,
            ;
            vstd::bits::lemma_u64_shl_is_mul(mantissa, up);
        }
        mantissa << up
    } else {
        let down: u64 = 52 - shift;
        proof {
            vstd::arithmetic::power2::lemma_pow2_adds(shift as nat, down as nat);
            let low = vstd::arithmetic::power2::pow2(shift as nat);
            let high = vstd::arithmetic::power2::pow2(down as nat);
            vstd::arithmetic::power2::lemma_pow2_pos(shift as nat);
            vstd::arithmetic::power2::lemma_pow2_pos(down as nat);
            vstd::arithmetic::div_mod::lemma_div_denominator(scaled as int, low as int, high as int);
            vstd::arithmetic::div_mod::lemma_div_by_multiple(mantissa as int, low as int);
            assert(scaled / 0x10_0000_0000_0000 == mantissa as int / high as int);
            vstd::bits::lemma_u64_shr_is_div(mantissa, down);
        }
        mantissa >> down
    }
}

} // verus!
