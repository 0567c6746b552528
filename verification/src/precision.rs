//! Single-precision floats as bits: clamping to the unit range and
//! narrowing to half precision.
use vstd::prelude::*;
use vstd::arithmetic::power2::pow2;

verus! {

/// The bits of the single-precision float 1.0.
pub const ONE: u32 = 0x3f80_0000;

/// A single-precision float, given by its bits, brought into the range from
/// 0.0 to 1.0. Whatever has its sign bit set becomes 0.0: the negative
/// numbers and negative zero. Whatever else lies above the bits of 1.0 becomes
/// 1.0: the larger numbers, infinity and what is not a number.
pub open spec fn unit_clamped(bits: u32) -> u32 {
    if bits >= 0x8000_0000 {
        0
    } else if bits > ONE {
        ONE
    } else {
        bits
    }
}

/// Computes [`unit_clamped`].
pub fn clamp_unit(bits: u32) -> (r: u32)
    ensures
        r == unit_clamped(bits),
        r <= ONE,
{
    if bits >= 0x8000_0000 {
        0
    } else if bits > ONE {
        ONE
    } else {
        bits
    }
}

/// `n` in units of `unit`, rounded to the nearest whole number of units, and
/// to the even one where two are equally near.
pub open spec fn nearest_even(n: nat, unit: nat) -> nat {
    let below = n / unit;
    let rest = n % unit;
    if 2 * rest > unit || (2 * rest == unit && below % 2 == 1) {
        below + 1
    } else {
        below
    }
}

/// The magnitude bits of the half-precision float nearest to the
/// single-precision float with the given exponent and mantissa fields.
///
/// The magnitude bits of a half count its value in steps. From the smallest
/// normal half on, a step is 2^13 times the step of the single-precision
/// float with the same value, and the half with exponent field 1 and mantissa
/// 0 stands where the single with exponent field 113 stands. Below that, a
/// half with bits `h` has the value `h` times 2^-24, and a single with
/// exponent field `e` has the value of its mantissa, with the leading one,
/// times 2^(`e` - 150). Numbers from 65520 on round to infinity, 0x7c00, and
/// what is not a number becomes the quiet one, 0x7e00.
pub open spec fn half_magnitude(exponent: nat, mantissa: nat) -> nat {
    if exponent == 255 {
        if mantissa == 0 {
            0x7c00
        } else {
            0x7e00
        }
    } else if exponent >= 143 {
        0x7c00
    } else if exponent >= 113 {
        nearest_even(((exponent - 112) * 0x80_0000 + mantissa) as nat, 0x2000)
    } else if exponent >= 102 {
        nearest_even(0x80_0000 + mantissa, pow2((126 - exponent) as nat))
    } else {
        0
    }
}

/// The bits of the half-precision float nearest to the single-precision
/// float with the given bits, ties to even. The sign stays as it is.
pub open spec fn half_of(single: u32) -> u16 {
    let sign: nat = if single >= 0x8000_0000 {
        0x8000
    } else {
        0
    };
    let magnitude = (single % 0x8000_0000) as nat;
    (sign + half_magnitude(magnitude / 0x80_0000, magnitude % 0x80_0000)) as u16
}

/// Rounds `kept` units up where the rest behind them is more than half a
/// unit, or is half a unit behind an odd number of units.
fn round_even(kept: u32, rest: u32, half: u32) -> (r: u32)
    requires
        kept < u32::MAX,
        half <= 0x4000_0000,
    ensures
        r == if 2 * rest > 2 * half || (2 * rest == 2 * half && kept as nat % 2 == 1) {
            kept + 1
        } else {
            kept as int
        },
{
    assert((kept & 1 == 1) == (kept % 2 == 1)) by (bit_vector);
    if rest > half || (rest == half && kept & 1 == 1) {
        kept + 1
    } else {
        kept
    }
}

/// Narrows a single-precision float to half precision; see [`half_of`].
pub fn to_half(single: u32) -> (r: u16)
    ensures
        r == half_of(single),
{
    let sign: u32 = (single >> 16) & 0x8000;
    let exponent: u32 = (single >> 23) & 0xff;
    let mantissa: u32 = single & 0x7f_ffff;
    assert(exponent == (single % 0x8000_0000) / 0x80_0000 && mantissa == (single % 0x8000_0000)
        % 0x80_0000 && exponent <= 255 && mantissa <= 0x7f_ffff && sign == if single
        >= 0x8000_0000 {
        0x8000u32
    } else {
        0u32
    }) by (bit_vector)
        requires
            sign == (single >> 16) & 0x8000,
            exponent == (single >> 23) & 0xff,
            mantissa == single & 0x7f_ffff,
    ;
    let magnitude: u32 = if exponent == 255 {
        if mantissa == 0 {
            0x7c00
        } else {
            0x7e00
        }
    } else if exponent >= 143 {
        0x7c00
    } else if exponent >= 113 {
        let biased: u32 = exponent - 112;
        let kept: u32 = (biased << 10) | (mantissa >> 13);
        let rest: u32 = mantissa & 0x1fff;
        assert(kept <= 0x7bff && kept == (biased * 0x80_0000 + mantissa) / 0x2000 && rest == (
        biased * 0x80_0000 + mantissa) % 0x2000) by (bit_vector)
            requires
                kept == (biased << 10) | (mantissa >> 13),
                rest == mantissa & 0x1fff,
                biased <= 30,
                mantissa <= 0x7f_ffff,
        ;
        round_even(kept, rest, 0x1000)
    } else if exponent >= 102 {
        let shift: u32 = 126 - exponent;
        let m: u32 = mantissa | 0x80_0000;
        let unit: u32 = 1u32 << shift;
        let half: u32 = 1u32 << (shift - 1);
        proof {
            vstd::bits::lemma_u32_pow2_no_overflow(shift as nat);
            vstd::bits::lemma_u32_pow2_no_overflow((shift - 1) as nat);
            vstd::bits::lemma_u32_shl_is_mul(1, shift);
            vstd::bits::lemma_u32_shl_is_mul(1, (shift - 1) as u32);
            vstd::arithmetic::power2::lemma_pow2_unfold(shift as nat);
            assert(unit == pow2(shift as nat) && unit == 2 * half && half >= 1);
        }
        let kept: u32 = m >> shift;
        let rest: u32 = m & (unit - 1);
        assert(m == 0x80_0000 + mantissa) by (bit_vector)
            requires
                m == mantissa | 0x80_0000,
                mantissa <= 0x7f_ffff,
        ;
        assert(kept <= 0x3ff) by (bit_vector)
            requires
                kept == m >> shift,
                m <= 0xff_ffff,
                14 <= shift <= 24,
        ;
        assert(half <= 0x80_0000) by (bit_vector)
            requires
                half == 1u32 << ((shift - 1) as u32),
                14 <= shift <= 24,
        ;
        proof {
            vstd::bits::lemma_u32_shr_is_div(m, shift);
            vstd::bits::lemma_u32_low_bits_mask_is_mod(m, shift as nat);
            assert(vstd::bits::low_bits_mask(shift as nat) == unit - 1);
            assert(kept == m as nat / pow2(shift as nat));
            assert(rest == m as nat % pow2(shift as nat));
        }
        round_even(kept, rest, half)
    } else {
        0
    };
    assert(magnitude == half_magnitude(exponent as nat, mantissa as nat));
    assert(magnitude <= 0x7e00);
    let bits: u32 = sign | magnitude;
    assert(bits == sign + magnitude && bits <= 0xffff) by (bit_vector)
        requires
            bits == sign | magnitude,
            sign == 0 || sign == 0x8000,
            magnitude <= 0x7e00,
    ;
    bits as u16
}

} // verus!
