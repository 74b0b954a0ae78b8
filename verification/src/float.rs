//! Floating-point values, by their bits.

use vstd::prelude::*;

verus! {

/// A 64-bit IEEE 754 number, kept as its bits.
///
/// Equality is total: a NaN equals every NaN, and the two zeros are equal.
#[derive(Debug, Clone, Copy)]
pub struct Float64 {
    pub bits: u64,
}

/// The bits without the sign.
pub open spec fn magnitude(bits: u64) -> int {
    bits as int % 0x8000_0000_0000_0000
}

/// Whether the bits are those of a NaN: all exponent bits set, and a mantissa other than zero.
pub open spec fn is_nan(bits: u64) -> bool {
    magnitude(bits) > 0x7ff0_0000_0000_0000
}

/// Whether the two numbers are equal, with every NaN equal to every NaN.
pub open spec fn same_float(a: Float64, b: Float64) -> bool {
    if is_nan(a.bits) {
        is_nan(b.bits)
    } else {
        a.bits == b.bits || (magnitude(a.bits) == 0 && magnitude(b.bits) == 0)
    }
}

/// The exponent bits.
pub open spec fn exponent(bits: u64) -> int {
    magnitude(bits) / 0x10_0000_0000_0000
}

/// The mantissa bits.
pub open spec fn mantissa(bits: u64) -> int {
    magnitude(bits) % 0x10_0000_0000_0000
}

/// The word as which `ordered_float::OrderedFloat` hashes a number. All NaNs have one word, and so
/// do both zeros. Else the word is made of three parts: a bit that is set on a positive number, the
/// exponent less 1075 in eleven bits, and the mantissa, which is doubled where the exponent bits
/// are zero, in fifty-two bits.
pub open spec fn float_word(value: Float64) -> u64 {
    let bits = value.bits;
    let sign: int = if bits < 0x8000_0000_0000_0000 || magnitude(bits) == 0 {
        0x8000_0000_0000_0000
    } else {
        0
    };
    let fraction = if exponent(bits) == 0 {
        (2 * mantissa(bits)) % 0x10_0000_0000_0000
    } else {
        mantissa(bits)
    };
    if is_nan(bits) {
        0x7ff8_0000_0000_0000
    } else {
        (sign + 0x10_0000_0000_0000 * ((exponent(bits) - 1075) % 2048) + fraction) as u64
    }
}

impl Float64 {
    /// Gives the word as which the number is hashed.
    pub fn to_word(&self) -> (word: u64)
        ensures
            word == float_word(*self),
    {
        let magnitude = self.bits % 0x8000_0000_0000_0000;
        let exponent = magnitude / 0x10_0000_0000_0000;
        let mantissa = magnitude % 0x10_0000_0000_0000;
        let sign: u64 = if self.bits < 0x8000_0000_0000_0000 || magnitude == 0 {
            0x8000_0000_0000_0000
        } else {
            0
        };
        let fraction = if exponent == 0 {
            (2 * mantissa) % 0x10_0000_0000_0000
        } else {
            mantissa
        };
        if self.is_nan() {
            0x7ff8_0000_0000_0000
        } else {
            // 973 is -1075 modulo 2048
            sign + 0x10_0000_0000_0000 * ((exponent + 973) % 2048) + fraction
        }
    }

    /// Whether the number is a NaN.
    pub fn is_nan(&self) -> (nan: bool)
        ensures
            nan == is_nan(self.bits),
    {
        self.bits % 0x8000_0000_0000_0000 > 0x7ff0_0000_0000_0000
    }
}

impl PartialEq for Float64 {
    fn eq(&self, other: &Self) -> (equal: bool) {
        if self.is_nan() {
            other.is_nan()
        } else {
            self.bits == other.bits || (self.bits % 0x8000_0000_0000_0000 == 0 && other.bits
                % 0x8000_0000_0000_0000 == 0)
        }
    }
}

impl vstd::std_specs::cmp::PartialEqSpecImpl for Float64 {
    open spec fn obeys_eq_spec() -> bool {
        true
    }

    open spec fn eq_spec(&self, other: &Self) -> bool {
        same_float(*self, *other)
    }
}

impl Eq for Float64 {

}

/// A NaN has all exponent bits set, and a mantissa other than zero.
pub proof fn law_nan(bits: u64)
    ensures
        is_nan(bits) <==> (bits >> 52u64) & 0x7ff == 0x7ff && bits & 0xf_ffff_ffff_ffff != 0,
{
    assert(bits % 0x8000_0000_0000_0000 > 0x7ff0_0000_0000_0000 <==> (bits >> 52u64) & 0x7ff == 0x7ff
        && bits & 0xf_ffff_ffff_ffff != 0) by (bit_vector);
}

/// Equality of floating-point numbers is an equivalence.
pub proof fn law_float_equality(a: Float64, b: Float64, c: Float64)
    ensures
        same_float(a, a),
        same_float(a, b) == same_float(b, a),
        same_float(a, b) && same_float(b, c) ==> same_float(a, c),
{
}

/// Equal floating-point numbers have the same word.
pub proof fn law_float_word(a: Float64, b: Float64)
    requires
        same_float(a, b),
    ensures
        float_word(a) == float_word(b),
{
}

/// The word of a number, put together from its bits: the bit for a positive sign, the exponent bits
/// moved by 973 in a circle of 2048, and the mantissa bits, shifted up by one where the exponent
/// bits are zero. Minus zero has the word of zero, and every NaN has one word.
pub proof fn law_float_word_by_bits(value: Float64)
    ensures
        ({
            let bits = value.bits;
            let e = (bits >> 52u64) & 0x7ff;
            let m = bits & 0xf_ffff_ffff_ffff;
            let word = float_word(value);
            if e == 0x7ff && m != 0 {
                word == 0x7ff8_0000_0000_0000
            } else if bits == 0x8000_0000_0000_0000 {
                word == 0xbcd0_0000_0000_0000
            } else {
                &&& word & 0xf_ffff_ffff_ffff == (if e == 0 {
                    (m << 1u64) & 0xf_ffff_ffff_ffff
                } else {
                    m
                })
                &&& (word >> 52u64) & 0x7ff == (e + 973) % 2048
                &&& word >> 63u64 == (if bits >> 63u64 == 0 {
                    1u64
                } else {
                    0u64
                })
            }
        }),
{
    let bits = value.bits;
    let e = (bits >> 52u64) & 0x7ff;
    let m = bits & 0xf_ffff_ffff_ffff;
    assert(bits % 0x8000_0000_0000_0000 == 0x10_0000_0000_0000 * e + m && e < 2048 && m
        < 0x10_0000_0000_0000) by (bit_vector)
        requires
            e == (bits >> 52u64) & 0x7ff,
            m == bits & 0xf_ffff_ffff_ffff,
    ;
    assert(bits >> 63u64 == (if bits < 0x8000_0000_0000_0000 { 0u64 } else { 1u64 })) by (bit_vector);
    assert((m << 1u64) & 0xf_ffff_ffff_ffff == (2 * m) % 0x10_0000_0000_0000) by (bit_vector)
        requires
            m < 0x10_0000_0000_0000,
    ;
    let word = float_word(value);
    assert(word & 0xf_ffff_ffff_ffff == word % 0x10_0000_0000_0000) by (bit_vector);
    assert((word >> 52u64) & 0x7ff == (word / 0x10_0000_0000_0000) % 2048) by (bit_vector);
    assert(word >> 63u64 == word / 0x8000_0000_0000_0000) by (bit_vector);
}

} // verus!
