//! The bit layout of a payload-bearing NaN.
//!
//! ```text
//!  31 | 30 ...... 23 | 22 | 21 20 | 19 .. 16 | 15 ....... 8 | 7 ........ 0
//!  s  |  1111 1111   | q  | width | 0 0 1 0  |  first byte  | second byte
//! ```
//!
//! The sign `s` and the quiet bit `q` are written as zero and never read.
//! The width is `11` for two bytes and `10` for one byte; a pattern with any
//! other width, or with an exponent that is not all ones, carries nothing.
//! The marker `0010` is written and never read.
//!
//! The constants are the masks that the code works with. The spec functions
//! say the same of a pattern taken as a number, by division and remainder.

use vstd::prelude::*;

verus! {

/// The exponent field, bits 30 to 23. A NaN has all of them set.
pub const NAN_PREFIX: u32 = 0x7F80_0000;

/// The width tag, bits 21 and 20.
pub const WIDTH_MASK: u32 = 0x0030_0000;

/// The width tag of a unit that carries two bytes.
pub const WIDTH_TWO: u32 = 0x0030_0000;

/// The width tag of a unit that carries one byte.
pub const WIDTH_ONE: u32 = 0x0020_0000;

/// The fixed marker `0010` in bits 19 to 16, written with every width tag.
pub const MARKER: u32 = 0x0002_0000;

/// The first payload byte, bits 15 to 8.
pub const PAYLOAD_FIRST: u32 = 0x0000_FF00;

/// The second payload byte, bits 7 to 0.
pub const PAYLOAD_SECOND: u32 = 0x0000_00FF;

/// The pattern without its sign: bits 30 to 0.
pub open spec fn magnitude(bits: u32) -> u32 {
    bits % 0x8000_0000
}

/// The exponent field, bits 30 to 23, as a number from 0 to 255.
pub open spec fn exponent(bits: u32) -> u32 {
    bits / 0x0080_0000 % 0x100
}

/// The width tag, bits 21 and 20, as a number from 0 to 3.
pub open spec fn width_tag(bits: u32) -> u32 {
    bits / 0x0010_0000 % 4
}

/// What bits 15 to 8 hold.
pub open spec fn first_byte(bits: u32) -> u8 {
    (bits / 0x100 % 0x100) as u8
}

/// What bits 7 to 0 hold.
pub open spec fn second_byte(bits: u32) -> u8 {
    (bits % 0x100) as u8
}

/// The pattern is a NaN: without its sign it lies above positive infinity,
/// which is to say that the exponent is all ones and the mantissa is not
/// zero. This is what `f32::is_nan` answers for the value with these bits.
pub open spec fn is_nan_bits(bits: u32) -> bool {
    magnitude(bits) > 0x7F80_0000
}

/// The exponent is all ones and the width tag says two bytes.
pub open spec fn carries_two(bits: u32) -> bool {
    exponent(bits) == 0xFF && width_tag(bits) == 3
}

/// The exponent is all ones and the width tag says one byte.
pub open spec fn carries_one(bits: u32) -> bool {
    exponent(bits) == 0xFF && width_tag(bits) == 2
}

/// The pattern is a payload-bearing NaN: it carries one byte or two.
pub open spec fn is_payload_nan(bits: u32) -> bool {
    carries_one(bits) || carries_two(bits)
}

/// The unit that carries `a` alone: exponent all ones, width `10`, the
/// marker, `a` in bits 15 to 8, and zero elsewhere.
pub open spec fn one_byte_unit(a: u8) -> u32 {
    (0x7FA2_0000 + 0x100 * a) as u32
}

/// The unit that carries `a`, then `b`: exponent all ones, width `11`, the
/// marker, `a` in bits 15 to 8, `b` in bits 7 to 0, and zero elsewhere.
pub open spec fn two_byte_unit(a: u8, b: u8) -> u32 {
    (0x7FB2_0000 + 0x100 * a + b) as u32
}

/// The two optional bytes that a pattern decodes to.
pub open spec fn decoded(bits: u32) -> (Option<u8>, Option<u8>) {
    if carries_two(bits) {
        (Some(first_byte(bits)), Some(second_byte(bits)))
    } else if carries_one(bits) {
        (Some(first_byte(bits)), None)
    } else {
        (None, None)
    }
}

/// The bytes that a pattern carries, in order: two, one or none.
pub open spec fn unit_payload(bits: u32) -> Seq<u8> {
    if carries_two(bits) {
        seq![first_byte(bits), second_byte(bits)]
    } else if carries_one(bits) {
        seq![first_byte(bits)]
    } else {
        Seq::empty()
    }
}

/// What the masks select, said by division and remainder.
pub proof fn lemma_masks(bits: u32)
    ensures
        bits & NAN_PREFIX == NAN_PREFIX <==> exponent(bits) == 0xFF,
        bits & WIDTH_MASK == WIDTH_TWO <==> width_tag(bits) == 3,
        bits & WIDTH_MASK == WIDTH_ONE <==> width_tag(bits) == 2,
        (bits & PAYLOAD_FIRST) >> 8 == first_byte(bits),
        bits & PAYLOAD_SECOND == second_byte(bits),
{
    assert((bits & 0x7F80_0000 == 0x7F80_0000) == (bits / 0x0080_0000 % 0x100 == 0xFF))
        by (bit_vector);
    assert((bits & 0x0030_0000 == 0x0030_0000) == (bits / 0x0010_0000 % 4 == 3)) by (bit_vector);
    assert((bits & 0x0030_0000 == 0x0020_0000) == (bits / 0x0010_0000 % 4 == 2)) by (bit_vector);
    assert((bits & 0x0000_FF00) >> 8 == bits / 0x100 % 0x100) by (bit_vector);
    assert(bits & 0x0000_00FF == bits % 0x100) by (bit_vector);
}

/// What the fields put together by `|` come to as a number.
pub proof fn lemma_assembled(a: u8, b: u8)
    ensures
        NAN_PREFIX | WIDTH_TWO | MARKER | ((a as u32) << 8) | (b as u32) == two_byte_unit(a, b),
        NAN_PREFIX | WIDTH_ONE | MARKER | ((a as u32) << 8) == one_byte_unit(a),
{
    assert(0x7F80_0000u32 | 0x0030_0000u32 | 0x0002_0000u32 | ((a as u32) << 8) | (b as u32)
        == 0x7FB2_0000 + 0x100 * a + b) by (bit_vector);
    assert(0x7F80_0000u32 | 0x0020_0000u32 | 0x0002_0000u32 | ((a as u32) << 8) == 0x7FA2_0000
        + 0x100 * a) by (bit_vector);
}

} // verus!
