//! One unit: at most two bytes to and from a bit pattern.

use crate::layout::{
    carries_one, carries_two, decoded, exponent, first_byte, is_nan_bits, is_payload_nan,
    lemma_assembled, lemma_masks, one_byte_unit, second_byte, two_byte_unit, unit_payload,
    width_tag, MARKER, NAN_PREFIX, PAYLOAD_FIRST, PAYLOAD_SECOND, WIDTH_MASK, WIDTH_ONE,
    WIDTH_TWO,
};
use vstd::prelude::*;

verus! {

/// A unit made of two bytes is a NaN and decodes to those two bytes, in
/// order.
pub proof fn lemma_two_byte_round_trip(a: u8, b: u8)
    ensures
        decoded(two_byte_unit(a, b)) == (Some(a), Some(b)),
        unit_payload(two_byte_unit(a, b)) == seq![a, b],
        is_nan_bits(two_byte_unit(a, b)),
        is_payload_nan(two_byte_unit(a, b)),
{
    let x = two_byte_unit(a, b);
    assert(x == 0x7FB2_0000 + 0x100 * a + b);
    assert(exponent(x) == 0xFF);
    assert(width_tag(x) == 3);
    assert(first_byte(x) == a);
    assert(second_byte(x) == b);
}

/// A unit made of one byte is a NaN and decodes to that byte and no second
/// one.
pub proof fn lemma_one_byte_round_trip(a: u8)
    ensures
        decoded(one_byte_unit(a)) == (Some(a), None::<u8>),
        unit_payload(one_byte_unit(a)) == seq![a],
        is_nan_bits(one_byte_unit(a)),
        is_payload_nan(one_byte_unit(a)),
{
    let x = one_byte_unit(a);
    assert(x == 0x7FA2_0000 + 0x100 * a);
    assert(exponent(x) == 0xFF);
    assert(width_tag(x) == 2);
    assert(first_byte(x) == a);
}

/// A pattern decodes to no byte at all exactly when it is no payload-bearing
/// NaN, and then it carries nothing.
pub proof fn lemma_nothing_iff_not_conforming(bits: u32)
    ensures
        decoded(bits) == (None::<u8>, None::<u8>) <==> !is_payload_nan(bits),
        unit_payload(bits).len() == 0 <==> !is_payload_nan(bits),
{
}

/// No number decodes to a byte: a pattern that is not a NaN (zero, a
/// subnormal or normal number, an infinity) is no payload-bearing NaN.
pub proof fn lemma_number_carries_nothing(bits: u32)
    requires
        !is_nan_bits(bits),
    ensures
        !is_payload_nan(bits),
        decoded(bits) == (None::<u8>, None::<u8>),
        unit_payload(bits) == Seq::<u8>::empty(),
{
    assert(bits % 0x8000_0000 <= 0x7F80_0000 ==> !(bits / 0x0080_0000 % 0x100 == 0xFF && bits
        / 0x0010_0000 % 4 >= 2)) by (bit_vector);
}

/// A pattern whose width tag is `00` or `01` decodes to no byte, whatever
/// else it holds. The NaN that arithmetic produces, `0x7FC0_0000`, is one of
/// these.
pub proof fn lemma_plain_nan_carries_nothing(bits: u32)
    requires
        width_tag(bits) < 2,
    ensures
        !is_payload_nan(bits),
        decoded(bits) == (None::<u8>, None::<u8>),
        unit_payload(bits) == Seq::<u8>::empty(),
{
}

/// Decoding reads the exponent, the width tag and the payload only: two
/// patterns that agree on them, whatever their sign, quiet bit and marker,
/// decode alike.
pub proof fn lemma_decoding_ignores_other_bits(bits: u32, other: u32)
    requires
        exponent(bits) == exponent(other),
        width_tag(bits) == width_tag(other),
        bits % 0x1_0000 == other % 0x1_0000,
    ensures
        decoded(bits) == decoded(other),
        unit_payload(bits) == unit_payload(other),
{
    assert(bits % 0x1_0000 == other % 0x1_0000 ==> bits / 0x100 % 0x100 == other / 0x100 % 0x100
        && bits % 0x100 == other % 0x100) by (bit_vector);
}

/// Does the pattern carry a payload?
pub fn conforms(inp: u32) -> (res: bool)
    ensures
        res == is_payload_nan(inp),
{
    proof {
        lemma_masks(inp);
    }
    (inp & NAN_PREFIX) == NAN_PREFIX && ((inp & WIDTH_MASK) == WIDTH_TWO || (inp & WIDTH_MASK)
        == WIDTH_ONE)
}

/// Convert a NaN's bit pattern into up to two bytes.
///
/// Total over all patterns: one that is no payload-bearing NaN gives
/// `(None, None)`.
pub fn from_f32(inp: u32) -> (res: (Option<u8>, Option<u8>))
    ensures
        res == decoded(inp),
        res.0 is Some <==> is_payload_nan(inp),
        res.1 is Some <==> carries_two(inp),
{
    proof {
        lemma_masks(inp);
    }
    if (inp & NAN_PREFIX) != NAN_PREFIX {
        (None, None)
    } else {
        let width: u32 = inp & WIDTH_MASK;
        if width == WIDTH_TWO {
            (Some(((inp & PAYLOAD_FIRST) >> 8) as u8), Some((inp & PAYLOAD_SECOND) as u8))
        } else if width == WIDTH_ONE {
            (Some(((inp & PAYLOAD_FIRST) >> 8) as u8), None)
        } else {
            (None, None)
        }
    }
}

/// Convert an array of 1 or 2 bytes into the bit pattern of a NaN.
///
/// The result has the sign and the quiet bit clear, the width tag of its
/// length, the marker, and the bytes in bits 15 to 0, the first one high.
pub fn into_f32<const N: usize>(inp: &[u8; N]) -> (res: u32)
    requires
        N == 1 || N == 2,
    ensures
        N == 1 ==> res == one_byte_unit(inp@[0]),
        N == 2 ==> res == two_byte_unit(inp@[0], inp@[1]),
        N == 1 ==> decoded(res) == (Some(inp@[0]), None::<u8>),
        N == 2 ==> decoded(res) == (Some(inp@[0]), Some(inp@[1])),
        unit_payload(res) == inp@,
        is_nan_bits(res),
{
    if N == 2 {
        proof {
            lemma_assembled(inp@[0], inp@[1]);
            lemma_two_byte_round_trip(inp@[0], inp@[1]);
            assert(inp@ =~= seq![inp@[0], inp@[1]]);
        }
        NAN_PREFIX | WIDTH_TWO | MARKER | ((inp[0] as u32) << 8) | (inp[1] as u32)
    } else {
        proof {
            lemma_assembled(inp@[0], 0);
            lemma_one_byte_round_trip(inp@[0]);
            assert(inp@ =~= seq![inp@[0]]);
        }
        NAN_PREFIX | WIDTH_ONE | MARKER | ((inp[0] as u32) << 8)
    }
}

/// The high byte of a 16-bit value.
pub open spec fn high_byte(v: u16) -> u8 {
    (v / 0x100) as u8
}

/// The low byte of a 16-bit value.
pub open spec fn low_byte(v: u16) -> u8 {
    (v % 0x100) as u8
}

/// The 16-bit value that a pattern stands for: the first byte low and the
/// second byte high where it carries two, the first byte alone where it
/// carries one.
pub open spec fn decoded_u16(bits: u32) -> Option<u16> {
    if carries_two(bits) {
        Some((first_byte(bits) + 0x100 * second_byte(bits)) as u16)
    } else if carries_one(bits) {
        Some(first_byte(bits) as u16)
    } else {
        None
    }
}

/// Store a u16 into a NaN's bit pattern: a two-byte unit with the high byte
/// first.
pub fn u16_to_nan(inp: u16) -> (res: u32)
    ensures
        res == two_byte_unit(high_byte(inp), low_byte(inp)),
        res == 0x7FB2_0000 + inp,
        decoded(res) == (Some(high_byte(inp)), Some(low_byte(inp))),
        is_nan_bits(res),
{
    let high: u8 = (inp >> 8) as u8;
    let low: u8 = (inp & 0xFF) as u8;
    proof {
        assert(inp >> 8 == inp / 0x100 && inp & 0xFF == inp % 0x100) by (bit_vector);
    }
    into_f32(&[high, low])
}

/// Extract a u16 from a NaN's bit pattern.
///
/// The first byte of the payload becomes the low byte of the result, the
/// second one, where there is one, the high byte. `None` for a pattern that
/// is no payload-bearing NaN.
pub fn nan_to_u16(inp: u32) -> (res: Option<u16>)
    ensures
        res == decoded_u16(inp),
        res is Some <==> is_payload_nan(inp),
{
    let (b1, b2) = from_f32(inp);
    match b1 {
        Some(x) => match b2 {
            Some(y) => {
                let low: u16 = x as u16;
                let high: u16 = y as u16;
                assert(low | (high << 8) == low + 0x100 * high) by (bit_vector)
                    requires
                        low < 0x100,
                        high < 0x100,
                ;
                Some(low | (high << 8))
            },
            None => Some(x as u16),
        },
        None => None,
    }
}

/// What comes back of a u16 that went through a unit: its two bytes
/// exchanged. The unit holds the high byte first, and reading takes the
/// first byte as the low one.
pub proof fn lemma_u16_comes_back_swapped(v: u16)
    ensures
        decoded_u16(two_byte_unit(high_byte(v), low_byte(v))) == Some(
            (high_byte(v) + 0x100 * low_byte(v)) as u16,
        ),
{
    lemma_two_byte_round_trip(high_byte(v), low_byte(v));
}

} // verus!
