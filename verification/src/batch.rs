//! Byte sequences to and from sequences of units.

use crate::layout::{is_nan_bits, is_payload_nan, one_byte_unit, two_byte_unit, unit_payload};
use crate::unit::{
    from_f32, into_f32, lemma_one_byte_round_trip, lemma_two_byte_round_trip,
};
use vstd::prelude::*;

verus! {

/// The number of units that `len` bytes take: one for each pair, and one
/// more for a byte left over.
pub open spec fn unit_count(len: nat) -> nat {
    (len + 1) / 2
}

/// The unit at place `k` of the encoding of `bytes`: it carries bytes `2k`
/// and `2k + 1`, or byte `2k` alone where that is the last one.
pub open spec fn unit_at(bytes: Seq<u8>, k: int) -> u32
    recommends
        0 <= k < unit_count(bytes.len()),
{
    if 2 * k + 1 < bytes.len() {
        two_byte_unit(bytes[2 * k], bytes[2 * k + 1])
    } else {
        one_byte_unit(bytes[2 * k])
    }
}

/// The encoding of a byte sequence: its bytes two by two, in order.
pub open spec fn units_of(bytes: Seq<u8>) -> Seq<u32> {
    Seq::new(unit_count(bytes.len()), |k: int| unit_at(bytes, k))
}

/// The bytes that a sequence of patterns carries: the payload of each, in
/// order. A pattern that is no payload-bearing NaN adds nothing.
pub open spec fn payload_of(units: Seq<u32>) -> Seq<u8>
    decreases units.len(),
{
    if units.len() == 0 {
        Seq::empty()
    } else {
        payload_of(units.drop_last()) + unit_payload(units.last())
    }
}

/// Every unit of an encoding is a NaN, and a payload-bearing one.
pub proof fn lemma_units_are_payload_nans(bytes: Seq<u8>, k: int)
    requires
        0 <= k < units_of(bytes).len(),
    ensures
        is_nan_bits(units_of(bytes)[k]),
        is_payload_nan(units_of(bytes)[k]),
{
    if 2 * k + 1 < bytes.len() {
        lemma_two_byte_round_trip(bytes[2 * k], bytes[2 * k + 1]);
    } else {
        lemma_one_byte_round_trip(bytes[2 * k]);
    }
}

/// A sequence of patterns carries at most two bytes for each of them.
pub proof fn lemma_payload_of_len(units: Seq<u32>)
    ensures
        payload_of(units).len() <= 2 * units.len(),
    decreases units.len(),
{
    if units.len() > 0 {
        lemma_payload_of_len(units.drop_last());
    }
}

/// A sequence of one pattern carries what that pattern carries.
pub proof fn lemma_payload_of_single(bits: u32)
    ensures
        payload_of(seq![bits]) == unit_payload(bits),
{
    let one = seq![bits];
    assert(one.drop_last() =~= Seq::<u32>::empty());
    assert(payload_of(one.drop_last()) =~= Seq::<u8>::empty());
    assert(payload_of(one) =~= unit_payload(bits));
}

/// The payload of two sequences, one after the other, is the payload of the
/// first followed by that of the second.
pub proof fn lemma_payload_of_concat(left: Seq<u32>, right: Seq<u32>)
    ensures
        payload_of(left + right) == payload_of(left) + payload_of(right),
    decreases right.len(),
{
    if right.len() == 0 {
        assert(left + right =~= left);
        assert(payload_of(left) + payload_of(right) =~= payload_of(left));
    } else {
        lemma_payload_of_concat(left, right.drop_last());
        assert((left + right).drop_last() =~= left + right.drop_last());
        assert((left + right).last() == right.last());
        assert(payload_of(left + right) =~= payload_of(left) + payload_of(right));
    }
}

/// The first `k` units of an encoding carry the first `2k` bytes, or all of
/// them where there are fewer.
proof fn lemma_payload_of_prefix(bytes: Seq<u8>, k: int)
    requires
        0 <= k <= unit_count(bytes.len()),
    ensures
        payload_of(units_of(bytes).take(k)) == bytes.take(
            if 2 * k <= bytes.len() {
                2 * k
            } else {
                bytes.len() as int
            },
        ),
    decreases k,
{
    let units = units_of(bytes);
    if k == 0 {
        assert(payload_of(units.take(0)) =~= bytes.take(0));
    } else {
        lemma_payload_of_prefix(bytes, k - 1);
        let head = units.take(k);
        assert(head.drop_last() =~= units.take(k - 1));
        assert(head.last() == unit_at(bytes, k - 1));
        if 2 * (k - 1) + 1 < bytes.len() {
            lemma_two_byte_round_trip(bytes[2 * (k - 1)], bytes[2 * (k - 1) + 1]);
            assert(payload_of(head) =~= bytes.take(2 * k));
        } else {
            lemma_one_byte_round_trip(bytes[2 * (k - 1)]);
            assert(payload_of(head) =~= bytes.take(bytes.len() as int));
        }
    }
}

/// Decoding what was encoded gives the bytes back, whatever they are.
pub proof fn lemma_batch_round_trip(bytes: Seq<u8>)
    ensures
        payload_of(units_of(bytes)) == bytes,
{
    let units = units_of(bytes);
    lemma_payload_of_prefix(bytes, units.len() as int);
    assert(units.take(units.len() as int) =~= units);
    assert(bytes.take(bytes.len() as int) =~= bytes);
}

/// A pattern that is no payload-bearing NaN, put anywhere into a sequence,
/// leaves the bytes that the sequence carries as they were.
pub proof fn lemma_stranger_adds_nothing(units: Seq<u32>, at: int, stranger: u32)
    requires
        0 <= at <= units.len(),
        !is_payload_nan(stranger),
    ensures
        payload_of(units.insert(at, stranger)) == payload_of(units),
{
    let head = units.take(at);
    let tail = units.skip(at);
    let one = seq![stranger];
    assert(units.insert(at, stranger) =~= head + one + tail);
    assert(units =~= head + tail);
    lemma_payload_of_concat(head + one, tail);
    lemma_payload_of_concat(head, one);
    lemma_payload_of_concat(head, tail);
    lemma_payload_of_single(stranger);
    assert(payload_of(head) + payload_of(one) =~= payload_of(head));
}

/// A pattern that is no payload-bearing NaN, put anywhere into the encoding
/// of a byte sequence, is passed over: decoding still gives those bytes.
pub proof fn lemma_lossy_insertion(bytes: Seq<u8>, at: int, stranger: u32)
    requires
        0 <= at <= units_of(bytes).len(),
        !is_payload_nan(stranger),
    ensures
        payload_of(units_of(bytes).insert(at, stranger)) == bytes,
{
    lemma_stranger_adds_nothing(units_of(bytes), at, stranger);
    lemma_batch_round_trip(bytes);
}

/// Convert a slice of bytes into a vec of NaN bit patterns.
///
/// Two bytes go into each unit, in order; the last byte of an odd number
/// gets a unit of its own. No bytes give no units.
pub fn bytes_to_nan(s: &[u8]) -> (out: Vec<u32>)
    ensures
        out@ == units_of(s@),
        out@.len() == unit_count(s@.len()),
        payload_of(out@) == s@,
        forall|k: int| 0 <= k < out@.len() ==> is_nan_bits(#[trigger] out@[k]),
{
    let mut out: Vec<u32> = Vec::new();
    let mut i: usize = 0;
    while i < s.len()
        invariant
            i <= s.len(),
            i == 2 * out@.len() || i == s.len(),
            out@.len() == unit_count(i as nat),
            forall|k: int| 0 <= k < out@.len() ==> out@[k] == unit_at(s@, k),
        decreases s.len() - i,
    {
        if s.len() - i >= 2 {
            out.push(into_f32(&[s[i], s[i + 1]]));
            i = i + 2;
        } else {
            out.push(into_f32(&[s[i]]));
            i = i + 1;
        }
    }
    proof {
        assert(out@ =~= units_of(s@));
        lemma_batch_round_trip(s@);
        assert forall|k: int| 0 <= k < out@.len() implies is_nan_bits(#[trigger] out@[k]) by {
            lemma_units_are_payload_nans(s@, k);
        }
    }
    out
}

/// Convert a slice of bit patterns into a vec of bytes.
///
/// This function skips anything that is not an encoded NaN.
pub fn nan_to_bytes(s: &[u32]) -> (out: Vec<u8>)
    ensures
        out@ == payload_of(s@),
        out@.len() <= 2 * s@.len(),
{
    let mut out: Vec<u8> = Vec::new();
    let mut i: usize = 0;
    while i < s.len()
        invariant
            i <= s.len(),
            out@ == payload_of(s@.take(i as int)),
        decreases s.len() - i,
    {
        let ghost before = out@;
        let (first, second) = from_f32(s[i]);
        if let Some(b) = first {
            out.push(b);
        }
        if let Some(b) = second {
            out.push(b);
        }
        proof {
            let head = s@.take(i + 1);
            assert(head.drop_last() =~= s@.take(i as int));
            assert(head.last() == s@[i as int]);
            assert(out@ =~= before + unit_payload(s@[i as int]));
        }
        i = i + 1;
    }
    proof {
        assert(s@.take(s@.len() as int) =~= s@);
        lemma_payload_of_len(s@);
    }
    out
}

} // verus!
