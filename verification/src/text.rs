//! Text to and from sequences of units, by way of its UTF-8 bytes.

use crate::batch::{bytes_to_nan, lemma_batch_round_trip, nan_to_bytes, payload_of, units_of};
use vstd::prelude::*;
use vstd::utf8::{
    decode_utf8, encode_utf8, encode_utf8_decode_utf8, encode_utf8_valid_utf8, valid_utf8,
};

verus! {

/// The bytes that came out of a sequence of units are not UTF-8.
#[derive(Debug, Clone, PartialEq, Eq)]
pub struct InvalidUtf8 {
    /// The bytes as they were recovered.
    pub bytes: Vec<u8>,
    /// How many bytes from the start are valid UTF-8: the place of the first
    /// byte that is not.
    pub valid_up_to: usize,
    /// The length of the invalid sequence at `valid_up_to`, or `None` where
    /// the bytes end in the middle of a character.
    pub error_len: Option<usize>,
}

/// The first `n` bytes are valid UTF-8, and no longer run from the start is.
pub open spec fn is_valid_up_to(bytes: Seq<u8>, n: int) -> bool {
    &&& 0 <= n <= bytes.len()
    &&& valid_utf8(bytes.subrange(0, n))
    &&& forall|m: int| n < m <= bytes.len() ==> !valid_utf8(#[trigger] bytes.subrange(0, m))
}

/// The length that `Utf8Error::error_len` reports for bytes that
/// `String::from_utf8` has refused. It depends on the bytes alone.
pub uninterp spec fn invalid_sequence_len(bytes: Seq<u8>) -> Option<usize>;

impl InvalidUtf8 {
    /// This error is the one that `bytes` give: it holds them, the length of
    /// their longest valid start, which is not all of them, and the length
    /// of the invalid sequence that follows.
    pub open spec fn describes(&self, bytes: Seq<u8>) -> bool {
        &&& self.bytes@ == bytes
        &&& self.valid_up_to < bytes.len()
        &&& is_valid_up_to(bytes, self.valid_up_to as int)
        &&& self.error_len == invalid_sequence_len(bytes)
        &&& self.error_len is None ==> 1 <= bytes.len() - self.valid_up_to <= 3
    }
}

/// `String::from_utf8`, with the `FromUtf8Error` taken apart by its own
/// methods `into_bytes` and `utf8_error`, and the `Utf8Error` by
/// `valid_up_to` and `error_len`.
///
/// Trusted: the call succeeds exactly on valid UTF-8 and then gives the
/// text that the bytes encode. Otherwise the error hands the same bytes
/// back; `valid_up_to` is the greatest length of a valid start; `error_len`
/// is a function of the bytes, and where it is `None` the bytes end one to
/// three bytes after `valid_up_to`.
#[verifier::external_body]
fn string_from_utf8(bytes: Vec<u8>) -> (res: Result<String, InvalidUtf8>)
    ensures
        res is Ok <==> valid_utf8(bytes@),
        res matches Ok(text) ==> text@ == decode_utf8(bytes@),
        res matches Err(e) ==> e.bytes@ == bytes@,
        res matches Err(e) ==> is_valid_up_to(bytes@, e.valid_up_to as int),
        res matches Err(e) ==> e.error_len == invalid_sequence_len(bytes@),
        res matches Err(e) ==> e.error_len is None ==> 1 <= bytes@.len() - e.valid_up_to <= 3,
{
    match String::from_utf8(bytes) {
        Ok(text) => Ok(text),
        Err(e) => {
            let valid_up_to = e.utf8_error().valid_up_to();
            let error_len = e.utf8_error().error_len();
            Err(InvalidUtf8 { bytes: e.into_bytes(), valid_up_to, error_len })
        },
    }
}

/// Text that went into units comes back as it was: the bytes that its
/// encoding carries are valid UTF-8 and decode to the same characters.
pub proof fn lemma_text_round_trip(text: Seq<char>)
    ensures
        payload_of(units_of(encode_utf8(text))) == encode_utf8(text),
        valid_utf8(payload_of(units_of(encode_utf8(text)))),
        decode_utf8(payload_of(units_of(encode_utf8(text)))) == text,
{
    lemma_batch_round_trip(encode_utf8(text));
    encode_utf8_valid_utf8(text);
    encode_utf8_decode_utf8(text);
}

/// Convert a string to a vec of NaN bit patterns: the encoding of its UTF-8
/// bytes.
pub fn str_to_nan(s: &str) -> (out: Vec<u32>)
    ensures
        out@ == units_of(encode_utf8(s@)),
        payload_of(out@) == encode_utf8(s@),
{
    bytes_to_nan(s.as_bytes())
}

/// Convert a slice of NaN bit patterns into a string.
///
/// `Ok` exactly where the bytes that the patterns carry are valid UTF-8,
/// with the text that they encode. Otherwise the error holds those bytes
/// and says where they stop being valid.
pub fn nan_to_str(s: &[u32]) -> (res: Result<String, InvalidUtf8>)
    ensures
        res is Ok <==> valid_utf8(payload_of(s@)),
        res matches Ok(text) ==> text@ == decode_utf8(payload_of(s@)),
        res matches Err(e) ==> e.describes(payload_of(s@)),
{
    let bytes = nan_to_bytes(s);
    proof {
        assert(bytes@.subrange(0, bytes@.len() as int) =~= bytes@);
    }
    string_from_utf8(bytes)
}

} // verus!
