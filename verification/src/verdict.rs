//! The foreign verifier answers in text. Only the two words it is meant to
//! say count as an answer.

use vstd::prelude::*;
use vstd::string::StrSliceExecFns;
use vstd::utf8::*;

use crate::error::DecodeError;
use crate::marshal::{decode, spec_decode, spec_decode_text};

verus! {

/// The word for a proof that holds.
pub open spec fn accepted_word() -> Seq<char> {
    seq!['t', 'r', 'u', 'e']
}

/// The word for a proof that does not hold.
pub open spec fn rejected_word() -> Seq<char> {
    seq!['f', 'a', 'l', 's', 'e']
}

/// What an answer of the foreign verifier means. Anything but the two words is
/// no answer at all, and in particular no rejection.
pub open spec fn spec_verdict(text: Seq<char>) -> Result<bool, DecodeError> {
    if text =~= accepted_word() {
        Ok(true)
    } else if text =~= rejected_word() {
        Ok(false)
    } else {
        Err(DecodeError::Malformed)
    }
}

/// What a reply buffer of the foreign verifier means.
pub open spec fn spec_read_verdict(reply: Seq<u8>) -> Result<bool, DecodeError> {
    match spec_decode_text(reply) {
        Ok(text) => spec_verdict(text),
        Err(e) => Err(e),
    }
}

/// The bytes of the word for a proof that holds.
pub open spec fn accepted_bytes() -> Seq<u8> {
    seq![0x74, 0x72, 0x75, 0x65]
}

/// The bytes of the word for a proof that does not hold.
pub open spec fn rejected_bytes() -> Seq<u8> {
    seq![0x66, 0x61, 0x6c, 0x73, 0x65]
}

/// A reply is a verdict exactly when its payload is one of the two words,
/// byte for byte. Any other payload, be it text or not, is malformed, and
/// never counts as an acceptance or a rejection.
pub proof fn lemma_verdict_by_bytes(reply: Seq<u8>)
    ensures
        spec_read_verdict(reply) == (match spec_decode(reply) {
            Ok(payload) => if payload =~= accepted_bytes() {
                Ok(true)
            } else if payload =~= rejected_bytes() {
                Ok(false)
            } else {
                Err(DecodeError::Malformed)
            },
            Err(e) => Err(e),
        }),
{
    let yes = accepted_word();
    let no = rejected_word();
    assert(is_ascii_chars(yes));
    assert(is_ascii_chars(no));
    is_ascii_chars_encode_utf8(yes);
    is_ascii_chars_encode_utf8(no);
    assert(encode_utf8(yes) =~= accepted_bytes());
    assert(encode_utf8(no) =~= rejected_bytes());
    encode_utf8_valid_utf8(yes);
    encode_utf8_valid_utf8(no);
    encode_utf8_decode_utf8(yes);
    encode_utf8_decode_utf8(no);
    if spec_decode(reply) is Ok {
        let payload = spec_decode(reply)->Ok_0;
        if valid_utf8(payload) {
            decode_utf8_encode_utf8(payload);
        }
    }
}

/// Tells what the foreign verifier said.
pub fn parse_verdict(text: &str) -> (r: Result<bool, DecodeError>)
    ensures
        r == spec_verdict(text@),
{
    let n = text.unicode_len();
    if n == 4 && text.get_char(0) == 't' && text.get_char(1) == 'r' && text.get_char(2) == 'u'
        && text.get_char(3) == 'e' {
        Ok(true)
    } else if n == 5 && text.get_char(0) == 'f' && text.get_char(1) == 'a' && text.get_char(2)
        == 'l' && text.get_char(3) == 's' && text.get_char(4) == 'e' {
        Ok(false)
    } else {
        Err(DecodeError::Malformed)
    }
}

/// Reads the verdict out of the buffer that the verify entry point returned.
pub fn read_verdict(reply: &[u8]) -> (r: Result<bool, DecodeError>)
    ensures
        r == spec_read_verdict(reply@),
{
    match decode(reply) {
        Ok(text) => parse_verdict(text.as_str()),
        Err(e) => Err(e),
    }
}

} // verus!
