//! Text buffers as they cross the boundary: the UTF-8 bytes of a value,
//! followed by one terminator byte.
//!
//! The foreign side reads a buffer up to its first terminator, so a value that
//! holds the terminator cannot be carried, and a buffer without one cannot be
//! read. What comes back is taken as it is or not at all: a payload that is
//! not UTF-8 is no text, and no character is put in place of another.

use vstd::prelude::*;
use vstd::slice::{slice_subrange, slice_to_vec};
use vstd::string::{StrSliceExecFns, StringSliceAdditionalSpecFns};
use vstd::utf8::*;

use crate::error::DecodeError;

verus! {

/// The byte that ends every buffer handed across the boundary.
pub const TERMINATOR: u8 = 0;

/// `at` is the position of the first terminator in `bytes`.
pub open spec fn first_terminator(bytes: Seq<u8>, at: int) -> bool {
    &&& 0 <= at < bytes.len()
    &&& bytes[at] == TERMINATOR
    &&& forall|j: int| 0 <= j < at ==> bytes[j] != TERMINATOR
}

/// The buffer that carries the bytes `value`: the bytes and one terminator
/// behind them, unless the bytes hold a terminator themselves.
pub open spec fn spec_encode(value: Seq<u8>) -> Result<Seq<u8>, DecodeError> {
    if value.contains(TERMINATOR) {
        Err(DecodeError::IllegalByte)
    } else {
        Ok(value.push(TERMINATOR))
    }
}

/// The payload of `buffer`: the bytes in front of its first terminator.
pub open spec fn spec_decode(buffer: Seq<u8>) -> Result<Seq<u8>, DecodeError> {
    if buffer.contains(TERMINATOR) {
        Ok(buffer.take(choose|at: int| first_terminator(buffer, at)))
    } else {
        Err(DecodeError::Malformed)
    }
}

/// The text that payload bytes stand for, if they are UTF-8.
pub open spec fn spec_text(payload: Seq<u8>) -> Result<Seq<char>, DecodeError> {
    if valid_utf8(payload) {
        Ok(decode_utf8(payload))
    } else {
        Err(DecodeError::Malformed)
    }
}

/// The buffer that carries the text `value`.
pub open spec fn spec_encode_text(value: Seq<char>) -> Result<Seq<u8>, DecodeError> {
    spec_encode(encode_utf8(value))
}

/// The text that `buffer` carries: its payload, read as UTF-8.
pub open spec fn spec_decode_text(buffer: Seq<u8>) -> Result<Seq<char>, DecodeError> {
    match spec_decode(buffer) {
        Ok(payload) => spec_text(payload),
        Err(e) => Err(e),
    }
}

/// A buffer has at most one first terminator.
pub proof fn lemma_first_terminator_unique(bytes: Seq<u8>, a: int, b: int)
    requires
        first_terminator(bytes, a),
        first_terminator(bytes, b),
    ensures
        a == b,
{
    if a < b {
        assert(bytes[a] != TERMINATOR);
    } else if b < a {
        assert(bytes[b] != TERMINATOR);
    }
}

/// Once the first terminator of a buffer is known, so is its payload.
pub proof fn lemma_decode_at(buffer: Seq<u8>, at: int)
    requires
        first_terminator(buffer, at),
    ensures
        spec_decode(buffer) == Ok::<Seq<u8>, DecodeError>(buffer.take(at)),
{
    assert(buffer.contains(TERMINATOR));
    let chosen = choose|k: int| first_terminator(buffer, k);
    lemma_first_terminator_unique(buffer, at, chosen);
}

/// The UTF-8 bytes of one character hold the terminator only if the character
/// is the one with code 0.
pub proof fn lemma_scalar_terminator(c: char)
    ensures
        encode_scalar(c as u32).contains(TERMINATOR) <==> c == '\0',
{
    let s = c as u32;
    let bytes = encode_scalar(s);
    char_is_scalar(c);
    assert(s <= 0x7F ==> (((s & 0x7F) as u8 == 0) <==> s == 0)) by (bit_vector);
    assert((0xC0u8 | ((s >> 6) & 0x1F) as u8) != 0) by (bit_vector);
    assert((0xE0u8 | ((s >> 12) & 0x0F) as u8) != 0) by (bit_vector);
    assert((0xF0u8 | ((s >> 18) & 0x7) as u8) != 0) by (bit_vector);
    assert((0x80u8 | (s & 0x3F) as u8) != 0) by (bit_vector);
    assert((0x80u8 | ((s >> 6) & 0x3F) as u8) != 0) by (bit_vector);
    assert((0x80u8 | ((s >> 12) & 0x3F) as u8) != 0) by (bit_vector);
    if c == '\0' {
        assert(bytes[0] == TERMINATOR);
    } else {
        assert forall|i: int| 0 <= i < bytes.len() implies bytes[i] != TERMINATOR by {}
    }
}

/// The UTF-8 bytes of a text hold the terminator exactly where the text holds
/// the character with code 0.
pub proof fn lemma_text_terminator(value: Seq<char>)
    ensures
        encode_utf8(value).contains(TERMINATOR) <==> value.contains('\0'),
    decreases value.len(),
{
    if value.len() > 0 {
        let head = encode_scalar(value[0] as u32);
        let tail = encode_utf8(value.drop_first());
        lemma_scalar_terminator(value[0]);
        lemma_text_terminator(value.drop_first());
        if head.contains(TERMINATOR) {
            let i = choose|i: int| 0 <= i < head.len() && head[i] == TERMINATOR;
            assert((head + tail)[i] == TERMINATOR);
            assert(value[0] == '\0');
        } else if tail.contains(TERMINATOR) {
            let i = choose|i: int| 0 <= i < tail.len() && tail[i] == TERMINATOR;
            assert((head + tail)[head.len() + i] == TERMINATOR);
            let k = choose|k: int| 0 <= k < value.drop_first().len() && value.drop_first()[k] == '\0';
            assert(value[k + 1] == '\0');
        } else {
            assert forall|i: int| 0 <= i < (head + tail).len() implies (head + tail)[i]
                != TERMINATOR by {
                if i >= head.len() {
                    assert(tail[i - head.len()] != TERMINATOR);
                }
            }
            assert forall|k: int| 0 <= k < value.len() implies value[k] != '\0' by {
                if k > 0 {
                    assert(value.drop_first()[k - 1] != '\0');
                }
            }
        }
    }
}

/// A text is refused exactly when it holds the character with code 0; any
/// other text is carried as its UTF-8 bytes and one terminator behind them.
pub proof fn lemma_encode_refuses_exactly(value: Seq<char>)
    ensures
        value.contains('\0') ==> spec_encode_text(value) == Err::<Seq<u8>, DecodeError>(
            DecodeError::IllegalByte,
        ),
        !value.contains('\0') ==> spec_encode_text(value) == Ok::<Seq<u8>, DecodeError>(
            encode_utf8(value).push(TERMINATOR),
        ),
{
    lemma_text_terminator(value);
}

/// The only terminator of an encoded buffer is its last byte.
pub proof fn lemma_encoded_ends_at_terminator(value: Seq<u8>)
    requires
        !value.contains(TERMINATOR),
    ensures
        first_terminator(value.push(TERMINATOR), value.len() as int),
        spec_decode(value.push(TERMINATOR)) == Ok::<Seq<u8>, DecodeError>(value),
{
    let buffer = value.push(TERMINATOR);
    assert forall|j: int| 0 <= j < value.len() implies buffer[j] != TERMINATOR by {
        assert(buffer[j] == value[j]);
    }
    lemma_decode_at(buffer, value.len() as int);
    assert(buffer.take(value.len() as int) =~= value);
}

/// Reading back what was encoded gives the text that went in.
pub proof fn lemma_round_trip(value: Seq<char>)
    requires
        !value.contains('\0'),
    ensures
        spec_encode_text(value) is Ok,
        spec_decode_text(spec_encode_text(value)->Ok_0) == Ok::<Seq<char>, DecodeError>(value),
{
    lemma_text_terminator(value);
    lemma_encoded_ends_at_terminator(encode_utf8(value));
    encode_utf8_valid_utf8(value);
    encode_utf8_decode_utf8(value);
}

/// Two texts that are carried by the same buffer are the same text.
pub proof fn lemma_encode_injective(a: Seq<char>, b: Seq<char>)
    requires
        spec_encode_text(a) is Ok,
        spec_encode_text(a) == spec_encode_text(b),
    ensures
        a == b,
{
    lemma_text_terminator(a);
    lemma_text_terminator(b);
    lemma_round_trip(a);
    lemma_round_trip(b);
}

/// Whatever a buffer holds behind its first terminator is not read.
pub proof fn lemma_decode_ignores_rest(buffer: Seq<u8>, rest: Seq<u8>)
    requires
        buffer.contains(TERMINATOR),
    ensures
        spec_decode(buffer + rest) == spec_decode(buffer),
{
    let at = choose|at: int| first_terminator(buffer, at);
    let i = choose|i: int| 0 <= i < buffer.len() && buffer[i] == TERMINATOR;
    lemma_some_terminator_has_first(buffer, i);
    let whole = buffer + rest;
    assert forall|j: int| 0 <= j < at implies whole[j] != TERMINATOR by {
        assert(whole[j] == buffer[j]);
    }
    assert(whole[at] == buffer[at]);
    lemma_decode_at(whole, at);
    lemma_decode_at(buffer, at);
    assert(whole.take(at) =~= buffer.take(at));
}

/// A buffer that holds a terminator has a first one.
pub proof fn lemma_some_terminator_has_first(bytes: Seq<u8>, i: int)
    requires
        0 <= i < bytes.len(),
        bytes[i] == TERMINATOR,
    ensures
        exists|at: int| first_terminator(bytes, at),
    decreases i,
{
    if exists|j: int| 0 <= j < i && bytes[j] == TERMINATOR {
        let j = choose|j: int| 0 <= j < i && bytes[j] == TERMINATOR;
        lemma_some_terminator_has_first(bytes, j);
    } else {
        assert(first_terminator(bytes, i));
    }
}

/// No byte of an encoded buffer changes unnoticed: with any one byte replaced
/// by another, the buffer no longer carries the bytes that went in.
pub proof fn lemma_mutation_shows(value: Seq<u8>, at: int, byte: u8)
    requires
        !value.contains(TERMINATOR),
        0 <= at <= value.len(),
        byte != value.push(TERMINATOR)[at],
    ensures
        spec_decode(value.push(TERMINATOR).update(at, byte)) != Ok::<Seq<u8>, DecodeError>(value),
{
    let end = value.len() as int;
    let changed = value.push(TERMINATOR).update(at, byte);
    assert forall|j: int| 0 <= j < end && j != at implies changed[j] != TERMINATOR by {
        assert(changed[j] == value[j]);
    }
    if at == end {
        assert(!changed.contains(TERMINATOR));
    } else if byte == TERMINATOR {
        lemma_some_terminator_has_first(changed, at);
        let first = choose|first: int| first_terminator(changed, first);
        lemma_decode_at(changed, first);
        assert(first <= at) by {
            if at < first {
                assert(changed[at] != TERMINATOR);
            }
        }
        assert(changed.take(first).len() == first);
        assert(changed.take(first).len() < value.len());
    } else {
        assert(first_terminator(changed, end));
        lemma_decode_at(changed, end);
        assert(changed.take(end)[at] != value[at]);
    }
}

/// A text that is read out of a buffer is the buffer's payload, byte for
/// byte: nothing of it was put in, left out or replaced.
pub proof fn lemma_decoded_text_is_the_payload(buffer: Seq<u8>)
    requires
        spec_decode_text(buffer) is Ok,
    ensures
        spec_decode(buffer) == Ok::<Seq<u8>, DecodeError>(
            encode_utf8(spec_decode_text(buffer)->Ok_0),
        ),
        !spec_decode_text(buffer)->Ok_0.contains('\0'),
{
    let payload = spec_decode(buffer)->Ok_0;
    let text = spec_decode_text(buffer)->Ok_0;
    decode_utf8_encode_utf8(payload);
    let i = choose|i: int| 0 <= i < buffer.len() && buffer[i] == TERMINATOR;
    lemma_some_terminator_has_first(buffer, i);
    let at = choose|at: int| first_terminator(buffer, at);
    assert forall|j: int| 0 <= j < payload.len() implies payload[j] != TERMINATOR by {
        assert(payload[j] == buffer[j]);
    }
    lemma_text_terminator(text);
}

/// Encoding is the inverse of decoding: a text that was read out of a buffer
/// is carried by that buffer's payload and terminator again.
pub proof fn lemma_decode_then_encode(buffer: Seq<u8>)
    requires
        spec_decode_text(buffer) is Ok,
    ensures
        spec_encode_text(spec_decode_text(buffer)->Ok_0) == Ok::<Seq<u8>, DecodeError>(
            spec_decode(buffer)->Ok_0.push(TERMINATOR),
        ),
{
    lemma_decoded_text_is_the_payload(buffer);
    lemma_encode_refuses_exactly(spec_decode_text(buffer)->Ok_0);
}

/// No byte of the buffer of a text changes unnoticed: with any one byte
/// replaced by another, the buffer no longer carries that text.
pub proof fn lemma_text_mutation_shows(value: Seq<char>, at: int, byte: u8)
    requires
        !value.contains('\0'),
        0 <= at <= encode_utf8(value).len(),
        byte != encode_utf8(value).push(TERMINATOR)[at],
    ensures
        spec_decode_text(encode_utf8(value).push(TERMINATOR).update(at, byte)) != Ok::<
            Seq<char>,
            DecodeError,
        >(value),
{
    let changed = encode_utf8(value).push(TERMINATOR).update(at, byte);
    lemma_text_terminator(value);
    lemma_mutation_shows(encode_utf8(value), at, byte);
    if spec_decode_text(changed) is Ok {
        lemma_decoded_text_is_the_payload(changed);
    }
}

/// Looks for the first terminator in `bytes`.
pub fn find_terminator(bytes: &[u8]) -> (found: Option<usize>)
    ensures
        match found {
            Some(at) => first_terminator(bytes@, at as int),
            None => !bytes@.contains(TERMINATOR),
        },
{
    let mut i: usize = 0;
    while i < bytes.len()
        invariant
            i <= bytes.len(),
            forall|j: int| 0 <= j < i ==> bytes@[j] != TERMINATOR,
        decreases bytes.len() - i,
    {
        if bytes[i] == TERMINATOR {
            return Some(i);
        }
        i += 1;
    }
    None
}

/// Reads bytes as text with `String::from_utf8`: as its documentation says,
/// it gives the text for bytes that are valid UTF-8 and refuses all others.
#[verifier::external_body]
fn text_from_bytes(bytes: Vec<u8>) -> (text: Option<String>)
    ensures
        text is Some <==> valid_utf8(bytes@),
        text is Some ==> text->Some_0@ == decode_utf8(bytes@),
{
    String::from_utf8(bytes).ok()
}

/// Puts `value` into a buffer for the boundary.
///
/// A value that holds the terminator is refused, never cut short.
pub fn encode(value: &str) -> (r: Result<Vec<u8>, DecodeError>)
    ensures
        match r {
            Ok(buffer) => spec_encode_text(value@) == Ok::<Seq<u8>, DecodeError>(buffer@),
            Err(e) => spec_encode_text(value@) == Err::<Seq<u8>, DecodeError>(e),
        },
{
    match find_terminator(value.as_bytes()) {
        Some(_) => Err(DecodeError::IllegalByte),
        None => {
            let mut buffer = value.as_bytes_vec();
            buffer.push(TERMINATOR);
            Ok(buffer)
        },
    }
}

/// Reads the payload bytes out of `buffer`, never looking past its end.
pub fn decode_payload(buffer: &[u8]) -> (r: Result<Vec<u8>, DecodeError>)
    ensures
        match r {
            Ok(payload) => spec_decode(buffer@) == Ok::<Seq<u8>, DecodeError>(payload@),
            Err(e) => spec_decode(buffer@) == Err::<Seq<u8>, DecodeError>(e),
        },
{
    match find_terminator(buffer) {
        Some(at) => {
            proof {
                lemma_decode_at(buffer@, at as int);
            }
            Ok(slice_to_vec(slice_subrange(buffer, 0, at)))
        },
        None => Err(DecodeError::Malformed),
    }
}

/// Reads the text that `buffer` carries. A buffer without terminator is
/// refused, and so is a payload that is not UTF-8.
pub fn decode(buffer: &[u8]) -> (r: Result<String, DecodeError>)
    ensures
        match r {
            Ok(text) => spec_decode_text(buffer@) == Ok::<Seq<char>, DecodeError>(text@),
            Err(e) => spec_decode_text(buffer@) == Err::<Seq<char>, DecodeError>(e),
        },
{
    match decode_payload(buffer) {
        Ok(payload) => match text_from_bytes(payload) {
            Some(text) => Ok(text),
            None => Err(DecodeError::Malformed),
        },
        Err(e) => Err(e),
    }
}

} // verus!
