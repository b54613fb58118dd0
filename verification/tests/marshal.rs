use groth16_wrapper::error::DecodeError;
use groth16_wrapper::marshal::{decode, decode_payload, encode, find_terminator, TERMINATOR};
use groth16_wrapper::verdict::{parse_verdict, read_verdict};

#[test]
fn terminator_is_the_zero_byte() {
    assert_eq!(TERMINATOR, 0u8);
}

#[test]
fn encode_appends_one_terminator() {
    assert_eq!(encode("abc"), Ok(vec![97, 98, 99, 0]));
    assert_eq!(encode(""), Ok(vec![0]));
    assert_eq!(encode("/0/"), Ok(vec![47, 48, 47, 0]));
}

#[test]
fn encode_writes_utf8() {
    assert_eq!(encode("\u{e9}"), Ok(vec![0xC3, 0xA9, 0]));
    assert_eq!(encode("\u{20ac}!"), Ok(vec![0xE2, 0x82, 0xAC, 0x21, 0]));
    assert_eq!(encode("\u{1F600}"), Ok(vec![0xF0, 0x9F, 0x98, 0x80, 0]));
}

#[test]
fn encode_refuses_an_embedded_terminator() {
    assert_eq!(encode("a\0b"), Err(DecodeError::IllegalByte));
    assert_eq!(encode("\0"), Err(DecodeError::IllegalByte));
    assert_eq!(encode("abc\0"), Err(DecodeError::IllegalByte));
    assert_eq!(encode("\0abc"), Err(DecodeError::IllegalByte));
}

#[test]
fn decode_reads_up_to_the_first_terminator() {
    assert_eq!(decode(b"abc\0"), Ok(String::from("abc")));
    assert_eq!(decode(b"\0"), Ok(String::new()));
    assert_eq!(decode(b"ab\0cd\0"), Ok(String::from("ab")));
    assert_eq!(decode(b"ab\0cd"), Ok(String::from("ab")));
    assert_eq!(decode_payload(b"ab\0cd\0"), Ok(vec![97, 98]));
    assert_eq!(decode_payload(b"\0\0"), Ok(vec![]));
}

#[test]
fn decode_refuses_a_buffer_without_terminator() {
    assert_eq!(decode(b"abc"), Err(DecodeError::Malformed));
    assert_eq!(decode(b""), Err(DecodeError::Malformed));
    assert_eq!(decode(b"{\"truncated\":"), Err(DecodeError::Malformed));
    assert_eq!(decode_payload(b"abc"), Err(DecodeError::Malformed));
    assert_eq!(decode_payload(b""), Err(DecodeError::Malformed));
}

#[test]
fn decode_refuses_what_is_not_utf8() {
    assert_eq!(decode(b"h\xffi\0"), Err(DecodeError::Malformed));
    assert_eq!(decode(b"\xff\0"), Err(DecodeError::Malformed));
    assert_eq!(decode(b"\xc3\0"), Err(DecodeError::Malformed));
    assert_eq!(decode(b"\xc0\x80\0"), Err(DecodeError::Malformed));
    assert_eq!(decode(b"\xed\xa0\x80\0"), Err(DecodeError::Malformed));
    assert_eq!(decode(b"\xf4\x90\x80\x80\0"), Err(DecodeError::Malformed));
    assert_eq!(decode(b"\"\xff\"\0"), Err(DecodeError::Malformed));
    assert_eq!(decode_payload(b"h\xffi\0"), Ok(vec![b'h', 0xff, b'i']));
}

#[test]
fn decode_ignores_what_follows_the_terminator() {
    assert_eq!(decode(b"ok\0\xff"), Ok(String::from("ok")));
    assert_eq!(decode(b"\xc3\xa9\0\xc3"), Ok(String::from("\u{e9}")));
}

#[test]
fn decode_gives_back_what_encode_took() {
    for text in ["", "a", "true", "{\"X\":\"12\"}", "gr\u{fc}\u{df}e", "\u{1F600} \u{20ac}"] {
        let buffer = encode(text).unwrap();
        assert_eq!(decode(&buffer), Ok(String::from(text)));
        assert_eq!(decode_payload(&buffer), Ok(text.as_bytes().to_vec()));
        assert_eq!(find_terminator(&buffer), Some(text.len()));
    }
}

#[test]
fn different_texts_get_different_buffers() {
    assert_ne!(encode("/0/"), encode("/1/"));
    assert_ne!(encode("a"), encode("ab"));
    assert_ne!(encode(""), encode(" "));
}

#[test]
fn find_terminator_gives_the_first_one() {
    assert_eq!(find_terminator(b""), None);
    assert_eq!(find_terminator(b"abc"), None);
    assert_eq!(find_terminator(b"\0"), Some(0));
    assert_eq!(find_terminator(b"ab\0c\0"), Some(2));
    assert_eq!(find_terminator(&[1, 2, 3, 0]), Some(3));
}

#[test]
fn verdict_is_one_of_two_words() {
    assert_eq!(parse_verdict("true"), Ok(true));
    assert_eq!(parse_verdict("false"), Ok(false));
}

#[test]
fn verdict_in_other_words_is_malformed_not_false() {
    for text in ["", "True", "TRUE", "true ", " true", "1", "0", "yes", "no", "fals", "falsey",
        "truee", "tru\u{e9}", "\"true\"", "true\n"] {
        assert_eq!(parse_verdict(text), Err(DecodeError::Malformed));
    }
}

#[test]
fn verdict_is_read_from_the_reply_buffer() {
    assert_eq!(read_verdict(b"true\0"), Ok(true));
    assert_eq!(read_verdict(b"false\0"), Ok(false));
    assert_eq!(read_verdict(b"true\0false\0"), Ok(true));
    assert_eq!(read_verdict(b"true"), Err(DecodeError::Malformed));
    assert_eq!(read_verdict(b""), Err(DecodeError::Malformed));
    assert_eq!(read_verdict(b"\0"), Err(DecodeError::Malformed));
    assert_eq!(read_verdict(b"maybe\0"), Err(DecodeError::Malformed));
    assert_eq!(read_verdict(b"tru\xff\0"), Err(DecodeError::Malformed));
}

#[test]
fn one_changed_byte_changes_what_a_buffer_carries() {
    for text in ["true", "{\"Ar\":{\"X\":\"13\"}}", "", "\u{e9}"] {
        let buffer = encode(text).unwrap();
        for at in 0..buffer.len() {
            for byte in [0u8, 1, b'0', b't', b'}', 0x80, 0xff] {
                if byte == buffer[at] {
                    continue;
                }
                let mut changed = buffer.clone();
                changed[at] = byte;
                assert_ne!(decode_payload(&changed), Ok(text.as_bytes().to_vec()));
                assert_ne!(decode(&changed), Ok(String::from(text)));
            }
        }
    }
}
