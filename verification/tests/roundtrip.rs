//! Round trips of whole messages through the wire line codec, and of
//! the value codecs the register layer builds on.

use snapctl::escape::{escape_argument, unescape_argument};
use snapctl::msg::{Message, MessageKind};
use snapctl::numbers::{
    parse_hex_word_argument, parse_u32_argument, u32_from_be_bytes, u32_to_be_bytes, u32_to_dec,
    u32_to_hex_argument,
};
use snapctl::program::listbof_request;
use snapctl::registers::read_request;
use snapctl::wire::{base64_encode, base64_round_trip, parse_line, serialize_message, Base64Bytes};

fn roundtrip(m: &Message) -> Message {
    let line = serialize_message(m).expect("message should serialize");
    parse_line(&line).expect("serialized line should parse back")
}

#[test]
fn test_listbof() {
    let request = listbof_request();
    assert_eq!(roundtrip(&request), request);
    let reply = Message {
        kind: MessageKind::Reply,
        name: "listbof".to_string(),
        arguments: vec!["ok".to_string(), "12".to_string()],
    };
    assert_eq!(roundtrip(&reply), reply);
    let inform = Message {
        kind: MessageKind::Inform,
        name: "listbof".to_string(),
        arguments: vec![escape_argument("dsa_10gv11.bof")],
    };
    assert_eq!(roundtrip(&inform), inform);
}

#[test]
fn test_read() {
    let request = read_request("gbe0", 0, 4);
    assert_eq!(roundtrip(&request), request);
    let payload = Base64Bytes(vec![0xde, 0xad, 0xbe, 0xef]);
    let reply = Message {
        kind: MessageKind::Reply,
        name: "read".to_string(),
        arguments: vec!["ok".to_string(), payload.to_argument()],
    };
    assert_eq!(roundtrip(&reply), reply);
    assert_eq!(Base64Bytes::from_argument(&payload.to_argument()), Some(payload));
}

#[test]
fn serialized_lines_have_the_wire_shape() {
    assert_eq!(serialize_message(&listbof_request()).unwrap(), "?listbof\n");
    assert_eq!(serialize_message(&read_request("gbe0", 0, 4)).unwrap(), "?read gbe0 0 4\n");
}

#[test]
fn parse_line_reads_kind_name_and_arguments() {
    let m = parse_line("!watchdog ok").expect("should parse");
    assert_eq!(m.kind, MessageKind::Reply);
    assert_eq!(m.name, "watchdog");
    assert_eq!(m.arguments, vec!["ok".to_string()]);
    let m = parse_line("#fpga ready\n").expect("should parse");
    assert_eq!(m.kind, MessageKind::Inform);
    assert_eq!(m.name, "fpga");
    assert!(parse_line("not a message").is_none());
}

#[test]
fn escape_codec_round_trips() {
    for text in ["", "plain", "with space", "tab\there", "line\nbreak", r"back\slash", "mixed \t\r\n\\ all"] {
        let wire = escape_argument(text);
        assert_eq!(unescape_argument(&wire).as_deref(), Some(text));
    }
    assert_eq!(escape_argument(""), r"\@");
    assert_eq!(escape_argument("a b"), r"a\_b");
}

#[test]
fn base64_codec_round_trips() {
    assert_eq!(base64_round_trip(&[]), Vec::<u8>::new());
    assert_eq!(base64_round_trip(&[0, 0, 0, 0]), vec![0, 0, 0, 0]);
    assert_eq!(base64_round_trip(&[0xff, 0xff, 0xff, 0xff]), vec![0xff, 0xff, 0xff, 0xff]);
    let mixed: Vec<u8> = (0u16..=255).map(|b| (b as u8).wrapping_mul(37).wrapping_add(11)).collect();
    assert_eq!(base64_round_trip(&mixed), mixed);
    assert_eq!(base64_encode(&[0xde, 0xad, 0xbe, 0xef]), "3q2+7w==");
}

#[test]
fn word_codec_round_trips() {
    for w in [0u32, 1, 6000, 0xdead_beef, 0xffff_ffff, 0xc0a8_0514] {
        let bytes = u32_to_be_bytes(w);
        assert_eq!(bytes.len(), 4);
        assert_eq!(u32_from_be_bytes(&bytes), w);
    }
    assert_eq!(u32_to_be_bytes(0xc0a8_0501), vec![192, 168, 5, 1]);
}

#[test]
fn hex_word_codec_round_trips() {
    for w in [0u32, 1, 0xdead_beef, 0xffff_ffff, 0x0000_0034] {
        assert_eq!(parse_hex_word_argument(&u32_to_hex_argument(w)), Some(w));
    }
    assert_eq!(u32_to_hex_argument(0xdead_beef), "0xdeadbeef");
    assert_eq!(u32_to_hex_argument(0), "0x00000000");
    assert_eq!(parse_hex_word_argument("0xdeadbeef"), Some(0xdead_beef));
    assert_eq!(parse_hex_word_argument("deadbeef"), None);
    assert_eq!(parse_hex_word_argument("0xdeadbee"), None);
    assert_eq!(parse_hex_word_argument("0xdeadbeeg"), None);
}

#[test]
fn decimal_codec_round_trips() {
    for n in [0u32, 1, 9, 10, 6000, 4_294_967_295] {
        assert_eq!(parse_u32_argument(&u32_to_dec(n)), Some(n));
    }
    assert_eq!(u32_to_dec(3000), "3000");
    assert_eq!(parse_u32_argument("007"), None);
    assert_eq!(parse_u32_argument("4294967296"), None);
    assert_eq!(parse_u32_argument(""), None);
    assert_eq!(parse_u32_argument("12a"), None);
}
