//! Frame codec, numeric text, and payload parsing against concrete bytes.
use presence_relay::client::Client;
use presence_relay::frame::{encode_frame, get_number};
use presence_relay::num::{nonce_hex_bytes, parse_count};
use presence_relay::parse::parse_package_payload;
use presence_relay::json::PackageState;
use presence_relay::ClientError;

fn connected_client() -> Client {
    let mut c = Client::new(b"1007427345801556039".to_vec());
    let r = c.connect(true, true, 0);
    assert!(r.is_ok());
    assert!(c.is_connected());
    c
}

#[test]
fn frame_layout_is_little_endian() {
    let f = encode_frame(0x0102_0304, &b"ab".to_vec());
    assert_eq!(f, vec![0x04, 0x03, 0x02, 0x01, 2, 0, 0, 0, b'a', b'b']);
}

#[test]
fn frame_round_trips_through_recv() {
    let c = connected_client();
    for payload in [
        &b""[..],
        &b"{}"[..],
        &b"{\"cmd\":\"DISPATCH\"}"[..],
        "non-ascii \u{00e9}\u{1f600}".as_bytes(),
    ] {
        let f = encode_frame(7, &payload.to_vec());
        let (op, got) = c.recv(&f).expect("frame should decode");
        assert_eq!(op, 7);
        assert_eq!(got, payload.to_vec());
    }
}

#[test]
fn long_payload_round_trips() {
    let payload = vec![b'x'; 65535];
    let c = connected_client();
    let f = encode_frame(1, &payload);
    let (op, got) = c.recv(&f).expect("frame should decode");
    assert_eq!(op, 1);
    assert_eq!(got, payload);
}

#[test]
fn short_field_is_protocol_error() {
    assert_eq!(get_number(&vec![]), Err(ClientError::ProtocolError));
    assert_eq!(get_number(&vec![1, 2, 3]), Err(ClientError::ProtocolError));
    assert_eq!(get_number(&vec![4, 3, 2, 1]), Ok(0x0102_0304));
    let c = connected_client();
    assert_eq!(c.recv(&vec![1, 0, 0]), Err(ClientError::ProtocolError));
    assert_eq!(c.recv(&vec![1, 0, 0, 0, 5, 0]), Err(ClientError::ProtocolError));
}

#[test]
fn truncated_payload_is_io_error() {
    let c = connected_client();
    // header says three bytes, only two follow
    let bytes = vec![1, 0, 0, 0, 3, 0, 0, 0, b'a', b'b'];
    assert_eq!(c.recv(&bytes), Err(ClientError::IOError));
}

#[test]
fn non_utf8_payload_is_protocol_error() {
    let c = connected_client();
    let bytes = vec![1, 0, 0, 0, 2, 0, 0, 0, 0xff, 0xfe];
    assert_eq!(c.recv(&bytes), Err(ClientError::ProtocolError));
}

#[test]
fn recv_without_connection_is_io_error() {
    let c = Client::new(b"id".to_vec());
    let f = encode_frame(1, &b"{}".to_vec());
    assert_eq!(c.recv(&f), Err(ClientError::IOError));
}

#[test]
fn nonce_text_is_padded_lowercase_hex() {
    assert_eq!(nonce_hex_bytes(0), b"0000000000000000".to_vec());
    assert_eq!(nonce_hex_bytes(0xdead_beef), b"00000000deadbeef".to_vec());
    assert_eq!(
        nonce_hex_bytes(0x0123_4567_89ab_cdef_0123_4567_89ab_cdef),
        b"123456789abcdef0123456789abcdef".to_vec()
    );
    assert_eq!(nonce_hex_bytes(u128::MAX), vec![b'f'; 32]);
}

#[test]
fn provider_output_parses_or_is_zero() {
    assert_eq!(parse_count(&b"5".to_vec()), 5);
    assert_eq!(parse_count(&b"+7".to_vec()), 7);
    assert_eq!(parse_count(&b"0".to_vec()), 0);
    assert_eq!(parse_count(&b"4294967295".to_vec()), u32::MAX);
    assert_eq!(parse_count(&b"4294967296".to_vec()), 0);
    assert_eq!(parse_count(&b"".to_vec()), 0);
    assert_eq!(parse_count(&b"+".to_vec()), 0);
    assert_eq!(parse_count(&b"12x".to_vec()), 0);
    assert_eq!(parse_count(&b" 3".to_vec()), 0);
    assert_eq!(parse_count(&b"-3".to_vec()), 0);
}

#[test]
fn plain_payload_parses() {
    let p = parse_package_payload(&br#"{"category":"app-editors","package":"vim"}"#.to_vec())
        .expect("well-formed payload");
    assert_eq!(p.category, b"app-editors".to_vec());
    assert_eq!(p.package, b"vim".to_vec());
    assert!(p.state.is_none());
}

#[test]
fn payload_with_state_parses() {
    for (label, want) in [
        ("preparing", PackageState::Preparing),
        ("compiling", PackageState::Compiling),
        ("installing", PackageState::Installing),
    ] {
        let text = format!(r#" {{ "state" : "{label}" , "category":"a", "package":"b" }} "#);
        let p = parse_package_payload(&text.into_bytes()).expect("well-formed payload");
        assert_eq!(p.state, Some(want));
    }
}

#[test]
fn unknown_state_is_malformed() {
    let r = parse_package_payload(&br#"{"category":"a","package":"b","state":"done"}"#.to_vec());
    assert!(r.is_none());
}

#[test]
fn missing_field_is_malformed() {
    assert!(parse_package_payload(&br#"{"category":"a"}"#.to_vec()).is_none());
    assert!(parse_package_payload(&br#"{"package":"b"}"#.to_vec()).is_none());
    assert!(parse_package_payload(&br#"{}"#.to_vec()).is_none());
}

#[test]
fn duplicate_field_is_malformed() {
    let r = parse_package_payload(&br#"{"category":"a","category":"c","package":"b"}"#.to_vec());
    assert!(r.is_none());
}

#[test]
fn trailing_text_is_malformed() {
    let r = parse_package_payload(&br#"{"category":"a","package":"b"} x"#.to_vec());
    assert!(r.is_none());
}

#[test]
fn unknown_string_fields_are_read_over() {
    let p = parse_package_payload(&br#"{"x":"y","category":"a","package":"b"}"#.to_vec())
        .expect("unknown fields are ignored");
    assert_eq!(p.category, b"a".to_vec());
}

#[test]
fn escapes_decode() {
    let text = r#"{"category":"a\"b\\c\/d\n\t","package":"Aé😀"}"#;
    let p = parse_package_payload(&text.as_bytes().to_vec())
        .expect("escapes are part of the grammar");
    assert_eq!(p.category, b"a\"b\\c/d\n\t".to_vec());
    assert_eq!(p.package, "A\u{00e9}\u{1f600}".as_bytes().to_vec());
}

#[test]
fn raw_utf8_passes_through() {
    let text = "{\"category\":\"caf\u{00e9}\",\"package\":\"p\"}";
    let p = parse_package_payload(&text.as_bytes().to_vec()).expect("raw UTF-8 is fine");
    assert_eq!(p.category, "caf\u{00e9}".as_bytes().to_vec());
}

#[test]
fn unicode_escapes_decode() {
    let text = "{\"category\":\"A\\u00e9\\u20ac\",\"package\":\"\\ud83d\\ude00\"}";
    let p = parse_package_payload(&text.as_bytes().to_vec()).expect("unicode escapes decode");
    assert_eq!(p.category, "A\u{00e9}\u{20ac}".as_bytes().to_vec());
    assert_eq!(p.package, "\u{1f600}".as_bytes().to_vec());
}

#[test]
fn lone_surrogate_is_malformed() {
    assert!(parse_package_payload(&br#"{"category":"\ud83d","package":"b"}"#.to_vec()).is_none());
    assert!(parse_package_payload(&br#"{"category":"\ude00","package":"b"}"#.to_vec()).is_none());
}

#[test]
fn raw_control_byte_is_malformed() {
    assert!(parse_package_payload(&b"{\"category\":\"a\x01\",\"package\":\"b\"}".to_vec())
        .is_none());
}
