//! Client state, activity payloads, and the debounce controller on concrete
//! scenarios.
use presence_relay::client::{Client, IoStatus};
use presence_relay::endpoint::{resolve_base, candidate, pick_candidate};
use presence_relay::session::Session;
use presence_relay::ClientError;

fn connected_client(id: &[u8]) -> Client {
    let mut c = Client::new(id.to_vec());
    c.connect(true, true, 0).expect("connect");
    c
}

fn frame(opcode: u32, payload: &str) -> Vec<u8> {
    let mut f = opcode.to_le_bytes().to_vec();
    f.extend_from_slice(&(payload.len() as u32).to_le_bytes());
    f.extend_from_slice(payload.as_bytes());
    f
}

#[test]
fn handshake_frame_is_exact() {
    let mut c = Client::new(b"123".to_vec());
    let got = c.connect(true, true, 0xff).expect("connect").expect("handshake frame");
    let want = frame(0, r#"{"client_id":"123","nonce":"00000000000000ff","v":1}"#);
    assert_eq!(got, want);
    assert!(c.is_connected());
}

#[test]
fn connect_reports_missing_endpoint_and_refusal() {
    let mut c = Client::new(b"123".to_vec());
    assert_eq!(c.connect(false, true, 1), Err(ClientError::EndpointNotFound));
    assert!(!c.is_connected());
    assert_eq!(c.connect(true, false, 1), Err(ClientError::ConnectionRefused));
    assert!(!c.is_connected());
    let again = c.connect(true, true, 1).expect("connect");
    assert!(again.is_some());
    assert_eq!(c.connect(true, true, 2), Ok(None));
}

#[test]
fn party_range_ends_at_running_maximum() {
    let mut c = connected_client(b"id");
    c.merge_len = Some(5);
    let p = presence_relay::json::PackagePayload {
        category: b"app-editors".to_vec(),
        package: b"vim".to_vec(),
        state: None,
    };
    let got = c.set_package(&p, 2, 123, 0xaa).expect("frame");
    let mut text = String::new();
    text.push_str(r#"{"args":{"activity":{"assets":{"large_image":"gentoodrpgt"},"#);
    text.push_str(r#""details":"app-editors/vim","party":{"id":"id","size":[4,5]},"#);
    text.push_str(r#""timestamps":{"start":123}},"pid":0},"cmd":"SET_ACTIVITY","#);
    text.push_str(r#""nonce":"00000000000000aa"}"#);
    let want = frame(1, &text);
    assert_eq!(String::from_utf8(got[8..].to_vec()).unwrap(), text);
    assert_eq!(got, want);
    assert_eq!(c.merge_len, Some(5));
}

#[test]
fn no_party_when_nothing_remains() {
    let mut c = connected_client(b"id");
    let p = presence_relay::json::PackagePayload {
        category: b"a".to_vec(),
        package: b"b".to_vec(),
        state: None,
    };
    let got = c.set_package(&p, 0, 1, 0).expect("frame");
    let text = String::from_utf8(got[8..].to_vec()).unwrap();
    assert!(!text.contains("party"));
    assert_eq!(c.merge_len, Some(0));
}

#[test]
fn state_serializes_to_lowercase_literal() {
    let mut c = connected_client(b"id");
    let p = presence_relay::json::PackagePayload {
        category: b"a".to_vec(),
        package: b"b".to_vec(),
        state: Some(presence_relay::json::PackageState::Compiling),
    };
    let got = c.set_package(&p, 0, 1, 0).expect("frame");
    let text = String::from_utf8(got[8..].to_vec()).unwrap();
    assert!(text.contains(r#","state":"compiling","timestamps""#));
}

#[test]
fn merge_progress_never_regresses() {
    let mut c = connected_client(b"id");
    let p = presence_relay::json::PackagePayload {
        category: b"a".to_vec(),
        package: b"b".to_vec(),
        state: None,
    };
    for (count, want) in [(3, 3), (5, 5), (2, 5), (0, 5), (7, 7)] {
        c.set_package(&p, count, 1, 0).expect("frame");
        assert_eq!(c.merge_len, Some(want));
    }
}

#[test]
fn broken_pipe_clears_connection_and_reconnects_once() {
    let mut c = connected_client(b"id");
    assert_eq!(c.handle_io(IoStatus::BrokenPipe), Err(ClientError::ConnectionLost));
    assert!(!c.is_connected());
    // a second report of the same condition is quietly absorbed
    assert_eq!(c.handle_io(IoStatus::ConnectionReset), Ok(()));
    // the next iteration notices and attempts exactly one connect
    let f = c.connect(true, true, 3).expect("connect").expect("handshake");
    assert_eq!(f[0..4], [0, 0, 0, 0]);
    assert!(c.is_connected());
    // with the connection back, connect is a no-op again
    assert_eq!(c.connect(true, true, 4), Ok(None));
}

#[test]
fn other_io_errors_keep_the_connection() {
    let mut c = connected_client(b"id");
    assert_eq!(c.handle_io(IoStatus::Failed), Err(ClientError::IOError));
    assert!(c.is_connected());
    assert_eq!(c.handle_io(IoStatus::Done), Ok(()));
    assert!(c.is_connected());
}

#[test]
fn disconnect_notice_only_when_connected() {
    let c = Client::new(b"id".to_vec());
    assert!(c.disconnect_notice().is_none());
    let c = connected_client(b"id");
    assert_eq!(c.disconnect_notice().unwrap(), frame(2, "{}"));
}

#[test]
fn burst_honours_only_the_trailing_unset() {
    let mut s = Session::new(connected_client(b"id"));
    let mut buf = b"unset\0set {\"category\":\"a\",\"package\":\"b\"}\0unset".to_vec();
    assert!(!Session::command_is_set(&buf));
    let r = s.handle_buffer(&mut buf, 1000, 0, 5, 1);
    assert_eq!(r, Ok(None));
    assert_eq!(s.last_unset, Some(1000));
    assert_eq!(s.client.merge_len, None);
    assert!(buf.is_empty());
}

#[test]
fn set_cancels_pending_unset() {
    let mut s = Session::new(connected_client(b"id"));
    let mut buf = b"unset".to_vec();
    s.handle_buffer(&mut buf, 1000, 0, 5, 1).expect("unset");
    assert_eq!(s.last_unset, Some(1000));
    let mut buf = b"set {\"category\":\"a\",\"package\":\"b\"}".to_vec();
    assert!(Session::command_is_set(&buf));
    let r = s.handle_buffer(&mut buf, 2000, 4, 5, 1).expect("set");
    assert!(r.is_some());
    assert_eq!(s.last_unset, None);
    assert_eq!(s.client.merge_len, Some(4));
    assert!(buf.is_empty());
}

#[test]
fn malformed_set_is_protocol_error_and_keeps_buffer() {
    let mut s = Session::new(connected_client(b"id"));
    let mut buf = b"set {\"category\":1}".to_vec();
    let r = s.handle_buffer(&mut buf, 1, 0, 1, 1);
    assert_eq!(r, Err(ClientError::ProtocolError));
    assert!(!buf.is_empty());
}

#[test]
fn invalid_utf8_burst_is_protocol_error() {
    let mut s = Session::new(connected_client(b"id"));
    let mut buf = vec![0xff, 0xfe, 0xfd];
    let r = s.handle_buffer(&mut buf, 1, 0, 1, 1);
    assert_eq!(r, Err(ClientError::ProtocolError));
    assert!(!buf.is_empty());
}

#[test]
fn unrecognized_command_does_nothing() {
    let mut s = Session::new(connected_client(b"id"));
    let mut buf = b"status please".to_vec();
    assert_eq!(s.handle_buffer(&mut buf, 1, 0, 1, 1), Ok(None));
    assert_eq!(s.last_unset, None);
    assert!(buf.is_empty());
}

#[test]
fn unset_prefix_match_accepts_trailing_text() {
    let mut s = Session::new(connected_client(b"id"));
    let mut buf = b"unset now thanks".to_vec();
    assert_eq!(s.handle_buffer(&mut buf, 77, 0, 1, 1), Ok(None));
    assert_eq!(s.last_unset, Some(77));
}

#[test]
fn pending_unset_expires_after_grace_period() {
    let mut s = Session::new(connected_client(b"id"));
    let mut buf = b"unset".to_vec();
    s.handle_buffer(&mut buf, 1000, 0, 1, 1).expect("unset");
    assert!(!s.tick_due(1000));
    assert!(!s.tick_due(31000));
    assert!(s.tick_due(31001));
    s.client.merge_len = Some(9);
    let f = s.tick_reconnect(true, true, 0xff).expect("reconnect");
    assert_eq!(f, frame(0, r#"{"client_id":"id","nonce":"00000000000000ff","v":1}"#));
    assert_eq!(s.last_unset, None);
    assert_eq!(s.client.merge_len, None);
    assert!(s.client.is_connected());
    assert!(!s.tick_due(40000));
}

#[test]
fn failed_reconnect_still_returns_to_idle() {
    let mut s = Session::new(connected_client(b"id"));
    s.client.merge_len = Some(3);
    let mut buf = b"unset".to_vec();
    s.handle_buffer(&mut buf, 0, 0, 1, 1).expect("unset");
    assert_eq!(s.tick_reconnect(false, false, 1), Err(ClientError::EndpointNotFound));
    assert_eq!(s.last_unset, None);
    assert!(!s.client.is_connected());
    assert_eq!(s.client.merge_len, Some(3));
    let mut buf2 = b"unset".to_vec();
    s.handle_buffer(&mut buf2, 5, 0, 1, 1).expect("unset");
    assert_eq!(s.tick_reconnect(true, false, 1), Err(ClientError::ConnectionRefused));
    assert_eq!(s.last_unset, None);
}

#[test]
fn base_directory_prefers_first_configured() {
    let vars = vec![None, Some(b"/run/user/1000".to_vec()), Some(b"/x".to_vec())];
    assert_eq!(resolve_base(&vars), b"/run/user/1000".to_vec());
    let vars: Vec<Option<Vec<u8>>> = vec![None, None, None, None];
    assert_eq!(resolve_base(&vars), b"/tmp".to_vec());
}

#[test]
fn candidate_paths_carry_prefix_and_digit() {
    assert_eq!(candidate(&b"/tmp".to_vec(), 0), b"/tmp/discord-ipc-0".to_vec());
    assert_eq!(candidate(&b"/run/user/1000".to_vec(), 9), b"/run/user/1000/discord-ipc-9".to_vec());
}

#[test]
fn first_existing_candidate_wins() {
    assert_eq!(pick_candidate(&vec![false, false, true, true]), Some(2));
    assert_eq!(pick_candidate(&vec![true; 10]), Some(0));
    assert_eq!(pick_candidate(&vec![false; 10]), None);
    assert_eq!(pick_candidate(&vec![]), None);
}

#[test]
fn set_without_connection_updates_progress_but_fails() {
    let mut c = Client::new(b"id".to_vec());
    let p = presence_relay::json::PackagePayload {
        category: b"a".to_vec(),
        package: b"b".to_vec(),
        state: None,
    };
    assert_eq!(c.set_package(&p, 6, 1, 1), Err(ClientError::IOError));
    assert_eq!(c.merge_len, Some(6));
}
