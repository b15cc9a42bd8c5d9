//! Wire-codec behaviour: the varint codec, console packet framing, and the
//! status-ping handshake.

use mcbridge::rcon::ConsoleError;
use mcbridge::rcon::ConsoleSession;
use mcbridge::rcon::RconPacket;
use mcbridge::status::build_handshake;
use mcbridge::status::response_frame;
use mcbridge::status::status_request;
use mcbridge::varint::varint_decode;
use mcbridge::varint::varint_encode;

fn varint_round_trip(value: i32) {
    let encoded = varint_encode(value);
    assert!(encoded.len() >= 1 && encoded.len() <= 5);
    let (decoded, consumed) = varint_decode(&encoded).expect("terminated varint");
    assert_eq!(decoded, value);
    assert_eq!(consumed, encoded.len());
}

#[test]
fn varint_round_trips_across_the_range() {
    for value in [
        0i32,
        1,
        5,
        127,
        128,
        300,
        16383,
        16384,
        25565,
        i32::MAX,
        -1,
        -128,
        i32::MIN,
    ] {
        varint_round_trip(value);
    }
}

#[test]
fn varint_encodes_known_bytes() {
    assert_eq!(varint_encode(0), vec![0]);
    assert_eq!(varint_encode(1), vec![1]);
    assert_eq!(varint_encode(127), vec![0x7F]);
    assert_eq!(varint_encode(128), vec![0x80, 0x01]);
    assert_eq!(varint_encode(300), vec![0xAC, 0x02]);
    assert_eq!(varint_encode(-1), vec![0xFF, 0xFF, 0xFF, 0xFF, 0x0F]);
}

#[test]
fn varint_decode_stops_at_first_terminator() {
    let (value, consumed) = varint_decode(&[0xAC, 0x02, 0x55, 0x66]).unwrap();
    assert_eq!(value, 300);
    assert_eq!(consumed, 2);
}

#[test]
fn varint_decode_rejects_unterminated_input() {
    assert!(varint_decode(&[]).is_none());
    assert!(varint_decode(&[0x80]).is_none());
    assert!(varint_decode(&[0xFF, 0xFF, 0xFF, 0xFF, 0xFF]).is_none());
}

#[test]
fn packet_declares_length_of_payload_plus_ten() {
    let packet = RconPacket::new(7, 2, "list");
    let bytes = packet.as_bytes();
    let declared = u32::from_le_bytes([bytes[0], bytes[1], bytes[2], bytes[3]]);
    assert_eq!(declared as usize, 8 + "list".len() + 2);
    assert_eq!(bytes.len(), "list".len() + 14);
    assert_eq!(&bytes[bytes.len() - 2..], &[0, 0]);
}

#[test]
fn packet_round_trips_through_its_wire_bytes() {
    let packet = RconPacket::new(41, 3, "secret password");
    let bytes = packet.as_bytes();
    let parsed = RconPacket::parse(&bytes).expect("well-formed packet");
    assert_eq!(parsed.req_id, 41);
    assert_eq!(parsed.ptype, 3);
    assert_eq!(parsed.payload(), b"secret password");
}

#[test]
fn packet_caps_its_payload() {
    let long = "x".repeat(5000);
    let packet = RconPacket::new(0, 2, &long);
    assert_eq!(packet.payload().len(), 4096);
    let bytes = packet.as_bytes();
    let declared = u32::from_le_bytes([bytes[0], bytes[1], bytes[2], bytes[3]]);
    assert_eq!(declared as usize, 4096 + 10);
}

#[test]
fn packet_parse_rejects_bad_frames() {
    assert!(RconPacket::parse(&[]).is_none());
    assert!(RconPacket::parse(&[0; 13]).is_none());
    // declared length disagrees with the buffer
    let mut bytes = RconPacket::new(1, 2, "ok").as_bytes();
    bytes.push(0);
    assert!(RconPacket::parse(&bytes).is_none());
    // trailing bytes must be zero
    let mut bytes = RconPacket::new(1, 2, "ok").as_bytes();
    let n = bytes.len();
    bytes[n - 1] = 7;
    assert!(RconPacket::parse(&bytes).is_none());
}

#[test]
fn auth_failure_sentinel_wins_regardless_of_other_fields() {
    for (ptype, payload) in [(0, ""), (2, "ignored"), (3, "anything at all")] {
        let mut session = ConsoleSession::new();
        let expected = session.begin_request().unwrap();
        let crafted = RconPacket::new(-1, ptype, payload);
        let r = session.handle_response(expected, &crafted);
        assert_eq!(r.unwrap_err(), ConsoleError::AuthenticationFailed);
    }
}

#[test]
fn auth_failure_even_when_minus_one_was_expected() {
    let crafted = RconPacket::new(-1, 0, "");
    let mut session = ConsoleSession::new();
    let r = session.handle_response(-1, &crafted);
    assert_eq!(r.unwrap_err(), ConsoleError::AuthenticationFailed);
}

#[test]
fn mismatched_response_id_is_a_protocol_mismatch() {
    let mut session = ConsoleSession::new();
    let expected = session.begin_request().unwrap();
    let crafted = RconPacket::new(expected + 5, 0, "");
    let r = session.handle_response(expected, &crafted);
    assert_eq!(r.unwrap_err(), ConsoleError::ProtocolMismatch);
}

#[test]
fn a_failed_session_repeats_its_fatal_condition() {
    let mut session = ConsoleSession::new();
    let expected = session.begin_request().unwrap();
    let crafted = RconPacket::new(expected + 1, 0, "");
    assert!(session.handle_response(expected, &crafted).is_err());
    assert_eq!(
        session.begin_request().unwrap_err(),
        ConsoleError::ProtocolMismatch
    );
    assert_eq!(
        session.begin_request().unwrap_err(),
        ConsoleError::ProtocolMismatch
    );
}

#[test]
fn matching_response_hands_back_the_payload() {
    let mut session = ConsoleSession::new();
    let expected = session.begin_request().unwrap();
    let resp = RconPacket::new(expected, 0, "pong");
    let payload = session.handle_response(expected, &resp).unwrap();
    assert_eq!(payload, b"pong");
    // the session stays usable and ids advance
    assert_eq!(session.begin_request().unwrap(), expected + 1);
}

#[test]
fn handshake_frames_host_and_port() {
    let bytes = build_handshake("abc", 25565);
    assert_eq!(bytes, vec![47, 3, b'a', b'b', b'c', 0x63, 0xDD, 0x01]);
}

#[test]
fn status_request_is_a_single_zero_byte() {
    assert_eq!(status_request(), vec![0]);
}

#[test]
fn response_frame_reads_the_length_prefix() {
    assert_eq!(response_frame(&[5, 1, 2, 3, 4]), Some((5, 1)));
    assert_eq!(response_frame(&[0xAC, 0x02, 0, 0, 0]), Some((300, 2)));
    assert!(response_frame(&[0xFF, 0xFF, 0xFF, 0xFF, 0xFF]).is_none());
    // a negative declared length is refused
    assert!(response_frame(&[0xFF, 0xFF, 0xFF, 0xFF, 0x0F]).is_none());
}
