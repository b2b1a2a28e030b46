use slp_client::packet::{build_handshake, build_status_request, parse_handshake_bytes,
    read_response};
use slp_client::varint::{decode_varint, encode_varint};
use slp_client::SlpError;

#[test]
fn encode_zero_is_one_zero_byte() {
    assert_eq!(encode_varint(0), vec![0x00]);
}

#[test]
fn encode_known_values() {
    assert_eq!(encode_varint(1), vec![0x01]);
    assert_eq!(encode_varint(127), vec![0x7f]);
    assert_eq!(encode_varint(128), vec![0x80, 0x01]);
    assert_eq!(encode_varint(763), vec![0xfb, 0x05]);
    assert_eq!(encode_varint(25565), vec![0xdd, 0xc7, 0x01]);
}

#[test]
fn encode_negative_uses_bit_pattern() {
    assert_eq!(encode_varint(-1), vec![0xff, 0xff, 0xff, 0xff, 0x0f]);
    assert_eq!(encode_varint(i32::MIN), vec![0x80, 0x80, 0x80, 0x80, 0x08]);
}

#[test]
fn varint_round_trip_and_length_bounds() {
    let values = [
        0, 1, 127, 128, 255, 300, 763, 16383, 16384, 25565, 2097151, 2097152, 268435455,
        268435456, i32::MAX, -1, -2, -127, -128, -12345, i32::MIN,
    ];
    for &v in values.iter() {
        let encoded = encode_varint(v);
        assert!(1 <= encoded.len() && encoded.len() <= 5, "bad length for {}", v);
        let (decoded, consumed) = decode_varint(&encoded, 0).unwrap();
        assert_eq!(decoded, v);
        assert_eq!(consumed, encoded.len());
    }
}

#[test]
fn decode_at_an_offset_and_with_trailing_bytes() {
    let mut bytes = vec![0xaa, 0xbb];
    bytes.extend(encode_varint(763));
    bytes.push(0x7f);
    let (decoded, consumed) = decode_varint(&bytes, 2).unwrap();
    assert_eq!(decoded, 763);
    assert_eq!(consumed, 2);
}

#[test]
fn decode_truncated_varint() {
    assert_eq!(decode_varint(&vec![], 0), Err(SlpError::TruncatedStream));
    assert_eq!(decode_varint(&vec![0x80], 0), Err(SlpError::TruncatedStream));
    assert_eq!(
        decode_varint(&vec![0x80, 0x80, 0x80], 0),
        Err(SlpError::TruncatedStream)
    );
}

#[test]
fn decode_overlong_varint() {
    assert_eq!(
        decode_varint(&vec![0x80, 0x80, 0x80, 0x80, 0x80, 0x00], 0),
        Err(SlpError::MalformedVarint)
    );
    // A fifth byte asking for bits past the 32-bit domain.
    assert_eq!(
        decode_varint(&vec![0xff, 0xff, 0xff, 0xff, 0x10], 0),
        Err(SlpError::MalformedVarint)
    );
}

#[test]
fn status_request_is_fixed_two_bytes() {
    assert_eq!(build_status_request(), vec![0x01, 0x00]);
}

#[test]
fn handshake_exact_bytes() {
    let packet = build_handshake("localhost", 25565);
    let mut expected = vec![
        0x10, // payload length: 16
        0x00, // packet id
        0xfb, 0x05, // protocol version 763
        0x09, // host length
    ];
    expected.extend_from_slice(b"localhost");
    expected.extend_from_slice(&[0x63, 0xdd, 0x01]); // port 25565 big-endian, next state
    assert_eq!(packet, expected);
}

#[test]
fn handshake_round_trip() {
    let cases = [("localhost", 25565u16), ("mc.example.org", 1u16), ("a", 0u16)];
    for &(host, port) in cases.iter() {
        let packet = build_handshake(host, port);
        let (parsed_host, parsed_port) = parse_handshake_bytes(&packet).unwrap();
        assert_eq!(parsed_host, host);
        assert_eq!(parsed_port, port);
    }
}

#[test]
fn handshake_round_trip_unicode_host() {
    let host = "Ünïcode.example";
    let packet = build_handshake(host, 4242);
    let (parsed_host, parsed_port) = parse_handshake_bytes(&packet).unwrap();
    assert_eq!(parsed_host, host);
    assert_eq!(parsed_port, 4242);
}

#[test]
fn parse_handshake_rejects_a_wrong_packet_id() {
    let mut packet = build_handshake("host", 1);
    packet[1] = 0x05; // the handshake's packet id must be 0x00
    assert_eq!(parse_handshake_bytes(&packet), Err(SlpError::SchemaMismatch));
}

#[test]
fn parse_handshake_rejects_a_wrong_next_state() {
    let mut packet = build_handshake("host", 1);
    let last = packet.len() - 1;
    packet[last] = 0x02; // the next-state byte must ask for status
    assert_eq!(parse_handshake_bytes(&packet), Err(SlpError::SchemaMismatch));
}

#[test]
fn parse_handshake_detects_truncation() {
    // Declares two payload bytes but supplies one.
    assert_eq!(parse_handshake_bytes(&vec![0x02, 0x00]), Err(SlpError::TruncatedStream));
    let mut packet = build_handshake("host", 1);
    packet.truncate(packet.len() - 2);
    assert_eq!(parse_handshake_bytes(&packet), Err(SlpError::TruncatedStream));
}

fn frame(packet_id: i32, body: &[u8]) -> Vec<u8> {
    let mut inner = encode_varint(packet_id);
    inner.extend(encode_varint(body.len() as i32));
    inner.extend_from_slice(body);
    let mut out = encode_varint(inner.len() as i32);
    out.extend(inner);
    out
}

#[test]
fn read_response_returns_the_json_text() {
    let body = b"{\"ok\":true}";
    let bytes = frame(0x00, body);
    assert_eq!(read_response(&bytes).unwrap(), "{\"ok\":true}");
}

#[test]
fn read_response_tolerates_a_strange_packet_id() {
    let bytes = frame(0x07, b"lenient");
    assert_eq!(read_response(&bytes).unwrap(), "lenient");
}

#[test]
fn read_response_long_body_multi_byte_length() {
    let body: Vec<u8> = std::iter::repeat(b'x').take(300).collect();
    let bytes = frame(0x00, &body);
    let text = read_response(&bytes).unwrap();
    assert_eq!(text.len(), 300);
    assert!(text.bytes().all(|b| b == b'x'));
}

#[test]
fn read_response_ignores_trailing_bytes() {
    let mut bytes = frame(0x00, b"tail");
    bytes.extend_from_slice(&[0xde, 0xad]);
    assert_eq!(read_response(&bytes).unwrap(), "tail");
}

#[test]
fn read_response_truncated_body_fails() {
    // The frame declares a body of 10 bytes but supplies only 3.
    let mut bytes = encode_varint(11); // declared packet length
    bytes.extend(encode_varint(0x00)); // packet id
    bytes.extend(encode_varint(10)); // declared string length
    bytes.extend_from_slice(b"abc");
    assert_eq!(read_response(&bytes), Err(SlpError::TruncatedStream));
}

#[test]
fn read_response_empty_stream_fails() {
    assert_eq!(read_response(&vec![]), Err(SlpError::TruncatedStream));
}

#[test]
fn read_response_invalid_utf8_fails() {
    let bytes = frame(0x00, &[0xff, 0xfe, 0x41]);
    assert_eq!(read_response(&bytes), Err(SlpError::InvalidUtf8));
}
