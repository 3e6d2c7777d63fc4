use blinky::frame::{
    build_websocket_frame, encode_websocket_frame, parse_websocket_frame, read_text_frame,
};
use blinky::websocket::{
    build_websocket_handshake_request, calculate_websocket_accept, classify_read,
    generate_websocket_key, handshake_accepted, ReadOutcome, WEBSOCKET_GUID,
};

#[test]
fn short_text_frame_bytes() {
    let frame = encode_websocket_frame(b"Hi", true, [1, 2, 3, 4]);
    assert_eq!(frame, vec![0x81, 0x82, 1, 2, 3, 4, b'H' ^ 1, b'i' ^ 2]);
}

#[test]
fn binary_frame_opcode() {
    let frame = encode_websocket_frame(b"", false, [9, 9, 9, 9]);
    assert_eq!(frame, vec![0x82, 0x80, 9, 9, 9, 9]);
}

#[test]
fn medium_frame_uses_16_bit_length() {
    let payload = vec![0x55u8; 300];
    let frame = encode_websocket_frame(&payload, true, [0, 0, 0, 0]);
    assert_eq!(&frame[..8], &[0x81, 0xFE, 0x01, 0x2C, 0, 0, 0, 0]);
    assert_eq!(frame.len(), 4 + 4 + 300);
}

#[test]
fn boundary_125_and_126() {
    let frame = encode_websocket_frame(&vec![0u8; 125], true, [0; 4]);
    assert_eq!(frame[1], 0x80 | 125);
    assert_eq!(frame.len(), 2 + 4 + 125);
    let frame = encode_websocket_frame(&vec![0u8; 126], true, [0; 4]);
    assert_eq!(&frame[1..4], &[0xFE, 0, 126]);
    assert_eq!(frame.len(), 4 + 4 + 126);
}

#[test]
fn large_frame_uses_64_bit_length() {
    let payload = vec![7u8; 65536];
    let frame = encode_websocket_frame(&payload, false, [1, 1, 1, 1]);
    assert_eq!(&frame[..10], &[0x82, 0xFF, 0, 0, 0, 0, 0, 1, 0, 0]);
    assert_eq!(frame.len(), 10 + 4 + 65536);
    let (parsed, fin) = parse_websocket_frame(&frame);
    assert!(fin);
    assert_eq!(parsed, payload);
}

#[test]
fn encode_then_parse_gives_payload_back() {
    for len in [0usize, 1, 5, 125, 126, 127, 1000, 65535] {
        let payload: Vec<u8> = (0..len).map(|i| (i * 31 % 251) as u8).collect();
        let frame = encode_websocket_frame(&payload, len % 2 == 0, [0xA5, 0x5A, 0xFF, 0x01]);
        let (parsed, fin) = parse_websocket_frame(&frame);
        assert!(fin);
        assert_eq!(parsed, payload);
    }
}

#[test]
fn random_masked_frame_parses_back() {
    let frame = build_websocket_frame("hello gemini", true);
    assert_eq!(frame[0], 0x81);
    assert_eq!(frame[1], 0x80 | 12);
    let (parsed, fin) = parse_websocket_frame(&frame);
    assert!(fin);
    assert_eq!(parsed, b"hello gemini".to_vec());
}

#[test]
fn parse_unmasked_server_frame() {
    let buffer = [0x81u8, 0x03, b'a', b'b', b'c', 0xEE];
    let (payload, fin) = parse_websocket_frame(&buffer);
    assert!(fin);
    assert_eq!(payload, b"abc".to_vec());
}

#[test]
fn parse_continuation_frame_without_fin() {
    let buffer = [0x01u8, 0x02, b'o', b'k'];
    let (payload, fin) = parse_websocket_frame(&buffer);
    assert!(!fin);
    assert_eq!(payload, b"ok".to_vec());
}

#[test]
fn parse_16_bit_length_unmasked() {
    let mut buffer = vec![0x82u8, 0x7E, 0x00, 0x80];
    buffer.extend(std::iter::repeat(3u8).take(128));
    let (payload, fin) = parse_websocket_frame(&buffer);
    assert!(fin);
    assert_eq!(payload, vec![3u8; 128]);
}

#[test]
fn handshake_request_text() {
    let request = build_websocket_handshake_request("example.com", "abc==");
    assert_eq!(
        request,
        "GET / HTTP/1.1\r\nHost: example.com\r\nConnection: Upgrade\r\nUpgrade: websocket\r\nSec-WebSocket-Key: abc==\r\nSec-WebSocket-Version: 13\r\n\r\n"
    );
}

#[test]
fn accept_value_of_rfc_example() {
    assert_eq!(
        calculate_websocket_accept("dGhlIHNhbXBsZSBub25jZQ=="),
        "s3pPLMBiTxaQ9kYGzzhZRbK+xOo="
    );
    assert_eq!(WEBSOCKET_GUID, "258EAFA5-E914-47DA-95CA-C5AB0DC85B11");
}

#[test]
fn handshake_reply_checked_for_accept() {
    let reply = "HTTP/1.1 101 Switching Protocols\r\nUpgrade: websocket\r\nConnection: Upgrade\r\nSec-WebSocket-Accept: s3pPLMBiTxaQ9kYGzzhZRbK+xOo=\r\n\r\n";
    assert!(handshake_accepted(reply, "dGhlIHNhbXBsZSBub25jZQ=="));
    assert!(!handshake_accepted(reply, "AAAAAAAAAAAAAAAAAAAAAA=="));
    assert!(!handshake_accepted("", "dGhlIHNhbXBsZSBub25jZQ=="));
}

#[test]
fn generated_key_is_base64_of_16_bytes() {
    let key = generate_websocket_key();
    assert_eq!(key.len(), 24);
    assert!(key.ends_with("=="));
    assert!(key[..22]
        .chars()
        .all(|c| c.is_ascii_alphanumeric() || c == '+' || c == '/'));
}

#[test]
fn read_results_classified() {
    assert_eq!(classify_read(42), ReadOutcome::Data(42));
    assert_eq!(classify_read(0), ReadOutcome::Closed);
    assert_eq!(classify_read(-1), ReadOutcome::Failed);
}

#[test]
fn text_frame_reads_back_as_text() {
    let frame = build_websocket_frame("héllo, wörld", true);
    let (text, fin) = read_text_frame(&frame);
    assert!(fin);
    assert_eq!(text, "héllo, wörld");
}

#[test]
fn invalid_utf8_is_replaced() {
    let buffer = [0x81u8, 0x03, b'a', 0xFF, b'b'];
    let (text, fin) = read_text_frame(&buffer);
    assert!(fin);
    assert_eq!(text, "a\u{FFFD}b");
}

#[test]
fn accept_value_shape() {
    let accept = calculate_websocket_accept("x3JJHMbDL1EzLkh9GBhXDw==");
    assert_eq!(accept.len(), 28);
    assert!(accept.ends_with('='));
    assert!(accept[..27]
        .chars()
        .all(|c| c.is_ascii_alphanumeric() || c == '+' || c == '/'));
}
