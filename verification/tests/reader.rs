use led_server::body::{
    content_length, read_body, read_exact_body, read_streamed_body, read_to_json, read_to_string,
    ReadEvent,
};
use led_server::types::BodyError;

fn chunk(bytes: &[u8]) -> ReadEvent {
    ReadEvent::Chunk(bytes.to_vec())
}

#[test]
fn content_length_reads_decimal_value() {
    assert_eq!(content_length(Some("17")), 17);
    assert_eq!(content_length(Some("0")), 0);
    assert_eq!(content_length(Some("512")), 512);
}

#[test]
fn content_length_accepts_leading_plus() {
    assert_eq!(content_length(Some("+42")), 42);
}

#[test]
fn content_length_missing_or_malformed_is_zero() {
    assert_eq!(content_length(None), 0);
    assert_eq!(content_length(Some("")), 0);
    assert_eq!(content_length(Some("abc")), 0);
    assert_eq!(content_length(Some("17a")), 0);
    assert_eq!(content_length(Some(" 17")), 0);
    assert_eq!(content_length(Some("-3")), 0);
    assert_eq!(content_length(Some("+")), 0);
}

#[test]
fn content_length_overflow_is_zero() {
    assert_eq!(content_length(Some("99999999999999999999999999")), 0);
}

#[test]
fn known_length_read_returns_all_bytes_whatever_the_chunking() {
    let payload: &[u8] = b"{\"ledOn\": true}!!";
    assert_eq!(payload.len(), 17);
    let one = vec![chunk(payload)];
    let many = vec![
        chunk(&payload[..5]),
        chunk(&payload[5..12]),
        chunk(&payload[12..]),
    ];
    assert_eq!(read_exact_body(&one, 17).unwrap(), payload.to_vec());
    assert_eq!(read_exact_body(&many, 17).unwrap(), payload.to_vec());
}

#[test]
fn known_length_read_fails_on_short_stream() {
    let events = vec![chunk(b"0123456789"), chunk(b"012345"), chunk(b"")];
    assert_eq!(read_exact_body(&events, 17), Err(BodyError::Io));
    let closed_early = vec![chunk(b"0123456789"), ReadEvent::Failed];
    assert_eq!(read_exact_body(&closed_early, 17), Err(BodyError::Io));
    let exhausted = vec![chunk(b"0123456789")];
    assert_eq!(read_exact_body(&exhausted, 17), Err(BodyError::Io));
}

#[test]
fn known_length_read_stops_at_declared_length() {
    let events = vec![chunk(b"abcdef")];
    assert_eq!(read_exact_body(&events, 4).unwrap(), b"abcd".to_vec());
}

#[test]
fn streamed_reads_concatenate_in_order() {
    let events = vec![chunk(b"{\"led"), chunk(b"On\": t"), chunk(b"rue}"), chunk(b"")];
    assert_eq!(read_streamed_body(&events), b"{\"ledOn\": true}".to_vec());
}

#[test]
fn streamed_read_without_terminator_takes_everything() {
    let events = vec![chunk(b"ab"), chunk(b"cd")];
    assert_eq!(read_streamed_body(&events), b"abcd".to_vec());
}

#[test]
fn streamed_read_swallows_mid_stream_error() {
    let events = vec![chunk(b"ab"), ReadEvent::Failed, chunk(b"cd")];
    assert_eq!(read_streamed_body(&events), b"ab".to_vec());
}

#[test]
fn read_body_picks_reader_by_declared_length() {
    let events = vec![chunk(b"abcd"), chunk(b"")];
    assert_eq!(read_body(4, &events).unwrap(), b"abcd".to_vec());
    assert_eq!(read_body(0, &events).unwrap(), b"abcd".to_vec());
    assert_eq!(read_body(5, &events), Err(BodyError::Io));
}

#[test]
fn read_to_string_decodes_utf8() {
    let events = vec![chunk("héllo".as_bytes()), chunk(b"")];
    assert_eq!(read_to_string(0, &events).unwrap(), "héllo");
}

#[test]
fn read_to_string_rejects_invalid_utf8() {
    let events = vec![ReadEvent::Chunk(vec![0xff, 0xfe]), chunk(b"")];
    assert_eq!(read_to_string(0, &events), Err(BodyError::Decode));
}

#[test]
fn read_to_string_surfaces_short_known_length_read() {
    let events = vec![chunk(b"abc"), chunk(b"")];
    assert_eq!(read_to_string(7, &events), Err(BodyError::Io));
}

#[test]
fn read_to_json_parses_toggle_request() {
    let events = vec![chunk(b"{\"ledOn\": true}"), chunk(b"")];
    let req = read_to_json(0, &events).unwrap();
    assert!(req.led_on);
    let events_off = vec![chunk(b"{\"ledOn\":false}")];
    let req_off = read_to_json(15, &events_off).unwrap();
    assert!(!req_off.led_on);
}

#[test]
fn read_to_json_rejects_malformed_body() {
    let events = vec![chunk(b"{\"ledOn\": \"yes\"}"), chunk(b"")];
    assert_eq!(read_to_json(0, &events), Err(BodyError::Parse));
}

#[test]
fn body_error_descriptions_are_nonempty() {
    assert!(!BodyError::Io.describe().is_empty());
    assert!(!BodyError::Decode.describe().is_empty());
    assert!(!BodyError::Parse.describe().is_empty());
}
