use udp_log::codec::{encode_datagram, encode_record, handle_datagram, DecodeError};
use udp_log::record::{Message, MessageType};

fn record(module: &str, msg_type: MessageType, string: &str, time: &str) -> Message {
    Message {
        module: module.to_string(),
        msg_type,
        string: string.to_string(),
        time: time.to_string(),
    }
}

fn text_field(s: &str) -> Vec<u8> {
    let mut out = (s.len() as u64).to_le_bytes().to_vec();
    out.extend_from_slice(s.as_bytes());
    out
}

fn payload(module: &str, code: u32, string: &str, time: &str) -> Vec<u8> {
    let mut out = text_field(module);
    out.extend_from_slice(&code.to_le_bytes());
    out.extend_from_slice(&text_field(string));
    out.extend_from_slice(&text_field(time));
    out
}

fn datagram(declared: u32, payload: &[u8]) -> Vec<u8> {
    let mut out = declared.to_le_bytes().to_vec();
    out.extend_from_slice(payload);
    out
}

fn assert_round_trip(module: &str, msg_type: MessageType, string: &str, time: &str) {
    let original = record(module, msg_type, string, time);
    let bytes = encode_datagram(&original).unwrap();
    let decoded = handle_datagram(&bytes).unwrap();
    assert_eq!(decoded.module, module);
    assert_eq!(decoded.msg_type, msg_type);
    assert_eq!(decoded.string, string);
    assert_eq!(decoded.time, time);
}

#[test]
fn round_trip_plain() {
    assert_round_trip("net", MessageType::Warning, "retry", "12:00:00");
    assert_round_trip("core", MessageType::Normal, "started", "00:00:01");
    assert_round_trip("db", MessageType::Error, "connection lost", "23:59:59");
    assert_round_trip("ui", MessageType::Debug, "frame drawn", "08:15:00");
}

#[test]
fn round_trip_empty_strings() {
    assert_round_trip("", MessageType::Normal, "", "");
}

#[test]
fn round_trip_high_codepoints() {
    assert_round_trip("模块", MessageType::Debug, "メッセージ \u{1F680}", "12時00分");
}

#[test]
fn round_trip_control_characters() {
    assert_round_trip("a\tb", MessageType::Error, "line\nbreak\x1b[0m", "\0");
}

#[test]
fn encode_datagram_prefix_is_payload_length() {
    let m = record("net", MessageType::Warning, "retry", "12:00:00");
    let payload = encode_record(&m);
    let bytes = encode_datagram(&m).unwrap();
    assert_eq!(&bytes[0..4], (payload.len() as u32).to_le_bytes());
    assert_eq!(&bytes[4..], &payload[..]);
}

#[test]
fn declared_length_is_advisory() {
    // The 4-byte prefix lies about the payload length in both directions;
    // decode goes by the bytes actually received.
    let p = payload("net", 2, "retry", "12:00:00");
    for declared in [0u32, 1, 15, 10_000] {
        let decoded = handle_datagram(&datagram(declared, &p)).unwrap();
        assert_eq!(decoded.module, "net");
        assert_eq!(decoded.string, "retry");
    }
}

#[test]
fn trailing_bytes_after_record_are_ignored() {
    let mut p = payload("net", 2, "retry", "12:00:00");
    p.extend_from_slice(&[0xAA, 0xBB, 0xCC]);
    let decoded = handle_datagram(&datagram(15, &p)).unwrap();
    assert_eq!(decoded.module, "net");
    assert_eq!(decoded.msg_type, MessageType::Warning);
    assert_eq!(decoded.string, "retry");
    assert_eq!(decoded.time, "12:00:00");
}

#[test]
fn severity_out_of_range_is_rejected() {
    for code in [4u32, 5, 255, u32::MAX] {
        let p = payload("net", code, "retry", "12:00:00");
        let r = handle_datagram(&datagram(15, &p));
        assert_eq!(r.unwrap_err(), DecodeError::BadSeverity);
    }
}

#[test]
fn field_length_beyond_received_bytes_is_rejected() {
    // The module field claims 100 bytes but far fewer follow.
    let mut p = 100u64.to_le_bytes().to_vec();
    p.extend_from_slice(b"net");
    let r = handle_datagram(&datagram(15, &p));
    assert_eq!(r.unwrap_err(), DecodeError::Truncated);
}

#[test]
fn short_read_is_an_error_not_a_panic() {
    // A sender declared a long payload but the datagram carries only part
    // of the record: every prefix of a valid datagram decodes or errors.
    let full = datagram(100, &payload("net", 2, "retry", "12:00:00"));
    for cut in 0..full.len() {
        let r = handle_datagram(&full[..cut]);
        if cut < full.len() {
            assert_eq!(r.unwrap_err(), DecodeError::Truncated);
        }
    }
    let whole = handle_datagram(&full);
    assert!(whole.is_ok());
}

#[test]
fn datagram_shorter_than_header_is_rejected() {
    for bytes in [&[][..], &[0x0F][..], &[0x0F, 0x00, 0x00][..]] {
        assert_eq!(handle_datagram(bytes).unwrap_err(), DecodeError::Truncated);
    }
}

#[test]
fn invalid_utf8_is_rejected() {
    let mut p = 2u64.to_le_bytes().to_vec();
    p.extend_from_slice(&[0xFF, 0xFE]);
    p.extend_from_slice(&2u32.to_le_bytes());
    p.extend_from_slice(&text_field("retry"));
    p.extend_from_slice(&text_field("12:00:00"));
    let r = handle_datagram(&datagram(15, &p));
    assert_eq!(r.unwrap_err(), DecodeError::InvalidUtf8);
}

#[test]
fn malformed_then_valid_datagram() {
    // A hostile datagram is rejected and the next one still decodes: each
    // datagram is handled independently.
    let bad = datagram(15, &payload("net", 9, "retry", "12:00:00"));
    assert!(handle_datagram(&bad).is_err());
    let good = datagram(15, &payload("net", 2, "retry", "12:00:00"));
    assert!(handle_datagram(&good).is_ok());
}

#[test]
fn error_descriptions_are_fixed() {
    assert_eq!(DecodeError::Truncated.describe(), "record is truncated");
    assert_eq!(DecodeError::BadSeverity.describe(), "severity code out of range");
    assert_eq!(DecodeError::InvalidUtf8.describe(), "text field is not valid UTF-8");
}

#[test]
fn encoding_matches_bincode() {
    // The wire format is bincode's default (fixed-width integers, u64
    // string lengths, u32 enum codes): a tuple with the same field layout
    // serializes to the identical bytes.
    let m = record("net", MessageType::Warning, "retry", "12:00:00");
    let reference = bincode::serialize(&(
        "net".to_string(),
        2u32,
        "retry".to_string(),
        "12:00:00".to_string(),
    ))
    .unwrap();
    assert_eq!(encode_record(&m), reference);
}

#[test]
fn bincode_output_decodes() {
    let reference = bincode::serialize(&(
        "sensor".to_string(),
        1u32,
        "overheat \u{2603}".to_string(),
        "01:02:03".to_string(),
    ))
    .unwrap();
    let decoded = handle_datagram(&datagram(reference.len() as u32, &reference)).unwrap();
    assert_eq!(decoded.module, "sensor");
    assert_eq!(decoded.msg_type, MessageType::Error);
    assert_eq!(decoded.string, "overheat \u{2603}");
    assert_eq!(decoded.time, "01:02:03");
}

#[test]
fn encoding_deserializes_with_bincode() {
    let m = record("net", MessageType::Debug, "trace", "09:10:11");
    let bytes = encode_record(&m);
    let tuple: (String, u32, String, String) = bincode::deserialize(&bytes).unwrap();
    assert_eq!(tuple, ("net".to_string(), 3u32, "trace".to_string(), "09:10:11".to_string()));
}
