use wrpl::parser::{
    parse_chat_packet, read_packet_header_from_stream, read_variable_length_size, ByteStream,
    DecodeError, ReplayPacketType,
};

fn varsize(bytes: &[u8]) -> Result<Option<(u32, usize)>, DecodeError> {
    let mut s = ByteStream::new(bytes);
    read_variable_length_size(&mut s)
}

#[test]
fn varsize_corpus() {
    assert_eq!(varsize(&[0x80]), Ok(Some((0, 1))));
    assert_eq!(varsize(&[0xBF]), Ok(Some((63, 1))));
    assert_eq!(varsize(&[0x40, 0x01]), Ok(Some((1, 2))));
    assert_eq!(varsize(&[0x20, 0x00, 0x01]), Ok(Some((1, 3))));
    assert_eq!(varsize(&[0x10, 0x00, 0x00, 0x01]), Ok(Some((1, 4))));
    assert_eq!(varsize(&[0x00, 0x01, 0x00, 0x00, 0x00]), Ok(Some((1, 5))));
}

#[test]
fn varsize_first_byte_ff_is_invalid() {
    // `11xxxxxx` is the invalid class, 0xFF included.
    assert_eq!(varsize(&[0xFF]), Err(DecodeError::InvalidPrefix(0xFF)));
}

#[test]
fn varsize_invalid_prefix_c0() {
    assert_eq!(varsize(&[0xC0, 0x00]), Err(DecodeError::InvalidPrefix(0xC0)));
}

#[test]
fn varsize_clean_end_and_failures() {
    assert_eq!(varsize(&[]), Ok(None));
    let mut failing = ByteStream::failing_after(&[]);
    assert_eq!(read_variable_length_size(&mut failing), Err(DecodeError::Io));
    assert_eq!(varsize(&[0x40]), Err(DecodeError::TruncatedPrefix));
    assert_eq!(varsize(&[0x00, 0x01, 0x02]), Err(DecodeError::TruncatedPrefix));
    let mut failing = ByteStream::failing_after(&[0x20, 0x00]);
    assert_eq!(read_variable_length_size(&mut failing), Err(DecodeError::Io));
}

#[test]
fn varsize_class_values() {
    assert_eq!(varsize(&[0x7F, 0xFF]), Ok(Some((0x3FFF, 2))));
    assert_eq!(varsize(&[0x3F, 0xFF, 0xFF]), Ok(Some((0x1F_FFFF, 3))));
    assert_eq!(varsize(&[0x1F, 0xFF, 0xFF, 0xFF]), Ok(Some((0x0FFF_FFFF, 4))));
    assert_eq!(varsize(&[0x0F, 0xFF, 0xFF, 0xFF, 0xFF]), Ok(Some((u32::MAX, 5))));
    assert_eq!(varsize(&[0x05, 0x78, 0x56, 0x34, 0x12]), Ok(Some((0x1234_5678, 5))));
}

/// The shortest encoding of `n`, written out by hand for the round trip.
fn shortest(n: u32) -> Vec<u8> {
    if n < 0x40 {
        vec![0x80 | n as u8]
    } else if n < 0x4000 {
        vec![0x40 | (n >> 8) as u8, n as u8]
    } else if n < 0x20_0000 {
        vec![0x20 | (n >> 16) as u8, (n >> 8) as u8, n as u8]
    } else if n < 0x1000_0000 {
        vec![0x10 | (n >> 24) as u8, (n >> 16) as u8, (n >> 8) as u8, n as u8]
    } else {
        let mut v = vec![0x00];
        v.extend_from_slice(&n.to_le_bytes());
        v
    }
}

#[test]
fn varsize_round_trip_samples() {
    for n in [0u32, 1, 0x3F, 0x40, 0x3FFF, 0x4000, 0x1F_FFFF, 0x20_0000, 0x0FFF_FFFF, 0x1000_0000, u32::MAX] {
        let mut e = shortest(n);
        let len = e.len();
        e.extend_from_slice(&[0xAA, 0xBB]);
        let mut s = ByteStream::new(&e);
        assert_eq!(read_variable_length_size(&mut s), Ok(Some((n, len))));
        assert_eq!(s.consumed(), len);
        assert_eq!(s.remaining(), 2);
    }
}

fn header(bytes: &[u8], last: u32) -> Result<Option<(u8, u32, usize)>, DecodeError> {
    let mut s = ByteStream::new(bytes);
    read_packet_header_from_stream(&mut s, last)
}

#[test]
fn timestamp_elision() {
    assert_eq!(header(&[0x13], 777), Ok(Some((3, 777, 1))));
    assert_eq!(header(&[0x03, 0x64, 0x00, 0x00, 0x00], 777), Ok(Some((3, 100, 5))));
}

#[test]
fn packet_header_edges() {
    assert_eq!(header(&[], 5), Ok(None));
    // a timestamp cut off by the end keeps the previous one
    assert_eq!(header(&[0x02, 0x01, 0x02], 5), Ok(Some((2, 5, 1))));
    let mut failing = ByteStream::failing_after(&[0x02, 0x01]);
    assert_eq!(read_packet_header_from_stream(&mut failing, 5), Err(DecodeError::Io));
    assert_eq!(header(&[0x14, 0xFF], 9), Ok(Some((4, 9, 1))));
    assert_eq!(header(&[0x08, 0x10, 0x27, 0x00, 0x00, 0xEE], 0), Ok(Some((8, 10000, 5))));
}

#[test]
fn packet_type_names() {
    assert_eq!(ReplayPacketType::from_byte(0), ReplayPacketType::EndMarker);
    assert_eq!(ReplayPacketType::from_byte(3), ReplayPacketType::Chat);
    assert_eq!(ReplayPacketType::from_byte(8), ReplayPacketType::ReplayHeaderInfo);
    assert_eq!(ReplayPacketType::from_byte(9), ReplayPacketType::Unknown(9));
    assert_eq!(ReplayPacketType::from_byte(255), ReplayPacketType::Unknown(255));
}

fn chat_payload(sender: &[u8], message: &[u8], tail: &[u8]) -> Vec<u8> {
    let mut p = vec![0x01, sender.len() as u8];
    p.extend_from_slice(sender);
    p.push(message.len() as u8);
    p.extend_from_slice(message);
    p.extend_from_slice(tail);
    p
}

#[test]
fn chat_payload_fields() {
    let p = chat_payload(b"kiTmalZ", b"TEST", &[1, 0]);
    let c = parse_chat_packet(&p, 1234).unwrap();
    assert_eq!(c.timestamp_ms, 1234);
    assert_eq!(c.sender, "kiTmalZ");
    assert_eq!(c.message, "TEST");
    assert_eq!(c.channel_type, Some(1));
    assert_eq!(c.is_enemy, Some(0));

    let c = parse_chat_packet(&chat_payload(b"a", b"b", &[2]), 0).unwrap();
    assert_eq!(c.channel_type, Some(2));
    assert_eq!(c.is_enemy, None);

    let c = parse_chat_packet(&chat_payload(b"a", b"", &[]), 0).unwrap();
    assert_eq!(c.message, "");
    assert_eq!(c.channel_type, None);

    let c = parse_chat_packet(&chat_payload("Jürgen".as_bytes(), "ok ✓".as_bytes(), &[]), 0).unwrap();
    assert_eq!(c.sender, "Jürgen");
    assert_eq!(c.message, "ok ✓");
}

#[test]
fn chat_sender_overrun_is_dropped() {
    let p = vec![0x01, 10, b'a', b'b'];
    assert!(parse_chat_packet(&p, 0).is_none());
}

#[test]
fn chat_malformed_payloads() {
    assert!(parse_chat_packet(&[], 0).is_none());
    assert!(parse_chat_packet(&[0x01], 0).is_none());
    // sender fills the payload: no message length byte
    assert!(parse_chat_packet(&[0x01, 2, b'a', b'b'], 0).is_none());
    // message overruns
    assert!(parse_chat_packet(&[0x01, 1, b'a', 5, b'x'], 0).is_none());
    // invalid UTF-8 in the sender or the message
    assert!(parse_chat_packet(&chat_payload(&[0xFF], b"x", &[]), 0).is_none());
    assert!(parse_chat_packet(&chat_payload(b"x", &[0xC3], &[]), 0).is_none());
}
