use std::io::Write;

use wrpl::decode::decode_replay;
use wrpl::header::HEADER_LEN;
use wrpl::parser::{
    process_decoded_stream, process_replay_data, process_replay_stream, try_parse_chat_at_offset,
    DecodeError, ReplayPacketType,
};

/// A frame with a one-byte size prefix.
fn frame(body: &[u8]) -> Vec<u8> {
    assert!(body.len() < 0x40);
    let mut v = vec![0x80 | body.len() as u8];
    v.extend_from_slice(body);
    v
}

fn with_ts(kind: u8, ts: u32, payload: &[u8]) -> Vec<u8> {
    let mut v = vec![kind];
    v.extend_from_slice(&ts.to_le_bytes());
    v.extend_from_slice(payload);
    v
}

fn chat(sender: &[u8], message: &[u8], channel: u8) -> Vec<u8> {
    let mut p = vec![0x00, sender.len() as u8];
    p.extend_from_slice(sender);
    p.push(message.len() as u8);
    p.extend_from_slice(message);
    p.push(channel);
    p
}

fn sample_stream() -> Vec<u8> {
    let mut s = Vec::new();
    s.extend(frame(&with_ts(1, 0, &[])));
    s.extend(frame(&with_ts(2, 100, &[9, 9])));
    s.extend(frame(&[0x13, 0x00, 1, b'a', 2, b'h', b'i']));
    s.extend(frame(&with_ts(3, 250, &chat(b"bob", b"gg", 1))));
    s.extend(frame(&[0x14, 0xAB]));
    s
}

fn zlib(bytes: &[u8]) -> Vec<u8> {
    let mut e = flate2::write::ZlibEncoder::new(Vec::new(), flate2::Compression::default());
    e.write_all(bytes).unwrap();
    e.finish().unwrap()
}

#[test]
fn packets_in_order_with_counts() {
    let s = sample_stream();
    let r = process_decoded_stream(&s, false).unwrap();
    assert_eq!(r.packet_count, 5);
    assert_eq!(r.packets.len() as u64, r.packet_count);
    assert_eq!(r.total_decompressed_bytes, s.len() as u64);
    let kinds: Vec<ReplayPacketType> = r.packets.iter().map(|p| p.packet_type).collect();
    assert_eq!(
        kinds,
        vec![
            ReplayPacketType::StartMarker,
            ReplayPacketType::AircraftSmall,
            ReplayPacketType::Chat,
            ReplayPacketType::Chat,
            ReplayPacketType::MPI,
        ]
    );
    let stamps: Vec<u32> = r.packets.iter().map(|p| p.timestamp_ms).collect();
    assert_eq!(stamps, vec![0, 100, 100, 250, 250]);
    assert_eq!(r.packets[1].payload, vec![9, 9]);
    assert_eq!(r.packets[4].payload, vec![0xAB]);
    assert_eq!(r.final_offset, 0);
}

#[test]
fn chat_messages_carry_packet_timestamps() {
    let r = process_decoded_stream(&sample_stream(), false).unwrap();
    assert_eq!(r.chat_messages.len(), 2);
    assert_eq!(r.chat_messages[0].sender, "a");
    assert_eq!(r.chat_messages[0].message, "hi");
    assert_eq!(r.chat_messages[0].timestamp_ms, r.packets[2].timestamp_ms);
    assert_eq!(r.chat_messages[1].sender, "bob");
    assert_eq!(r.chat_messages[1].channel_type, Some(1));
    assert_eq!(r.chat_messages[1].timestamp_ms, 250);
}

#[test]
fn bad_chat_payload_is_dropped_not_fatal() {
    let mut s = Vec::new();
    s.extend(frame(&[0x13, 0x00, 9, b'x']));
    s.extend(frame(&with_ts(2, 7, &[])));
    let r = process_decoded_stream(&s, false).unwrap();
    assert_eq!(r.packets.len(), 2);
    assert!(r.chat_messages.is_empty());
}

#[test]
fn zero_size_frame_is_counted_without_packet() {
    let mut s = vec![0x80];
    s.extend(frame(&with_ts(2, 5, &[1])));
    let r = process_decoded_stream(&s, false).unwrap();
    assert_eq!(r.packet_count, 2);
    assert_eq!(r.packets.len(), 1);
    assert_eq!(r.total_decompressed_bytes, s.len() as u64);
}

#[test]
fn empty_stream() {
    let r = process_decoded_stream(&[], false).unwrap();
    assert_eq!(r.packet_count, 0);
    assert!(r.packets.is_empty());
    assert!(r.chat_messages.is_empty());
    assert_eq!(process_decoded_stream(&[], true).err(), Some(DecodeError::Io));
}

#[test]
fn cut_off_stream_endings() {
    // a frame cut short is decoded as far as it goes
    let mut s = frame(&with_ts(2, 1, &[]));
    s.extend_from_slice(&[0x88, 0x12, 0x01, 0x02]);
    let r = process_decoded_stream(&s, false).unwrap();
    assert_eq!(r.packets.len(), 2);
    assert_eq!(r.packets[1].payload, vec![0x01, 0x02]);
    assert_eq!(r.packets[1].timestamp_ms, 1);
    assert_eq!(r.total_decompressed_bytes, s.len() as u64);

    // a prefix with nothing after it stops the loop, its bytes counted
    let mut s = frame(&with_ts(2, 1, &[]));
    s.push(0x85);
    let r = process_decoded_stream(&s, false).unwrap();
    assert_eq!(r.packet_count, 1);
    assert_eq!(r.total_decompressed_bytes, s.len() as u64);

    // a size prefix cut off ends the stream; its bytes are not counted
    let mut s = frame(&with_ts(2, 1, &[]));
    s.push(0x41);
    let r = process_decoded_stream(&s, false).unwrap();
    assert_eq!(r.packet_count, 1);
    assert_eq!(r.total_decompressed_bytes, s.len() as u64 - 1);
}

#[test]
fn fatal_stream_errors() {
    let mut s = frame(&with_ts(2, 1, &[]));
    s.push(0xC3);
    assert_eq!(process_decoded_stream(&s, false).err(), Some(DecodeError::InvalidPrefix(0xC3)));
    let s = frame(&with_ts(2, 1, &[]));
    assert_eq!(process_decoded_stream(&s, true).err(), Some(DecodeError::Io));
}

#[test]
fn raw_stream_at_offset() {
    let mut data = vec![0xEE; 7];
    data.extend(sample_stream());
    let r = process_replay_data(&data, 7, true).unwrap();
    assert_eq!(r.packets.len(), 5);
    assert_eq!(r.final_offset, data.len() as u64);
    assert_eq!(process_replay_data(&data, data.len() as u64 + 1, true).err(), Some(DecodeError::OffsetBeyondEof));
    let r = process_replay_data(&data, data.len() as u64, true).unwrap();
    assert!(r.packets.is_empty());
}

#[test]
fn zlib_stream_at_offset() {
    let mut data = vec![0x00; 3];
    data.extend(zlib(&sample_stream()));
    data.extend_from_slice(b"trailing results block");
    let r = process_replay_data(&data, 3, false).unwrap();
    assert_eq!(r.packets.len(), 5);
    assert_eq!(r.chat_messages.len(), 2);
    assert_eq!(r.total_decompressed_bytes, sample_stream().len() as u64);
}

#[test]
fn zlib_stream_cut_off_ends_cleanly() {
    let z = zlib(&sample_stream());
    let cut = &z[..z.len() - 6];
    let r = process_replay_data(cut, 0, false).unwrap();
    assert!(r.packets.len() <= 5);
}

#[test]
fn corrupt_zlib_stream_fails() {
    let data = [0x78, 0x9C, 0xFF, 0xFF, 0xFF, 0xFF, 0xFF, 0xFF];
    assert_eq!(process_replay_data(&data, 0, false).err(), Some(DecodeError::Io));
}

#[test]
fn zero_byte_input() {
    let d = decode_replay(&[], None, false, false).unwrap();
    assert!(d.header.is_none());
    assert!(d.replay.packets.is_empty());
    assert!(d.replay.chat_messages.is_empty());
}

fn header_bytes(rez_offset: u32) -> Vec<u8> {
    let mut h = vec![0u8; HEADER_LEN];
    h[0..4].copy_from_slice(&[0xE5, 0xAC, 0x00, 0x10]);
    h[4..8].copy_from_slice(&101286u32.to_le_bytes());
    h[524..528].copy_from_slice(b"noon");
    h[684..688].copy_from_slice(&rez_offset.to_le_bytes());
    h
}

#[test]
fn header_only_input() {
    let file = header_bytes(0);
    let d = decode_replay(&file, Some(HEADER_LEN as u64), false, false).unwrap();
    let h = d.header.unwrap();
    assert_eq!(h.version, 101286);
    assert_eq!(h.environment, "noon");
    assert!(d.replay.packets.is_empty());
    assert_eq!(d.replay.packet_count, 0);
}

#[test]
fn orchestrator_finds_zlib_stream() {
    let mut file = header_bytes(0);
    file.extend(zlib(&sample_stream()));
    let d = decode_replay(&file, None, false, false).unwrap();
    assert!(d.header.is_some());
    assert_eq!(d.replay.packets.len(), 5);
    assert_eq!(d.replay.chat_messages[1].message, "gg");
}

#[test]
fn orchestrator_without_zlib_marker_fails() {
    let file = header_bytes(0);
    assert_eq!(decode_replay(&file, None, false, false).err(), Some(DecodeError::ZlibScanFailed));
}

#[test]
fn orchestrator_raw_stream_without_header() {
    let d = decode_replay(&sample_stream(), None, true, false).unwrap();
    assert!(d.header.is_none());
    assert_eq!(d.replay.packets.len(), 5);
    assert_eq!(d.replay.final_offset, sample_stream().len() as u64);
}

#[test]
fn orchestrator_short_signed_file_is_raw() {
    let mut file = vec![0xE5, 0xAC];
    file.extend(sample_stream());
    let d = decode_replay(&file, Some(2), true, true).unwrap();
    assert!(d.header.is_none());
    assert_eq!(d.replay.results_block_start, None);
    assert_eq!(d.replay.packets.len(), 5);
}

#[test]
fn results_block_located_when_asked() {
    let mut file = header_bytes(0);
    let z = zlib(&sample_stream());
    let rez = (file.len() + z.len()) as u32;
    file = header_bytes(rez);
    file.extend(z);
    file.extend_from_slice(b"BLK");
    let d = decode_replay(&file, None, false, true).unwrap();
    assert_eq!(d.replay.results_block_start, Some(rez as usize));
    let d = decode_replay(&file, None, false, false).unwrap();
    assert_eq!(d.replay.results_block_start, None);
}

#[test]
fn results_offset_at_end_is_absent() {
    let mut file = header_bytes(0);
    file.extend(sample_stream());
    let len = file.len() as u32;
    let mut file2 = header_bytes(len);
    file2.extend(sample_stream());
    let h = wrpl::header::parse_header(&file2).unwrap();
    let r = process_replay_stream(&file2, HEADER_LEN as u64, true, Some(&h)).unwrap();
    assert_eq!(r.results_block_start, None);
    assert!(r.replay_results.is_none());
}

#[test]
fn probe_finds_chat() {
    let mut data = vec![0u8; 4];
    data.extend(sample_stream());
    data.extend_from_slice(&[0; 12]);
    let (c, hex) = try_parse_chat_at_offset(&data, 4, true).unwrap();
    assert_eq!(c.sender, "a");
    assert_eq!(c.message, "hi");
    assert_eq!(hex, "13000161026869");
    assert!(try_parse_chat_at_offset(&data, data.len() as u64 - 5, true).is_none());
    assert!(try_parse_chat_at_offset(&data, 0, true).is_none());
}

#[test]
fn probe_through_zlib() {
    let mut data = zlib(&sample_stream());
    data.extend_from_slice(&[0; 12]);
    let (c, _) = try_parse_chat_at_offset(&data, 0, false).unwrap();
    assert_eq!(c.message, "hi");
}

#[test]
fn probe_skips_corrupt_zlib() {
    let data = [0x78, 0x9C, 0xFF, 0xFF, 0xFF, 0xFF, 0xFF, 0xFF, 0, 0, 0, 0, 0, 0];
    assert!(try_parse_chat_at_offset(&data, 0, false).is_none());
}
