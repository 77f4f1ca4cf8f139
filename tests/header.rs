use wrpl::header::{parse_header, Difficulty, HEADER_LEN};
use wrpl::parser::DecodeError;

fn put_str(h: &mut [u8], off: usize, s: &[u8]) {
    h[off..off + s.len()].copy_from_slice(s);
}

fn put_u32(h: &mut [u8], off: usize, v: u32) {
    h[off..off + 4].copy_from_slice(&v.to_le_bytes());
}

fn sample_header() -> Vec<u8> {
    let mut h = vec![0xEEu8; HEADER_LEN];
    h[0..4].copy_from_slice(&[0xE5, 0xAC, 0x00, 0x10]);
    put_u32(&mut h, 4, 101286);
    for (off, len, text) in [
        (8usize, 128usize, &b"levels/avg_egypt_sinai.bin"[..]),
        (136, 260, b"gamedata/missions/cta/tanks/sinai_sands/sinai_02_conq1.blk"),
        (396, 128, b"sinai_02_Conq1"),
        (524, 128, b"noon"),
        (652, 32, b"thin_clouds"),
        (780, 128, b"missions/_Conq1;sinai_02/name"),
        (968, 128, b"air_ground_Conq"),
        (1096, 128, b""),
    ] {
        h[off..off + len].fill(0);
        put_str(&mut h, off, text);
    }
    put_u32(&mut h, 684, 3662909);
    h[688] = 0x5A;
    put_u32(&mut h, 724, 0);
    h[732..740].copy_from_slice(&335055458235795646u64.to_le_bytes());
    put_u32(&mut h, 744, 8062);
    put_u32(&mut h, 908, 1746008224);
    put_u32(&mut h, 912, 25);
    put_u32(&mut h, 916, 16000);
    h
}

#[test]
fn header_fields() {
    let h = parse_header(&sample_header()).unwrap();
    assert_eq!(h.magic, 0x1000ACE5);
    assert_eq!(h.version, 101286);
    assert_eq!(h.level, "levels/avg_egypt_sinai.bin");
    assert_eq!(h.level_settings, "gamedata/missions/cta/tanks/sinai_sands/sinai_02_conq1.blk");
    assert_eq!(h.battle_type, "sinai_02_Conq1");
    assert_eq!(h.environment, "noon");
    assert_eq!(h.visibility, "thin_clouds");
    assert_eq!(h.rez_offset, 3662909);
    assert_eq!(h.difficulty.difficulty_value, 0xA);
    assert_eq!(h.difficulty.unknown_nibble, 0x5);
    assert_eq!(h.session_type, 0);
    assert_eq!(h.session_id_hex, 335055458235795646);
    assert_eq!(h.m_set_size, 8062);
    assert_eq!(h.loc_name, "missions/_Conq1;sinai_02/name");
    assert_eq!(h.start_time, 1746008224);
    assert_eq!(h.time_limit, 25);
    assert_eq!(h.score_limit, 16000);
    assert_eq!(h.battle_class, "air_ground_Conq");
    assert_eq!(h.battle_kill_streak, "");
}

#[test]
fn header_padding_is_not_data() {
    let mut b = sample_header();
    for off in [689usize, 728, 740, 748, 920] {
        b[off] = 0x42;
    }
    let h = parse_header(&b).unwrap();
    assert_eq!(h.session_type, 0);
    assert_eq!(h.m_set_size, 8062);
    assert_eq!(h.score_limit, 16000);
    assert_eq!(h.battle_class, "air_ground_Conq");
}

#[test]
fn header_short_file() {
    let b = sample_header();
    assert_eq!(parse_header(&b[..HEADER_LEN - 1]).err(), Some(DecodeError::ShortFile));
    assert_eq!(parse_header(&[]).err(), Some(DecodeError::ShortFile));
    assert!(parse_header(&b[..HEADER_LEN]).is_ok());
}

#[test]
fn string_fields_stop_at_nul_and_replace_bad_bytes() {
    let mut b = sample_header();
    // visibility: bytes after the first NUL are ignored
    b[652..684].fill(b'z');
    put_str(&mut b, 652, b"ab\0cd");
    // environment: an invalid byte becomes U+FFFD
    b[524..652].fill(0);
    put_str(&mut b, 524, &[b'c', 0xFF, b'd']);
    // battle class: no NUL at all, the whole field is taken
    b[968..1096].fill(b'q');
    let h = parse_header(&b).unwrap();
    assert_eq!(h.visibility, "ab");
    assert_eq!(h.environment, "c\u{FFFD}d");
    assert_eq!(h.battle_class, "q".repeat(128));
}

#[test]
fn difficulty_nibbles() {
    let d = Difficulty::from_byte(0xA3);
    assert_eq!(d.unknown_nibble, 10);
    assert_eq!(d.difficulty_value, 3);
    assert_eq!(Difficulty::from_byte(0), Difficulty { unknown_nibble: 0, difficulty_value: 0 });
}

#[test]
fn server_header_without_results() {
    let mut b = sample_header();
    b[652..684].fill(0);
    put_str(&mut b, 652, b"cloudy");
    put_u32(&mut b, 684, 0);
    b[732..740].copy_from_slice(&336062142732521316u64.to_le_bytes());
    put_u32(&mut b, 916, 10400);
    b[968..1096].fill(0);
    put_str(&mut b, 968, b"base_dom");
    let h = parse_header(&b).unwrap();
    assert_eq!(h.version, 101286);
    assert_eq!(h.environment, "noon");
    assert_eq!(h.visibility, "cloudy");
    assert_eq!(h.rez_offset, 0);
    assert_eq!(h.session_id_hex, 336062142732521316);
    assert_eq!(h.time_limit, 25);
    assert_eq!(h.score_limit, 10400);
    assert_eq!(h.battle_class, "base_dom");
}
