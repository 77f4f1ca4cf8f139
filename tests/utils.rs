use wrpl::utils::hex::encode;
use wrpl::utils::{find_zlib_header, find_zlib_header_offset, parse_offset};

#[test]
fn offsets_from_users() {
    assert_eq!(parse_offset("0x828"), Ok(2088));
    assert_eq!(parse_offset("0X1f"), Ok(31));
    assert_eq!(parse_offset("2088"), Ok(2088));
    assert_eq!(parse_offset("+7"), Ok(7));
    assert_eq!(parse_offset("18446744073709551615"), Ok(u64::MAX));
    assert!(parse_offset("").is_err());
    assert!(parse_offset("0x").is_err());
    assert!(parse_offset("abc").is_err());
    assert!(parse_offset("-1").is_err());
    assert!(parse_offset("18446744073709551616").is_err());
    assert!(parse_offset("0xg").is_err());
}

#[test]
fn hex_encoding() {
    assert_eq!(encode(&[0x00, 0xAB, 0x5E, 0xFF]), "00ab5eff");
    assert_eq!(encode(&[]), "");
}

#[test]
fn zlib_marker_search() {
    let mut d = vec![0u8; 20];
    d[5] = 0x78;
    d[6] = 0x9C;
    d[10] = 0x78;
    d[11] = 0x5E;
    assert_eq!(find_zlib_header(&d, 0), Some(5));
    assert_eq!(find_zlib_header(&d, 6), Some(10));
    assert_eq!(find_zlib_header(&d, 11), None);
    d[15] = 0x78;
    d[16] = 0xDA;
    assert_eq!(find_zlib_header(&d, 11), Some(15));
    assert_eq!(find_zlib_header(&d, 20), None);
    assert_eq!(find_zlib_header(&[0x78, 0x01, 0x78], 0), None);
}

#[test]
fn zlib_marker_across_chunks() {
    let chunk = 64 * 1024;
    let mut d = vec![0u8; 3 * chunk];
    d[chunk + 1] = 0x78;
    d[chunk + 2] = 0x5E;
    assert_eq!(find_zlib_header_offset(&d, 2, None), Some(chunk as u64 + 1));
    d[chunk + 2] = 0x00;
    // split between the first and second chunk after offset 2
    d[chunk + 1] = 0x78;
    d[chunk + 2] = 0x9C;
    assert_eq!(find_zlib_header_offset(&d, 3, None), Some(chunk as u64 + 1));
    let mut e = vec![0u8; 2 * chunk + 10];
    e[2 + chunk - 1] = 0x78;
    e[2 + chunk] = 0xDA;
    assert_eq!(find_zlib_header_offset(&e, 2, None), Some(chunk as u64 + 1));
    assert_eq!(find_zlib_header_offset(&e, 2 + chunk as u64, None), None);
    assert_eq!(find_zlib_header_offset(&e, 10_000_000, Some(5)), None);
}
