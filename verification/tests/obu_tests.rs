use bytes::Bytes;
use lunaris::obu::{
    av1_annexb_to_low_overhead, parse_av1_annexb_temporal_units, parse_av1_size_prefixed_obus,
    read_av1_leb128,
};

#[test]
fn test_read_leb128_single_byte() {
    // 42 in LEB128: 0x2A (no continuation bit)
    let input = [0x2A];
    let (value, next) = read_av1_leb128(&input, 0).unwrap();
    assert_eq!(value, 42);
    assert_eq!(next, 1);
}

#[test]
fn test_read_leb128_two_bytes() {
    // 300 in LEB128: 0xAC 0x02
    let input = [0xAC, 0x02];
    let (value, next) = read_av1_leb128(&input, 0).unwrap();
    assert_eq!(value, 300);
    assert_eq!(next, 2);
}

#[test]
fn test_read_leb128_empty() {
    let input: Vec<u8> = vec![];
    assert!(read_av1_leb128(&input, 0).is_none());
}

#[test]
fn test_parse_size_prefixed_obus() {
    // Two OBUs: size=3 data=[0xAA, 0xBB, 0xCC], size=2 data=[0xDD, 0xEE]
    let input = vec![0x03, 0xAA, 0xBB, 0xCC, 0x02, 0xDD, 0xEE];
    let result = parse_av1_size_prefixed_obus(&input).unwrap();
    assert_eq!(result, vec![0xAA, 0xBB, 0xCC, 0xDD, 0xEE]);
}

#[test]
fn test_parse_size_prefixed_obus_zero_size() {
    let input = vec![0x00];
    assert!(parse_av1_size_prefixed_obus(&input).is_none());
}

#[test]
fn leb128_reads_at_offset_and_stops_after_eight_bytes() {
    let input = [0xFF, 0x81, 0x01, 0x05];
    assert_eq!(read_av1_leb128(&input, 1), Some((129, 3)));
    let long = [0x80u8; 9];
    assert!(read_av1_leb128(&long, 0).is_none());
    let mut eight = [0x80u8; 8];
    eight[7] = 0x01;
    assert_eq!(read_av1_leb128(&eight, 0), Some((1usize << 49, 8)));
    assert!(read_av1_leb128(&[0x01], 5).is_none());
}

#[test]
fn size_prefixed_rejects_overrun_and_empty_input() {
    assert!(parse_av1_size_prefixed_obus(&[0x04, 0xAA, 0xBB]).is_none());
    assert!(parse_av1_size_prefixed_obus(&[]).is_none());
    assert!(parse_av1_size_prefixed_obus(&[0x80]).is_none());
}

#[test]
fn annexb_hierarchy_is_unwrapped() {
    // temporal unit of 6 bytes: frame unit of 5 bytes: OBUs [0x11] and [0x22, 0x33]
    let input = vec![0x06, 0x05, 0x01, 0x11, 0x02, 0x22, 0x33];
    assert_eq!(
        parse_av1_annexb_temporal_units(&input),
        Some(vec![0x11, 0x22, 0x33])
    );
    // a frame unit that leaves a byte of its temporal unit unused
    let bad = vec![0x03, 0x01, 0x01, 0x11];
    assert!(parse_av1_annexb_temporal_units(&bad).is_none());
}

#[test]
fn conversion_falls_back_to_flat_obus() {
    let annexb = Bytes::from(vec![0x06u8, 0x05, 0x01, 0x11, 0x02, 0x22, 0x33]);
    assert_eq!(
        av1_annexb_to_low_overhead(&annexb),
        Some(Bytes::from(vec![0x11u8, 0x22, 0x33]))
    );
    let flat = Bytes::from(vec![0x03u8, 0xAA, 0xBB, 0xCC, 0x02, 0xDD, 0xEE]);
    assert_eq!(
        av1_annexb_to_low_overhead(&flat),
        Some(Bytes::from(vec![0xAAu8, 0xBB, 0xCC, 0xDD, 0xEE]))
    );
    let raw = Bytes::from(vec![0x12u8, 0x00, 0x0A]);
    assert_eq!(av1_annexb_to_low_overhead(&raw), None);
}

#[test]
fn size_prefixed_obus_round_trip_with_two_byte_size() {
    let big: Vec<u8> = (0..200u32).map(|i| (i % 251) as u8).collect();
    let mut input = vec![0xC8, 0x01];
    input.extend_from_slice(&big);
    input.extend_from_slice(&[1, 0x7F]);
    let mut expected = big.clone();
    expected.push(0x7F);
    assert_eq!(parse_av1_size_prefixed_obus(&input), Some(expected));
}

#[test]
fn annexb_round_trip_of_two_temporal_units() {
    // temporal unit 1: one frame unit with OBUs [0x12, 0x00] and [0x32, 1, 2]
    // temporal unit 2: one frame unit with the OBU [0x22]
    let input = vec![8, 7, 2, 0x12, 0x00, 3, 0x32, 1, 2, 3, 2, 1, 0x22];
    assert_eq!(
        parse_av1_annexb_temporal_units(&input),
        Some(vec![0x12, 0x00, 0x32, 1, 2, 0x22])
    );
}
