use btc_peer::structures::WireError;
use btc_peer::utils::{read_bytes, read_u32, read_u64, read_var_bytes, read_var_int, write_var_int};

fn round_trip(value: u64, expected_len: usize) {
    let encoded = write_var_int(value);
    assert_eq!(encoded.len(), expected_len);
    let (decoded, offset) = read_var_int(&encoded).unwrap();
    assert_eq!(decoded, value);
    assert_eq!(offset, expected_len);
}

#[test]
fn var_int_round_trip_boundaries() {
    round_trip(0, 1);
    round_trip(252, 1);
    round_trip(253, 3);
    round_trip(65535, 3);
    round_trip(65536, 5);
    round_trip(4294967295, 5);
    round_trip(4294967296, 9);
    round_trip(u64::MAX, 9);
}

#[test]
fn var_int_prefixes() {
    assert_eq!(write_var_int(0), vec![0x00]);
    assert_eq!(write_var_int(252), vec![0xfc]);
    assert_eq!(write_var_int(253), vec![0xfd, 0xfd, 0x00]);
    assert_eq!(write_var_int(65536), vec![0xfe, 0x00, 0x00, 0x01, 0x00]);
    assert_eq!(
        write_var_int(u64::MAX),
        vec![0xff, 0xff, 0xff, 0xff, 0xff, 0xff, 0xff, 0xff, 0xff]
    );
}

#[test]
fn var_int_truncated() {
    assert_eq!(read_var_int(&[]), Err(WireError::TruncatedInput));
    assert_eq!(read_var_int(&[0xfd, 0x01]), Err(WireError::TruncatedInput));
    assert_eq!(read_var_int(&[0xfe, 0x01, 0x02, 0x03]), Err(WireError::TruncatedInput));
    assert_eq!(
        read_var_int(&[0xff, 0x01, 0x02, 0x03, 0x04, 0x05, 0x06, 0x07]),
        Err(WireError::TruncatedInput)
    );
}

#[test]
fn read_bytes_advances_cursor() {
    let data = [1u8, 2, 3, 4, 5];
    let mut start = 1usize;
    let taken = read_bytes(&data, &mut start, 3).unwrap();
    assert_eq!(taken, vec![2, 3, 4]);
    assert_eq!(start, 4);
}

#[test]
fn read_bytes_past_end_fails() {
    let data = [1u8, 2, 3];
    let mut start = 2usize;
    assert_eq!(read_bytes(&data, &mut start, 2), Err(WireError::TruncatedInput));
    assert_eq!(start, 2);
}

#[test]
fn read_fixed_width_integers() {
    let data = [0x78u8, 0x56, 0x34, 0x12, 0xff, 0x00, 0x00, 0x00, 0x00, 0x00, 0x00, 0x00];
    let mut start = 0usize;
    assert_eq!(read_u32(&data, &mut start).unwrap(), 0x12345678);
    assert_eq!(start, 4);
    assert_eq!(read_u64(&data, &mut start).unwrap(), 0xff);
    assert_eq!(start, 12);
    assert_eq!(read_u32(&data, &mut start), Err(WireError::TruncatedInput));
}

#[test]
fn read_var_bytes_length_prefixed() {
    let data = [9u8, 9, 3, 10, 11, 12, 99];
    let mut start = 2usize;
    let taken = read_var_bytes(&data, &mut start).unwrap();
    assert_eq!(taken, vec![10, 11, 12]);
    assert_eq!(start, 6);

    let short = [5u8, 1, 2];
    let mut start = 0usize;
    assert_eq!(read_var_bytes(&short, &mut start), Err(WireError::TruncatedInput));
}
