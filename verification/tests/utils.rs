use tavoo::isdb::crc::{calc32, crc32};
use tavoo::isdb::pid::Pid;
use tavoo::isdb::utils::{
    be16_at, be32_at, read_bcd, read_bcd_digit, read_bcd_second, read_be_16, read_be_32, skip,
    split_at_checked,
};

#[test]
fn test_read_be_u16() {
    assert_eq!(read_be_16(b"\x12\x34\x56\x78"), 0x1234);
}

#[test]
fn test_read_be_u32() {
    assert_eq!(read_be_32(b"\x12\x34\x56\x78\x9A\xBC\xDE"), 0x12345678);
}

#[test]
fn reads_at_offsets() {
    let data = [0x00, 0x12, 0x34, 0x56, 0x78];
    assert_eq!(be16_at(&data, 1), 0x1234);
    assert_eq!(be32_at(&data, 1), 0x12345678);
    assert_eq!(skip(&data, 3), &[0x56, 0x78]);
    assert_eq!(split_at_checked(&data, 2), Some((&data[..2], &data[2..])));
    assert_eq!(split_at_checked(&data, 6), None);
}

#[test]
fn reads_binary_coded_decimals() {
    assert_eq!(read_bcd_digit(0x59), 59);
    assert_eq!(read_bcd(&[0x12, 0x34, 0x56], 5), 12345);
    assert_eq!(read_bcd(&[0x98, 0x76, 0x54, 0x32], 8), 98765432);
    assert_eq!(read_bcd_second(&[0x00, 0x01, 0x02, 0x03], 1), 3600 + 2 * 60 + 3);
}

#[test]
fn crc32_of_known_string() {
    // CRC-32/MPEG-2 of "123456789".
    assert_eq!(crc32(b"123456789"), 0x0376E6E7);
    let mut data = b"123456789".to_vec();
    data.extend_from_slice(&[0x03, 0x76, 0xE6, 0xE7]);
    assert!(calc32(&data));
    data[0] ^= 1;
    assert!(!calc32(&data));
}

#[test]
fn pid_reads_thirteen_bits() {
    assert_eq!(Pid::read(&[0xE1, 0x23]).get(), 0x0123);
    assert_eq!(Pid::NULL, 0x1FFF);
}
