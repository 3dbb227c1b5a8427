use cands_cyphal::integrity::{checksum, split_sum};

#[test]
fn checksum_of_the_check_string() {
    assert_eq!(checksum(b"123456789"), [0x29, 0xB1]);
}

#[test]
fn checksum_of_nothing_is_the_initial_value() {
    assert_eq!(checksum(&[]), [0xFF, 0xFF]);
}

#[test]
fn checksum_agrees_with_the_middleware() {
    let data = [0x10u8, 0x20, 0x30, 0x40, 0x55];
    let sum = cands_transport::cyphal::crc_add(0xFFFF, data.len(), &data).unwrap();
    assert_eq!(checksum(&data), [(sum >> 8) as u8, (sum & 0xff) as u8]);
}

#[test]
fn register_is_split_high_byte_first() {
    assert_eq!(split_sum(0x29B1), [0x29, 0xB1]);
    assert_eq!(split_sum(0x00FF), [0x00, 0xFF]);
    assert_eq!(split_sum(0xFF00), [0xFF, 0x00]);
}

#[test]
fn checksum_depends_on_every_byte() {
    assert_ne!(checksum(b"123456789"), checksum(b"123456788"));
    assert_ne!(checksum(b"123456789"), checksum(b"12345678"));
}
