#[test]
fn parse_u16() {
    assert_eq!(jerris::big_endian::parse_u16([0xca_u8, 0xfe_u8]), 0xcafe_u16);
}

#[test]
fn parse_u32() {
    assert_eq!(jerris::big_endian::parse_u32([0xca_u8, 0xfe_u8, 0xba_u8, 0xbe_u8]), 0xcafebabe_u32);
}

#[test]
fn parse_u64() {
    assert_eq!(
        jerris::big_endian::parse_u64([0xca_u8, 0xfe_u8, 0xba_u8, 0xbe_u8, 0xca_u8, 0xfe_u8, 0xba_u8, 0xbe_u8]),
        0xcafebabecafebabe_u64
    );
}

#[test]
fn parse_i16() {
    assert_eq!(jerris::big_endian::parse_i16([0x0a_u8, 0xfe_u8]), 0x0afe_i16);
}

#[test]
fn parse_i32() {
    assert_eq!(jerris::big_endian::parse_i32([0x0a_u8, 0xfe_u8, 0xba_u8, 0xbe_u8]), 0x0afebabe_i32);
}

#[test]
fn parse_i64() {
    assert_eq!(
        jerris::big_endian::parse_i64([0x0a_u8, 0xce_u8, 0xba_u8, 0xbe_u8, 0xca_u8, 0xfe_u8, 0xba_u8, 0xbe_u8]),
        0x0acebabecafebabe_i64
    );
}

#[test]
fn parse_i16_negative() {
    assert_eq!(jerris::big_endian::parse_i16([0xff_u8, 0xff_u8]), -1_i16);
    assert_eq!(jerris::big_endian::parse_i16([0x80_u8, 0x00_u8]), i16::MIN);
}

#[test]
fn parse_i32_negative() {
    assert_eq!(jerris::big_endian::parse_i32([0xff_u8, 0xff_u8, 0xff_u8, 0xfe_u8]), -2_i32);
    assert_eq!(jerris::big_endian::parse_i32([0x80_u8, 0x00_u8, 0x00_u8, 0x00_u8]), i32::MIN);
}

#[test]
fn parse_i64_negative() {
    assert_eq!(
        jerris::big_endian::parse_i64([0xff_u8, 0xff_u8, 0xff_u8, 0xff_u8, 0xff_u8, 0xff_u8, 0xff_u8, 0xfd_u8]),
        -3_i64
    );
    assert_eq!(
        jerris::big_endian::parse_i64([0x80_u8, 0x00_u8, 0x00_u8, 0x00_u8, 0x00_u8, 0x00_u8, 0x00_u8, 0x00_u8]),
        i64::MIN
    );
}
