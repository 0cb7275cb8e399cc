use jerris::class::{Class, ParseClassError};
use jerris::constant_pool::{parse_constant, Constant, MethodReferenceKind};
use jerris::reader::ByteReader;

fn push_u16(v: &mut Vec<u8>, x: u16) {
    v.push((x >> 8) as u8);
    v.push((x & 0xff) as u8);
}

fn push_u32(v: &mut Vec<u8>, x: u32) {
    v.push((x >> 24) as u8);
    v.push((x >> 16) as u8);
    v.push((x >> 8) as u8);
    v.push((x & 0xff) as u8);
}

#[test]
fn wrong_magic_rejected() {
    for magic in [0u32, 0xcafebabf, 0xbebafeca, 0xffffffff] {
        let mut v: Vec<u8> = Vec::new();
        push_u32(&mut v, magic);
        push_u16(&mut v, 0);
        push_u16(&mut v, 63);
        assert_eq!(Class::parse(&v), Err(ParseClassError::InvalidMagicNumber));
    }
}

#[test]
fn truncated_magic_is_io_error() {
    let v: Vec<u8> = vec![0xca, 0xfe];
    assert_eq!(Class::parse(&v), Err(ParseClassError::IoError));
    assert_eq!(Class::parse(&Vec::new()), Err(ParseClassError::IoError));
}

#[test]
fn utf8_entry_shorter_than_declared_is_io_error() {
    // A UTF8 constant claiming 10 bytes but providing only 3.
    let mut v: Vec<u8> = Vec::new();
    push_u32(&mut v, 0xcafebabe);
    push_u16(&mut v, 0);
    push_u16(&mut v, 63);
    push_u16(&mut v, 2); // one constant
    v.push(1); // UTF8 tag
    push_u16(&mut v, 10); // declared length
    v.extend_from_slice(b"abc"); // only three bytes follow
    assert_eq!(Class::parse(&v), Err(ParseClassError::IoError));
}

#[test]
fn truncated_between_stages_is_io_error() {
    // Everything through the pool is fine; the stream ends before the
    // access-flag word.
    let mut v: Vec<u8> = Vec::new();
    push_u32(&mut v, 0xcafebabe);
    push_u16(&mut v, 0);
    push_u16(&mut v, 63);
    push_u16(&mut v, 1); // empty pool
    assert_eq!(Class::parse(&v), Err(ParseClassError::IoError));
}

#[test]
fn invalid_utf8_payload_rejected() {
    let mut v: Vec<u8> = Vec::new();
    push_u32(&mut v, 0xcafebabe);
    push_u16(&mut v, 0);
    push_u16(&mut v, 63);
    push_u16(&mut v, 2);
    v.push(1);
    push_u16(&mut v, 2);
    v.extend_from_slice(&[0xff, 0xfe]); // not UTF-8
    assert_eq!(Class::parse(&v), Err(ParseClassError::InvalidUTF8Constant));
}

#[test]
fn overlong_utf8_payload_rejected() {
    // 0xC0 0xAF is an overlong encoding of '/', which strict UTF-8 refuses.
    let mut v: Vec<u8> = Vec::new();
    push_u32(&mut v, 0xcafebabe);
    push_u16(&mut v, 0);
    push_u16(&mut v, 63);
    push_u16(&mut v, 2);
    v.push(1);
    push_u16(&mut v, 2);
    v.extend_from_slice(&[0xc0, 0xaf]);
    assert_eq!(Class::parse(&v), Err(ParseClassError::InvalidUTF8Constant));
}

#[test]
fn unrecognized_tag_rejected() {
    let mut v: Vec<u8> = Vec::new();
    push_u32(&mut v, 0xcafebabe);
    push_u16(&mut v, 0);
    push_u16(&mut v, 63);
    push_u16(&mut v, 2);
    v.push(13); // no such tag
    assert_eq!(Class::parse(&v), Err(ParseClassError::UnrecognizedConstantTag));
}

#[test]
fn invalid_method_handle_kind_rejected() {
    for kind in [0u8, 10, 255] {
        let mut v: Vec<u8> = Vec::new();
        push_u32(&mut v, 0xcafebabe);
        push_u16(&mut v, 0);
        push_u16(&mut v, 63);
        push_u16(&mut v, 2);
        v.push(15);
        v.push(kind);
        push_u16(&mut v, 1);
        assert_eq!(Class::parse(&v), Err(ParseClassError::InvalidMethodHandleReferenceKind));
    }
}

#[test]
fn invalid_class_access_flags_rejected() {
    let mut v: Vec<u8> = Vec::new();
    push_u32(&mut v, 0xcafebabe);
    push_u16(&mut v, 0);
    push_u16(&mut v, 63);
    push_u16(&mut v, 1); // empty pool
    push_u16(&mut v, 0x8000); // unrecognized class flag bit
    assert_eq!(Class::parse(&v), Err(ParseClassError::InvalidAccessFlags));
}

#[test]
fn invalid_field_access_flags_rejected() {
    let mut v: Vec<u8> = Vec::new();
    push_u32(&mut v, 0xcafebabe);
    push_u16(&mut v, 0);
    push_u16(&mut v, 63);
    push_u16(&mut v, 1); // empty pool
    push_u16(&mut v, 0x0001); // class flags: public
    push_u16(&mut v, 1); // this_class
    push_u16(&mut v, 1); // super_class
    push_u16(&mut v, 0); // no interfaces
    push_u16(&mut v, 1); // one field
    push_u16(&mut v, 0x0020); // ACC_SYNCHRONIZED is no field flag
    assert_eq!(
        Class::parse(&v),
        Err(ParseClassError::FieldParseError(jerris::field::FieldParseError::InvalidAccessFlags))
    );
}

#[test]
fn invalid_method_access_flags_rejected() {
    let mut v: Vec<u8> = Vec::new();
    push_u32(&mut v, 0xcafebabe);
    push_u16(&mut v, 0);
    push_u16(&mut v, 63);
    push_u16(&mut v, 1); // empty pool
    push_u16(&mut v, 0x0001);
    push_u16(&mut v, 1);
    push_u16(&mut v, 1);
    push_u16(&mut v, 0); // no interfaces
    push_u16(&mut v, 0); // no fields
    push_u16(&mut v, 1); // one method
    push_u16(&mut v, 0x0040_u16 | 0x2000); // 0x2000 is no method flag
    assert_eq!(
        Class::parse(&v),
        Err(ParseClassError::MethodParseError(
            jerris::method::MethodParseError::InvalidAccessFlags
        ))
    );
}

#[test]
fn decoded_constants_carry_their_values() {
    // One of each numeric constant, decoded straight off the reader.
    let mut v: Vec<u8> = Vec::new();
    v.push(3);
    push_u32(&mut v, 0xfffffffe); // Integer -2
    v.push(4);
    push_u32(&mut v, 0x40490fdb); // Float bit pattern
    v.push(5);
    push_u32(&mut v, 0xffffffff);
    push_u32(&mut v, 0xfffffffd); // Long -3
    v.push(6);
    push_u32(&mut v, 0x400921fb);
    push_u32(&mut v, 0x54442d18); // Double bit pattern
    let mut r = ByteReader::new(&v);
    assert_eq!(parse_constant(&mut r), Ok(Constant::Integer(-2)));
    assert_eq!(parse_constant(&mut r), Ok(Constant::Float(0x40490fdb)));
    assert_eq!(parse_constant(&mut r), Ok(Constant::Long(-3)));
    assert_eq!(parse_constant(&mut r), Ok(Constant::Double(0x400921fb54442d18)));
    assert_eq!(f32::from_bits(0x40490fdb), core::f32::consts::PI);
    assert_eq!(f64::from_bits(0x400921fb54442d18), core::f64::consts::PI);
}

#[test]
fn utf8_constant_decodes_multibyte_text() {
    // A two-byte encoding must come back as one decoded character, not as
    // the raw bytes.
    let mut v: Vec<u8> = Vec::new();
    v.push(1);
    push_u16(&mut v, 2);
    v.extend_from_slice(&[0xc3, 0xa9]); // e with acute accent
    let mut r = ByteReader::new(&v);
    let c = parse_constant(&mut r).expect("valid UTF-8 must decode");
    match c {
        Constant::UTF8String(s) => {
            assert_eq!(s.chars().count(), 1);
            assert_eq!(s, "\u{e9}");
        }
        _ => panic!("expected a text constant"),
    }
}

#[test]
fn raw_zero_index_wraps_and_fails_validation() {
    // A Class constant whose raw name index is zero: the decoder wraps it
    // to 65535, which validation must then reject.
    let mut v: Vec<u8> = Vec::new();
    v.push(7);
    push_u16(&mut v, 0);
    let mut r = ByteReader::new(&v);
    let c = parse_constant(&mut r).expect("decode is total for tag 7");
    assert_eq!(c, Constant::Class { name_index: 65535 });
    assert!(jerris::constant_pool::validate_constant_pool(&vec![c]).is_err());
}

#[test]
fn decoded_reference_constants_carry_their_indices() {
    let mut v: Vec<u8> = Vec::new();
    v.push(7);
    push_u16(&mut v, 5);
    v.push(8);
    push_u16(&mut v, 2);
    v.push(9);
    push_u16(&mut v, 1);
    push_u16(&mut v, 2);
    v.push(11);
    push_u16(&mut v, 3);
    push_u16(&mut v, 4);
    v.push(12);
    push_u16(&mut v, 3);
    push_u16(&mut v, 4);
    v.push(15);
    v.push(5);
    push_u16(&mut v, 7);
    v.push(16);
    push_u16(&mut v, 9);
    v.push(18);
    push_u16(&mut v, 1);
    push_u16(&mut v, 2);
    let mut r = ByteReader::new(&v);
    assert_eq!(parse_constant(&mut r), Ok(Constant::Class { name_index: 4 }));
    assert_eq!(parse_constant(&mut r), Ok(Constant::String { string_index: 1 }));
    assert_eq!(
        parse_constant(&mut r),
        Ok(Constant::Field { class_index: 0, name_and_type_index: 1 })
    );
    assert_eq!(
        parse_constant(&mut r),
        Ok(Constant::InterfaceMethod { class_index: 2, name_and_type_index: 3 })
    );
    assert_eq!(
        parse_constant(&mut r),
        Ok(Constant::NameAndType { name_index: 2, descriptor_index: 3 })
    );
    assert_eq!(
        parse_constant(&mut r),
        Ok(Constant::MethodHandle {
            reference_kind: MethodReferenceKind::InvokeVirtual,
            reference_index: 6,
        })
    );
    assert_eq!(parse_constant(&mut r), Ok(Constant::MethodType { descriptor_index: 8 }));
    assert_eq!(
        parse_constant(&mut r),
        Ok(Constant::InvokeDynamic { bootstrap_method_attr_index: 0, name_and_type_index: 1 })
    );
}

#[test]
fn interface_index_missing_a_class_is_a_resolution_error() {
    // The pool is valid (one text entry), but the declared interface index
    // leads to that text, not to a class constant.
    let mut v: Vec<u8> = Vec::new();
    push_u32(&mut v, 0xcafebabe);
    push_u16(&mut v, 0);
    push_u16(&mut v, 63);
    push_u16(&mut v, 2); // one constant
    v.push(1);
    push_u16(&mut v, 1);
    v.extend_from_slice(b"x");
    push_u16(&mut v, 0x0001); // class flags
    push_u16(&mut v, 1); // this_class
    push_u16(&mut v, 1); // super_class
    push_u16(&mut v, 1); // one interface
    push_u16(&mut v, 1); // raw index: the text entry, not a class
    assert_eq!(Class::parse(&v), Err(ParseClassError::InterfaceResolutionError));
}

#[test]
fn error_messages_name_the_failure() {
    assert_eq!(ParseClassError::InvalidMagicNumber.message(), "expected magic number to be 0xcafebabe");
    assert_eq!(ParseClassError::IoError.message(), "couldn't read the class file");
}
