use jerris::access_flags::{
    ClassAccessFlags, FieldAccessFlags, MethodAccessFlags, CLASS_ACC_PUBLIC, CLASS_ACC_SUPER,
    FIELD_ACC_PUBLIC, METHOD_ACC_PUBLIC, METHOD_ACC_STATIC,
};
use jerris::attribute::Attribute;
use jerris::class::{Class, JavaVersion};
use jerris::constant_pool::Constant;
use jerris::field::Field;
use jerris::method::Method;

fn push_u16(v: &mut Vec<u8>, x: u16) {
    v.push((x >> 8) as u8);
    v.push((x & 0xff) as u8);
}

fn push_u32(v: &mut Vec<u8>, x: u32) {
    v.push((x >> 24) as u8);
    v.push((x >> 16) as u8);
    v.push((x >> 8) as u8);
    v.push((x & 0xff) as u8);
}

fn push_utf8(v: &mut Vec<u8>, s: &str) {
    v.push(1);
    push_u16(v, s.len() as u16);
    v.extend_from_slice(s.as_bytes());
}

fn push_class(v: &mut Vec<u8>, name_raw: u16) {
    v.push(7);
    push_u16(v, name_raw);
}

fn push_name_and_type(v: &mut Vec<u8>, name_raw: u16, descriptor_raw: u16) {
    v.push(12);
    push_u16(v, name_raw);
    push_u16(v, descriptor_raw);
}

fn push_member(v: &mut Vec<u8>, tag: u8, class_raw: u16, nat_raw: u16) {
    v.push(tag);
    push_u16(v, class_raw);
    push_u16(v, nat_raw);
}

fn push_attribute(v: &mut Vec<u8>, name_raw: u16, info: &[u8]) {
    push_u16(v, name_raw);
    push_u32(v, info.len() as u32);
    v.extend_from_slice(info);
}

const INIT_CODE: [u8; 38] = [
    0, 2, 0, 1, 0, 0, 0, 10, 42, 183, 0, 1, 42, 4, 181, 0, 7, 177, 0, 0, 0, 1, 0, 28, 0, 0, 0, 10,
    0, 2, 0, 0, 0, 1, 0, 4, 0, 2,
];

const MAIN_CODE: [u8; 37] = [
    0, 2, 0, 1, 0, 0, 0, 9, 178, 0, 13, 18, 19, 182, 0, 21, 177, 0, 0, 0, 1, 0, 28, 0, 0, 0, 10,
    0, 2, 0, 0, 0, 4, 0, 8, 0, 5,
];

/// The bytes of a small class file: `public class Main { public int a; }`
/// with a constructor and a main method printing a greeting.
fn fixture_bytes() -> Vec<u8> {
    let mut v: Vec<u8> = Vec::new();
    push_u32(&mut v, 0xcafebabe);
    push_u16(&mut v, 0); // minor
    push_u16(&mut v, 63); // major
    push_u16(&mut v, 33); // pool count: 32 entries + 1
    // Raw index words in the file are 1-based.
    push_member(&mut v, 10, 2, 3); // Method -> Class Object, NameAndType <init>
    push_class(&mut v, 4);
    push_name_and_type(&mut v, 5, 6);
    push_utf8(&mut v, "java/lang/Object");
    push_utf8(&mut v, "<init>");
    push_utf8(&mut v, "()V");
    push_member(&mut v, 9, 8, 9); // Field -> Class Main, NameAndType a:I
    push_class(&mut v, 10);
    push_name_and_type(&mut v, 11, 12);
    push_utf8(&mut v, "Main");
    push_utf8(&mut v, "a");
    push_utf8(&mut v, "I");
    push_member(&mut v, 9, 14, 15); // Field -> Class System, NameAndType out
    push_class(&mut v, 16);
    push_name_and_type(&mut v, 17, 18);
    push_utf8(&mut v, "java/lang/System");
    push_utf8(&mut v, "out");
    push_utf8(&mut v, "Ljava/io/PrintStream;");
    v.push(8); // String -> "Hello World!"
    push_u16(&mut v, 20);
    push_utf8(&mut v, "Hello World!");
    push_member(&mut v, 10, 22, 23); // Method -> Class PrintStream, NameAndType println
    push_class(&mut v, 24);
    push_name_and_type(&mut v, 25, 26);
    push_utf8(&mut v, "java/io/PrintStream");
    push_utf8(&mut v, "println");
    push_utf8(&mut v, "(Ljava/lang/String;)V");
    push_utf8(&mut v, "Code");
    push_utf8(&mut v, "LineNumberTable");
    push_utf8(&mut v, "main");
    push_utf8(&mut v, "([Ljava/lang/String;)V");
    push_utf8(&mut v, "SourceFile");
    push_utf8(&mut v, "Main.java");
    push_u16(&mut v, CLASS_ACC_PUBLIC | CLASS_ACC_SUPER); // access flags
    push_u16(&mut v, 8); // this_class: Class Main
    push_u16(&mut v, 2); // super_class: Class Object
    push_u16(&mut v, 0); // no interfaces
    push_u16(&mut v, 1); // one field
    push_u16(&mut v, FIELD_ACC_PUBLIC);
    push_u16(&mut v, 11); // name "a"
    push_u16(&mut v, 12); // descriptor "I"
    push_u16(&mut v, 0); // no field attributes
    push_u16(&mut v, 2); // two methods
    push_u16(&mut v, METHOD_ACC_PUBLIC);
    push_u16(&mut v, 5); // name "<init>"
    push_u16(&mut v, 6); // descriptor "()V"
    push_u16(&mut v, 1);
    push_attribute(&mut v, 27, &INIT_CODE);
    push_u16(&mut v, METHOD_ACC_PUBLIC | METHOD_ACC_STATIC);
    push_u16(&mut v, 29); // name "main"
    push_u16(&mut v, 30); // descriptor "([Ljava/lang/String;)V"
    push_u16(&mut v, 1);
    push_attribute(&mut v, 27, &MAIN_CODE);
    push_u16(&mut v, 1); // one class attribute
    push_attribute(&mut v, 31, &[0, 32]);
    v
}

#[test]
fn parse_class() {
    let class = Class {
        java_version: JavaVersion { minor: 0, major: 63 },
        constant_pool: vec![
            Constant::Method { class_index: 1, name_and_type_index: 2 },
            Constant::Class { name_index: 3 },
            Constant::NameAndType { name_index: 4, descriptor_index: 5 },
            Constant::UTF8String("java/lang/Object".to_string()),
            Constant::UTF8String("<init>".to_string()),
            Constant::UTF8String("()V".to_string()),
            Constant::Field { class_index: 7, name_and_type_index: 8 },
            Constant::Class { name_index: 9 },
            Constant::NameAndType { name_index: 10, descriptor_index: 11 },
            Constant::UTF8String("Main".to_string()),
            Constant::UTF8String("a".to_string()),
            Constant::UTF8String("I".to_string()),
            Constant::Field { class_index: 13, name_and_type_index: 14 },
            Constant::Class { name_index: 15 },
            Constant::NameAndType { name_index: 16, descriptor_index: 17 },
            Constant::UTF8String("java/lang/System".to_string()),
            Constant::UTF8String("out".to_string()),
            Constant::UTF8String("Ljava/io/PrintStream;".to_string()),
            Constant::String { string_index: 19 },
            Constant::UTF8String("Hello World!".to_string()),
            Constant::Method { class_index: 21, name_and_type_index: 22 },
            Constant::Class { name_index: 23 },
            Constant::NameAndType { name_index: 24, descriptor_index: 25 },
            Constant::UTF8String("java/io/PrintStream".to_string()),
            Constant::UTF8String("println".to_string()),
            Constant::UTF8String("(Ljava/lang/String;)V".to_string()),
            Constant::UTF8String("Code".to_string()),
            Constant::UTF8String("LineNumberTable".to_string()),
            Constant::UTF8String("main".to_string()),
            Constant::UTF8String("([Ljava/lang/String;)V".to_string()),
            Constant::UTF8String("SourceFile".to_string()),
            Constant::UTF8String("Main.java".to_string()),
        ],
        access_flags: ClassAccessFlags::from_bits(CLASS_ACC_PUBLIC | CLASS_ACC_SUPER).unwrap(),
        this_class: 7,
        super_class: 1,
        interfaces: vec![],
        fields: vec![
            Field {
                access_flags: FieldAccessFlags::from_bits(FIELD_ACC_PUBLIC).unwrap(),
                name_index: 10,
                descriptor_index: 11,
                attributes: vec![],
            },
        ],
        methods: vec![
            Method {
                access_flags: MethodAccessFlags::from_bits(METHOD_ACC_PUBLIC).unwrap(),
                name_index: 4,
                descriptor_index: 5,
                attributes: vec![
                    Attribute { attribute_name_index: 26, info: INIT_CODE.to_vec() },
                ],
            },
            Method {
                access_flags: MethodAccessFlags::from_bits(METHOD_ACC_PUBLIC | METHOD_ACC_STATIC)
                    .unwrap(),
                name_index: 28,
                descriptor_index: 29,
                attributes: vec![
                    Attribute { attribute_name_index: 26, info: MAIN_CODE.to_vec() },
                ],
            },
        ],
        attributes: vec![Attribute { attribute_name_index: 30, info: vec![0, 32] }],
    };
    match Class::parse(&fixture_bytes()) {
        Ok(actual_class) => {
            assert_eq!(class, actual_class);
        }
        Err(_e) => panic!("{}", _e.message()),
    };
}

#[test]
fn parse_class_with_interfaces() {
    // A minimal class implementing one interface: the interface index must
    // resolve through the pool to the interface's name text.
    let mut v: Vec<u8> = Vec::new();
    push_u32(&mut v, 0xcafebabe);
    push_u16(&mut v, 0);
    push_u16(&mut v, 52);
    push_u16(&mut v, 5); // 4 entries
    push_class(&mut v, 2); // 0: Class -> "Simple"
    push_utf8(&mut v, "Simple"); // 1
    push_class(&mut v, 4); // 2: Class -> "java/lang/Runnable"
    push_utf8(&mut v, "java/lang/Runnable"); // 3
    push_u16(&mut v, CLASS_ACC_PUBLIC);
    push_u16(&mut v, 1); // this_class
    push_u16(&mut v, 1); // super_class (raw)
    push_u16(&mut v, 1); // one interface
    push_u16(&mut v, 3); // raw index of Class "java/lang/Runnable"
    push_u16(&mut v, 0); // fields
    push_u16(&mut v, 0); // methods
    push_u16(&mut v, 0); // attributes
    let class = Class::parse(&v).expect("fixture must parse");
    assert_eq!(class.interfaces, vec!["java/lang/Runnable".to_string()]);
    assert_eq!(class.this_class, 0);
    assert_eq!(class.super_class, 0);
}
