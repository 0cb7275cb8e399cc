use jerris::class::ParseClassError;
use jerris::constant_pool::{
    validate_constant_pool, Constant, ConstantPoolValidationError, MethodReferenceKind,
};

fn wrapped(e: ConstantPoolValidationError) -> ParseClassError {
    ParseClassError::ConstantPoolValidationError(e)
}

#[test]
fn valid_pool_accepted() {
    let pool = vec![
        Constant::Method { class_index: 1, name_and_type_index: 2 },
        Constant::Class { name_index: 3 },
        Constant::NameAndType { name_index: 4, descriptor_index: 5 },
        Constant::UTF8String("java/lang/Object".to_string()),
        Constant::UTF8String("<init>".to_string()),
        Constant::UTF8String("()V".to_string()),
    ];
    assert_eq!(validate_constant_pool(&pool), Ok(()));
}

#[test]
fn class_with_wrong_referent_rejected() {
    let pool = vec![Constant::Class { name_index: 1 }, Constant::Integer(7)];
    assert_eq!(
        validate_constant_pool(&pool),
        Err(wrapped(ConstantPoolValidationError::ClassWithInvalidNameIndex))
    );
}

#[test]
fn class_with_out_of_bounds_index_rejected() {
    let pool = vec![Constant::Class { name_index: 9 }];
    assert_eq!(
        validate_constant_pool(&pool),
        Err(wrapped(ConstantPoolValidationError::ClassWithInvalidNameIndex))
    );
}

#[test]
fn method_with_wrong_class_referent_rejected() {
    let pool = vec![
        Constant::Method { class_index: 1, name_and_type_index: 2 },
        Constant::UTF8String("not a class".to_string()),
        Constant::NameAndType { name_index: 1, descriptor_index: 1 },
    ];
    assert_eq!(
        validate_constant_pool(&pool),
        Err(wrapped(ConstantPoolValidationError::MethodWithInvalidClassIndex))
    );
}

#[test]
fn method_with_wrong_name_and_type_referent_rejected() {
    let pool = vec![
        Constant::Method { class_index: 1, name_and_type_index: 3 },
        Constant::Class { name_index: 2 },
        Constant::UTF8String("A".to_string()),
        Constant::Integer(1),
    ];
    assert_eq!(
        validate_constant_pool(&pool),
        Err(wrapped(ConstantPoolValidationError::MethodWithInvalidNameAndTypeIndex))
    );
}

#[test]
fn field_relations_rejected() {
    let pool = vec![
        Constant::Field { class_index: 1, name_and_type_index: 1 },
        Constant::Long(0),
    ];
    assert_eq!(
        validate_constant_pool(&pool),
        Err(wrapped(ConstantPoolValidationError::FieldWithInvalidClassIndex))
    );
    let pool = vec![
        Constant::Field { class_index: 1, name_and_type_index: 3 },
        Constant::Class { name_index: 2 },
        Constant::UTF8String("A".to_string()),
        Constant::Double(0),
    ];
    assert_eq!(
        validate_constant_pool(&pool),
        Err(wrapped(ConstantPoolValidationError::FieldWithInvalidNameAndTypeIndex))
    );
}

#[test]
fn interface_method_relations_rejected() {
    let pool = vec![
        Constant::InterfaceMethod { class_index: 1, name_and_type_index: 1 },
        Constant::Integer(0),
    ];
    assert_eq!(
        validate_constant_pool(&pool),
        Err(wrapped(ConstantPoolValidationError::InterfaceMethodWithInvalidClassIndex))
    );
}

#[test]
fn string_with_wrong_referent_rejected() {
    let pool = vec![Constant::String { string_index: 1 }, Constant::Integer(3)];
    assert_eq!(
        validate_constant_pool(&pool),
        Err(wrapped(ConstantPoolValidationError::StringWithInvalidUTF8Index))
    );
}

#[test]
fn name_and_type_relations_rejected() {
    let pool = vec![
        Constant::NameAndType { name_index: 1, descriptor_index: 2 },
        Constant::Integer(0),
        Constant::UTF8String("I".to_string()),
    ];
    assert_eq!(
        validate_constant_pool(&pool),
        Err(wrapped(ConstantPoolValidationError::NameAndTypeWithInvalidNameIndex))
    );
    let pool = vec![
        Constant::NameAndType { name_index: 2, descriptor_index: 1 },
        Constant::Integer(0),
        Constant::UTF8String("a".to_string()),
    ];
    assert_eq!(
        validate_constant_pool(&pool),
        Err(wrapped(ConstantPoolValidationError::NameAndTypeWithInvalidDescriptorIndex))
    );
}

#[test]
fn invoke_dynamic_relation_rejected() {
    let pool = vec![
        Constant::InvokeDynamic { bootstrap_method_attr_index: 0, name_and_type_index: 1 },
        Constant::UTF8String("x".to_string()),
    ];
    assert_eq!(
        validate_constant_pool(&pool),
        Err(wrapped(ConstantPoolValidationError::InvokeDynamicWithInvalidNameAndType))
    );
}

#[test]
fn method_type_relation_rejected() {
    let pool = vec![Constant::MethodType { descriptor_index: 1 }, Constant::Integer(0)];
    assert_eq!(
        validate_constant_pool(&pool),
        Err(wrapped(ConstantPoolValidationError::MethodTypeWithInvalidDescriptorIndex))
    );
}

#[test]
fn method_handle_wrong_referent_rejected() {
    // A field-kind handle must lead to a Field entry, not a Method.
    let pool = vec![
        Constant::MethodHandle {
            reference_kind: MethodReferenceKind::GetField,
            reference_index: 1,
        },
        Constant::Method { class_index: 2, name_and_type_index: 3 },
        Constant::Class { name_index: 4 },
        Constant::NameAndType { name_index: 4, descriptor_index: 4 },
        Constant::UTF8String("x".to_string()),
    ];
    assert_eq!(
        validate_constant_pool(&pool),
        Err(wrapped(ConstantPoolValidationError::InvalidMethodHandle))
    );
}

fn new_invoke_special_pool(name: &str) -> Vec<Constant> {
    vec![
        Constant::MethodHandle {
            reference_kind: MethodReferenceKind::NewInvokeSpecial,
            reference_index: 1,
        },
        Constant::Method { class_index: 2, name_and_type_index: 4 },
        Constant::Class { name_index: 3 },
        Constant::UTF8String("Main".to_string()),
        Constant::NameAndType { name_index: 5, descriptor_index: 6 },
        Constant::UTF8String(name.to_string()),
        Constant::UTF8String("()V".to_string()),
    ]
}

#[test]
fn new_invoke_special_requires_init_name() {
    assert_eq!(validate_constant_pool(&new_invoke_special_pool("<init>")), Ok(()));
    assert_eq!(
        validate_constant_pool(&new_invoke_special_pool("<clinit>")),
        Err(wrapped(ConstantPoolValidationError::InvalidMethodHandle))
    );
    assert_eq!(
        validate_constant_pool(&new_invoke_special_pool("main")),
        Err(wrapped(ConstantPoolValidationError::InvalidMethodHandle))
    );
}

#[test]
fn validation_is_idempotent_and_pure() {
    let good = new_invoke_special_pool("<init>");
    let first = validate_constant_pool(&good);
    let second = validate_constant_pool(&good);
    assert_eq!(first, second);
    assert_eq!(first, Ok(()));
    let bad = new_invoke_special_pool("other");
    let first = validate_constant_pool(&bad);
    let second = validate_constant_pool(&bad);
    assert_eq!(first, second);
    assert_eq!(first, Err(wrapped(ConstantPoolValidationError::InvalidMethodHandle)));
}

#[test]
fn reference_kind_mapping() {
    assert_eq!(MethodReferenceKind::from_u8(1), Some(MethodReferenceKind::GetField));
    assert_eq!(MethodReferenceKind::from_u8(4), Some(MethodReferenceKind::PutStatic));
    assert_eq!(MethodReferenceKind::from_u8(8), Some(MethodReferenceKind::NewInvokeSpecial));
    assert_eq!(MethodReferenceKind::from_u8(9), Some(MethodReferenceKind::InvokeInterface));
    assert_eq!(MethodReferenceKind::from_u8(0), None);
    assert_eq!(MethodReferenceKind::from_u8(10), None);
}
