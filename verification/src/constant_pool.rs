//! The constant pool: its thirteen constant variants, their tag-dispatched
//! decoder, and the cross-reference validator.
//!
//! Index fields of decoded constants are 0-based positions into the pool:
//! the file stores them 1-based, and the decoder subtracts one. A raw index
//! of zero wraps to 65535, a position no pool entry can occupy, so
//! validation rejects such an entry.

use vstd::prelude::*;
use vstd::utf8::{decode_utf8, valid_utf8};
use crate::big_endian::{be16, be32, signed32, signed64};
use crate::class::ParseClassError;
use crate::reader::{can_read, ByteReader};

verus! {

/// The nine ways a method handle can denote a field or method access.
#[derive(Debug, PartialEq, Eq, Clone, Copy)]
pub enum MethodReferenceKind {
    GetField,
    GetStatic,
    PutField,
    PutStatic,
    InvokeVirtual,
    InvokeStatic,
    InvokeSpecial,
    NewInvokeSpecial,
    InvokeInterface,
}

/// The method-handle kind encoded by a sub-tag byte, if the byte lies in
/// the recognized range 1 through 9.
pub open spec fn spec_reference_kind_from_u8(value: u8) -> Option<MethodReferenceKind> {
    if value == 1 {
        Some(MethodReferenceKind::GetField)
    } else if value == 2 {
        Some(MethodReferenceKind::GetStatic)
    } else if value == 3 {
        Some(MethodReferenceKind::PutField)
    } else if value == 4 {
        Some(MethodReferenceKind::PutStatic)
    } else if value == 5 {
        Some(MethodReferenceKind::InvokeVirtual)
    } else if value == 6 {
        Some(MethodReferenceKind::InvokeStatic)
    } else if value == 7 {
        Some(MethodReferenceKind::InvokeSpecial)
    } else if value == 8 {
        Some(MethodReferenceKind::NewInvokeSpecial)
    } else if value == 9 {
        Some(MethodReferenceKind::InvokeInterface)
    } else {
        None
    }
}

impl MethodReferenceKind {
    /// Maps a sub-tag byte to its kind; bytes outside 1 through 9 have none.
    pub fn from_u8(value: u8) -> (r: Option<MethodReferenceKind>)
        ensures
            r == spec_reference_kind_from_u8(value),
    {
        match value {
            1 => Some(MethodReferenceKind::GetField),
            2 => Some(MethodReferenceKind::GetStatic),
            3 => Some(MethodReferenceKind::PutField),
            4 => Some(MethodReferenceKind::PutStatic),
            5 => Some(MethodReferenceKind::InvokeVirtual),
            6 => Some(MethodReferenceKind::InvokeStatic),
            7 => Some(MethodReferenceKind::InvokeSpecial),
            8 => Some(MethodReferenceKind::NewInvokeSpecial),
            9 => Some(MethodReferenceKind::InvokeInterface),
            _ => None,
        }
    }
}

/// One constant-pool entry. Index fields are 0-based positions into the
/// pool. `Float` and `Double` carry the raw IEEE-754 bit pattern, so the
/// pool model stays exact.
#[derive(Debug, PartialEq, Eq)]
pub enum Constant {
    Class {
        /// Position of a `UTF8String` holding the class name.
        name_index: u16,
    },
    Field {
        /// Position of the `Class` this field belongs to.
        class_index: u16,
        /// Position of the field's `NameAndType`.
        name_and_type_index: u16,
    },
    Method {
        /// Position of the `Class` this method belongs to.
        class_index: u16,
        /// Position of the method's `NameAndType`.
        name_and_type_index: u16,
    },
    InterfaceMethod {
        /// Position of the `Class` this interface method belongs to.
        class_index: u16,
        /// Position of the interface method's `NameAndType`.
        name_and_type_index: u16,
    },
    String {
        /// Position of the `UTF8String` holding the text.
        string_index: u16,
    },
    Integer(i32),
    /// The IEEE-754 bit pattern of a 32-bit float constant.
    Float(u32),
    Long(i64),
    /// The IEEE-754 bit pattern of a 64-bit float constant.
    Double(u64),
    NameAndType {
        /// Position of a `UTF8String` holding the name.
        name_index: u16,
        /// Position of a `UTF8String` holding the field or method descriptor.
        descriptor_index: u16,
    },
    UTF8String(String),
    MethodHandle {
        reference_kind: MethodReferenceKind,
        /// Position of the `Field`, `Method` or `InterfaceMethod` the handle
        /// denotes; which of the three depends on `reference_kind`.
        reference_index: u16,
    },
    MethodType {
        /// Position of a `UTF8String` holding the method descriptor.
        descriptor_index: u16,
    },
    InvokeDynamic {
        /// Position into the bootstrap-method table of the class file; not
        /// checked by validation (see `ConstantPoolValidationError`).
        bootstrap_method_attr_index: u16,
        /// Position of the call site's `NameAndType`.
        name_and_type_index: u16,
    },
}

/// Mathematical shadow of [`Constant`]: text as a character sequence.
pub ghost enum ConstantV {
    Class { name_index: u16 },
    Field { class_index: u16, name_and_type_index: u16 },
    Method { class_index: u16, name_and_type_index: u16 },
    InterfaceMethod { class_index: u16, name_and_type_index: u16 },
    String { string_index: u16 },
    Integer(i32),
    Float(u32),
    Long(i64),
    Double(u64),
    NameAndType { name_index: u16, descriptor_index: u16 },
    UTF8String(Seq<char>),
    MethodHandle { reference_kind: MethodReferenceKind, reference_index: u16 },
    MethodType { descriptor_index: u16 },
    InvokeDynamic { bootstrap_method_attr_index: u16, name_and_type_index: u16 },
}

impl DeepView for Constant {
    type V = ConstantV;

    open spec fn deep_view(&self) -> ConstantV {
        match self {
            Constant::Class { name_index } => ConstantV::Class { name_index: *name_index },
            Constant::Field { class_index, name_and_type_index } => ConstantV::Field {
                class_index: *class_index,
                name_and_type_index: *name_and_type_index,
            },
            Constant::Method { class_index, name_and_type_index } => ConstantV::Method {
                class_index: *class_index,
                name_and_type_index: *name_and_type_index,
            },
            Constant::InterfaceMethod { class_index, name_and_type_index } => ConstantV::InterfaceMethod {
                class_index: *class_index,
                name_and_type_index: *name_and_type_index,
            },
            Constant::String { string_index } => ConstantV::String { string_index: *string_index },
            Constant::Integer(v) => ConstantV::Integer(*v),
            Constant::Float(bits) => ConstantV::Float(*bits),
            Constant::Long(v) => ConstantV::Long(*v),
            Constant::Double(bits) => ConstantV::Double(*bits),
            Constant::NameAndType { name_index, descriptor_index } => ConstantV::NameAndType {
                name_index: *name_index,
                descriptor_index: *descriptor_index,
            },
            Constant::UTF8String(s) => ConstantV::UTF8String(s@),
            Constant::MethodHandle { reference_kind, reference_index } => ConstantV::MethodHandle {
                reference_kind: *reference_kind,
                reference_index: *reference_index,
            },
            Constant::MethodType { descriptor_index } => ConstantV::MethodType {
                descriptor_index: *descriptor_index,
            },
            Constant::InvokeDynamic { bootstrap_method_attr_index, name_and_type_index } => ConstantV::InvokeDynamic {
                bootstrap_method_attr_index: *bootstrap_method_attr_index,
                name_and_type_index: *name_and_type_index,
            },
        }
    }
}

/// Which cross-reference rule a pool entry broke. One sub-kind per relation,
/// so the caller learns exactly which relation and which entry kind was
/// expected. The bootstrap-method index of `InvokeDynamic` has no rule here:
/// that check is not yet implemented, and `InvokeDynamicWithInvalidBootstrapMethodIndex`
/// is reserved for it rather than silently passing it by.
#[derive(Debug, PartialEq, Eq, Clone, Copy)]
pub enum ConstantPoolValidationError {
    ClassWithInvalidNameIndex,
    MethodWithInvalidClassIndex,
    MethodWithInvalidNameAndTypeIndex,
    FieldWithInvalidClassIndex,
    FieldWithInvalidNameAndTypeIndex,
    InterfaceMethodWithInvalidClassIndex,
    InterfaceMethodWithInvalidNameAndTypeIndex,
    StringWithInvalidUTF8Index,
    NameAndTypeWithInvalidNameIndex,
    NameAndTypeWithInvalidDescriptorIndex,
    InvokeDynamicWithInvalidNameAndType,
    InvokeDynamicWithInvalidBootstrapMethodIndex,
    MethodTypeWithInvalidDescriptorIndex,
    InvalidMethodHandle,
}

/// The 0-based pool position encoded by a raw 1-based index word. A raw
/// zero, which has no 1-based meaning, wraps to 65535; no entry can sit at
/// that position (a pool never exceeds 65535 entries, so its valid
/// positions stop at 65534), and validation rejects whatever carries it.
pub open spec fn spec_index_from_raw(raw: int) -> u16
    recommends
        0 <= raw < 0x10000,
{
    if raw == 0 {
        0xffff
    } else {
        (raw - 1) as u16
    }
}

pub(crate) fn index_from_raw(raw: u16) -> (r: u16)
    ensures
        r == spec_index_from_raw(raw as int),
{
    if raw == 0 {
        0xffff
    } else {
        raw - 1
    }
}

/// The constant decoded at `pos`, and the position just past it: one tag
/// byte, then the tag's own payload. Fails with `IoError` where the data
/// ends before the payload does, with `UnrecognizedConstantTag` on a tag
/// outside the thirteen known ones, and with the dedicated errors on a
/// malformed text payload or method-handle sub-tag.
pub open spec fn spec_parse_constant(data: Seq<u8>, pos: int) -> Result<
    (ConstantV, int),
    ParseClassError,
> {
    if !can_read(data, pos, 1) {
        Err(ParseClassError::IoError)
    } else {
        let tag = data[pos];
        let p = pos + 1;
        if tag == 1 {
            spec_parse_utf8(data, p)
        } else if tag == 15 {
            spec_parse_method_handle(data, p)
        } else if tag == 16 {
            spec_parse_method_type(data, p)
        } else if tag == 18 {
            spec_parse_invoke_dynamic(data, p)
        } else if tag == 12 {
            spec_parse_name_and_type(data, p)
        } else if tag == 3 {
            spec_parse_integer(data, p)
        } else if tag == 4 {
            spec_parse_float(data, p)
        } else if tag == 5 {
            spec_parse_long(data, p)
        } else if tag == 6 {
            spec_parse_double(data, p)
        } else if tag == 7 {
            spec_parse_class_ref(data, p)
        } else if tag == 8 {
            spec_parse_string_ref(data, p)
        } else if tag == 9 {
            spec_parse_field_ref(data, p)
        } else if tag == 10 {
            spec_parse_method_ref(data, p)
        } else if tag == 11 {
            spec_parse_interface_method_ref(data, p)
        } else {
            Err(ParseClassError::UnrecognizedConstantTag)
        }
    }
}

/// Payload of tag 1: a 2-byte length, that many bytes, decoded as UTF-8.
pub open spec fn spec_parse_utf8(data: Seq<u8>, p: int) -> Result<(ConstantV, int), ParseClassError> {
    if !can_read(data, p, 2) {
        Err(ParseClassError::IoError)
    } else {
        let n = be16(data.subrange(p, p + 2));
        if !can_read(data, p + 2, n) {
            Err(ParseClassError::IoError)
        } else {
            let bytes = data.subrange(p + 2, p + 2 + n);
            if valid_utf8(bytes) {
                Ok((ConstantV::UTF8String(decode_utf8(bytes)), p + 2 + n))
            } else {
                Err(ParseClassError::InvalidUTF8Constant)
            }
        }
    }
}

/// Payload of tag 15: a 1-byte kind in 1 through 9, then a reference index.
pub open spec fn spec_parse_method_handle(data: Seq<u8>, p: int) -> Result<
    (ConstantV, int),
    ParseClassError,
> {
    if !can_read(data, p, 1) {
        Err(ParseClassError::IoError)
    } else {
        match spec_reference_kind_from_u8(data[p]) {
            Some(kind) => {
                if !can_read(data, p + 1, 2) {
                    Err(ParseClassError::IoError)
                } else {
                    Ok(
                        (
                            ConstantV::MethodHandle {
                                reference_kind: kind,
                                reference_index: spec_index_from_raw(
                                    be16(data.subrange(p + 1, p + 3)),
                                ),
                            },
                            p + 3,
                        ),
                    )
                }
            },
            None => Err(ParseClassError::InvalidMethodHandleReferenceKind),
        }
    }
}

/// Payload of tag 16: the descriptor's pool index.
pub open spec fn spec_parse_method_type(data: Seq<u8>, p: int) -> Result<
    (ConstantV, int),
    ParseClassError,
> {
    if !can_read(data, p, 2) {
        Err(ParseClassError::IoError)
    } else {
        Ok(
            (
                ConstantV::MethodType {
                    descriptor_index: spec_index_from_raw(be16(data.subrange(p, p + 2))),
                },
                p + 2,
            ),
        )
    }
}

/// Payload of tag 18: a bootstrap-table index, then a name-and-type index.
pub open spec fn spec_parse_invoke_dynamic(data: Seq<u8>, p: int) -> Result<
    (ConstantV, int),
    ParseClassError,
> {
    if !can_read(data, p, 4) {
        Err(ParseClassError::IoError)
    } else {
        Ok(
            (
                ConstantV::InvokeDynamic {
                    bootstrap_method_attr_index: spec_index_from_raw(
                        be16(data.subrange(p, p + 2)),
                    ),
                    name_and_type_index: spec_index_from_raw(be16(data.subrange(p + 2, p + 4))),
                },
                p + 4,
            ),
        )
    }
}

/// Payload of tag 12: a name index, then a descriptor index.
pub open spec fn spec_parse_name_and_type(data: Seq<u8>, p: int) -> Result<
    (ConstantV, int),
    ParseClassError,
> {
    if !can_read(data, p, 4) {
        Err(ParseClassError::IoError)
    } else {
        Ok(
            (
                ConstantV::NameAndType {
                    name_index: spec_index_from_raw(be16(data.subrange(p, p + 2))),
                    descriptor_index: spec_index_from_raw(be16(data.subrange(p + 2, p + 4))),
                },
                p + 4,
            ),
        )
    }
}

/// Payload of tag 3: four bytes read as a two's-complement integer.
pub open spec fn spec_parse_integer(data: Seq<u8>, p: int) -> Result<
    (ConstantV, int),
    ParseClassError,
> {
    if !can_read(data, p, 4) {
        Err(ParseClassError::IoError)
    } else {
        Ok((ConstantV::Integer(signed32(be32(data.subrange(p, p + 4))) as i32), p + 4))
    }
}

/// Payload of tag 4: four bytes kept as an IEEE-754 bit pattern.
pub open spec fn spec_parse_float(data: Seq<u8>, p: int) -> Result<
    (ConstantV, int),
    ParseClassError,
> {
    if !can_read(data, p, 4) {
        Err(ParseClassError::IoError)
    } else {
        Ok((ConstantV::Float(be32(data.subrange(p, p + 4)) as u32), p + 4))
    }
}

/// Payload of tag 5: two consecutive 4-byte words assembled into a 64-bit
/// two's-complement integer.
pub open spec fn spec_parse_long(data: Seq<u8>, p: int) -> Result<
    (ConstantV, int),
    ParseClassError,
> {
    if !can_read(data, p, 8) {
        Err(ParseClassError::IoError)
    } else {
        let word = be32(data.subrange(p, p + 4)) * 0x100000000 + be32(data.subrange(p + 4, p + 8));
        Ok((ConstantV::Long(signed64(word) as i64), p + 8))
    }
}

/// Payload of tag 6: two consecutive 4-byte words kept as an IEEE-754 bit
/// pattern.
pub open spec fn spec_parse_double(data: Seq<u8>, p: int) -> Result<
    (ConstantV, int),
    ParseClassError,
> {
    if !can_read(data, p, 8) {
        Err(ParseClassError::IoError)
    } else {
        let word = be32(data.subrange(p, p + 4)) * 0x100000000 + be32(data.subrange(p + 4, p + 8));
        Ok((ConstantV::Double(word as u64), p + 8))
    }
}

/// Payload of tag 7: the class name's pool index.
pub open spec fn spec_parse_class_ref(data: Seq<u8>, p: int) -> Result<
    (ConstantV, int),
    ParseClassError,
> {
    if !can_read(data, p, 2) {
        Err(ParseClassError::IoError)
    } else {
        Ok(
            (
                ConstantV::Class {
                    name_index: spec_index_from_raw(be16(data.subrange(p, p + 2))),
                },
                p + 2,
            ),
        )
    }
}

/// Payload of tag 8: the text's pool index.
pub open spec fn spec_parse_string_ref(data: Seq<u8>, p: int) -> Result<
    (ConstantV, int),
    ParseClassError,
> {
    if !can_read(data, p, 2) {
        Err(ParseClassError::IoError)
    } else {
        Ok(
            (
                ConstantV::String {
                    string_index: spec_index_from_raw(be16(data.subrange(p, p + 2))),
                },
                p + 2,
            ),
        )
    }
}

/// Payload of tag 9: a class index, then a name-and-type index.
pub open spec fn spec_parse_field_ref(data: Seq<u8>, p: int) -> Result<
    (ConstantV, int),
    ParseClassError,
> {
    if !can_read(data, p, 4) {
        Err(ParseClassError::IoError)
    } else {
        Ok(
            (
                ConstantV::Field {
                    class_index: spec_index_from_raw(be16(data.subrange(p, p + 2))),
                    name_and_type_index: spec_index_from_raw(be16(data.subrange(p + 2, p + 4))),
                },
                p + 4,
            ),
        )
    }
}

/// Payload of tag 10: a class index, then a name-and-type index.
pub open spec fn spec_parse_method_ref(data: Seq<u8>, p: int) -> Result<
    (ConstantV, int),
    ParseClassError,
> {
    if !can_read(data, p, 4) {
        Err(ParseClassError::IoError)
    } else {
        Ok(
            (
                ConstantV::Method {
                    class_index: spec_index_from_raw(be16(data.subrange(p, p + 2))),
                    name_and_type_index: spec_index_from_raw(be16(data.subrange(p + 2, p + 4))),
                },
                p + 4,
            ),
        )
    }
}

/// Payload of tag 11: a class index, then a name-and-type index.
pub open spec fn spec_parse_interface_method_ref(data: Seq<u8>, p: int) -> Result<
    (ConstantV, int),
    ParseClassError,
> {
    if !can_read(data, p, 4) {
        Err(ParseClassError::IoError)
    } else {
        Ok(
            (
                ConstantV::InterfaceMethod {
                    class_index: spec_index_from_raw(be16(data.subrange(p, p + 2))),
                    name_and_type_index: spec_index_from_raw(be16(data.subrange(p + 2, p + 4))),
                },
                p + 4,
            ),
        )
    }
}

proof fn lemma_trunc_two_bytes(data: Seq<u8>, k: int, p: int)
    requires
        0 <= p,
        0 <= k <= data.len(),
        can_read(data, p, 2),
    ensures
        p + 2 <= k ==> be16(data.take(k).subrange(p, p + 2)) == be16(data.subrange(p, p + 2)),
        p + 2 <= k ==> can_read(data.take(k), p, 2),
        k < p + 2 ==> !can_read(data.take(k), p, 2),
{
    if p + 2 <= k {
        crate::reader::lemma_take_subrange(data, k, p, p + 2);
    }
}

proof fn lemma_trunc_four_bytes(data: Seq<u8>, k: int, p: int)
    requires
        0 <= p,
        0 <= k <= data.len(),
        can_read(data, p, 4),
    ensures
        p + 4 <= k ==> data.take(k).subrange(p, p + 2) == data.subrange(p, p + 2),
        p + 4 <= k ==> data.take(k).subrange(p + 2, p + 4) == data.subrange(p + 2, p + 4),
        p + 4 <= k ==> data.take(k).subrange(p, p + 4) == data.subrange(p, p + 4),
        p + 4 <= k ==> can_read(data.take(k), p, 4),
        k < p + 4 ==> !can_read(data.take(k), p, 4),
{
    if p + 4 <= k {
        crate::reader::lemma_take_subrange(data, k, p, p + 2);
        crate::reader::lemma_take_subrange(data, k, p + 2, p + 4);
        crate::reader::lemma_take_subrange(data, k, p, p + 4);
    }
}

proof fn lemma_trunc_eight_bytes(data: Seq<u8>, k: int, p: int)
    requires
        0 <= p,
        0 <= k <= data.len(),
        can_read(data, p, 8),
    ensures
        p + 8 <= k ==> data.take(k).subrange(p, p + 4) == data.subrange(p, p + 4),
        p + 8 <= k ==> data.take(k).subrange(p + 4, p + 8) == data.subrange(p + 4, p + 8),
        p + 8 <= k ==> can_read(data.take(k), p, 8),
        k < p + 8 ==> !can_read(data.take(k), p, 8),
{
    if p + 8 <= k {
        crate::reader::lemma_take_subrange(data, k, p, p + 4);
        crate::reader::lemma_take_subrange(data, k, p + 4, p + 8);
    }
}

/// Truncating a stream turns the constant decoded at `pos` into an I/O
/// failure when the cut falls inside it, and leaves it untouched when the
/// cut falls at or past its end.
proof fn lemma_parse_constant_truncated(
    data: Seq<u8>,
    k: int,
    pos: int,
    cv: ConstantV,
    q: int,
)
    requires
        spec_parse_constant(data, pos) == Ok::<(ConstantV, int), ParseClassError>((cv, q)),
        0 <= pos,
        0 <= k <= data.len(),
    ensures
        pos < q <= data.len(),
        k < q ==> spec_parse_constant(data.take(k), pos) == Err::<
            (ConstantV, int),
            ParseClassError,
        >(ParseClassError::IoError),
        q <= k ==> spec_parse_constant(data.take(k), pos) == Ok::<
            (ConstantV, int),
            ParseClassError,
        >((cv, q)),
{
    let d = data.take(k);
    let tag = data[pos];
    let p = pos + 1;
    if pos + 1 <= k {
        assert(d[pos] == data[pos]);
    }
    if tag == 1 {
        // UTF8: length word, then the payload.
        let n = be16(data.subrange(p, p + 2));
        assert(can_read(data, p, 2) && can_read(data, p + 2, n) && q == p + 2 + n);
        lemma_trunc_two_bytes(data, k, p);
        if q <= k {
            crate::reader::lemma_take_subrange(data, k, p + 2, p + 2 + n);
        }
    } else if tag == 15 {
        assert(can_read(data, p, 1) && q == p + 3);
        if p + 1 <= k {
            assert(d[p] == data[p]);
        }
        lemma_trunc_two_bytes(data, k, p + 1);
    } else if tag == 16 || tag == 7 || tag == 8 {
        assert(can_read(data, p, 2) && q == p + 2);
        lemma_trunc_two_bytes(data, k, p);
    } else if tag == 18 || tag == 12 || tag == 9 || tag == 10 || tag == 11 {
        assert(can_read(data, p, 4) && q == p + 4);
        lemma_trunc_four_bytes(data, k, p);
    } else if tag == 3 || tag == 4 {
        assert(can_read(data, p, 4) && q == p + 4);
        lemma_trunc_four_bytes(data, k, p);
    } else {
        assert(tag == 5 || tag == 6);
        assert(can_read(data, p, 8) && q == p + 8);
        lemma_trunc_eight_bytes(data, k, p);
    }
}

/// Position lower bound: parsing `n` constants never moves backwards.
proof fn lemma_parse_constants_n_lower(data: Seq<u8>, pos: int, n: int, s: Seq<ConstantV>, q: int)
    requires
        spec_parse_constants_n(data, pos, n) == Ok::<(Seq<ConstantV>, int), ParseClassError>(
            (s, q),
        ),
        0 <= pos <= data.len(),
    ensures
        pos <= q <= data.len(),
    decreases n,
{
    if n > 0 {
        match spec_parse_constant(data, pos) {
            Ok((c, p1)) => {
                lemma_parse_constant_truncated(data, 0, pos, c, p1);
                match spec_parse_constants_n(data, p1, n - 1) {
                    Ok((rest, q2)) => {
                        lemma_parse_constants_n_lower(data, p1, n - 1, rest, q2);
                    },
                    Err(_) => {
                        assert(false);
                    },
                }
            },
            Err(_) => {
                assert(false);
            },
        }
    }
}

/// Truncating a stream turns a run of `n` constants into an I/O failure
/// when the cut falls inside the run, and leaves it untouched when the cut
/// falls at or past its end.
pub(crate) proof fn lemma_parse_constants_n_truncated(
    data: Seq<u8>,
    k: int,
    pos: int,
    n: int,
    s: Seq<ConstantV>,
    q: int,
)
    requires
        spec_parse_constants_n(data, pos, n) == Ok::<(Seq<ConstantV>, int), ParseClassError>(
            (s, q),
        ),
        0 <= pos <= k <= data.len(),
    ensures
        pos <= q <= data.len(),
        k < q ==> spec_parse_constants_n(data.take(k), pos, n) == Err::<
            (Seq<ConstantV>, int),
            ParseClassError,
        >(ParseClassError::IoError),
        q <= k ==> spec_parse_constants_n(data.take(k), pos, n) == Ok::<
            (Seq<ConstantV>, int),
            ParseClassError,
        >((s, q)),
    decreases n,
{
    lemma_parse_constants_n_lower(data, pos, n, s, q);
    if n > 0 {
        match spec_parse_constant(data, pos) {
            Ok((c, p1)) => {
                lemma_parse_constant_truncated(data, k, pos, c, p1);
                match spec_parse_constants_n(data, p1, n - 1) {
                    Ok((rest, q2)) => {
                        lemma_parse_constants_n_lower(data, p1, n - 1, rest, q2);
                        if p1 <= k {
                            lemma_parse_constants_n_truncated(data, k, p1, n - 1, rest, q2);
                        }
                    },
                    Err(_) => {
                        assert(false);
                    },
                }
            },
            Err(_) => {
                assert(false);
            },
        }
    }
}

/// Relies on `String::from_utf8` from std: it accepts exactly the byte
/// sequences that vstd's `valid_utf8` describes — rejecting overlong
/// encodings and surrogates — and decodes them to the characters vstd's
/// `decode_utf8` gives.
#[verifier::external_body]
fn utf8_from_bytes(bytes: Vec<u8>) -> (r: Option<String>)
    ensures
        r is Some <==> valid_utf8(bytes@),
        r matches Some(s) ==> s@ == decode_utf8(bytes@),
{
    String::from_utf8(bytes).ok()
}

/// Depth of the reference chain a variant may open: a handle leads to a
/// member reference, a member reference to a class or name-and-type, those
/// to text. Recursion in validation always descends in rank, so it
/// terminates on every pool, self-referential ones included.
pub open spec fn rank(c: ConstantV) -> nat {
    match c {
        ConstantV::MethodHandle { .. } => 3,
        ConstantV::Field { .. } => 2,
        ConstantV::Method { .. } => 2,
        ConstantV::InterfaceMethod { .. } => 2,
        ConstantV::InvokeDynamic { .. } => 2,
        ConstantV::Class { .. } => 1,
        ConstantV::String { .. } => 1,
        ConstantV::NameAndType { .. } => 1,
        ConstantV::MethodType { .. } => 1,
        ConstantV::Integer(_) => 0,
        ConstantV::Float(_) => 0,
        ConstantV::Long(_) => 0,
        ConstantV::Double(_) => 0,
        ConstantV::UTF8String(_) => 0,
    }
}

/// What validating one entry returns: `Ok` when each of its index fields
/// resolves, inside the pool, to an entry of the statically required
/// variant, that referent validates in turn, and — for a `NewInvokeSpecial`
/// method handle — the referenced method's resolved name is exactly
/// `<init>`. Otherwise the sub-error naming the first violated relation,
/// in the order the relations are stated. An index that leaves the pool
/// fails the same relation it would fail by resolving to a wrong variant:
/// lookups are checked, never out of bounds.
pub open spec fn spec_validate_constant(pool: Seq<ConstantV>, c: ConstantV) -> Result<
    (),
    ConstantPoolValidationError,
>
    decreases rank(c), 1int,
{
    match c {
        ConstantV::Class { name_index } => {
            if name_index < pool.len() && pool[name_index as int] is UTF8String {
                spec_validate_constant(pool, pool[name_index as int])
            } else {
                Err(ConstantPoolValidationError::ClassWithInvalidNameIndex)
            }
        },
        ConstantV::Method { class_index, name_and_type_index } => {
            if class_index < pool.len() && pool[class_index as int] is Class {
                match spec_validate_constant(pool, pool[class_index as int]) {
                    Ok(()) => {
                        if name_and_type_index < pool.len() && pool[name_and_type_index as int] is NameAndType {
                            spec_validate_constant(pool, pool[name_and_type_index as int])
                        } else {
                            Err(ConstantPoolValidationError::MethodWithInvalidNameAndTypeIndex)
                        }
                    },
                    Err(e) => Err(e),
                }
            } else {
                Err(ConstantPoolValidationError::MethodWithInvalidClassIndex)
            }
        },
        ConstantV::Field { class_index, name_and_type_index } => {
            if class_index < pool.len() && pool[class_index as int] is Class {
                match spec_validate_constant(pool, pool[class_index as int]) {
                    Ok(()) => {
                        if name_and_type_index < pool.len() && pool[name_and_type_index as int] is NameAndType {
                            spec_validate_constant(pool, pool[name_and_type_index as int])
                        } else {
                            Err(ConstantPoolValidationError::FieldWithInvalidNameAndTypeIndex)
                        }
                    },
                    Err(e) => Err(e),
                }
            } else {
                Err(ConstantPoolValidationError::FieldWithInvalidClassIndex)
            }
        },
        ConstantV::InterfaceMethod { class_index, name_and_type_index } => {
            if class_index < pool.len() && pool[class_index as int] is Class {
                match spec_validate_constant(pool, pool[class_index as int]) {
                    Ok(()) => {
                        if name_and_type_index < pool.len() && pool[name_and_type_index as int] is NameAndType {
                            spec_validate_constant(pool, pool[name_and_type_index as int])
                        } else {
                            Err(ConstantPoolValidationError::InterfaceMethodWithInvalidNameAndTypeIndex)
                        }
                    },
                    Err(e) => Err(e),
                }
            } else {
                Err(ConstantPoolValidationError::InterfaceMethodWithInvalidClassIndex)
            }
        },
        ConstantV::Integer(_) => Ok(()),
        ConstantV::Float(_) => Ok(()),
        ConstantV::Long(_) => Ok(()),
        ConstantV::Double(_) => Ok(()),
        ConstantV::UTF8String(_) => Ok(()),
        ConstantV::String { string_index } => {
            if string_index < pool.len() && pool[string_index as int] is UTF8String {
                spec_validate_constant(pool, pool[string_index as int])
            } else {
                Err(ConstantPoolValidationError::StringWithInvalidUTF8Index)
            }
        },
        ConstantV::NameAndType { name_index, descriptor_index } => {
            if name_index < pool.len() && pool[name_index as int] is UTF8String {
                match spec_validate_constant(pool, pool[name_index as int]) {
                    Ok(()) => {
                        if descriptor_index < pool.len() && pool[descriptor_index as int] is UTF8String {
                            spec_validate_constant(pool, pool[descriptor_index as int])
                        } else {
                            Err(ConstantPoolValidationError::NameAndTypeWithInvalidDescriptorIndex)
                        }
                    },
                    Err(e) => Err(e),
                }
            } else {
                Err(ConstantPoolValidationError::NameAndTypeWithInvalidNameIndex)
            }
        },
        ConstantV::InvokeDynamic { name_and_type_index, .. } => {
            if name_and_type_index < pool.len() && pool[name_and_type_index as int] is NameAndType {
                spec_validate_constant(pool, pool[name_and_type_index as int])
            } else {
                Err(ConstantPoolValidationError::InvokeDynamicWithInvalidNameAndType)
            }
        },
        ConstantV::MethodType { descriptor_index } => {
            if descriptor_index < pool.len() && pool[descriptor_index as int] is UTF8String {
                spec_validate_constant(pool, pool[descriptor_index as int])
            } else {
                Err(ConstantPoolValidationError::MethodTypeWithInvalidDescriptorIndex)
            }
        },
        ConstantV::MethodHandle { reference_kind, reference_index } => {
            spec_validate_method_handle(pool, reference_kind, reference_index)
        },
    }
}

/// The handle-specific part of validation: the referent must be a `Field`,
/// `Method` or `InterfaceMethod` matching the handle's kind, and for
/// `NewInvokeSpecial` the method's name, resolved through its
/// `NameAndType`, must be the literal `<init>`. The two lookups of that
/// chain cannot miss once the method validated; should they, the handle is
/// reported invalid rather than read out of bounds.
pub open spec fn spec_validate_method_handle(
    pool: Seq<ConstantV>,
    kind: MethodReferenceKind,
    reference_index: u16,
) -> Result<(), ConstantPoolValidationError>
    decreases 3int, 0int,
{
    match kind {
        MethodReferenceKind::GetField
        | MethodReferenceKind::GetStatic
        | MethodReferenceKind::PutField
        | MethodReferenceKind::PutStatic => {
            if reference_index < pool.len() && pool[reference_index as int] is Field {
                spec_validate_constant(pool, pool[reference_index as int])
            } else {
                Err(ConstantPoolValidationError::InvalidMethodHandle)
            }
        },
        MethodReferenceKind::InvokeVirtual
        | MethodReferenceKind::InvokeStatic
        | MethodReferenceKind::InvokeSpecial => {
            if reference_index < pool.len() && pool[reference_index as int] is Method {
                spec_validate_constant(pool, pool[reference_index as int])
            } else {
                Err(ConstantPoolValidationError::InvalidMethodHandle)
            }
        },
        MethodReferenceKind::InvokeInterface => {
            if reference_index < pool.len() && pool[reference_index as int] is InterfaceMethod {
                spec_validate_constant(pool, pool[reference_index as int])
            } else {
                Err(ConstantPoolValidationError::InvalidMethodHandle)
            }
        },
        MethodReferenceKind::NewInvokeSpecial => {
            if reference_index < pool.len() && pool[reference_index as int] is Method {
                match spec_validate_constant(pool, pool[reference_index as int]) {
                    Ok(()) => spec_new_invoke_special_name_check(
                        pool,
                        pool[reference_index as int]->Method_name_and_type_index,
                    ),
                    Err(e) => Err(e),
                }
            } else {
                Err(ConstantPoolValidationError::InvalidMethodHandle)
            }
        },
    }
}

/// The tail of the `NewInvokeSpecial` rule: from the method's
/// `NameAndType`, through its name index, to text that must be `<init>`.
pub open spec fn spec_new_invoke_special_name_check(pool: Seq<ConstantV>, nat_index: u16) -> Result<
    (),
    ConstantPoolValidationError,
> {
    if nat_index < pool.len() {
        match pool[nat_index as int] {
            ConstantV::NameAndType { name_index, .. } => {
                if name_index < pool.len() {
                    match pool[name_index as int] {
                        ConstantV::UTF8String(text) => {
                            if text == "<init>"@ {
                                Ok(())
                            } else {
                                Err(ConstantPoolValidationError::InvalidMethodHandle)
                            }
                        },
                        _ => Err(ConstantPoolValidationError::InvalidMethodHandle),
                    }
                } else {
                    Err(ConstantPoolValidationError::InvalidMethodHandle)
                }
            },
            _ => Err(ConstantPoolValidationError::InvalidMethodHandle),
        }
    } else {
        Err(ConstantPoolValidationError::InvalidMethodHandle)
    }
}

/// Checks one entry's cross-references against the pool, returning exactly
/// what [`spec_validate_constant`] states: the first violated relation's
/// sub-error, or success. Recursion descends in variant rank, so it
/// terminates on every pool.
pub fn validate_constant(constant: &Constant, pool: &Vec<Constant>) -> (r: Result<
    (),
    ConstantPoolValidationError,
>)
    ensures
        r == spec_validate_constant(pool.deep_view(), constant.deep_view()),
    decreases rank(constant.deep_view()), 1int,
{
    match constant {
        Constant::Class { name_index } => {
            let i = *name_index as usize;
            if i < pool.len() {
                match &pool[i] {
                    Constant::UTF8String(_) => validate_constant(&pool[i], pool),
                    _ => Err(ConstantPoolValidationError::ClassWithInvalidNameIndex),
                }
            } else {
                Err(ConstantPoolValidationError::ClassWithInvalidNameIndex)
            }
        },
        Constant::Method { class_index, name_and_type_index } => {
            let ci = *class_index as usize;
            if ci < pool.len() {
                match &pool[ci] {
                    Constant::Class { .. } => match validate_constant(&pool[ci], pool) {
                        Ok(()) => {
                            let ni = *name_and_type_index as usize;
                            if ni < pool.len() {
                                match &pool[ni] {
                                    Constant::NameAndType { .. } => validate_constant(&pool[ni], pool),
                                    _ => Err(ConstantPoolValidationError::MethodWithInvalidNameAndTypeIndex),
                                }
                            } else {
                                Err(ConstantPoolValidationError::MethodWithInvalidNameAndTypeIndex)
                            }
                        },
                        Err(e) => Err(e),
                    },
                    _ => Err(ConstantPoolValidationError::MethodWithInvalidClassIndex),
                }
            } else {
                Err(ConstantPoolValidationError::MethodWithInvalidClassIndex)
            }
        },
        Constant::Field { class_index, name_and_type_index } => {
            let ci = *class_index as usize;
            if ci < pool.len() {
                match &pool[ci] {
                    Constant::Class { .. } => match validate_constant(&pool[ci], pool) {
                        Ok(()) => {
                            let ni = *name_and_type_index as usize;
                            if ni < pool.len() {
                                match &pool[ni] {
                                    Constant::NameAndType { .. } => validate_constant(&pool[ni], pool),
                                    _ => Err(ConstantPoolValidationError::FieldWithInvalidNameAndTypeIndex),
                                }
                            } else {
                                Err(ConstantPoolValidationError::FieldWithInvalidNameAndTypeIndex)
                            }
                        },
                        Err(e) => Err(e),
                    },
                    _ => Err(ConstantPoolValidationError::FieldWithInvalidClassIndex),
                }
            } else {
                Err(ConstantPoolValidationError::FieldWithInvalidClassIndex)
            }
        },
        Constant::InterfaceMethod { class_index, name_and_type_index } => {
            let ci = *class_index as usize;
            if ci < pool.len() {
                match &pool[ci] {
                    Constant::Class { .. } => match validate_constant(&pool[ci], pool) {
                        Ok(()) => {
                            let ni = *name_and_type_index as usize;
                            if ni < pool.len() {
                                match &pool[ni] {
                                    Constant::NameAndType { .. } => validate_constant(&pool[ni], pool),
                                    _ => Err(ConstantPoolValidationError::InterfaceMethodWithInvalidNameAndTypeIndex),
                                }
                            } else {
                                Err(ConstantPoolValidationError::InterfaceMethodWithInvalidNameAndTypeIndex)
                            }
                        },
                        Err(e) => Err(e),
                    },
                    _ => Err(ConstantPoolValidationError::InterfaceMethodWithInvalidClassIndex),
                }
            } else {
                Err(ConstantPoolValidationError::InterfaceMethodWithInvalidClassIndex)
            }
        },
        Constant::Integer(_) => Ok(()),
        Constant::Float(_) => Ok(()),
        Constant::Long(_) => Ok(()),
        Constant::Double(_) => Ok(()),
        Constant::UTF8String(_) => Ok(()),
        Constant::String { string_index } => {
            let i = *string_index as usize;
            if i < pool.len() {
                match &pool[i] {
                    Constant::UTF8String(_) => validate_constant(&pool[i], pool),
                    _ => Err(ConstantPoolValidationError::StringWithInvalidUTF8Index),
                }
            } else {
                Err(ConstantPoolValidationError::StringWithInvalidUTF8Index)
            }
        },
        Constant::NameAndType { name_index, descriptor_index } => {
            let ni = *name_index as usize;
            if ni < pool.len() {
                match &pool[ni] {
                    Constant::UTF8String(_) => match validate_constant(&pool[ni], pool) {
                        Ok(()) => {
                            let di = *descriptor_index as usize;
                            if di < pool.len() {
                                match &pool[di] {
                                    Constant::UTF8String(_) => validate_constant(&pool[di], pool),
                                    _ => Err(ConstantPoolValidationError::NameAndTypeWithInvalidDescriptorIndex),
                                }
                            } else {
                                Err(ConstantPoolValidationError::NameAndTypeWithInvalidDescriptorIndex)
                            }
                        },
                        Err(e) => Err(e),
                    },
                    _ => Err(ConstantPoolValidationError::NameAndTypeWithInvalidNameIndex),
                }
            } else {
                Err(ConstantPoolValidationError::NameAndTypeWithInvalidNameIndex)
            }
        },
        Constant::InvokeDynamic { name_and_type_index, .. } => {
            let ni = *name_and_type_index as usize;
            if ni < pool.len() {
                match &pool[ni] {
                    Constant::NameAndType { .. } => validate_constant(&pool[ni], pool),
                    _ => Err(ConstantPoolValidationError::InvokeDynamicWithInvalidNameAndType),
                }
            } else {
                Err(ConstantPoolValidationError::InvokeDynamicWithInvalidNameAndType)
            }
        },
        Constant::MethodType { descriptor_index } => {
            let di = *descriptor_index as usize;
            if di < pool.len() {
                match &pool[di] {
                    Constant::UTF8String(_) => validate_constant(&pool[di], pool),
                    _ => Err(ConstantPoolValidationError::MethodTypeWithInvalidDescriptorIndex),
                }
            } else {
                Err(ConstantPoolValidationError::MethodTypeWithInvalidDescriptorIndex)
            }
        },
        Constant::MethodHandle { reference_kind, reference_index } => {
            validate_method_handle(*reference_kind, *reference_index, pool)
        },
    }
}

fn validate_method_handle(
    kind: MethodReferenceKind,
    reference_index: u16,
    pool: &Vec<Constant>,
) -> (r: Result<(), ConstantPoolValidationError>)
    ensures
        r == spec_validate_method_handle(pool.deep_view(), kind, reference_index),
    decreases 3int, 0int,
{
    let ri = reference_index as usize;
    match kind {
        MethodReferenceKind::GetField
        | MethodReferenceKind::GetStatic
        | MethodReferenceKind::PutField
        | MethodReferenceKind::PutStatic => {
            if ri < pool.len() {
                match &pool[ri] {
                    Constant::Field { .. } => validate_constant(&pool[ri], pool),
                    _ => Err(ConstantPoolValidationError::InvalidMethodHandle),
                }
            } else {
                Err(ConstantPoolValidationError::InvalidMethodHandle)
            }
        },
        MethodReferenceKind::InvokeVirtual
        | MethodReferenceKind::InvokeStatic
        | MethodReferenceKind::InvokeSpecial => {
            if ri < pool.len() {
                match &pool[ri] {
                    Constant::Method { .. } => validate_constant(&pool[ri], pool),
                    _ => Err(ConstantPoolValidationError::InvalidMethodHandle),
                }
            } else {
                Err(ConstantPoolValidationError::InvalidMethodHandle)
            }
        },
        MethodReferenceKind::InvokeInterface => {
            if ri < pool.len() {
                match &pool[ri] {
                    Constant::InterfaceMethod { .. } => validate_constant(&pool[ri], pool),
                    _ => Err(ConstantPoolValidationError::InvalidMethodHandle),
                }
            } else {
                Err(ConstantPoolValidationError::InvalidMethodHandle)
            }
        },
        MethodReferenceKind::NewInvokeSpecial => {
            if ri < pool.len() {
                match &pool[ri] {
                    Constant::Method { name_and_type_index, .. } => {
                        let nat_i = *name_and_type_index;
                        match validate_constant(&pool[ri], pool) {
                            Ok(()) => new_invoke_special_name_check(nat_i, pool),
                            Err(e) => Err(e),
                        }
                    },
                    _ => Err(ConstantPoolValidationError::InvalidMethodHandle),
                }
            } else {
                Err(ConstantPoolValidationError::InvalidMethodHandle)
            }
        },
    }
}

fn new_invoke_special_name_check(nat_index: u16, pool: &Vec<Constant>) -> (r: Result<
    (),
    ConstantPoolValidationError,
>)
    ensures
        r == spec_new_invoke_special_name_check(pool.deep_view(), nat_index),
{
    let ni = nat_index as usize;
    if ni < pool.len() {
        match &pool[ni] {
            Constant::NameAndType { name_index, .. } => {
                let mi = *name_index as usize;
                if mi < pool.len() {
                    match &pool[mi] {
                        Constant::UTF8String(text) => {
                            let init: String = "<init>".to_owned();
                            if *text == init {
                                Ok(())
                            } else {
                                Err(ConstantPoolValidationError::InvalidMethodHandle)
                            }
                        },
                        _ => Err(ConstantPoolValidationError::InvalidMethodHandle),
                    }
                } else {
                    Err(ConstantPoolValidationError::InvalidMethodHandle)
                }
            },
            _ => Err(ConstantPoolValidationError::InvalidMethodHandle),
        }
    } else {
        Err(ConstantPoolValidationError::InvalidMethodHandle)
    }
}

/// What validating the whole pool returns: walking the entries in order,
/// the first entry that breaks a relation turns into that relation's
/// sub-error; a pool whose entries all pass is accepted.
pub open spec fn spec_validate_pool_from(pool: Seq<ConstantV>, i: int) -> Result<
    (),
    ParseClassError,
>
    decreases pool.len() - i,
{
    if i < 0 || i >= pool.len() {
        Ok(())
    } else {
        match spec_validate_constant(pool, pool[i]) {
            Ok(()) => spec_validate_pool_from(pool, i + 1),
            Err(e) => Err(ParseClassError::ConstantPoolValidationError(e)),
        }
    }
}

/// See [`spec_validate_pool_from`]; the walk starts at the first entry.
pub open spec fn spec_validate_pool(pool: Seq<ConstantV>) -> Result<(), ParseClassError> {
    spec_validate_pool_from(pool, 0)
}

/// Validates every entry of the pool, in order, stopping at the first
/// violation. Validation is pure: the outcome is exactly
/// [`spec_validate_pool`] of the pool's value — a function of the pool
/// alone, the same on every run — and the pool itself is only read.
pub fn validate_constant_pool(constant_pool: &Vec<Constant>) -> (r: Result<(), ParseClassError>)
    ensures
        r == spec_validate_pool(constant_pool.deep_view()),
{
    let ghost pv = constant_pool.deep_view();
    let mut i: usize = 0;
    while i < constant_pool.len()
        invariant
            i <= constant_pool@.len(),
            pv == constant_pool.deep_view(),
            spec_validate_pool_from(pv, 0) == spec_validate_pool_from(pv, i as int),
        decreases constant_pool@.len() - i,
    {
        match validate_constant(&constant_pool[i], constant_pool) {
            Ok(()) => {},
            Err(e) => {
                return Err(ParseClassError::ConstantPoolValidationError(e));
            },
        }
        i = i + 1;
    }
    Ok(())
}

/// Decodes the constant at the cursor: one tag byte, then the payload the
/// tag demands, exactly as [`spec_parse_constant`] states. On success the
/// cursor rests just past the constant; every failure is the one the spec
/// names for this input.
pub fn parse_constant(r: &mut ByteReader) -> (res: Result<Constant, ParseClassError>)
    ensures
        final(r).data@ == old(r).data@,
        match spec_parse_constant(old(r).data@, old(r).pos as int) {
            Ok((cv, p)) => res matches Ok(c) && c.deep_view() == cv && final(r).pos == p,
            Err(e) => res matches Err(e2) && e2 == e,
        },
{
    let tag = match r.read_u8() {
        Ok(t) => t,
        Err(e) => {
            return Err(e);
        },
    };
    match tag {
        1 => parse_utf8_constant(r),
        3 => parse_integer_constant(r),
        4 => parse_float_constant(r),
        5 => parse_long_constant(r),
        6 => parse_double_constant(r),
        7 => parse_class_ref_constant(r),
        8 => parse_string_ref_constant(r),
        9 => parse_field_ref_constant(r),
        10 => parse_method_ref_constant(r),
        11 => parse_interface_method_ref_constant(r),
        12 => parse_name_and_type_constant(r),
        15 => parse_method_handle_constant(r),
        16 => parse_method_type_constant(r),
        18 => parse_invoke_dynamic_constant(r),
        _ => Err(ParseClassError::UnrecognizedConstantTag),
    }
}

fn parse_utf8_constant(r: &mut ByteReader) -> (res: Result<Constant, ParseClassError>)
    ensures
        final(r).data@ == old(r).data@,
        match spec_parse_utf8(old(r).data@, old(r).pos as int) {
            Ok((cv, p)) => res matches Ok(c) && c.deep_view() == cv && final(r).pos == p,
            Err(e) => res matches Err(e2) && e2 == e,
        },
{
    let n = match r.read_u16() {
        Ok(v) => v,
        Err(e) => {
            return Err(e);
        },
    };
    let bytes = match r.read_bytes(n as usize) {
        Ok(b) => b,
        Err(e) => {
            return Err(e);
        },
    };
    match utf8_from_bytes(bytes) {
        Some(s) => Ok(Constant::UTF8String(s)),
        None => Err(ParseClassError::InvalidUTF8Constant),
    }
}

fn parse_integer_constant(r: &mut ByteReader) -> (res: Result<Constant, ParseClassError>)
    ensures
        final(r).data@ == old(r).data@,
        match spec_parse_integer(old(r).data@, old(r).pos as int) {
            Ok((cv, p)) => res matches Ok(c) && c.deep_view() == cv && final(r).pos == p,
            Err(e) => res matches Err(e2) && e2 == e,
        },
{
    let v = match r.read_u32() {
        Ok(v) => v,
        Err(e) => {
            return Err(e);
        },
    };
    Ok(Constant::Integer(crate::big_endian::i32_from_bits(v)))
}

fn parse_float_constant(r: &mut ByteReader) -> (res: Result<Constant, ParseClassError>)
    ensures
        final(r).data@ == old(r).data@,
        match spec_parse_float(old(r).data@, old(r).pos as int) {
            Ok((cv, p)) => res matches Ok(c) && c.deep_view() == cv && final(r).pos == p,
            Err(e) => res matches Err(e2) && e2 == e,
        },
{
    let v = match r.read_u32() {
        Ok(v) => v,
        Err(e) => {
            return Err(e);
        },
    };
    Ok(Constant::Float(v))
}

fn parse_long_constant(r: &mut ByteReader) -> (res: Result<Constant, ParseClassError>)
    ensures
        final(r).data@ == old(r).data@,
        match spec_parse_long(old(r).data@, old(r).pos as int) {
            Ok((cv, p)) => res matches Ok(c) && c.deep_view() == cv && final(r).pos == p,
            Err(e) => res matches Err(e2) && e2 == e,
        },
{
    let high = match r.read_u32() {
        Ok(v) => v,
        Err(e) => {
            return Err(e);
        },
    };
    let low = match r.read_u32() {
        Ok(v) => v,
        Err(e) => {
            return Err(e);
        },
    };
    let u: u64 = (high as u64) * 0x100000000 + (low as u64);
    Ok(Constant::Long(crate::big_endian::i64_from_bits(u)))
}

fn parse_double_constant(r: &mut ByteReader) -> (res: Result<Constant, ParseClassError>)
    ensures
        final(r).data@ == old(r).data@,
        match spec_parse_double(old(r).data@, old(r).pos as int) {
            Ok((cv, p)) => res matches Ok(c) && c.deep_view() == cv && final(r).pos == p,
            Err(e) => res matches Err(e2) && e2 == e,
        },
{
    let high = match r.read_u32() {
        Ok(v) => v,
        Err(e) => {
            return Err(e);
        },
    };
    let low = match r.read_u32() {
        Ok(v) => v,
        Err(e) => {
            return Err(e);
        },
    };
    let u: u64 = (high as u64) * 0x100000000 + (low as u64);
    Ok(Constant::Double(u))
}

fn parse_class_ref_constant(r: &mut ByteReader) -> (res: Result<Constant, ParseClassError>)
    ensures
        final(r).data@ == old(r).data@,
        match spec_parse_class_ref(old(r).data@, old(r).pos as int) {
            Ok((cv, p)) => res matches Ok(c) && c.deep_view() == cv && final(r).pos == p,
            Err(e) => res matches Err(e2) && e2 == e,
        },
{
    let raw = match r.read_u16() {
        Ok(v) => v,
        Err(e) => {
            return Err(e);
        },
    };
    Ok(Constant::Class { name_index: index_from_raw(raw) })
}

fn parse_string_ref_constant(r: &mut ByteReader) -> (res: Result<Constant, ParseClassError>)
    ensures
        final(r).data@ == old(r).data@,
        match spec_parse_string_ref(old(r).data@, old(r).pos as int) {
            Ok((cv, p)) => res matches Ok(c) && c.deep_view() == cv && final(r).pos == p,
            Err(e) => res matches Err(e2) && e2 == e,
        },
{
    let raw = match r.read_u16() {
        Ok(v) => v,
        Err(e) => {
            return Err(e);
        },
    };
    Ok(Constant::String { string_index: index_from_raw(raw) })
}

fn parse_field_ref_constant(r: &mut ByteReader) -> (res: Result<Constant, ParseClassError>)
    ensures
        final(r).data@ == old(r).data@,
        match spec_parse_field_ref(old(r).data@, old(r).pos as int) {
            Ok((cv, p)) => res matches Ok(c) && c.deep_view() == cv && final(r).pos == p,
            Err(e) => res matches Err(e2) && e2 == e,
        },
{
    let ci = match r.read_u16() {
        Ok(v) => v,
        Err(e) => {
            return Err(e);
        },
    };
    let ni = match r.read_u16() {
        Ok(v) => v,
        Err(e) => {
            return Err(e);
        },
    };
    Ok(Constant::Field { class_index: index_from_raw(ci), name_and_type_index: index_from_raw(ni) })
}

fn parse_method_ref_constant(r: &mut ByteReader) -> (res: Result<Constant, ParseClassError>)
    ensures
        final(r).data@ == old(r).data@,
        match spec_parse_method_ref(old(r).data@, old(r).pos as int) {
            Ok((cv, p)) => res matches Ok(c) && c.deep_view() == cv && final(r).pos == p,
            Err(e) => res matches Err(e2) && e2 == e,
        },
{
    let ci = match r.read_u16() {
        Ok(v) => v,
        Err(e) => {
            return Err(e);
        },
    };
    let ni = match r.read_u16() {
        Ok(v) => v,
        Err(e) => {
            return Err(e);
        },
    };
    Ok(Constant::Method { class_index: index_from_raw(ci), name_and_type_index: index_from_raw(ni) })
}

fn parse_interface_method_ref_constant(r: &mut ByteReader) -> (res: Result<
    Constant,
    ParseClassError,
>)
    ensures
        final(r).data@ == old(r).data@,
        match spec_parse_interface_method_ref(old(r).data@, old(r).pos as int) {
            Ok((cv, p)) => res matches Ok(c) && c.deep_view() == cv && final(r).pos == p,
            Err(e) => res matches Err(e2) && e2 == e,
        },
{
    let ci = match r.read_u16() {
        Ok(v) => v,
        Err(e) => {
            return Err(e);
        },
    };
    let ni = match r.read_u16() {
        Ok(v) => v,
        Err(e) => {
            return Err(e);
        },
    };
    Ok(
        Constant::InterfaceMethod {
            class_index: index_from_raw(ci),
            name_and_type_index: index_from_raw(ni),
        },
    )
}

fn parse_name_and_type_constant(r: &mut ByteReader) -> (res: Result<Constant, ParseClassError>)
    ensures
        final(r).data@ == old(r).data@,
        match spec_parse_name_and_type(old(r).data@, old(r).pos as int) {
            Ok((cv, p)) => res matches Ok(c) && c.deep_view() == cv && final(r).pos == p,
            Err(e) => res matches Err(e2) && e2 == e,
        },
{
    let ni = match r.read_u16() {
        Ok(v) => v,
        Err(e) => {
            return Err(e);
        },
    };
    let di = match r.read_u16() {
        Ok(v) => v,
        Err(e) => {
            return Err(e);
        },
    };
    Ok(
        Constant::NameAndType {
            name_index: index_from_raw(ni),
            descriptor_index: index_from_raw(di),
        },
    )
}

fn parse_method_handle_constant(r: &mut ByteReader) -> (res: Result<Constant, ParseClassError>)
    ensures
        final(r).data@ == old(r).data@,
        match spec_parse_method_handle(old(r).data@, old(r).pos as int) {
            Ok((cv, p)) => res matches Ok(c) && c.deep_view() == cv && final(r).pos == p,
            Err(e) => res matches Err(e2) && e2 == e,
        },
{
    let kind_byte = match r.read_u8() {
        Ok(b) => b,
        Err(e) => {
            return Err(e);
        },
    };
    match MethodReferenceKind::from_u8(kind_byte) {
        Some(kind) => {
            let raw = match r.read_u16() {
                Ok(v) => v,
                Err(e) => {
                    return Err(e);
                },
            };
            Ok(
                Constant::MethodHandle {
                    reference_kind: kind,
                    reference_index: index_from_raw(raw),
                },
            )
        },
        None => Err(ParseClassError::InvalidMethodHandleReferenceKind),
    }
}

fn parse_method_type_constant(r: &mut ByteReader) -> (res: Result<Constant, ParseClassError>)
    ensures
        final(r).data@ == old(r).data@,
        match spec_parse_method_type(old(r).data@, old(r).pos as int) {
            Ok((cv, p)) => res matches Ok(c) && c.deep_view() == cv && final(r).pos == p,
            Err(e) => res matches Err(e2) && e2 == e,
        },
{
    let raw = match r.read_u16() {
        Ok(v) => v,
        Err(e) => {
            return Err(e);
        },
    };
    Ok(Constant::MethodType { descriptor_index: index_from_raw(raw) })
}

fn parse_invoke_dynamic_constant(r: &mut ByteReader) -> (res: Result<Constant, ParseClassError>)
    ensures
        final(r).data@ == old(r).data@,
        match spec_parse_invoke_dynamic(old(r).data@, old(r).pos as int) {
            Ok((cv, p)) => res matches Ok(c) && c.deep_view() == cv && final(r).pos == p,
            Err(e) => res matches Err(e2) && e2 == e,
        },
{
    let bi = match r.read_u16() {
        Ok(v) => v,
        Err(e) => {
            return Err(e);
        },
    };
    let ni = match r.read_u16() {
        Ok(v) => v,
        Err(e) => {
            return Err(e);
        },
    };
    Ok(
        Constant::InvokeDynamic {
            bootstrap_method_attr_index: index_from_raw(bi),
            name_and_type_index: index_from_raw(ni),
        },
    )
}

/// `n` consecutive constants starting at `pos`: the pool's body. No entry
/// is skipped or merged; Long and Double take one slot each here.
pub open spec fn spec_parse_constants_n(data: Seq<u8>, pos: int, n: int) -> Result<
    (Seq<ConstantV>, int),
    ParseClassError,
>
    decreases n,
{
    if n <= 0 {
        Ok((seq![], pos))
    } else {
        match spec_parse_constant(data, pos) {
            Ok((c, p)) => match spec_parse_constants_n(data, p, n - 1) {
                Ok((rest, p2)) => Ok((seq![c] + rest, p2)),
                Err(e) => Err(e),
            },
            Err(e) => Err(e),
        }
    }
}

/// Reads exactly `n` constants in order, exactly as
/// [`spec_parse_constants_n`] states.
#[verifier::loop_isolation(false)]
pub fn parse_constants(r: &mut ByteReader, n: u16) -> (res: Result<Vec<Constant>, ParseClassError>)
    ensures
        final(r).data@ == old(r).data@,
        match spec_parse_constants_n(old(r).data@, old(r).pos as int, n as int) {
            Ok((cvs, p)) => res matches Ok(v) && v.deep_view() == cvs && final(r).pos == p,
            Err(e) => res matches Err(e2) && e2 == e,
        },
{
    let ghost data = r.data@;
    let ghost start = r.pos as int;
    let mut constants: Vec<Constant> = Vec::new();
    let mut i: usize = 0;
    while i < n as usize
        invariant
            i <= n as usize,
            r.data@ == data,
            spec_parse_constants_n(data, start, n as int) == (match spec_parse_constants_n(
                data,
                r.pos as int,
                n as int - i as int,
            ) {
                Ok((rest, p2)) => Ok::<(Seq<ConstantV>, int), ParseClassError>(
                    (constants.deep_view() + rest, p2),
                ),
                Err(e) => Err(e),
            }),
        decreases n as int - i as int,
    {
        let ghost done_pre = constants.deep_view();
        let c = match parse_constant(r) {
            Ok(c) => c,
            Err(e) => {
                return Err(e);
            },
        };
        constants.push(c);
        i = i + 1;
        proof {
            match spec_parse_constants_n(data, r.pos as int, n as int - i as int) {
                Ok((rest, p2)) => {
                    assert(done_pre.push(c.deep_view()) =~= done_pre + seq![c.deep_view()]);
                    assert((done_pre + seq![c.deep_view()]) + rest =~= done_pre + (
                    seq![c.deep_view()] + rest));
                    assert(constants.deep_view() =~= done_pre.push(c.deep_view()));
                },
                Err(_) => {},
            }
        }
    }
    Ok(constants)
}

/// Law: the pool passes as a whole exactly when every entry passes on its
/// own; there is no partially trusted pool.
pub proof fn lemma_pool_valid_iff_entries_valid(pool: Seq<ConstantV>)
    ensures
        spec_validate_pool(pool) is Ok <==> (forall|i: int|
            0 <= i < pool.len() ==> spec_validate_constant(pool, #[trigger] pool[i]) is Ok),
{
    lemma_pool_from_ok(pool, 0);
}

proof fn lemma_pool_from_ok(pool: Seq<ConstantV>, i: int)
    requires
        0 <= i <= pool.len(),
    ensures
        spec_validate_pool_from(pool, i) is Ok <==> (forall|j: int|
            i <= j < pool.len() ==> spec_validate_constant(pool, #[trigger] pool[j]) is Ok),
    decreases pool.len() - i,
{
    if i < pool.len() {
        lemma_pool_from_ok(pool, i + 1);
    }
}

/// Law: if every entry before position `i` passes and the entry at `i`
/// fails with sub-error `e`, the whole pool is rejected with exactly that
/// sub-error.
pub proof fn lemma_first_invalid_entry_rejects_pool(
    pool: Seq<ConstantV>,
    i: int,
    e: ConstantPoolValidationError,
)
    requires
        0 <= i < pool.len(),
        spec_validate_constant(pool, pool[i]) == Err::<(), ConstantPoolValidationError>(e),
        forall|j: int| 0 <= j < i ==> spec_validate_constant(pool, #[trigger] pool[j]) is Ok,
    ensures
        spec_validate_pool(pool) == Err::<(), ParseClassError>(
            ParseClassError::ConstantPoolValidationError(e),
        ),
{
    lemma_pool_from_err(pool, 0, i, e);
}

proof fn lemma_pool_from_err(pool: Seq<ConstantV>, k: int, i: int, e: ConstantPoolValidationError)
    requires
        0 <= k <= i < pool.len(),
        spec_validate_constant(pool, pool[i]) == Err::<(), ConstantPoolValidationError>(e),
        forall|j: int| k <= j < i ==> spec_validate_constant(pool, #[trigger] pool[j]) is Ok,
    ensures
        spec_validate_pool_from(pool, k) == Err::<(), ParseClassError>(
            ParseClassError::ConstantPoolValidationError(e),
        ),
    decreases i - k,
{
    if k < i {
        lemma_pool_from_err(pool, k + 1, i, e);
    }
}

/// Law: for a `NewInvokeSpecial` method handle whose referent is a method
/// that itself validates, validation of the handle succeeds exactly when
/// the method's resolved name — through its `NameAndType` and that record's
/// name index — is the literal `<init>`; any other text is rejected with
/// the handle's own sub-error.
pub proof fn lemma_new_invoke_special_requires_init(
    pool: Seq<ConstantV>,
    reference_index: u16,
    nat_index: u16,
    name_index: u16,
    text: Seq<char>,
)
    requires
        reference_index < pool.len(),
        pool[reference_index as int] is Method,
        pool[reference_index as int]->Method_name_and_type_index == nat_index,
        spec_validate_constant(pool, pool[reference_index as int]) is Ok,
        nat_index < pool.len(),
        pool[nat_index as int] is NameAndType,
        pool[nat_index as int]->NameAndType_name_index == name_index,
        name_index < pool.len(),
        pool[name_index as int] == ConstantV::UTF8String(text),
    ensures
        spec_validate_constant(
            pool,
            ConstantV::MethodHandle {
                reference_kind: MethodReferenceKind::NewInvokeSpecial,
                reference_index,
            },
        ) is Ok <==> text == "<init>"@,
        text != "<init>"@ ==> spec_validate_constant(
            pool,
            ConstantV::MethodHandle {
                reference_kind: MethodReferenceKind::NewInvokeSpecial,
                reference_index,
            },
        ) == Err::<(), ConstantPoolValidationError>(
            ConstantPoolValidationError::InvalidMethodHandle,
        ),
{
    let h = ConstantV::MethodHandle {
        reference_kind: MethodReferenceKind::NewInvokeSpecial,
        reference_index,
    };
    assert(spec_validate_constant(pool, h) == spec_validate_method_handle(
        pool,
        MethodReferenceKind::NewInvokeSpecial,
        reference_index,
    ));
    assert(spec_validate_method_handle(
        pool,
        MethodReferenceKind::NewInvokeSpecial,
        reference_index,
    ) == spec_new_invoke_special_name_check(pool, nat_index));
}

} // verus!
