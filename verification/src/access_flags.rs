//! Access-flag words of classes, fields and methods.
//!
//! Each flag word is a 16-bit mask whose recognized bits are fixed by the
//! class-file format. Decoding is exact: a word carrying any bit outside
//! the recognized vocabulary is rejected, never silently masked.

use vstd::prelude::*;

verus! {

pub const CLASS_ACC_PUBLIC: u16 = 0x0001;

pub const CLASS_ACC_FINAL: u16 = 0x0010;

pub const CLASS_ACC_SUPER: u16 = 0x0020;

pub const CLASS_ACC_INTERFACE: u16 = 0x0200;

pub const CLASS_ACC_ABSTRACT: u16 = 0x0400;

pub const CLASS_ACC_SYNTHETIC: u16 = 0x1000;

pub const CLASS_ACC_ANNOTATION: u16 = 0x2000;

pub const CLASS_ACC_ENUM: u16 = 0x4000;

/// Every bit a class access-flag word may carry.
pub const CLASS_FLAGS_MASK: u16 = CLASS_ACC_PUBLIC | CLASS_ACC_FINAL | CLASS_ACC_SUPER
    | CLASS_ACC_INTERFACE | CLASS_ACC_ABSTRACT | CLASS_ACC_SYNTHETIC | CLASS_ACC_ANNOTATION
    | CLASS_ACC_ENUM;

pub const FIELD_ACC_PUBLIC: u16 = 0x0001;

pub const FIELD_ACC_PRIVATE: u16 = 0x0002;

pub const FIELD_ACC_PROTECTED: u16 = 0x0004;

pub const FIELD_ACC_STATIC: u16 = 0x0008;

pub const FIELD_ACC_FINAL: u16 = 0x0010;

pub const FIELD_ACC_VOLATILE: u16 = 0x0040;

pub const FIELD_ACC_TRANSIENT: u16 = 0x0080;

pub const FIELD_ACC_SYNTHETIC: u16 = 0x1000;

pub const FIELD_ACC_ENUM: u16 = 0x4000;

/// Every bit a field access-flag word may carry.
pub const FIELD_FLAGS_MASK: u16 = FIELD_ACC_PUBLIC | FIELD_ACC_PRIVATE | FIELD_ACC_PROTECTED
    | FIELD_ACC_STATIC | FIELD_ACC_FINAL | FIELD_ACC_VOLATILE | FIELD_ACC_TRANSIENT
    | FIELD_ACC_SYNTHETIC | FIELD_ACC_ENUM;

pub const METHOD_ACC_PUBLIC: u16 = 0x0001;

pub const METHOD_ACC_PRIVATE: u16 = 0x0002;

pub const METHOD_ACC_PROTECTED: u16 = 0x0004;

pub const METHOD_ACC_STATIC: u16 = 0x0008;

pub const METHOD_ACC_FINAL: u16 = 0x0010;

pub const METHOD_ACC_SYNCHRONIZED: u16 = 0x0020;

pub const METHOD_ACC_BRIDGE: u16 = 0x0040;

pub const METHOD_ACC_VARARGS: u16 = 0x0080;

pub const METHOD_ACC_NATIVE: u16 = 0x0100;

pub const METHOD_ACC_ABSTRACT: u16 = 0x0400;

pub const METHOD_ACC_STRICT: u16 = 0x0800;

pub const METHOD_ACC_SYNTHETIC: u16 = 0x1000;

/// Every bit a method access-flag word may carry.
pub const METHOD_FLAGS_MASK: u16 = METHOD_ACC_PUBLIC | METHOD_ACC_PRIVATE | METHOD_ACC_PROTECTED
    | METHOD_ACC_STATIC | METHOD_ACC_FINAL | METHOD_ACC_SYNCHRONIZED | METHOD_ACC_BRIDGE
    | METHOD_ACC_VARARGS | METHOD_ACC_NATIVE | METHOD_ACC_ABSTRACT | METHOD_ACC_STRICT
    | METHOD_ACC_SYNTHETIC;

/// Access-flag word of a class.
#[derive(Debug, PartialEq, Eq, Clone, Copy)]
pub struct ClassAccessFlags {
    pub bits: u16,
}

/// Access-flag word of a field.
#[derive(Debug, PartialEq, Eq, Clone, Copy)]
pub struct FieldAccessFlags {
    pub bits: u16,
}

/// Access-flag word of a method.
#[derive(Debug, PartialEq, Eq, Clone, Copy)]
pub struct MethodAccessFlags {
    pub bits: u16,
}

pub open spec fn spec_class_flags_from_bits(bits: u16) -> Option<ClassAccessFlags> {
    if bits & !CLASS_FLAGS_MASK == 0 {
        Some(ClassAccessFlags { bits })
    } else {
        None
    }
}

pub open spec fn spec_field_flags_from_bits(bits: u16) -> Option<FieldAccessFlags> {
    if bits & !FIELD_FLAGS_MASK == 0 {
        Some(FieldAccessFlags { bits })
    } else {
        None
    }
}

pub open spec fn spec_method_flags_from_bits(bits: u16) -> Option<MethodAccessFlags> {
    if bits & !METHOD_FLAGS_MASK == 0 {
        Some(MethodAccessFlags { bits })
    } else {
        None
    }
}

impl ClassAccessFlags {
    /// Accepts the word exactly when every set bit is a recognized class flag.
    pub fn from_bits(bits: u16) -> (r: Option<ClassAccessFlags>)
        ensures
            r == spec_class_flags_from_bits(bits),
    {
        if bits & !CLASS_FLAGS_MASK == 0 {
            Some(ClassAccessFlags { bits })
        } else {
            None
        }
    }
}

impl FieldAccessFlags {
    /// Accepts the word exactly when every set bit is a recognized field flag.
    pub fn from_bits(bits: u16) -> (r: Option<FieldAccessFlags>)
        ensures
            r == spec_field_flags_from_bits(bits),
    {
        if bits & !FIELD_FLAGS_MASK == 0 {
            Some(FieldAccessFlags { bits })
        } else {
            None
        }
    }
}

impl MethodAccessFlags {
    /// Accepts the word exactly when every set bit is a recognized method flag.
    pub fn from_bits(bits: u16) -> (r: Option<MethodAccessFlags>)
        ensures
            r == spec_method_flags_from_bits(bits),
    {
        if bits & !METHOD_FLAGS_MASK == 0 {
            Some(MethodAccessFlags { bits })
        } else {
            None
        }
    }
}

} // verus!
