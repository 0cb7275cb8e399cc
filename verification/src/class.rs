//! The class aggregate and the errors of a whole parse.

use vstd::prelude::*;
use crate::access_flags::{spec_class_flags_from_bits, ClassAccessFlags};
use crate::attribute::{parse_attributes, spec_parse_attributes, Attribute, AttributeV};
use crate::big_endian::{be16, be32};
use crate::constant_pool::{
    index_from_raw, parse_constants, spec_index_from_raw, spec_parse_constants_n,
    spec_validate_pool, validate_constant_pool, Constant, ConstantPoolValidationError, ConstantV,
};
use crate::field::{parse_fields, spec_parse_fields, Field, FieldParseError, FieldV};
use crate::method::{parse_methods, spec_parse_methods, Method, MethodParseError, MethodV};
use crate::reader::{can_read, ByteReader};

verus! {

/// The four bytes every class file must open with.
pub const MAGIC: u32 = 0xcafebabe;

/// The version pair a class was compiled for.
#[derive(Debug, PartialEq, Eq, Clone, Copy)]
pub struct JavaVersion {
    pub minor: u16,
    pub major: u16,
}

impl JavaVersion {
    /// Reads the minor then the major version from four big-endian bytes.
    pub fn parse(bytes: [u8; 4]) -> (r: Self)
        ensures
            r.minor == be16(bytes@.subrange(0, 2)),
            r.major == be16(bytes@.subrange(2, 4)),
    {
        let minor = crate::big_endian::parse_u16([bytes[0], bytes[1]]);
        let major = crate::big_endian::parse_u16([bytes[2], bytes[3]]);
        assert(bytes@.subrange(0, 2)[0] == bytes@[0] && bytes@.subrange(0, 2)[1] == bytes@[1]);
        assert(bytes@.subrange(2, 4)[0] == bytes@[2] && bytes@.subrange(2, 4)[1] == bytes@[3]);
        JavaVersion { minor, major }
    }
}

/// Everything that can end a parse. Every failure is terminal: no partial
/// class value is ever returned beside one of these.
#[derive(Debug, PartialEq, Eq, Clone, Copy)]
pub enum ParseClassError {
    /// The stream ended before a requested read was satisfied.
    IoError,
    /// The first four bytes were not the class-file magic number.
    InvalidMagicNumber,
    /// A text constant's payload was not well-formed UTF-8.
    InvalidUTF8Constant,
    /// A method-handle sub-tag lay outside the nine recognized kinds.
    InvalidMethodHandleReferenceKind,
    /// A constant tag byte matched no known constant variant.
    UnrecognizedConstantTag,
    /// A cross-reference among the pool's constants was ill-typed.
    ConstantPoolValidationError(ConstantPoolValidationError),
    /// The class flag word carried a bit outside the class-flag vocabulary.
    InvalidAccessFlags,
    /// A field record was rejected.
    FieldParseError(FieldParseError),
    /// A method record was rejected.
    MethodParseError(MethodParseError),
    /// An interface index did not lead to a class name through the already
    /// validated pool; the pool and the resolver disagree.
    InterfaceResolutionError,
}

impl ParseClassError {
    /// A short description of the failure, for callers that surface errors
    /// as text.
    pub fn message(&self) -> (r: String)
        ensures
            r@ == (match self {
                ParseClassError::IoError => "couldn't read the class file"@,
                ParseClassError::InvalidMagicNumber => "expected magic number to be 0xcafebabe"@,
                ParseClassError::InvalidUTF8Constant => "invalid utf8 string on constant pool"@,
                ParseClassError::InvalidMethodHandleReferenceKind => "invalid method handle reference kind"@,
                ParseClassError::UnrecognizedConstantTag => "unrecognized constant pool tag"@,
                ParseClassError::ConstantPoolValidationError(_) => "invalid constant pool"@,
                ParseClassError::InvalidAccessFlags => "class has invalid access flags"@,
                ParseClassError::FieldParseError(_) => "failed to parse field"@,
                ParseClassError::MethodParseError(_) => "failed to parse method"@,
                ParseClassError::InterfaceResolutionError => "interface index does not resolve to a class name"@,
            }),
    {
        match self {
            ParseClassError::IoError => "couldn't read the class file".to_owned(),
            ParseClassError::InvalidMagicNumber => "expected magic number to be 0xcafebabe".to_owned(),
            ParseClassError::InvalidUTF8Constant => "invalid utf8 string on constant pool".to_owned(),
            ParseClassError::InvalidMethodHandleReferenceKind => "invalid method handle reference kind".to_owned(),
            ParseClassError::UnrecognizedConstantTag => "unrecognized constant pool tag".to_owned(),
            ParseClassError::ConstantPoolValidationError(_) => "invalid constant pool".to_owned(),
            ParseClassError::InvalidAccessFlags => "class has invalid access flags".to_owned(),
            ParseClassError::FieldParseError(_) => "failed to parse field".to_owned(),
            ParseClassError::MethodParseError(_) => "failed to parse method".to_owned(),
            ParseClassError::InterfaceResolutionError => "interface index does not resolve to a class name".to_owned(),
        }
    }
}

/// A parsed and validated class file. A value of this type exists only if
/// every stage of assembly — magic check, pool decode, pool validation,
/// flag decode, interface resolution, field, method and attribute decode —
/// succeeded; no partially built value is ever observable.
#[derive(Debug, PartialEq)]
pub struct Class {
    /// Java version this class was compiled for.
    pub java_version: JavaVersion,
    /// The validated pool of shared symbolic constants.
    pub constant_pool: Vec<Constant>,
    /// Class access flags.
    pub access_flags: ClassAccessFlags,
    /// Position in the pool of this class's own `Class` constant.
    pub this_class: u16,
    /// Position in the pool of the superclass's `Class` constant.
    pub super_class: u16,
    /// Names of the interfaces this class implements, already resolved to
    /// text through the validated pool.
    pub interfaces: Vec<String>,
    /// Fields of this class.
    pub fields: Vec<Field>,
    /// Methods of this class.
    pub methods: Vec<Method>,
    /// Attributes attached to the class itself.
    pub attributes: Vec<Attribute>,
}

/// Mathematical shadow of [`Class`].
pub ghost struct ClassV {
    pub java_version: JavaVersion,
    pub constant_pool: Seq<ConstantV>,
    pub access_flags: ClassAccessFlags,
    pub this_class: u16,
    pub super_class: u16,
    pub interfaces: Seq<Seq<char>>,
    pub fields: Seq<FieldV>,
    pub methods: Seq<MethodV>,
    pub attributes: Seq<AttributeV>,
}

impl DeepView for Class {
    type V = ClassV;

    open spec fn deep_view(&self) -> ClassV {
        ClassV {
            java_version: self.java_version,
            constant_pool: self.constant_pool.deep_view(),
            access_flags: self.access_flags,
            this_class: self.this_class,
            super_class: self.super_class,
            interfaces: self.interfaces.deep_view(),
            fields: self.fields.deep_view(),
            methods: self.methods.deep_view(),
            attributes: self.attributes.deep_view(),
        }
    }
}

/// The interface name an index leads to: the entry must be a `Class`
/// constant and its name index must lead to text. After a successful pool
/// validation neither lookup can miss, but both stay checked: a miss is an
/// internal-consistency error, never an out-of-bounds access.
pub open spec fn spec_resolve_interface(pool: Seq<ConstantV>, idx: u16) -> Result<
    Seq<char>,
    ParseClassError,
> {
    if idx < pool.len() {
        match pool[idx as int] {
            ConstantV::Class { name_index } => {
                if name_index < pool.len() {
                    match pool[name_index as int] {
                        ConstantV::UTF8String(text) => Ok(text),
                        _ => Err(ParseClassError::InterfaceResolutionError),
                    }
                } else {
                    Err(ParseClassError::InterfaceResolutionError)
                }
            },
            _ => Err(ParseClassError::InterfaceResolutionError),
        }
    } else {
        Err(ParseClassError::InterfaceResolutionError)
    }
}

/// `n` consecutive interface indices starting at `pos`, each resolved to
/// its class name through the pool.
pub open spec fn spec_parse_interfaces_n(
    data: Seq<u8>,
    pos: int,
    n: int,
    pool: Seq<ConstantV>,
) -> Result<(Seq<Seq<char>>, int), ParseClassError>
    decreases n,
{
    if n <= 0 {
        Ok((seq![], pos))
    } else if !can_read(data, pos, 2) {
        Err(ParseClassError::IoError)
    } else {
        let idx = spec_index_from_raw(be16(data.subrange(pos, pos + 2)));
        match spec_resolve_interface(pool, idx) {
            Ok(name) => match spec_parse_interfaces_n(data, pos + 2, n - 1, pool) {
                Ok((rest, p2)) => Ok((seq![name] + rest, p2)),
                Err(e) => Err(e),
            },
            Err(e) => Err(e),
        }
    }
}

/// The interface table: a 2-byte count, then that many indices, resolved.
pub open spec fn spec_parse_interfaces(data: Seq<u8>, pos: int, pool: Seq<ConstantV>) -> Result<
    (Seq<Seq<char>>, int),
    ParseClassError,
> {
    if !can_read(data, pos, 2) {
        Err(ParseClassError::IoError)
    } else {
        spec_parse_interfaces_n(data, pos + 2, be16(data.subrange(pos, pos + 2)), pool)
    }
}

proof fn lemma_parse_interfaces_n_lower(
    data: Seq<u8>,
    pos: int,
    n: int,
    pool: Seq<ConstantV>,
    s: Seq<Seq<char>>,
    q: int,
)
    requires
        spec_parse_interfaces_n(data, pos, n, pool) == Ok::<(Seq<Seq<char>>, int), ParseClassError>(
            (s, q),
        ),
        0 <= pos <= data.len(),
    ensures
        pos <= q <= data.len(),
    decreases n,
{
    if n > 0 {
        match spec_parse_interfaces_n(data, pos + 2, n - 1, pool) {
            Ok((rest, q2)) => {
                lemma_parse_interfaces_n_lower(data, pos + 2, n - 1, pool, rest, q2);
            },
            Err(_) => {
                assert(false);
            },
        }
    }
}

proof fn lemma_parse_interfaces_n_truncated(
    data: Seq<u8>,
    k: int,
    pos: int,
    n: int,
    pool: Seq<ConstantV>,
    s: Seq<Seq<char>>,
    q: int,
)
    requires
        spec_parse_interfaces_n(data, pos, n, pool) == Ok::<(Seq<Seq<char>>, int), ParseClassError>(
            (s, q),
        ),
        0 <= pos <= k <= data.len(),
    ensures
        pos <= q <= data.len(),
        k < q ==> spec_parse_interfaces_n(data.take(k), pos, n, pool) == Err::<
            (Seq<Seq<char>>, int),
            ParseClassError,
        >(ParseClassError::IoError),
        q <= k ==> spec_parse_interfaces_n(data.take(k), pos, n, pool) == Ok::<
            (Seq<Seq<char>>, int),
            ParseClassError,
        >((s, q)),
    decreases n,
{
    lemma_parse_interfaces_n_lower(data, pos, n, pool, s, q);
    if n > 0 {
        assert(can_read(data, pos, 2));
        match spec_parse_interfaces_n(data, pos + 2, n - 1, pool) {
            Ok((rest, q2)) => {
                lemma_parse_interfaces_n_lower(data, pos + 2, n - 1, pool, rest, q2);
                if pos + 2 <= k {
                    crate::reader::lemma_take_subrange(data, k, pos, pos + 2);
                    lemma_parse_interfaces_n_truncated(data, k, pos + 2, n - 1, pool, rest, q2);
                }
            },
            Err(_) => {
                assert(false);
            },
        }
    }
}

proof fn lemma_parse_interfaces_truncated(
    data: Seq<u8>,
    k: int,
    pos: int,
    pool: Seq<ConstantV>,
    s: Seq<Seq<char>>,
    q: int,
)
    requires
        spec_parse_interfaces(data, pos, pool) == Ok::<(Seq<Seq<char>>, int), ParseClassError>(
            (s, q),
        ),
        0 <= pos <= k <= data.len(),
    ensures
        pos <= q <= data.len(),
        k < q ==> spec_parse_interfaces(data.take(k), pos, pool) == Err::<
            (Seq<Seq<char>>, int),
            ParseClassError,
        >(ParseClassError::IoError),
        q <= k ==> spec_parse_interfaces(data.take(k), pos, pool) == Ok::<
            (Seq<Seq<char>>, int),
            ParseClassError,
        >((s, q)),
{
    assert(can_read(data, pos, 2));
    let n = be16(data.subrange(pos, pos + 2));
    match spec_parse_interfaces_n(data, pos + 2, n, pool) {
        Ok((s2, q2)) => {
            lemma_parse_interfaces_n_lower(data, pos + 2, n, pool, s2, q2);
            if pos + 2 <= k {
                crate::reader::lemma_take_subrange(data, k, pos, pos + 2);
                lemma_parse_interfaces_n_truncated(data, k, pos + 2, n, pool, s2, q2);
            }
        },
        Err(_) => {
            assert(false);
        },
    }
}

fn resolve_interface(pool: &Vec<Constant>, idx: u16) -> (res: Result<String, ParseClassError>)
    ensures
        match spec_resolve_interface(pool.deep_view(), idx) {
            Ok(t) => res matches Ok(s) && s@ == t,
            Err(e) => res matches Err(e2) && e2 == e,
        },
{
    let i = idx as usize;
    if i < pool.len() {
        match &pool[i] {
            Constant::Class { name_index } => {
                let ni = *name_index as usize;
                if ni < pool.len() {
                    match &pool[ni] {
                        Constant::UTF8String(text) => Ok(text.clone()),
                        _ => Err(ParseClassError::InterfaceResolutionError),
                    }
                } else {
                    Err(ParseClassError::InterfaceResolutionError)
                }
            },
            _ => Err(ParseClassError::InterfaceResolutionError),
        }
    } else {
        Err(ParseClassError::InterfaceResolutionError)
    }
}

/// Reads the interface table and resolves each index to its class name,
/// exactly as [`spec_parse_interfaces`] states.
#[verifier::loop_isolation(false)]
fn get_interfaces(r: &mut ByteReader, constant_pool: &Vec<Constant>) -> (res: Result<
    Vec<String>,
    ParseClassError,
>)
    ensures
        final(r).data@ == old(r).data@,
        match spec_parse_interfaces(old(r).data@, old(r).pos as int, constant_pool.deep_view()) {
            Ok((names, p)) => res matches Ok(v) && v.deep_view() == names && final(r).pos == p,
            Err(e) => res matches Err(e2) && e2 == e,
        },
{
    let ghost pool = constant_pool.deep_view();
    let len = match r.read_u16() {
        Ok(v) => v,
        Err(e) => {
            return Err(e);
        },
    };
    let ghost data = r.data@;
    let ghost start = r.pos as int;
    let mut interfaces: Vec<String> = Vec::new();
    let mut i: usize = 0;
    while i < len as usize
        invariant
            i <= len as usize,
            r.data@ == data,
            spec_parse_interfaces_n(data, start, len as int, pool) == (match spec_parse_interfaces_n(
                data,
                r.pos as int,
                len as int - i as int,
                pool,
            ) {
                Ok((rest, p2)) => Ok::<(Seq<Seq<char>>, int), ParseClassError>(
                    (interfaces.deep_view() + rest, p2),
                ),
                Err(e) => Err(e),
            }),
        decreases len as int - i as int,
    {
        let ghost done_pre = interfaces.deep_view();
        let raw = match r.read_u16() {
            Ok(v) => v,
            Err(e) => {
                return Err(e);
            },
        };
        let class_index = index_from_raw(raw);
        let class_name = match resolve_interface(constant_pool, class_index) {
            Ok(s) => s,
            Err(e) => {
                return Err(e);
            },
        };
        let ghost nm = class_name@;
        interfaces.push(class_name);
        i = i + 1;
        proof {
            match spec_parse_interfaces_n(data, r.pos as int, len as int - i as int, pool) {
                Ok((rest, p2)) => {
                    assert(done_pre.push(nm) =~= done_pre + seq![nm]);
                    assert((done_pre + seq![nm]) + rest =~= done_pre + (seq![nm] + rest));
                    assert(interfaces.deep_view() =~= done_pre.push(nm));
                },
                Err(_) => {},
            }
        }
    }
    Ok(interfaces)
}

/// The class decoded from the whole byte stream, and the position just
/// past it: the strictly sequential pipeline of magic check, version,
/// constant pool, pool validation, access flags, this/super indices,
/// interface resolution, fields, methods and class attributes. Every
/// failure aborts the pipeline with the stage's own error.
pub open spec fn spec_parse_class(data: Seq<u8>) -> Result<(ClassV, int), ParseClassError> {
    if !can_read(data, 0, 4) {
        Err(ParseClassError::IoError)
    } else if be32(data.subrange(0, 4)) != MAGIC {
        Err(ParseClassError::InvalidMagicNumber)
    } else if !can_read(data, 4, 4) {
        Err(ParseClassError::IoError)
    } else {
        let version = JavaVersion {
            minor: be16(data.subrange(4, 6)) as u16,
            major: be16(data.subrange(6, 8)) as u16,
        };
        if !can_read(data, 8, 2) {
            Err(ParseClassError::IoError)
        } else {
            let n = spec_index_from_raw(be16(data.subrange(8, 10)));
            match spec_parse_constants_n(data, 10, n as int) {
                Ok((pool, p)) => match spec_validate_pool(pool) {
                    Ok(()) => spec_parse_class_rest(data, p, version, pool),
                    Err(e) => Err(e),
                },
                Err(e) => Err(e),
            }
        }
    }
}

/// The stages after pool validation: flags, this/super, interfaces,
/// fields, methods, class attributes.
pub open spec fn spec_parse_class_rest(
    data: Seq<u8>,
    p: int,
    version: JavaVersion,
    pool: Seq<ConstantV>,
) -> Result<(ClassV, int), ParseClassError> {
    if !can_read(data, p, 2) {
        Err(ParseClassError::IoError)
    } else {
        match spec_class_flags_from_bits(be16(data.subrange(p, p + 2)) as u16) {
            Some(access_flags) => {
                if !can_read(data, p + 2, 4) {
                    Err(ParseClassError::IoError)
                } else {
                    let this_class = spec_index_from_raw(be16(data.subrange(p + 2, p + 4)));
                    let super_class = spec_index_from_raw(be16(data.subrange(p + 4, p + 6)));
                    match spec_parse_interfaces(data, p + 6, pool) {
                        Ok((interfaces, p2)) => match spec_parse_fields(data, p2) {
                            Ok((fields, p3)) => match spec_parse_methods(data, p3) {
                                Ok((methods, p4)) => match spec_parse_attributes(data, p4) {
                                    Ok((attributes, p5)) => Ok(
                                        (
                                            ClassV {
                                                java_version: version,
                                                constant_pool: pool,
                                                access_flags,
                                                this_class,
                                                super_class,
                                                interfaces,
                                                fields,
                                                methods,
                                                attributes,
                                            },
                                            p5,
                                        ),
                                    ),
                                    Err(e) => Err(e),
                                },
                                Err(e) => Err(e),
                            },
                            Err(e) => Err(e),
                        },
                        Err(e) => Err(e),
                    }
                }
            },
            None => Err(ParseClassError::InvalidAccessFlags),
        }
    }
}

#[verifier::rlimit(60)]
fn parse_class_rest(
    r: &mut ByteReader,
    java_version: JavaVersion,
    constant_pool: Vec<Constant>,
) -> (res: Result<Class, ParseClassError>)
    ensures
        match spec_parse_class_rest(
            old(r).data@,
            old(r).pos as int,
            java_version,
            constant_pool.deep_view(),
        ) {
            Ok((cv, p)) => res matches Ok(c) && c.deep_view() == cv,
            Err(e) => res matches Err(e2) && e2 == e,
        },
{
    let flag_bits = match r.read_u16() {
        Ok(v) => v,
        Err(e) => {
            return Err(e);
        },
    };
    let access_flags = match ClassAccessFlags::from_bits(flag_bits) {
        Some(f) => f,
        None => {
            return Err(ParseClassError::InvalidAccessFlags);
        },
    };
    let this_raw = match r.read_u16() {
        Ok(v) => v,
        Err(e) => {
            return Err(e);
        },
    };
    let super_raw = match r.read_u16() {
        Ok(v) => v,
        Err(e) => {
            return Err(e);
        },
    };
    let this_class = index_from_raw(this_raw);
    let super_class = index_from_raw(super_raw);
    let interfaces = match get_interfaces(r, &constant_pool) {
        Ok(v) => v,
        Err(e) => {
            return Err(e);
        },
    };
    let fields = match parse_fields(r) {
        Ok(v) => v,
        Err(e) => {
            return Err(e);
        },
    };
    let methods = match parse_methods(r) {
        Ok(v) => v,
        Err(e) => {
            return Err(e);
        },
    };
    let attributes = match parse_attributes(r) {
        Ok(v) => v,
        Err(e) => {
            return Err(e);
        },
    };
    Ok(
        Class {
            java_version,
            constant_pool,
            access_flags,
            this_class,
            super_class,
            interfaces,
            fields,
            methods,
            attributes,
        },
    )
}

#[verifier::rlimit(100)]
#[verifier::spinoff_prover]
proof fn lemma_parse_class_rest_truncated(
    data: Seq<u8>,
    k: int,
    p: int,
    version: JavaVersion,
    pool: Seq<ConstantV>,
    cv: ClassV,
    q: int,
)
    requires
        spec_parse_class_rest(data, p, version, pool) == Ok::<(ClassV, int), ParseClassError>(
            (cv, q),
        ),
        0 <= p <= k <= data.len(),
    ensures
        p <= q <= data.len(),
        k < q ==> spec_parse_class_rest(data.take(k), p, version, pool) == Err::<
            (ClassV, int),
            ParseClassError,
        >(ParseClassError::IoError),
        q <= k ==> spec_parse_class_rest(data.take(k), p, version, pool) == Ok::<
            (ClassV, int),
            ParseClassError,
        >((cv, q)),
{
    assert(can_read(data, p, 2) && can_read(data, p + 2, 4));
    if p + 2 <= k {
        crate::reader::lemma_take_subrange(data, k, p, p + 2);
    }
    if p + 6 <= k {
        crate::reader::lemma_take_subrange(data, k, p + 2, p + 4);
        crate::reader::lemma_take_subrange(data, k, p + 4, p + 6);
    }
    match spec_parse_interfaces(data, p + 6, pool) {
        Ok((ifs, q2)) => {
            lemma_parse_interfaces_truncated(data, p + 6, p + 6, pool, ifs, q2);
            if p + 6 <= k {
                lemma_parse_interfaces_truncated(data, k, p + 6, pool, ifs, q2);
            }
            match spec_parse_fields(data, q2) {
                Ok((fs, q3)) => {
                    crate::field::lemma_parse_fields_truncated(data, q2, q2, fs, q3);
                    if q2 <= k {
                        crate::field::lemma_parse_fields_truncated(data, k, q2, fs, q3);
                    }
                    match spec_parse_methods(data, q3) {
                        Ok((ms, q4)) => {
                            crate::method::lemma_parse_methods_truncated(data, q3, q3, ms, q4);
                            if q3 <= k {
                                crate::method::lemma_parse_methods_truncated(data, k, q3, ms, q4);
                            }
                            match spec_parse_attributes(data, q4) {
                                Ok((ats, q5)) => {
                                    crate::attribute::lemma_parse_attributes_truncated(
                                        data,
                                        q4,
                                        q4,
                                        ats,
                                        q5,
                                    );
                                    if q4 <= k {
                                        crate::attribute::lemma_parse_attributes_truncated(
                                            data,
                                            k,
                                            q4,
                                            ats,
                                            q5,
                                        );
                                    }
                                },
                                Err(_) => {
                                    assert(false);
                                },
                            }
                        },
                        Err(_) => {
                            assert(false);
                        },
                    }
                },
                Err(_) => {
                    assert(false);
                },
            }
        },
        Err(_) => {
            assert(false);
        },
    }
}

/// Law: whatever follows them, four leading bytes that are not the magic
/// number are rejected as such — the parse reads nothing further.
pub proof fn lemma_bad_magic_rejected(data: Seq<u8>)
    requires
        data.len() >= 4,
        be32(data.subrange(0, 4)) != MAGIC,
    ensures
        spec_parse_class(data) == Err::<(ClassV, int), ParseClassError>(
            ParseClassError::InvalidMagicNumber,
        ),
{
}

/// Law: a stream cut short anywhere before the end of a class that would
/// otherwise parse is rejected with the I/O error: truncated input is
/// never accepted, never padded out, and — every function of this crate
/// being verified — never a panic.
pub proof fn lemma_truncated_class_fails_with_io_error(data: Seq<u8>, k: int, cv: ClassV, q: int)
    requires
        spec_parse_class(data) == Ok::<(ClassV, int), ParseClassError>((cv, q)),
        0 <= k < q,
    ensures
        spec_parse_class(data.take(k)) == Err::<(ClassV, int), ParseClassError>(
            ParseClassError::IoError,
        ),
{
    assert(can_read(data, 0, 4) && can_read(data, 4, 4) && can_read(data, 8, 2));
    let n = spec_index_from_raw(be16(data.subrange(8, 10)));
    match spec_parse_constants_n(data, 10, n as int) {
        Ok((pool, p)) => {
            crate::constant_pool::lemma_parse_constants_n_truncated(
                data,
                10,
                10,
                n as int,
                pool,
                p,
            );
            match spec_parse_class_rest(data, p, JavaVersion {
                minor: be16(data.subrange(4, 6)) as u16,
                major: be16(data.subrange(6, 8)) as u16,
            }, pool) {
                Ok((cv2, q2)) => {
                    lemma_parse_class_rest_truncated(data, p, p, JavaVersion {
                        minor: be16(data.subrange(4, 6)) as u16,
                        major: be16(data.subrange(6, 8)) as u16,
                    }, pool, cv2, q2);
                    if 4 <= k {
                        crate::reader::lemma_take_subrange(data, k, 0, 4);
                    }
                    if 8 <= k {
                        crate::reader::lemma_take_subrange(data, k, 4, 6);
                        crate::reader::lemma_take_subrange(data, k, 6, 8);
                    }
                    if 10 <= k {
                        crate::reader::lemma_take_subrange(data, k, 8, 10);
                        crate::constant_pool::lemma_parse_constants_n_truncated(
                            data,
                            k,
                            10,
                            n as int,
                            pool,
                            p,
                        );
                        if p <= k {
                            lemma_parse_class_rest_truncated(data, k, p, JavaVersion {
                                minor: be16(data.subrange(4, 6)) as u16,
                                major: be16(data.subrange(6, 8)) as u16,
                            }, pool, cv2, q2);
                        }
                    }
                },
                Err(_) => {
                    assert(false);
                },
            }
        },
        Err(_) => {
            assert(false);
        },
    }
}

impl Class {
    /// Parses and validates one whole class file from its bytes, exactly
    /// as [`spec_parse_class`] states: either the fully assembled class,
    /// or the first stage's error, with nothing partial in between.
    pub fn parse(data: &Vec<u8>) -> (res: Result<Class, ParseClassError>)
        ensures
            match spec_parse_class(data@) {
                Ok((cv, p)) => res matches Ok(c) && c.deep_view() == cv,
                Err(e) => res matches Err(e2) && e2 == e,
            },
    {
        let mut r = ByteReader::new(data);
        let magic = match r.read_u32() {
            Ok(v) => v,
            Err(e) => {
                return Err(e);
            },
        };
        if magic != MAGIC {
            return Err(ParseClassError::InvalidMagicNumber);
        }
        let vb = match r.read_bytes(4) {
            Ok(v) => v,
            Err(e) => {
                return Err(e);
            },
        };
        let java_version = JavaVersion::parse([vb[0], vb[1], vb[2], vb[3]]);
        proof {
            assert(vb@[0] == data@[4] && vb@[1] == data@[5] && vb@[2] == data@[6] && vb@[3]
                == data@[7]);
            assert(data@.subrange(4, 6)[0] == data@[4] && data@.subrange(4, 6)[1] == data@[5]);
            assert(data@.subrange(6, 8)[0] == data@[6] && data@.subrange(6, 8)[1] == data@[7]);
        }
        let raw_count = match r.read_u16() {
            Ok(v) => v,
            Err(e) => {
                return Err(e);
            },
        };
        let count = index_from_raw(raw_count);
        let constant_pool = match parse_constants(&mut r, count) {
            Ok(v) => v,
            Err(e) => {
                return Err(e);
            },
        };
        match validate_constant_pool(&constant_pool) {
            Ok(()) => {},
            Err(e) => {
                return Err(e);
            },
        }
        parse_class_rest(&mut r, java_version, constant_pool)
    }
}

} // verus!

