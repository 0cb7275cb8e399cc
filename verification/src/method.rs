//! Method records of a class.

use vstd::prelude::*;
use crate::access_flags::{spec_method_flags_from_bits, MethodAccessFlags};
use crate::attribute::{
    parse_attributes, spec_parse_attributes, Attribute, AttributeV,
};
use crate::big_endian::be16;
use crate::class::ParseClassError;
use crate::constant_pool::{index_from_raw, spec_index_from_raw};
use crate::reader::{can_read, ByteReader};

verus! {

/// One method record: flags, two pool indices and nested attributes.
#[derive(Debug, PartialEq, Eq)]
pub struct Method {
    /// Access flags of this method.
    pub access_flags: MethodAccessFlags,
    /// Position of this method's name in the constant pool.
    pub name_index: u16,
    /// Position of this method's signature descriptor in the constant pool.
    pub descriptor_index: u16,
    /// Attributes attached to this method.
    pub attributes: Vec<Attribute>,
}

/// Why a method record was rejected.
#[derive(Debug, PartialEq, Eq, Clone, Copy)]
pub enum MethodParseError {
    /// The flag word carried a bit outside the method-flag vocabulary.
    InvalidAccessFlags,
}

/// Mathematical shadow of [`Method`].
pub ghost struct MethodV {
    pub access_flags: MethodAccessFlags,
    pub name_index: u16,
    pub descriptor_index: u16,
    pub attributes: Seq<AttributeV>,
}

impl DeepView for Method {
    type V = MethodV;

    open spec fn deep_view(&self) -> MethodV {
        MethodV {
            access_flags: self.access_flags,
            name_index: self.name_index,
            descriptor_index: self.descriptor_index,
            attributes: self.attributes.deep_view(),
        }
    }
}

/// The method record at `pos`: a flag word that must stay inside the method
/// vocabulary, a name index, a descriptor index, then the method's
/// attribute list.
pub open spec fn spec_parse_method(data: Seq<u8>, pos: int) -> Result<(MethodV, int), ParseClassError> {
    if !can_read(data, pos, 2) {
        Err(ParseClassError::IoError)
    } else {
        match spec_method_flags_from_bits(be16(data.subrange(pos, pos + 2)) as u16) {
            Some(access_flags) => {
                if !can_read(data, pos + 2, 4) {
                    Err(ParseClassError::IoError)
                } else {
                    let name_index = spec_index_from_raw(be16(data.subrange(pos + 2, pos + 4)));
                    let descriptor_index = spec_index_from_raw(
                        be16(data.subrange(pos + 4, pos + 6)),
                    );
                    match spec_parse_attributes(data, pos + 6) {
                        Ok((attributes, p)) => Ok(
                            (MethodV { access_flags, name_index, descriptor_index, attributes }, p),
                        ),
                        Err(e) => Err(e),
                    }
                }
            },
            None => Err(
                ParseClassError::MethodParseError(MethodParseError::InvalidAccessFlags),
            ),
        }
    }
}

/// `n` consecutive method records starting at `pos`.
pub open spec fn spec_parse_methods_n(data: Seq<u8>, pos: int, n: int) -> Result<
    (Seq<MethodV>, int),
    ParseClassError,
>
    decreases n,
{
    if n <= 0 {
        Ok((seq![], pos))
    } else {
        match spec_parse_method(data, pos) {
            Ok((f, p)) => match spec_parse_methods_n(data, p, n - 1) {
                Ok((rest, p2)) => Ok((seq![f] + rest, p2)),
                Err(e) => Err(e),
            },
            Err(e) => Err(e),
        }
    }
}

/// The method table: a 2-byte count, then that many records.
pub open spec fn spec_parse_methods(data: Seq<u8>, pos: int) -> Result<
    (Seq<MethodV>, int),
    ParseClassError,
> {
    if !can_read(data, pos, 2) {
        Err(ParseClassError::IoError)
    } else {
        spec_parse_methods_n(data, pos + 2, be16(data.subrange(pos, pos + 2)))
    }
}

/// Truncating a stream turns the method record at `pos` into an I/O failure
/// when the cut falls inside it, and leaves it untouched when the cut
/// falls at or past its end.
proof fn lemma_parse_method_truncated(data: Seq<u8>, k: int, pos: int, mv: MethodV, q: int)
    requires
        spec_parse_method(data, pos) == Ok::<(MethodV, int), ParseClassError>((mv, q)),
        0 <= pos <= k <= data.len(),
    ensures
        pos <= q <= data.len(),
        k < q ==> spec_parse_method(data.take(k), pos) == Err::<(MethodV, int), ParseClassError>(
            ParseClassError::IoError,
        ),
        q <= k ==> spec_parse_method(data.take(k), pos) == Ok::<(MethodV, int), ParseClassError>(
            (mv, q),
        ),
{
    assert(can_read(data, pos, 2) && can_read(data, pos + 2, 4));
    if pos + 2 <= k {
        crate::reader::lemma_take_subrange(data, k, pos, pos + 2);
    }
    if pos + 6 <= k {
        crate::reader::lemma_take_subrange(data, k, pos + 2, pos + 4);
        crate::reader::lemma_take_subrange(data, k, pos + 4, pos + 6);
    }
    match spec_parse_attributes(data, pos + 6) {
        Ok((attrs, q2)) => {
            crate::attribute::lemma_parse_attributes_truncated(data, pos + 6, pos + 6, attrs, q2);
            if pos + 6 <= k {
                crate::attribute::lemma_parse_attributes_truncated(data, k, pos + 6, attrs, q2);
            }
        },
        Err(_) => {
            assert(false);
        },
    }
}

proof fn lemma_parse_methods_n_lower(data: Seq<u8>, pos: int, n: int, s: Seq<MethodV>, q: int)
    requires
        spec_parse_methods_n(data, pos, n) == Ok::<(Seq<MethodV>, int), ParseClassError>((s, q)),
        0 <= pos <= data.len(),
    ensures
        pos <= q <= data.len(),
    decreases n,
{
    if n > 0 {
        match spec_parse_method(data, pos) {
            Ok((m, p1)) => {
                lemma_parse_method_truncated(data, pos, pos, m, p1);
                match spec_parse_methods_n(data, p1, n - 1) {
                    Ok((rest, q2)) => {
                        lemma_parse_methods_n_lower(data, p1, n - 1, rest, q2);
                    },
                    Err(_) => {
                        assert(false);
                    },
                }
            },
            Err(_) => {
                assert(false);
            },
        }
    }
}

proof fn lemma_parse_methods_n_truncated(
    data: Seq<u8>,
    k: int,
    pos: int,
    n: int,
    s: Seq<MethodV>,
    q: int,
)
    requires
        spec_parse_methods_n(data, pos, n) == Ok::<(Seq<MethodV>, int), ParseClassError>((s, q)),
        0 <= pos <= k <= data.len(),
    ensures
        pos <= q <= data.len(),
        k < q ==> spec_parse_methods_n(data.take(k), pos, n) == Err::<
            (Seq<MethodV>, int),
            ParseClassError,
        >(ParseClassError::IoError),
        q <= k ==> spec_parse_methods_n(data.take(k), pos, n) == Ok::<
            (Seq<MethodV>, int),
            ParseClassError,
        >((s, q)),
    decreases n,
{
    lemma_parse_methods_n_lower(data, pos, n, s, q);
    if n > 0 {
        match spec_parse_method(data, pos) {
            Ok((m, p1)) => {
                lemma_parse_method_truncated(data, k, pos, m, p1);
                match spec_parse_methods_n(data, p1, n - 1) {
                    Ok((rest, q2)) => {
                        lemma_parse_methods_n_lower(data, p1, n - 1, rest, q2);
                        if p1 <= k {
                            lemma_parse_methods_n_truncated(data, k, p1, n - 1, rest, q2);
                        }
                    },
                    Err(_) => {
                        assert(false);
                    },
                }
            },
            Err(_) => {
                assert(false);
            },
        }
    }
}

/// Truncating a stream turns the method table at `pos` into an I/O failure
/// when the cut falls inside it, and leaves it untouched when the cut
/// falls at or past its end.
pub(crate) proof fn lemma_parse_methods_truncated(data: Seq<u8>, k: int, pos: int, s: Seq<MethodV>, q: int)
    requires
        spec_parse_methods(data, pos) == Ok::<(Seq<MethodV>, int), ParseClassError>((s, q)),
        0 <= pos <= k <= data.len(),
    ensures
        pos <= q <= data.len(),
        k < q ==> spec_parse_methods(data.take(k), pos) == Err::<
            (Seq<MethodV>, int),
            ParseClassError,
        >(ParseClassError::IoError),
        q <= k ==> spec_parse_methods(data.take(k), pos) == Ok::<
            (Seq<MethodV>, int),
            ParseClassError,
        >((s, q)),
{
    assert(can_read(data, pos, 2));
    let n = be16(data.subrange(pos, pos + 2));
    match spec_parse_methods_n(data, pos + 2, n) {
        Ok((s2, q2)) => {
            lemma_parse_methods_n_lower(data, pos + 2, n, s2, q2);
            if pos + 2 <= k {
                crate::reader::lemma_take_subrange(data, k, pos, pos + 2);
                lemma_parse_methods_n_truncated(data, k, pos + 2, n, s2, q2);
            }
        },
        Err(_) => {
            assert(false);
        },
    }
}

/// Reads one method record, exactly as [`spec_parse_method`] states.
pub fn parse_method(r: &mut ByteReader) -> (res: Result<Method, ParseClassError>)
    ensures
        final(r).data@ == old(r).data@,
        match spec_parse_method(old(r).data@, old(r).pos as int) {
            Ok((mv, p)) => res matches Ok(m) && m.deep_view() == mv && final(r).pos == p,
            Err(e) => res matches Err(e2) && e2 == e,
        },
{
    let bits = match r.read_u16() {
        Ok(v) => v,
        Err(e) => {
            return Err(e);
        },
    };
    let access_flags = match MethodAccessFlags::from_bits(bits) {
        Some(af) => af,
        None => {
            return Err(ParseClassError::MethodParseError(MethodParseError::InvalidAccessFlags));
        },
    };
    let name_raw = match r.read_u16() {
        Ok(v) => v,
        Err(e) => {
            return Err(e);
        },
    };
    let descriptor_raw = match r.read_u16() {
        Ok(v) => v,
        Err(e) => {
            return Err(e);
        },
    };
    let attributes = match parse_attributes(r) {
        Ok(a) => a,
        Err(e) => {
            return Err(e);
        },
    };
    Ok(
        Method {
            access_flags,
            name_index: index_from_raw(name_raw),
            descriptor_index: index_from_raw(descriptor_raw),
            attributes,
        },
    )
}

/// Reads the method table, exactly as [`spec_parse_methods`] states.
#[verifier::loop_isolation(false)]
pub fn parse_methods(r: &mut ByteReader) -> (res: Result<Vec<Method>, ParseClassError>)
    ensures
        final(r).data@ == old(r).data@,
        match spec_parse_methods(old(r).data@, old(r).pos as int) {
            Ok((mvs, p)) => res matches Ok(v) && v.deep_view() == mvs && final(r).pos == p,
            Err(e) => res matches Err(e2) && e2 == e,
        },
{
    let len = match r.read_u16() {
        Ok(v) => v,
        Err(e) => {
            return Err(e);
        },
    };
    let ghost data = r.data@;
    let ghost start = r.pos as int;
    let mut result: Vec<Method> = Vec::new();
    let mut i: usize = 0;
    while i < len as usize
        invariant
            i <= len as usize,
            r.data@ == data,
            spec_parse_methods_n(data, start, len as int) == (match spec_parse_methods_n(
                data,
                r.pos as int,
                len as int - i as int,
            ) {
                Ok((rest, p2)) => Ok::<(Seq<MethodV>, int), ParseClassError>(
                    (result.deep_view() + rest, p2),
                ),
                Err(e) => Err(e),
            }),
        decreases len as int - i as int,
    {
        let ghost done_pre = result.deep_view();
        let f = match parse_method(r) {
            Ok(f) => f,
            Err(e) => {
                return Err(e);
            },
        };
        result.push(f);
        i = i + 1;
        proof {
            match spec_parse_methods_n(data, r.pos as int, len as int - i as int) {
                Ok((rest, p2)) => {
                    assert(done_pre.push(f.deep_view()) =~= done_pre + seq![f.deep_view()]);
                    assert((done_pre + seq![f.deep_view()]) + rest =~= done_pre + (
                    seq![f.deep_view()] + rest));
                    assert(result.deep_view() =~= done_pre.push(f.deep_view()));
                },
                Err(_) => {},
            }
        }
    }
    Ok(result)
}

} // verus!
