//! Field records of a class.

use vstd::prelude::*;
use crate::access_flags::{spec_field_flags_from_bits, FieldAccessFlags};
use crate::attribute::{
    parse_attributes, spec_parse_attributes, Attribute, AttributeV,
};
use crate::big_endian::be16;
use crate::class::ParseClassError;
use crate::constant_pool::{index_from_raw, spec_index_from_raw};
use crate::reader::{can_read, ByteReader};

verus! {

/// One field record: flags, two pool indices and nested attributes.
#[derive(Debug, PartialEq, Eq)]
pub struct Field {
    /// Access flags of this field.
    pub access_flags: FieldAccessFlags,
    /// Position of this field's name in the constant pool.
    pub name_index: u16,
    /// Position of this field's type descriptor in the constant pool.
    pub descriptor_index: u16,
    /// Attributes attached to this field.
    pub attributes: Vec<Attribute>,
}

/// Why a field record was rejected.
#[derive(Debug, PartialEq, Eq, Clone, Copy)]
pub enum FieldParseError {
    /// The flag word carried a bit outside the field-flag vocabulary.
    InvalidAccessFlags,
}

/// Mathematical shadow of [`Field`].
pub ghost struct FieldV {
    pub access_flags: FieldAccessFlags,
    pub name_index: u16,
    pub descriptor_index: u16,
    pub attributes: Seq<AttributeV>,
}

impl DeepView for Field {
    type V = FieldV;

    open spec fn deep_view(&self) -> FieldV {
        FieldV {
            access_flags: self.access_flags,
            name_index: self.name_index,
            descriptor_index: self.descriptor_index,
            attributes: self.attributes.deep_view(),
        }
    }
}

/// The field record at `pos`: a flag word that must stay inside the field
/// vocabulary, a name index, a descriptor index, then the field's
/// attribute list.
pub open spec fn spec_parse_field(data: Seq<u8>, pos: int) -> Result<(FieldV, int), ParseClassError> {
    if !can_read(data, pos, 2) {
        Err(ParseClassError::IoError)
    } else {
        match spec_field_flags_from_bits(be16(data.subrange(pos, pos + 2)) as u16) {
            Some(access_flags) => {
                if !can_read(data, pos + 2, 4) {
                    Err(ParseClassError::IoError)
                } else {
                    let name_index = spec_index_from_raw(be16(data.subrange(pos + 2, pos + 4)));
                    let descriptor_index = spec_index_from_raw(
                        be16(data.subrange(pos + 4, pos + 6)),
                    );
                    match spec_parse_attributes(data, pos + 6) {
                        Ok((attributes, p)) => Ok(
                            (FieldV { access_flags, name_index, descriptor_index, attributes }, p),
                        ),
                        Err(e) => Err(e),
                    }
                }
            },
            None => Err(
                ParseClassError::FieldParseError(FieldParseError::InvalidAccessFlags),
            ),
        }
    }
}

/// `n` consecutive field records starting at `pos`.
pub open spec fn spec_parse_fields_n(data: Seq<u8>, pos: int, n: int) -> Result<
    (Seq<FieldV>, int),
    ParseClassError,
>
    decreases n,
{
    if n <= 0 {
        Ok((seq![], pos))
    } else {
        match spec_parse_field(data, pos) {
            Ok((f, p)) => match spec_parse_fields_n(data, p, n - 1) {
                Ok((rest, p2)) => Ok((seq![f] + rest, p2)),
                Err(e) => Err(e),
            },
            Err(e) => Err(e),
        }
    }
}

/// The field table: a 2-byte count, then that many records.
pub open spec fn spec_parse_fields(data: Seq<u8>, pos: int) -> Result<
    (Seq<FieldV>, int),
    ParseClassError,
> {
    if !can_read(data, pos, 2) {
        Err(ParseClassError::IoError)
    } else {
        spec_parse_fields_n(data, pos + 2, be16(data.subrange(pos, pos + 2)))
    }
}

/// Truncating a stream turns the field record at `pos` into an I/O failure
/// when the cut falls inside it, and leaves it untouched when the cut
/// falls at or past its end.
proof fn lemma_parse_field_truncated(data: Seq<u8>, k: int, pos: int, fv: FieldV, q: int)
    requires
        spec_parse_field(data, pos) == Ok::<(FieldV, int), ParseClassError>((fv, q)),
        0 <= pos <= k <= data.len(),
    ensures
        pos <= q <= data.len(),
        k < q ==> spec_parse_field(data.take(k), pos) == Err::<(FieldV, int), ParseClassError>(
            ParseClassError::IoError,
        ),
        q <= k ==> spec_parse_field(data.take(k), pos) == Ok::<(FieldV, int), ParseClassError>(
            (fv, q),
        ),
{
    assert(can_read(data, pos, 2) && can_read(data, pos + 2, 4));
    if pos + 2 <= k {
        crate::reader::lemma_take_subrange(data, k, pos, pos + 2);
    }
    if pos + 6 <= k {
        crate::reader::lemma_take_subrange(data, k, pos + 2, pos + 4);
        crate::reader::lemma_take_subrange(data, k, pos + 4, pos + 6);
    }
    match spec_parse_attributes(data, pos + 6) {
        Ok((attrs, q2)) => {
            crate::attribute::lemma_parse_attributes_truncated(data, pos + 6, pos + 6, attrs, q2);
            if pos + 6 <= k {
                crate::attribute::lemma_parse_attributes_truncated(data, k, pos + 6, attrs, q2);
            }
        },
        Err(_) => {
            assert(false);
        },
    }
}

proof fn lemma_parse_fields_n_lower(data: Seq<u8>, pos: int, n: int, s: Seq<FieldV>, q: int)
    requires
        spec_parse_fields_n(data, pos, n) == Ok::<(Seq<FieldV>, int), ParseClassError>((s, q)),
        0 <= pos <= data.len(),
    ensures
        pos <= q <= data.len(),
    decreases n,
{
    if n > 0 {
        match spec_parse_field(data, pos) {
            Ok((f, p1)) => {
                lemma_parse_field_truncated(data, pos, pos, f, p1);
                match spec_parse_fields_n(data, p1, n - 1) {
                    Ok((rest, q2)) => {
                        lemma_parse_fields_n_lower(data, p1, n - 1, rest, q2);
                    },
                    Err(_) => {
                        assert(false);
                    },
                }
            },
            Err(_) => {
                assert(false);
            },
        }
    }
}

proof fn lemma_parse_fields_n_truncated(
    data: Seq<u8>,
    k: int,
    pos: int,
    n: int,
    s: Seq<FieldV>,
    q: int,
)
    requires
        spec_parse_fields_n(data, pos, n) == Ok::<(Seq<FieldV>, int), ParseClassError>((s, q)),
        0 <= pos <= k <= data.len(),
    ensures
        pos <= q <= data.len(),
        k < q ==> spec_parse_fields_n(data.take(k), pos, n) == Err::<
            (Seq<FieldV>, int),
            ParseClassError,
        >(ParseClassError::IoError),
        q <= k ==> spec_parse_fields_n(data.take(k), pos, n) == Ok::<
            (Seq<FieldV>, int),
            ParseClassError,
        >((s, q)),
    decreases n,
{
    lemma_parse_fields_n_lower(data, pos, n, s, q);
    if n > 0 {
        match spec_parse_field(data, pos) {
            Ok((f, p1)) => {
                lemma_parse_field_truncated(data, k, pos, f, p1);
                match spec_parse_fields_n(data, p1, n - 1) {
                    Ok((rest, q2)) => {
                        lemma_parse_fields_n_lower(data, p1, n - 1, rest, q2);
                        if p1 <= k {
                            lemma_parse_fields_n_truncated(data, k, p1, n - 1, rest, q2);
                        }
                    },
                    Err(_) => {
                        assert(false);
                    },
                }
            },
            Err(_) => {
                assert(false);
            },
        }
    }
}

/// Truncating a stream turns the field table at `pos` into an I/O failure
/// when the cut falls inside it, and leaves it untouched when the cut
/// falls at or past its end.
pub(crate) proof fn lemma_parse_fields_truncated(data: Seq<u8>, k: int, pos: int, s: Seq<FieldV>, q: int)
    requires
        spec_parse_fields(data, pos) == Ok::<(Seq<FieldV>, int), ParseClassError>((s, q)),
        0 <= pos <= k <= data.len(),
    ensures
        pos <= q <= data.len(),
        k < q ==> spec_parse_fields(data.take(k), pos) == Err::<
            (Seq<FieldV>, int),
            ParseClassError,
        >(ParseClassError::IoError),
        q <= k ==> spec_parse_fields(data.take(k), pos) == Ok::<
            (Seq<FieldV>, int),
            ParseClassError,
        >((s, q)),
{
    assert(can_read(data, pos, 2));
    let n = be16(data.subrange(pos, pos + 2));
    match spec_parse_fields_n(data, pos + 2, n) {
        Ok((s2, q2)) => {
            lemma_parse_fields_n_lower(data, pos + 2, n, s2, q2);
            if pos + 2 <= k {
                crate::reader::lemma_take_subrange(data, k, pos, pos + 2);
                lemma_parse_fields_n_truncated(data, k, pos + 2, n, s2, q2);
            }
        },
        Err(_) => {
            assert(false);
        },
    }
}

/// Reads one field record, exactly as [`spec_parse_field`] states.
pub fn parse_field(r: &mut ByteReader) -> (res: Result<Field, ParseClassError>)
    ensures
        final(r).data@ == old(r).data@,
        match spec_parse_field(old(r).data@, old(r).pos as int) {
            Ok((fv, p)) => res matches Ok(f) && f.deep_view() == fv && final(r).pos == p,
            Err(e) => res matches Err(e2) && e2 == e,
        },
{
    let bits = match r.read_u16() {
        Ok(v) => v,
        Err(e) => {
            return Err(e);
        },
    };
    let access_flags = match FieldAccessFlags::from_bits(bits) {
        Some(af) => af,
        None => {
            return Err(ParseClassError::FieldParseError(FieldParseError::InvalidAccessFlags));
        },
    };
    let name_raw = match r.read_u16() {
        Ok(v) => v,
        Err(e) => {
            return Err(e);
        },
    };
    let descriptor_raw = match r.read_u16() {
        Ok(v) => v,
        Err(e) => {
            return Err(e);
        },
    };
    let attributes = match parse_attributes(r) {
        Ok(a) => a,
        Err(e) => {
            return Err(e);
        },
    };
    Ok(
        Field {
            access_flags,
            name_index: index_from_raw(name_raw),
            descriptor_index: index_from_raw(descriptor_raw),
            attributes,
        },
    )
}

/// Reads the field table, exactly as [`spec_parse_fields`] states.
#[verifier::loop_isolation(false)]
pub fn parse_fields(r: &mut ByteReader) -> (res: Result<Vec<Field>, ParseClassError>)
    ensures
        final(r).data@ == old(r).data@,
        match spec_parse_fields(old(r).data@, old(r).pos as int) {
            Ok((fvs, p)) => res matches Ok(v) && v.deep_view() == fvs && final(r).pos == p,
            Err(e) => res matches Err(e2) && e2 == e,
        },
{
    let len = match r.read_u16() {
        Ok(v) => v,
        Err(e) => {
            return Err(e);
        },
    };
    let ghost data = r.data@;
    let ghost start = r.pos as int;
    let mut result: Vec<Field> = Vec::new();
    let mut i: usize = 0;
    while i < len as usize
        invariant
            i <= len as usize,
            r.data@ == data,
            spec_parse_fields_n(data, start, len as int) == (match spec_parse_fields_n(
                data,
                r.pos as int,
                len as int - i as int,
            ) {
                Ok((rest, p2)) => Ok::<(Seq<FieldV>, int), ParseClassError>(
                    (result.deep_view() + rest, p2),
                ),
                Err(e) => Err(e),
            }),
        decreases len as int - i as int,
    {
        let ghost done_pre = result.deep_view();
        let f = match parse_field(r) {
            Ok(f) => f,
            Err(e) => {
                return Err(e);
            },
        };
        result.push(f);
        i = i + 1;
        proof {
            match spec_parse_fields_n(data, r.pos as int, len as int - i as int) {
                Ok((rest, p2)) => {
                    assert(done_pre.push(f.deep_view()) =~= done_pre + seq![f.deep_view()]);
                    assert((done_pre + seq![f.deep_view()]) + rest =~= done_pre + (
                    seq![f.deep_view()] + rest));
                    assert(result.deep_view() =~= done_pre.push(f.deep_view()));
                },
                Err(_) => {},
            }
        }
    }
    Ok(result)
}

} // verus!
