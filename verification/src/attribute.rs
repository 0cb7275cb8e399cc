//! Attribute records: a name index and an opaque byte payload.
//!
//! The payload is carried as raw bytes of the declared length and is never
//! interpreted here.

use vstd::prelude::*;
use crate::big_endian::{be16, be32};
use crate::class::ParseClassError;
use crate::constant_pool::{index_from_raw, spec_index_from_raw};
use crate::reader::{can_read, ByteReader};

verus! {

/// One attribute record of a class, field or method.
#[derive(Debug, PartialEq, Eq)]
pub struct Attribute {
    /// Position of this attribute's name in the constant pool.
    pub attribute_name_index: u16,
    /// The raw payload bytes, of the length the record declared.
    pub info: Vec<u8>,
}

/// Mathematical shadow of [`Attribute`].
pub ghost struct AttributeV {
    pub attribute_name_index: u16,
    pub info: Seq<u8>,
}

impl DeepView for Attribute {
    type V = AttributeV;

    open spec fn deep_view(&self) -> AttributeV {
        AttributeV { attribute_name_index: self.attribute_name_index, info: self.info@ }
    }
}

/// The attribute record at `pos`: a name index, a 4-byte payload length,
/// then that many raw bytes.
pub open spec fn spec_parse_attribute(data: Seq<u8>, pos: int) -> Result<
    (AttributeV, int),
    ParseClassError,
> {
    if !can_read(data, pos, 6) {
        Err(ParseClassError::IoError)
    } else {
        let name_index = spec_index_from_raw(be16(data.subrange(pos, pos + 2)));
        let len = be32(data.subrange(pos + 2, pos + 6));
        if !can_read(data, pos + 6, len) {
            Err(ParseClassError::IoError)
        } else {
            Ok(
                (
                    AttributeV {
                        attribute_name_index: name_index,
                        info: data.subrange(pos + 6, pos + 6 + len),
                    },
                    pos + 6 + len,
                ),
            )
        }
    }
}

/// `n` consecutive attribute records starting at `pos`.
pub open spec fn spec_parse_attributes_n(data: Seq<u8>, pos: int, n: int) -> Result<
    (Seq<AttributeV>, int),
    ParseClassError,
>
    decreases n,
{
    if n <= 0 {
        Ok((seq![], pos))
    } else {
        match spec_parse_attribute(data, pos) {
            Ok((a, p)) => match spec_parse_attributes_n(data, p, n - 1) {
                Ok((rest, p2)) => Ok((seq![a] + rest, p2)),
                Err(e) => Err(e),
            },
            Err(e) => Err(e),
        }
    }
}

/// An attribute list: a 2-byte count, then that many records.
pub open spec fn spec_parse_attributes(data: Seq<u8>, pos: int) -> Result<
    (Seq<AttributeV>, int),
    ParseClassError,
> {
    if !can_read(data, pos, 2) {
        Err(ParseClassError::IoError)
    } else {
        spec_parse_attributes_n(data, pos + 2, be16(data.subrange(pos, pos + 2)))
    }
}

/// Truncating a stream turns the attribute record at `pos` into an I/O
/// failure when the cut falls inside it, and leaves it untouched when the
/// cut falls at or past its end.
proof fn lemma_parse_attribute_truncated(
    data: Seq<u8>,
    k: int,
    pos: int,
    av: AttributeV,
    q: int,
)
    requires
        spec_parse_attribute(data, pos) == Ok::<(AttributeV, int), ParseClassError>((av, q)),
        0 <= pos,
        0 <= k <= data.len(),
    ensures
        pos + 6 <= q <= data.len(),
        k < q ==> spec_parse_attribute(data.take(k), pos) == Err::<
            (AttributeV, int),
            ParseClassError,
        >(ParseClassError::IoError),
        q <= k ==> spec_parse_attribute(data.take(k), pos) == Ok::<
            (AttributeV, int),
            ParseClassError,
        >((av, q)),
{
    let len = be32(data.subrange(pos + 2, pos + 6));
    assert(can_read(data, pos, 6) && can_read(data, pos + 6, len) && q == pos + 6 + len);
    if pos + 6 <= k {
        crate::reader::lemma_take_subrange(data, k, pos, pos + 2);
        crate::reader::lemma_take_subrange(data, k, pos + 2, pos + 6);
    }
    if q <= k {
        crate::reader::lemma_take_subrange(data, k, pos + 6, pos + 6 + len);
    }
}

proof fn lemma_parse_attributes_n_lower(data: Seq<u8>, pos: int, n: int, s: Seq<AttributeV>, q: int)
    requires
        spec_parse_attributes_n(data, pos, n) == Ok::<(Seq<AttributeV>, int), ParseClassError>(
            (s, q),
        ),
        0 <= pos <= data.len(),
    ensures
        pos <= q <= data.len(),
    decreases n,
{
    if n > 0 {
        match spec_parse_attribute(data, pos) {
            Ok((a, p1)) => {
                lemma_parse_attribute_truncated(data, 0, pos, a, p1);
                match spec_parse_attributes_n(data, p1, n - 1) {
                    Ok((rest, q2)) => {
                        lemma_parse_attributes_n_lower(data, p1, n - 1, rest, q2);
                    },
                    Err(_) => {
                        assert(false);
                    },
                }
            },
            Err(_) => {
                assert(false);
            },
        }
    }
}

proof fn lemma_parse_attributes_n_truncated(
    data: Seq<u8>,
    k: int,
    pos: int,
    n: int,
    s: Seq<AttributeV>,
    q: int,
)
    requires
        spec_parse_attributes_n(data, pos, n) == Ok::<(Seq<AttributeV>, int), ParseClassError>(
            (s, q),
        ),
        0 <= pos <= k <= data.len(),
    ensures
        pos <= q <= data.len(),
        k < q ==> spec_parse_attributes_n(data.take(k), pos, n) == Err::<
            (Seq<AttributeV>, int),
            ParseClassError,
        >(ParseClassError::IoError),
        q <= k ==> spec_parse_attributes_n(data.take(k), pos, n) == Ok::<
            (Seq<AttributeV>, int),
            ParseClassError,
        >((s, q)),
    decreases n,
{
    lemma_parse_attributes_n_lower(data, pos, n, s, q);
    if n > 0 {
        match spec_parse_attribute(data, pos) {
            Ok((a, p1)) => {
                lemma_parse_attribute_truncated(data, k, pos, a, p1);
                match spec_parse_attributes_n(data, p1, n - 1) {
                    Ok((rest, q2)) => {
                        lemma_parse_attributes_n_lower(data, p1, n - 1, rest, q2);
                        if p1 <= k {
                            lemma_parse_attributes_n_truncated(data, k, p1, n - 1, rest, q2);
                        }
                    },
                    Err(_) => {
                        assert(false);
                    },
                }
            },
            Err(_) => {
                assert(false);
            },
        }
    }
}

/// Truncating a stream turns the attribute list at `pos` into an I/O
/// failure when the cut falls inside it, and leaves it untouched when the
/// cut falls at or past its end.
pub(crate) proof fn lemma_parse_attributes_truncated(
    data: Seq<u8>,
    k: int,
    pos: int,
    s: Seq<AttributeV>,
    q: int,
)
    requires
        spec_parse_attributes(data, pos) == Ok::<(Seq<AttributeV>, int), ParseClassError>((s, q)),
        0 <= pos <= k <= data.len(),
    ensures
        pos <= q <= data.len(),
        k < q ==> spec_parse_attributes(data.take(k), pos) == Err::<
            (Seq<AttributeV>, int),
            ParseClassError,
        >(ParseClassError::IoError),
        q <= k ==> spec_parse_attributes(data.take(k), pos) == Ok::<
            (Seq<AttributeV>, int),
            ParseClassError,
        >((s, q)),
{
    assert(can_read(data, pos, 2));
    let n = be16(data.subrange(pos, pos + 2));
    match spec_parse_attributes_n(data, pos + 2, n) {
        Ok((s2, q2)) => {
            lemma_parse_attributes_n_lower(data, pos + 2, n, s2, q2);
            if pos + 2 <= k {
                crate::reader::lemma_take_subrange(data, k, pos, pos + 2);
                lemma_parse_attributes_n_truncated(data, k, pos + 2, n, s2, q2);
            }
        },
        Err(_) => {
            assert(false);
        },
    }
}

/// Reads one attribute record, exactly as [`spec_parse_attribute`] states.
pub fn parse_attribute(r: &mut ByteReader) -> (res: Result<Attribute, ParseClassError>)
    ensures
        final(r).data@ == old(r).data@,
        match spec_parse_attribute(old(r).data@, old(r).pos as int) {
            Ok((av, p)) => res matches Ok(a) && a.deep_view() == av && final(r).pos == p,
            Err(e) => res matches Err(e2) && e2 == e,
        },
{
    let raw = match r.read_u16() {
        Ok(v) => v,
        Err(e) => {
            return Err(e);
        },
    };
    let attribute_name_index = index_from_raw(raw);
    let attr_len = match r.read_u32() {
        Ok(v) => v,
        Err(e) => {
            return Err(e);
        },
    };
    let info = match r.read_bytes(attr_len as usize) {
        Ok(v) => v,
        Err(e) => {
            return Err(e);
        },
    };
    Ok(Attribute { attribute_name_index, info })
}

/// Reads an attribute list, exactly as [`spec_parse_attributes`] states.
#[verifier::loop_isolation(false)]
pub fn parse_attributes(r: &mut ByteReader) -> (res: Result<Vec<Attribute>, ParseClassError>)
    ensures
        final(r).data@ == old(r).data@,
        match spec_parse_attributes(old(r).data@, old(r).pos as int) {
            Ok((avs, p)) => res matches Ok(v) && v.deep_view() == avs && final(r).pos == p,
            Err(e) => res matches Err(e2) && e2 == e,
        },
{
    let len = match r.read_u16() {
        Ok(v) => v,
        Err(e) => {
            return Err(e);
        },
    };
    let ghost data = r.data@;
    let ghost start = r.pos as int;
    let mut attributes: Vec<Attribute> = Vec::new();
    let mut i: usize = 0;
    while i < len as usize
        invariant
            i <= len as usize,
            r.data@ == data,
            spec_parse_attributes_n(data, start, len as int) == (match spec_parse_attributes_n(
                data,
                r.pos as int,
                len as int - i as int,
            ) {
                Ok((rest, p2)) => Ok::<(Seq<AttributeV>, int), ParseClassError>(
                    (attributes.deep_view() + rest, p2),
                ),
                Err(e) => Err(e),
            }),
        decreases len as int - i as int,
    {
        let ghost done_pre = attributes.deep_view();
        let attr = match parse_attribute(r) {
            Ok(a) => a,
            Err(e) => {
                return Err(e);
            },
        };
        attributes.push(attr);
        i = i + 1;
        proof {
            match spec_parse_attributes_n(data, r.pos as int, len as int - i as int) {
                Ok((rest, p2)) => {
                    assert(done_pre.push(attr.deep_view()) =~= done_pre + seq![attr.deep_view()]);
                    assert((done_pre + seq![attr.deep_view()]) + rest =~= done_pre + (
                    seq![attr.deep_view()] + rest));
                    assert(attributes.deep_view() =~= done_pre.push(attr.deep_view()));
                },
                Err(_) => {},
            }
        }
    }
    Ok(attributes)
}

} // verus!
