//! Format laws, proved once and for all against the specification in
//! [`crate::gguf::decode`]:
//!
//! * encoding a well-formed container and decoding the result gives the
//!   container back, byte-exactly and entry-exactly ([`lemma_read_round_trip`]);
//! * truncating a decodable stream anywhere before its logical end yields
//!   `Truncated` and nothing else ([`lemma_read_truncated`]);
//! * corrupting any single magic byte yields `NotThisFormat` before any
//!   header field is looked at ([`lemma_read_corrupt_magic`]);
//! * a zero-length array consumes exactly its 12 framing bytes
//!   ([`lemma_empty_array_framing`]);
//! * decoding is a function of the bytes alone ([`lemma_read_deterministic`]),
//!   and it never reports `IoFailure` ([`lemma_read_never_io_failure`]).
//!
//! The encoder here is specification only; the crate decodes, it does not
//! write streams.

use vstd::prelude::*;

use vstd::bytes::{
    lemma_auto_spec_u16_to_from_le_bytes, lemma_auto_spec_u32_to_from_le_bytes,
    lemma_auto_spec_u64_to_from_le_bytes, spec_u16_to_le_bytes, spec_u32_from_le_bytes,
    spec_u32_to_le_bytes, spec_u64_from_le_bytes, spec_u64_to_le_bytes,
};
use vstd::utf8::{decode_utf8, encode_utf8, encode_utf8_decode_utf8, encode_utf8_valid_utf8};

use crate::gguf::decode::{
    lemma_decode_elems_advances, lemma_decode_entries_advances, lemma_decode_value_advances,
    spec_decode_elems, spec_decode_entries, spec_decode_value, spec_read, spec_read_end,
};
use crate::gguf::{
    spec_tag_code, spec_tag_of, GGUFError, GGUfMetadataValueType, SpecContainer, SpecEntry,
    SpecValue,
};

verus! {

broadcast use vstd::seq::group_seq_axioms;

impl SpecValue {
    /// Can this value be written back to the wire: every string's UTF-8 form
    /// and every array's element count fit in the u64 length fields.
    pub open spec fn encodable(self) -> bool
        decreases self,
    {
        match self {
            SpecValue::Str(cs) => encode_utf8(cs).len() <= u64::MAX,
            SpecValue::Arr(_, vs) => vs.len() <= u64::MAX && (forall|i: int|
                0 <= i < vs.len() ==> (#[trigger] vs[i]).encodable()),
            _ => true,
        }
    }
}

impl SpecEntry {
    /// The key's UTF-8 form fits its length field and the value is encodable.
    pub open spec fn encodable(self) -> bool {
        encode_utf8(self.key).len() <= u64::MAX && self.value.encodable()
    }
}

impl SpecContainer {
    /// The entry count fits its header field and every entry is encodable.
    pub open spec fn encodable(self) -> bool {
        &&& self.metadata_kv.len() <= u64::MAX
        &&& forall|i: int|
            0 <= i < self.metadata_kv.len() ==> (#[trigger] self.metadata_kv[i]).encodable()
    }
}

/// The wire bytes of one value.
pub open spec fn spec_encode_value(v: SpecValue) -> Seq<u8>
    decreases v,
{
    match v {
        SpecValue::U8(x) => seq![x],
        SpecValue::I8(x) => seq![x as u8],
        SpecValue::U16(x) => spec_u16_to_le_bytes(x),
        SpecValue::I16(x) => spec_u16_to_le_bytes(x as u16),
        SpecValue::U32(x) => spec_u32_to_le_bytes(x),
        SpecValue::I32(x) => spec_u32_to_le_bytes(x as u32),
        SpecValue::F32Bits(b) => spec_u32_to_le_bytes(b),
        SpecValue::Bool(b) => seq![if b { 1u8 } else { 0u8 }],
        SpecValue::Str(cs) => spec_u64_to_le_bytes(encode_utf8(cs).len() as u64) + encode_utf8(cs),
        SpecValue::Arr(et, vs) => spec_u32_to_le_bytes(spec_tag_code(et)) + spec_u64_to_le_bytes(
            vs.len() as u64,
        ) + spec_encode_elems(vs),
        SpecValue::U64(x) => spec_u64_to_le_bytes(x),
        SpecValue::I64(x) => spec_u64_to_le_bytes(x as u64),
        SpecValue::F64Bits(b) => spec_u64_to_le_bytes(b),
    }
}

/// The wire bytes of a run of values, in order.
pub open spec fn spec_encode_elems(vs: Seq<SpecValue>) -> Seq<u8>
    decreases vs,
{
    if vs.len() == 0 {
        Seq::empty()
    } else {
        spec_encode_value(vs.first()) + spec_encode_elems(vs.drop_first())
    }
}

/// The wire bytes of one metadata entry: key length, key, type code, value.
pub open spec fn spec_encode_entry(e: SpecEntry) -> Seq<u8> {
    spec_u64_to_le_bytes(encode_utf8(e.key).len() as u64) + encode_utf8(e.key)
        + spec_u32_to_le_bytes(spec_tag_code(e.value_type)) + spec_encode_value(e.value)
}

/// The wire bytes of a run of metadata entries, in order.
pub open spec fn spec_encode_entries(es: Seq<SpecEntry>) -> Seq<u8>
    decreases es,
{
    if es.len() == 0 {
        Seq::empty()
    } else {
        spec_encode_entry(es.first()) + spec_encode_entries(es.drop_first())
    }
}

/// The wire bytes of a whole container: magic, header, metadata table.
pub open spec fn spec_encode(c: SpecContainer) -> Seq<u8> {
    seq![0x47u8, 0x47u8, 0x55u8, 0x46u8] + spec_u32_to_le_bytes(c.version) + spec_u64_to_le_bytes(
        c.tensor_count,
    ) + spec_u64_to_le_bytes(c.metadata_kv_count) + spec_encode_entries(c.metadata_kv)
}

/// The registry maps a tag's own code back to the tag.
pub proof fn lemma_tag_code_of(t: GGUfMetadataValueType)
    ensures
        spec_tag_of(spec_tag_code(t)) == Some(t),
{
}

/// Where a stretch of the stream is a known concatenation, each half can be
/// read off on its own.
proof fn lemma_concat_split(s: Seq<u8>, pos: int, a: Seq<u8>, b: Seq<u8>)
    requires
        0 <= pos,
        pos + a.len() + b.len() <= s.len(),
        s.subrange(pos, pos + a.len() + b.len()) == a + b,
    ensures
        s.subrange(pos, pos + a.len()) == a,
        s.subrange(pos + a.len(), pos + a.len() + b.len()) == b,
{
    let whole = s.subrange(pos, pos + a.len() + b.len());
    assert(s.subrange(pos, pos + a.len()) =~= a) by {
        assert(forall|k: int|
            0 <= k < a.len() ==> s.subrange(pos, pos + a.len())[k] == whole[k] && whole[k] == (a
                + b)[k] && (a + b)[k] == a[k]);
    }
    assert(s.subrange(pos + a.len(), pos + a.len() + b.len()) =~= b) by {
        assert(forall|k: int|
            0 <= k < b.len() ==> s.subrange(pos + a.len(), pos + a.len() + b.len())[k] == whole[k
                + a.len()] && whole[k + a.len()] == (a + b)[k + a.len()] && (a + b)[k + a.len()]
                == b[k]);
    }
}

/// A value embedded in a stream at `pos` — the bytes there are exactly its
/// encoding — decodes back to itself, ending right past the encoding.
pub proof fn lemma_decode_encode_value(v: SpecValue, t: GGUfMetadataValueType, s: Seq<u8>, pos: int)
    requires
        v.has_tag(t),
        v.wf(),
        v.encodable(),
        0 <= pos,
        pos + spec_encode_value(v).len() <= s.len(),
        s.subrange(pos, pos + spec_encode_value(v).len()) == spec_encode_value(v),
    ensures
        spec_decode_value(t, s, pos) == Ok::<(SpecValue, int), GGUFError>(
            (v, pos + spec_encode_value(v).len()),
        ),
    decreases v,
{
    lemma_auto_spec_u16_to_from_le_bytes();
    lemma_auto_spec_u32_to_from_le_bytes();
    lemma_auto_spec_u64_to_from_le_bytes();
    let enc = spec_encode_value(v);
    match v {
        SpecValue::U8(x) => {
            assert(s[pos] == enc[0]);
        },
        SpecValue::I8(x) => {
            assert(s[pos] == enc[0]);
            assert((x as u8) as i8 == x) by (bit_vector);
        },
        SpecValue::U16(x) => {
            assert(s.subrange(pos, pos + 2) =~= enc);
        },
        SpecValue::I16(x) => {
            assert(s.subrange(pos, pos + 2) =~= enc);
            assert((x as u16) as i16 == x) by (bit_vector);
        },
        SpecValue::U32(x) => {
            assert(s.subrange(pos, pos + 4) =~= enc);
        },
        SpecValue::I32(x) => {
            assert(s.subrange(pos, pos + 4) =~= enc);
            assert((x as u32) as i32 == x) by (bit_vector);
        },
        SpecValue::F32Bits(b) => {
            assert(s.subrange(pos, pos + 4) =~= enc);
        },
        SpecValue::Bool(b) => {
            assert(s[pos] == enc[0]);
        },
        SpecValue::Str(cs) => {
            let kb = encode_utf8(cs);
            let lenb = spec_u64_to_le_bytes(kb.len() as u64);
            lemma_concat_split(s, pos, lenb, kb);
            assert(spec_u64_from_le_bytes(s.subrange(pos, pos + 8)) == kb.len());
            encode_utf8_valid_utf8(cs);
            encode_utf8_decode_utf8(cs);
            assert(s.subrange(pos + 8, pos + 8 + kb.len()) == kb);
        },
        SpecValue::Arr(et, vs) => {
            let tagb = spec_u32_to_le_bytes(spec_tag_code(et));
            let cntb = spec_u64_to_le_bytes(vs.len() as u64);
            let body = spec_encode_elems(vs);
            assert(enc =~= (tagb + cntb) + body);
            lemma_concat_split(s, pos, tagb + cntb, body);
            lemma_concat_split(s, pos, tagb, cntb);
            assert(spec_u32_from_le_bytes(s.subrange(pos, pos + 4)) == spec_tag_code(et));
            lemma_tag_code_of(et);
            assert(spec_u64_from_le_bytes(s.subrange(pos + 4, pos + 12)) == vs.len());
            lemma_decode_encode_elems(vs, et, s, pos + 12);
        },
        SpecValue::U64(x) => {
            assert(s.subrange(pos, pos + 8) =~= enc);
        },
        SpecValue::I64(x) => {
            assert(s.subrange(pos, pos + 8) =~= enc);
            assert((x as u64) as i64 == x) by (bit_vector);
        },
        SpecValue::F64Bits(b) => {
            assert(s.subrange(pos, pos + 8) =~= enc);
        },
    }
}

/// A run of values embedded at `pos` decodes back to itself.
pub proof fn lemma_decode_encode_elems(
    vs: Seq<SpecValue>,
    t: GGUfMetadataValueType,
    s: Seq<u8>,
    pos: int,
)
    requires
        forall|i: int|
            0 <= i < vs.len() ==> (#[trigger] vs[i]).has_tag(t) && vs[i].wf() && vs[i].encodable(),
        0 <= pos,
        pos + spec_encode_elems(vs).len() <= s.len(),
        s.subrange(pos, pos + spec_encode_elems(vs).len()) == spec_encode_elems(vs),
    ensures
        spec_decode_elems(t, vs.len(), s, pos) == Ok::<(Seq<SpecValue>, int), GGUFError>(
            (vs, pos + spec_encode_elems(vs).len()),
        ),
    decreases vs,
{
    if vs.len() == 0 {
        assert(spec_decode_elems(t, 0, s, pos) == Ok::<(Seq<SpecValue>, int), GGUFError>(
            (Seq::empty(), pos),
        ));
        assert(vs =~= Seq::<SpecValue>::empty());
    } else {
        let v = vs.first();
        let rest = vs.drop_first();
        let enc_v = spec_encode_value(v);
        let enc_rest = spec_encode_elems(rest);
        lemma_concat_split(s, pos, enc_v, enc_rest);
        lemma_decode_encode_value(v, t, s, pos);
        lemma_decode_value_advances(t, s, pos);
        let p2 = pos + enc_v.len();
        lemma_decode_encode_elems(rest, t, s, p2);
        assert(seq![v] + rest =~= vs);
    }
}

/// A run of entries embedded at `pos` decodes back to itself.
pub proof fn lemma_decode_encode_entries(es: Seq<SpecEntry>, s: Seq<u8>, pos: int)
    requires
        forall|i: int| 0 <= i < es.len() ==> (#[trigger] es[i]).wf() && es[i].encodable(),
        0 <= pos,
        pos + spec_encode_entries(es).len() <= s.len(),
        s.subrange(pos, pos + spec_encode_entries(es).len()) == spec_encode_entries(es),
    ensures
        spec_decode_entries(es.len(), s, pos) == Ok::<(Seq<SpecEntry>, int), GGUFError>(
            (es, pos + spec_encode_entries(es).len()),
        ),
    decreases es.len(),
{
    lemma_auto_spec_u32_to_from_le_bytes();
    lemma_auto_spec_u64_to_from_le_bytes();
    if es.len() == 0 {
        assert(es =~= Seq::<SpecEntry>::empty());
    } else {
        let e = es.first();
        let rest = es.drop_first();
        let kb = encode_utf8(e.key);
        let lenb = spec_u64_to_le_bytes(kb.len() as u64);
        let tagb = spec_u32_to_le_bytes(spec_tag_code(e.value_type));
        let encv = spec_encode_value(e.value);
        let enc_e = spec_encode_entry(e);
        let enc_rest = spec_encode_entries(rest);
        assert(enc_e =~= ((lenb + kb) + tagb) + encv);
        lemma_concat_split(s, pos, enc_e, enc_rest);
        lemma_concat_split(s, pos, (lenb + kb) + tagb, encv);
        lemma_concat_split(s, pos, lenb + kb, tagb);
        lemma_concat_split(s, pos, lenb, kb);
        assert(spec_u64_from_le_bytes(s.subrange(pos, pos + 8)) == kb.len());
        encode_utf8_valid_utf8(e.key);
        encode_utf8_decode_utf8(e.key);
        assert(s.subrange(pos + 8, pos + 8 + kb.len()) == kb);
        let cpos = pos + 8 + kb.len();
        assert(spec_u32_from_le_bytes(s.subrange(cpos, cpos + 4)) == spec_tag_code(e.value_type));
        lemma_tag_code_of(e.value_type);
        lemma_decode_encode_value(e.value, e.value_type, s, cpos + 4);
        let p2 = cpos + 4 + encv.len();
        lemma_decode_encode_entries(rest, s, p2);
        let e2 = SpecEntry { key: decode_utf8(kb), value_type: e.value_type, value: e.value };
        assert(e2 == e);
        assert(seq![e] + rest =~= es);
    }
}

/// Round trip: a well-formed, encodable container decodes back from its own
/// encoding, entry for entry and field for field — with any suffix (such as
/// the tensor section) ignored, as the reader only consumes the metadata
/// table.
pub proof fn lemma_read_round_trip(c: SpecContainer, rest: Seq<u8>)
    requires
        c.wf(),
        c.encodable(),
    ensures
        spec_read(spec_encode(c) + rest) == Ok::<SpecContainer, GGUFError>(c),
{
    lemma_auto_spec_u32_to_from_le_bytes();
    lemma_auto_spec_u64_to_from_le_bytes();
    let magic = seq![0x47u8, 0x47u8, 0x55u8, 0x46u8];
    let verb = spec_u32_to_le_bytes(c.version);
    let tcb = spec_u64_to_le_bytes(c.tensor_count);
    let kcb = spec_u64_to_le_bytes(c.metadata_kv_count);
    let entb = spec_encode_entries(c.metadata_kv);
    let s = spec_encode(c) + rest;
    assert(s.subrange(0, spec_encode(c).len() as int) =~= spec_encode(c));
    assert(spec_encode(c) =~= (((magic + verb) + tcb) + kcb) + entb);
    lemma_concat_split(s, 0, (((magic + verb) + tcb) + kcb), entb);
    lemma_concat_split(s, 0, ((magic + verb) + tcb), kcb);
    lemma_concat_split(s, 0, (magic + verb), tcb);
    lemma_concat_split(s, 0, magic, verb);
    assert(s[0] == 0x47u8 && s[1] == 0x47u8 && s[2] == 0x55u8 && s[3] == 0x46u8) by {
        assert(s.subrange(0, 4)[0] == s[0]);
        assert(s.subrange(0, 4)[1] == s[1]);
        assert(s.subrange(0, 4)[2] == s[2]);
        assert(s.subrange(0, 4)[3] == s[3]);
    }
    assert(spec_u32_from_le_bytes(s.subrange(4, 8)) == c.version);
    assert(spec_u64_from_le_bytes(s.subrange(8, 16)) == c.tensor_count);
    assert(spec_u64_from_le_bytes(s.subrange(16, 24)) == c.metadata_kv_count);
    lemma_decode_encode_entries(c.metadata_kv, s, 24);
    assert(c.metadata_kv_count as nat == c.metadata_kv.len());
}

/// A value that decodes from `s` decodes the same way from any prefix of
/// `s` long enough to hold it, and fails with `Truncated` from any prefix
/// cut before its end.
pub proof fn lemma_decode_value_prefix(t: GGUfMetadataValueType, s: Seq<u8>, pos: int, i: int)
    requires
        0 <= pos <= s.len(),
        pos <= i <= s.len(),
        spec_decode_value(t, s, pos) is Ok,
    ensures
        spec_decode_value(t, s, pos) matches Ok((v, p2)) ==> spec_decode_value(t, s.take(i), pos)
            == (if p2 <= i {
            Ok::<(SpecValue, int), GGUFError>((v, p2))
        } else {
            Err::<(SpecValue, int), GGUFError>(GGUFError::Truncated)
        }),
    decreases s.len() - pos, 0nat,
{
    let sub = s.take(i);
    assert(forall|a: int, b: int|
        0 <= a && a <= b && b <= i ==> s.take(i).subrange(a, b) =~= s.subrange(a, b));
    match t {
        GGUfMetadataValueType::Array => {
            if pos + 12 <= s.len() {
                let code = spec_u32_from_le_bytes(s.subrange(pos, pos + 4));
                match spec_tag_of(code) {
                    Some(et) => {
                        let n = spec_u64_from_le_bytes(s.subrange(pos + 4, pos + 12));
                        lemma_decode_elems_advances(et, n as nat, s, pos + 12);
                        if pos + 12 <= i {
                            lemma_decode_elems_prefix(et, n as nat, s, pos + 12, i);
                        }
                    },
                    None => {},
                }
            }
        },
        _ => {},
    }
}

/// A run of values that decodes from `s` behaves, on a prefix of `s`, just
/// as [`lemma_decode_value_prefix`] describes for one value.
pub proof fn lemma_decode_elems_prefix(
    t: GGUfMetadataValueType,
    n: nat,
    s: Seq<u8>,
    pos: int,
    i: int,
)
    requires
        0 <= pos <= s.len(),
        pos <= i <= s.len(),
        spec_decode_elems(t, n, s, pos) is Ok,
    ensures
        spec_decode_elems(t, n, s, pos) matches Ok((vs, p2)) ==> spec_decode_elems(
            t,
            n,
            s.take(i),
            pos,
        ) == (if p2 <= i {
            Ok::<(Seq<SpecValue>, int), GGUFError>((vs, p2))
        } else {
            Err::<(Seq<SpecValue>, int), GGUFError>(GGUFError::Truncated)
        }),
    decreases s.len() - pos, n,
{
    if n > 0 {
        match spec_decode_value(t, s, pos) {
            Ok((v, pv)) => {
                lemma_decode_value_advances(t, s, pos);
                lemma_decode_value_prefix(t, s, pos, i);
                lemma_decode_elems_advances(t, (n - 1) as nat, s, pv);
                if pv <= i {
                    lemma_decode_elems_prefix(t, (n - 1) as nat, s, pv, i);
                }
            },
            Err(_) => {},
        }
    }
}

/// A run of entries that decodes from `s` behaves, on a prefix of `s`, just
/// as [`lemma_decode_value_prefix`] describes for one value.
pub proof fn lemma_decode_entries_prefix(k: nat, s: Seq<u8>, pos: int, i: int)
    requires
        0 <= pos <= s.len(),
        pos <= i <= s.len(),
        spec_decode_entries(k, s, pos) is Ok,
    ensures
        spec_decode_entries(k, s, pos) matches Ok((es, p2)) ==> spec_decode_entries(
            k,
            s.take(i),
            pos,
        ) == (if p2 <= i {
            Ok::<(Seq<SpecEntry>, int), GGUFError>((es, p2))
        } else {
            Err::<(Seq<SpecEntry>, int), GGUFError>(GGUFError::Truncated)
        }),
    decreases s.len() - pos, k,
{
    assert(forall|a: int, b: int|
        0 <= a && a <= b && b <= i ==> s.take(i).subrange(a, b) =~= s.subrange(a, b));
    if k > 0 {
        let klen = spec_u64_from_le_bytes(s.subrange(pos, pos + 8)) as int;
        if pos + 12 + klen <= s.len() {
            let code = spec_u32_from_le_bytes(s.subrange(pos + 8 + klen, pos + 12 + klen));
            match spec_tag_of(code) {
                Some(t) => {
                    match spec_decode_value(t, s, pos + 12 + klen) {
                        Ok((v, pv)) => {
                            lemma_decode_value_advances(t, s, pos + 12 + klen);
                            lemma_decode_entries_advances((k - 1) as nat, s, pv);
                            if pos + 12 + klen <= i {
                                lemma_decode_value_prefix(t, s, pos + 12 + klen, i);
                            }
                            if pv <= i {
                                lemma_decode_entries_prefix((k - 1) as nat, s, pv, i);
                            }
                        },
                        Err(_) => {},
                    }
                },
                None => {},
            }
        }
    }
}

/// Truncating a stream that decodes successfully, at any byte boundary
/// strictly before its logical end, yields `Truncated` — never a successful
/// decode and never any other error kind.
pub proof fn lemma_read_truncated(s: Seq<u8>, i: int)
    requires
        spec_read(s) is Ok,
        0 <= i < spec_read_end(s),
    ensures
        spec_read(s.take(i)) == Err::<SpecContainer, GGUFError>(GGUFError::Truncated),
{
    let kv_count = spec_u64_from_le_bytes(s.subrange(16, 24));
    lemma_decode_entries_advances(kv_count as nat, s, 24);
    if i >= 4 {
        assert(s.take(i)[0] == s[0] && s.take(i)[1] == s[1] && s.take(i)[2] == s[2] && s.take(i)[3]
            == s[3]);
    }
    if i >= 24 {
        assert(forall|a: int, b: int|
            0 <= a && a <= b && b <= i ==> s.take(i).subrange(a, b) =~= s.subrange(a, b));
        lemma_decode_entries_prefix(kv_count as nat, s, 24, i);
    }
}

/// Corrupting any single byte of the four-byte magic marker of a stream
/// that would otherwise decode makes the read fail with `NotThisFormat`,
/// whatever the rest of the stream holds: the marker is judged before any
/// header field is interpreted.
pub proof fn lemma_read_corrupt_magic(s: Seq<u8>, c: Seq<u8>, j: int)
    requires
        spec_read(s) is Ok,
        c.len() == s.len(),
        0 <= j < 4,
        c[j] != s[j],
        forall|k: int| 0 <= k < c.len() && k != j ==> c[k] == s[k],
    ensures
        spec_read(c) == Err::<SpecContainer, GGUFError>(GGUFError::NotThisFormat),
{
}

/// An array whose declared element count is zero decodes to an empty
/// element sequence and consumes exactly 12 bytes — its 4-byte element tag
/// and 8-byte count — regardless of the declared element type.
pub proof fn lemma_empty_array_framing(s: Seq<u8>, pos: int, et: GGUfMetadataValueType)
    requires
        0 <= pos,
        pos + 12 <= s.len(),
        spec_tag_of(spec_u32_from_le_bytes(s.subrange(pos, pos + 4))) == Some(et),
        spec_u64_from_le_bytes(s.subrange(pos + 4, pos + 12)) == 0,
    ensures
        spec_decode_value(GGUfMetadataValueType::Array, s, pos) == Ok::<
            (SpecValue, int),
            GGUFError,
        >((SpecValue::Arr(et, Seq::empty()), pos + 12)),
{
}


/// The structural error kinds are the only ones the decoder produces:
/// `IoFailure` is reserved for callers whose byte source itself fails, and
/// no decode outcome ever carries it.
pub proof fn lemma_read_never_io_failure(s: Seq<u8>)
    ensures
        spec_read(s) matches Err(e) ==> e != GGUFError::IoFailure,
{
    if s.len() >= 24 {
        let kv_count = spec_u64_from_le_bytes(s.subrange(16, 24));
        lemma_decode_entries_error_kind(kv_count as nat, s, 24);
    }
}

/// One decoded value can only fail structurally.
proof fn lemma_decode_value_error_kind(t: GGUfMetadataValueType, s: Seq<u8>, pos: int)
    requires
        0 <= pos <= s.len(),
    ensures
        spec_decode_value(t, s, pos) matches Err(e) ==> e != GGUFError::IoFailure,
    decreases s.len() - pos, 0nat,
{
    match t {
        GGUfMetadataValueType::Array => {
            if pos + 12 <= s.len() {
                let code = spec_u32_from_le_bytes(s.subrange(pos, pos + 4));
                match spec_tag_of(code) {
                    Some(et) => {
                        let n = spec_u64_from_le_bytes(s.subrange(pos + 4, pos + 12));
                        lemma_decode_elems_error_kind(et, n as nat, s, pos + 12);
                    },
                    None => {},
                }
            }
        },
        _ => {},
    }
}

/// A run of values can only fail structurally.
proof fn lemma_decode_elems_error_kind(t: GGUfMetadataValueType, n: nat, s: Seq<u8>, pos: int)
    requires
        0 <= pos <= s.len(),
    ensures
        spec_decode_elems(t, n, s, pos) matches Err(e) ==> e != GGUFError::IoFailure,
    decreases s.len() - pos, n,
{
    if n > 0 {
        lemma_decode_value_error_kind(t, s, pos);
        match spec_decode_value(t, s, pos) {
            Ok((_v, p2)) => {
                if pos < p2 <= s.len() {
                    lemma_decode_elems_error_kind(t, (n - 1) as nat, s, p2);
                }
            },
            Err(_) => {},
        }
    }
}

/// A run of entries can only fail structurally.
proof fn lemma_decode_entries_error_kind(k: nat, s: Seq<u8>, pos: int)
    requires
        0 <= pos <= s.len(),
    ensures
        spec_decode_entries(k, s, pos) matches Err(e) ==> e != GGUFError::IoFailure,
    decreases s.len() - pos, k,
{
    if k > 0 && pos + 8 <= s.len() {
        let klen = spec_u64_from_le_bytes(s.subrange(pos, pos + 8)) as int;
        if pos + 12 + klen <= s.len() {
            let code = spec_u32_from_le_bytes(s.subrange(pos + 8 + klen, pos + 12 + klen));
            match spec_tag_of(code) {
                Some(t) => {
                    lemma_decode_value_error_kind(t, s, pos + 12 + klen);
                    match spec_decode_value(t, s, pos + 12 + klen) {
                        Ok((_v, pv)) => {
                            if pos < pv <= s.len() {
                                lemma_decode_entries_error_kind((k - 1) as nat, s, pv);
                            }
                        },
                        Err(_) => {},
                    }
                },
                None => {},
            }
        }
    }
}

/// Decoding is deterministic: the outcome — container or error kind — is a
/// function of the byte sequence alone, so repeated reads of equal bytes
/// agree. `GGUF::read` pins its result to `spec_read(data@)`, which carries
/// this to the executable reader.
pub proof fn lemma_read_deterministic(s1: Seq<u8>, s2: Seq<u8>)
    requires
        s1 == s2,
    ensures
        spec_read(s1) == spec_read(s2),
{
}

} // verus!
