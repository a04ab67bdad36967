//! The value decoder and the file-level reader.
//!
//! The wire format is specified once, as the spec functions
//! [`spec_decode_value`], [`spec_decode_elems`], [`spec_decode_entries`] and
//! [`spec_read`]: total functions from a byte sequence to either a decoded
//! model or the error the stream deserves. The executable reader is then
//! proved to return exactly what the specification says, for every input.

use vstd::prelude::*;

use vstd::bytes::{
    spec_u16_from_le_bytes, spec_u32_from_le_bytes, spec_u64_from_le_bytes, u16_from_le_bytes,
    u32_from_le_bytes, u64_from_le_bytes,
};
use vstd::slice::{slice_index_get, slice_subrange, slice_to_vec};
use vstd::utf8::{decode_utf8, valid_utf8};

use crate::gguf::{
    lemma_seq_model_push, seq_model, spec_tag_of, GGUFError, GGUFMetadata,
    GGUFMetadataArrayValue, GGUFMetadataValue, GGUfMetadataValueType, SpecContainer, SpecEntry,
    SpecValue, GGUF,
};

verus! {

broadcast use vstd::seq::group_seq_axioms, vstd::std_specs::vec::group_vec_axioms, vstd::slice::group_slice_axioms;

/// The first four bytes of every GGUF stream: `G`, `G`, `U`, `F`. All four
/// must match exactly; a marker with even one wrong byte is rejected as
/// `NotThisFormat` before any header field is interpreted.
pub open spec fn spec_magic_ok(s: Seq<u8>) -> bool {
    &&& s.len() >= 4
    &&& s[0] == 0x47u8
    &&& s[1] == 0x47u8
    &&& s[2] == 0x55u8
    &&& s[3] == 0x46u8
}

/// Decode one value of tag `t` at byte offset `pos`: the value and the
/// offset just past it, or the error. Bounds are checked before any byte is
/// interpreted, so a short stream always fails with `Truncated` and never
/// with a later error kind.
pub open spec fn spec_decode_value(t: GGUfMetadataValueType, s: Seq<u8>, pos: int) -> Result<
    (SpecValue, int),
    GGUFError,
>
    recommends
        0 <= pos <= s.len(),
    decreases s.len() - pos, 0nat,
{
    match t {
        GGUfMetadataValueType::UInt8 => if pos + 1 <= s.len() {
            Ok((SpecValue::U8(s[pos]), pos + 1))
        } else {
            Err(GGUFError::Truncated)
        },
        GGUfMetadataValueType::Int8 => if pos + 1 <= s.len() {
            Ok((SpecValue::I8(s[pos] as i8), pos + 1))
        } else {
            Err(GGUFError::Truncated)
        },
        GGUfMetadataValueType::UInt16 => if pos + 2 <= s.len() {
            Ok((SpecValue::U16(spec_u16_from_le_bytes(s.subrange(pos, pos + 2))), pos + 2))
        } else {
            Err(GGUFError::Truncated)
        },
        GGUfMetadataValueType::Int16 => if pos + 2 <= s.len() {
            Ok((SpecValue::I16(spec_u16_from_le_bytes(s.subrange(pos, pos + 2)) as i16), pos + 2))
        } else {
            Err(GGUFError::Truncated)
        },
        GGUfMetadataValueType::UInt32 => if pos + 4 <= s.len() {
            Ok((SpecValue::U32(spec_u32_from_le_bytes(s.subrange(pos, pos + 4))), pos + 4))
        } else {
            Err(GGUFError::Truncated)
        },
        GGUfMetadataValueType::Int32 => if pos + 4 <= s.len() {
            Ok((SpecValue::I32(spec_u32_from_le_bytes(s.subrange(pos, pos + 4)) as i32), pos + 4))
        } else {
            Err(GGUFError::Truncated)
        },
        GGUfMetadataValueType::Float32 => if pos + 4 <= s.len() {
            Ok((SpecValue::F32Bits(spec_u32_from_le_bytes(s.subrange(pos, pos + 4))), pos + 4))
        } else {
            Err(GGUFError::Truncated)
        },
        GGUfMetadataValueType::Bool => if pos + 1 <= s.len() {
            Ok((SpecValue::Bool(s[pos] != 0), pos + 1))
        } else {
            Err(GGUFError::Truncated)
        },
        GGUfMetadataValueType::String => if pos + 8 <= s.len() {
            let n = spec_u64_from_le_bytes(s.subrange(pos, pos + 8)) as int;
            if pos + 8 + n <= s.len() {
                let payload = s.subrange(pos + 8, pos + 8 + n);
                if valid_utf8(payload) {
                    Ok((SpecValue::Str(decode_utf8(payload)), pos + 8 + n))
                } else {
                    Err(GGUFError::InvalidUtf8)
                }
            } else {
                Err(GGUFError::Truncated)
            }
        } else {
            Err(GGUFError::Truncated)
        },
        GGUfMetadataValueType::Array => if pos + 4 <= s.len() {
            let code = spec_u32_from_le_bytes(s.subrange(pos, pos + 4));
            match spec_tag_of(code) {
                None => Err(GGUFError::UnknownValueType(code)),
                Some(et) => if pos + 12 <= s.len() {
                    let n = spec_u64_from_le_bytes(s.subrange(pos + 4, pos + 12));
                    match spec_decode_elems(et, n as nat, s, pos + 12) {
                        Ok((vs, p2)) => Ok((SpecValue::Arr(et, vs), p2)),
                        Err(e) => Err(e),
                    }
                } else {
                    Err(GGUFError::Truncated)
                },
            }
        } else {
            Err(GGUFError::Truncated)
        },
        GGUfMetadataValueType::UInt64 => if pos + 8 <= s.len() {
            Ok((SpecValue::U64(spec_u64_from_le_bytes(s.subrange(pos, pos + 8))), pos + 8))
        } else {
            Err(GGUFError::Truncated)
        },
        GGUfMetadataValueType::Int64 => if pos + 8 <= s.len() {
            Ok((SpecValue::I64(spec_u64_from_le_bytes(s.subrange(pos, pos + 8)) as i64), pos + 8))
        } else {
            Err(GGUFError::Truncated)
        },
        GGUfMetadataValueType::Float64 => if pos + 8 <= s.len() {
            Ok((SpecValue::F64Bits(spec_u64_from_le_bytes(s.subrange(pos, pos + 8))), pos + 8))
        } else {
            Err(GGUFError::Truncated)
        },
    }
}

/// Decode `n` consecutive values of tag `t` starting at `pos`. The final
/// branch can never be taken — [`lemma_decode_value_advances`] shows a
/// decoded value always ends past where it starts — but it makes the
/// termination measure of the recursion evident.
pub open spec fn spec_decode_elems(
    t: GGUfMetadataValueType,
    n: nat,
    s: Seq<u8>,
    pos: int,
) -> Result<(Seq<SpecValue>, int), GGUFError>
    recommends
        0 <= pos <= s.len(),
    decreases s.len() - pos, n,
{
    if n == 0 {
        Ok((Seq::empty(), pos))
    } else {
        match spec_decode_value(t, s, pos) {
            Err(e) => Err(e),
            Ok((v, p2)) => if pos < p2 <= s.len() {
                match spec_decode_elems(t, (n - 1) as nat, s, p2) {
                    Ok((vs, p3)) => Ok((seq![v] + vs, p3)),
                    Err(e) => Err(e),
                }
            } else {
                Err(GGUFError::Truncated)
            },
        }
    }
}

/// Decode `k` metadata entries starting at `pos`: for each, a u64 key
/// length, the UTF-8 key, a u32 type code, and one value of that type.
pub open spec fn spec_decode_entries(k: nat, s: Seq<u8>, pos: int) -> Result<
    (Seq<SpecEntry>, int),
    GGUFError,
>
    recommends
        0 <= pos <= s.len(),
    decreases s.len() - pos, k,
{
    if k == 0 {
        Ok((Seq::empty(), pos))
    } else if pos + 8 > s.len() {
        Err(GGUFError::Truncated)
    } else {
        let klen = spec_u64_from_le_bytes(s.subrange(pos, pos + 8)) as int;
        if pos + 8 + klen > s.len() {
            Err(GGUFError::Truncated)
        } else {
            let kb = s.subrange(pos + 8, pos + 8 + klen);
            if !valid_utf8(kb) {
                Err(GGUFError::InvalidUtf8)
            } else if pos + 12 + klen > s.len() {
                Err(GGUFError::Truncated)
            } else {
                let code = spec_u32_from_le_bytes(s.subrange(pos + 8 + klen, pos + 12 + klen));
                match spec_tag_of(code) {
                    None => Err(GGUFError::UnknownValueType(code)),
                    Some(t) => match spec_decode_value(t, s, pos + 12 + klen) {
                        Err(e) => Err(e),
                        Ok((v, p2)) => if pos < p2 <= s.len() {
                            match spec_decode_entries((k - 1) as nat, s, p2) {
                                Ok((es, p3)) => Ok(
                                    (
                                        seq![
                                            SpecEntry {
                                                key: decode_utf8(kb),
                                                value_type: t,
                                                value: v,
                                            },
                                        ] + es,
                                        p3,
                                    ),
                                ),
                                Err(e) => Err(e),
                            }
                        } else {
                            Err(GGUFError::Truncated)
                        },
                    },
                }
            }
        }
    }
}

/// Decode a whole stream: magic marker, header, then the metadata table.
/// Bytes past the table — the tensor section — are left untouched.
pub open spec fn spec_read(s: Seq<u8>) -> Result<SpecContainer, GGUFError> {
    if s.len() < 4 {
        Err(GGUFError::Truncated)
    } else if !spec_magic_ok(s) {
        Err(GGUFError::NotThisFormat)
    } else if s.len() < 24 {
        Err(GGUFError::Truncated)
    } else {
        let kv_count = spec_u64_from_le_bytes(s.subrange(16, 24));
        match spec_decode_entries(kv_count as nat, s, 24) {
            Ok((es, _)) => Ok(
                SpecContainer {
                    version: spec_u32_from_le_bytes(s.subrange(4, 8)),
                    tensor_count: spec_u64_from_le_bytes(s.subrange(8, 16)),
                    metadata_kv_count: kv_count,
                    metadata_kv: es,
                },
            ),
            Err(e) => Err(e),
        }
    }
}

/// The offset just past the metadata table of a stream that decodes
/// successfully: its logical end. Everything after it is tensor data.
pub open spec fn spec_read_end(s: Seq<u8>) -> int
    recommends
        spec_read(s) is Ok,
{
    match spec_decode_entries(spec_u64_from_le_bytes(s.subrange(16, 24)) as nat, s, 24) {
        Ok((_, p)) => p,
        Err(_) => 0,
    }
}

/// A successfully decoded value ends strictly past where it starts, never
/// past the stream, and has the shape its tag declares.
pub proof fn lemma_decode_value_advances(t: GGUfMetadataValueType, s: Seq<u8>, pos: int)
    requires
        0 <= pos <= s.len(),
    ensures
        spec_decode_value(t, s, pos) matches Ok((v, p2)) ==> pos < p2 <= s.len() && v.has_tag(t)
            && v.wf(),
    decreases s.len() - pos, 0nat,
{
    match t {
        GGUfMetadataValueType::Array => {
            if pos + 4 <= s.len() {
                let code = spec_u32_from_le_bytes(s.subrange(pos, pos + 4));
                match spec_tag_of(code) {
                    Some(et) => {
                        if pos + 12 <= s.len() {
                            let n = spec_u64_from_le_bytes(s.subrange(pos + 4, pos + 12));
                            lemma_decode_elems_advances(et, n as nat, s, pos + 12);
                        }
                    },
                    None => {},
                }
            }
        },
        _ => {},
    }
}

/// A successfully decoded run of `n` elements never moves backwards or past
/// the stream, yields exactly `n` values, and every one of them is
/// well-formed with the declared tag.
pub proof fn lemma_decode_elems_advances(t: GGUfMetadataValueType, n: nat, s: Seq<u8>, pos: int)
    requires
        0 <= pos <= s.len(),
    ensures
        spec_decode_elems(t, n, s, pos) matches Ok((vs, p2)) ==> pos <= p2 <= s.len() && vs.len()
            == n && (forall|i: int|
            0 <= i < vs.len() ==> (#[trigger] vs[i]).has_tag(t) && vs[i].wf()),
    decreases s.len() - pos, n,
{
    if n > 0 {
        match spec_decode_value(t, s, pos) {
            Ok((v, p2)) => {
                lemma_decode_value_advances(t, s, pos);
                if pos < p2 <= s.len() {
                    lemma_decode_elems_advances(t, (n - 1) as nat, s, p2);
                }
            },
            Err(_) => {},
        }
    }
}

/// A successfully decoded run of `k` entries never moves backwards or past
/// the stream, yields exactly `k` entries, and every one is well-formed.
pub proof fn lemma_decode_entries_advances(k: nat, s: Seq<u8>, pos: int)
    requires
        0 <= pos <= s.len(),
    ensures
        spec_decode_entries(k, s, pos) matches Ok((es, p2)) ==> pos <= p2 <= s.len() && es.len()
            == k && (forall|i: int| 0 <= i < es.len() ==> (#[trigger] es[i]).wf()),
    decreases s.len() - pos, k,
{
    if k > 0 && pos + 8 <= s.len() {
        let klen = spec_u64_from_le_bytes(s.subrange(pos, pos + 8)) as int;
        if pos + 8 + klen <= s.len() {
            let kb = s.subrange(pos + 8, pos + 8 + klen);
            if valid_utf8(kb) && pos + 12 + klen <= s.len() {
                let code = spec_u32_from_le_bytes(s.subrange(pos + 8 + klen, pos + 12 + klen));
                match spec_tag_of(code) {
                    Some(t) => {
                        match spec_decode_value(t, s, pos + 12 + klen) {
                            Ok((v, p2)) => {
                                lemma_decode_value_advances(t, s, pos + 12 + klen);
                                if pos < p2 <= s.len() {
                                    lemma_decode_entries_advances((k - 1) as nat, s, p2);
                                }
                            },
                            Err(_) => {},
                        }
                    },
                    None => {},
                }
            }
        }
    }
}

/// The models of a sequence of decoded entries, element by element.
pub open spec fn entries_model(s: Seq<GGUFMetadata>) -> Seq<SpecEntry> {
    Seq::new(s.len(), |i: int| s[i]@)
}

/// Relies on `String::from_utf8` from std: it returns `Ok` exactly when the
/// bytes are valid UTF-8, and the returned string's characters are their
/// decoding (`vstd::utf8` states what that means).
#[verifier::external_body]
fn utf8_to_string(bytes: Vec<u8>) -> (r: Option<String>)
    ensures
        r is Some <==> valid_utf8(bytes@),
        r matches Some(st) ==> st@ == decode_utf8(bytes@),
{
    match String::from_utf8(bytes) {
        Ok(st) => Some(st),
        Err(_) => None,
    }
}

/// One byte of the stream.
fn byte_at(data: &[u8], pos: usize) -> (b: u8)
    requires
        pos < data@.len(),
    ensures
        b == data@[pos as int],
{
    *slice_index_get(data, pos)
}

/// The little-endian u16 at `pos`.
fn read_u16(data: &[u8], pos: usize) -> (x: u16)
    requires
        pos + 2 <= data@.len(),
    ensures
        x == spec_u16_from_le_bytes(data@.subrange(pos as int, pos as int + 2)),
{
    proof {
        vstd::slice::axiom_spec_len(data);
    }
    u16_from_le_bytes(slice_subrange(data, pos, pos + 2))
}

/// The little-endian u32 at `pos`.
fn read_u32(data: &[u8], pos: usize) -> (x: u32)
    requires
        pos + 4 <= data@.len(),
    ensures
        x == spec_u32_from_le_bytes(data@.subrange(pos as int, pos as int + 4)),
{
    proof {
        vstd::slice::axiom_spec_len(data);
    }
    u32_from_le_bytes(slice_subrange(data, pos, pos + 4))
}

/// The little-endian u64 at `pos`.
fn read_u64(data: &[u8], pos: usize) -> (x: u64)
    requires
        pos + 8 <= data@.len(),
    ensures
        x == spec_u64_from_le_bytes(data@.subrange(pos as int, pos as int + 8)),
{
    proof {
        vstd::slice::axiom_spec_len(data);
    }
    u64_from_le_bytes(slice_subrange(data, pos, pos + 8))
}

impl GGUF {
    /// Decode one value of tag `t` at offset `pos`, returning the value and
    /// the offset just past it: exactly what [`spec_decode_value`] says, for
    /// every input.
    fn parse_metadata_value(data: &[u8], pos: usize, t: GGUfMetadataValueType) -> (r: Result<
        (GGUFMetadataValue, usize),
        GGUFError,
    >)
        requires
            pos <= data@.len(),
        ensures
            (match spec_decode_value(t, data@, pos as int) {
                Ok((m, p2)) => r matches Ok((v, p)) && v@ == m && v.wf() && p as int == p2,
                Err(e) => r matches Err(e2) && e2 == e,
            }),
        decreases data@.len() - pos, 0nat,
    {
        let rem = data.len() - pos;
        match t {
            GGUfMetadataValueType::UInt8 => if rem >= 1 {
                Ok((GGUFMetadataValue::Uint8(byte_at(data, pos)), pos + 1))
            } else {
                Err(GGUFError::Truncated)
            },
            GGUfMetadataValueType::Int8 => if rem >= 1 {
                Ok((GGUFMetadataValue::Int8(#[verifier::truncate] (byte_at(data, pos) as i8)), pos + 1))
            } else {
                Err(GGUFError::Truncated)
            },
            GGUfMetadataValueType::UInt16 => if rem >= 2 {
                Ok((GGUFMetadataValue::Uint16(read_u16(data, pos)), pos + 2))
            } else {
                Err(GGUFError::Truncated)
            },
            GGUfMetadataValueType::Int16 => if rem >= 2 {
                Ok((GGUFMetadataValue::Int16(#[verifier::truncate] (read_u16(data, pos) as i16)), pos + 2))
            } else {
                Err(GGUFError::Truncated)
            },
            GGUfMetadataValueType::UInt32 => if rem >= 4 {
                Ok((GGUFMetadataValue::Uint32(read_u32(data, pos)), pos + 4))
            } else {
                Err(GGUFError::Truncated)
            },
            GGUfMetadataValueType::Int32 => if rem >= 4 {
                Ok((GGUFMetadataValue::Int32(#[verifier::truncate] (read_u32(data, pos) as i32)), pos + 4))
            } else {
                Err(GGUFError::Truncated)
            },
            GGUfMetadataValueType::Float32 => if rem >= 4 {
                Ok((GGUFMetadataValue::Float32(read_u32(data, pos)), pos + 4))
            } else {
                Err(GGUFError::Truncated)
            },
            GGUfMetadataValueType::Bool => if rem >= 1 {
                Ok((GGUFMetadataValue::Bool(byte_at(data, pos) != 0), pos + 1))
            } else {
                Err(GGUFError::Truncated)
            },
            GGUfMetadataValueType::String => if rem >= 8 {
                let n64 = read_u64(data, pos);
                let rem2 = data.len() - (pos + 8);
                if n64 > rem2 as u64 {
                    Err(GGUFError::Truncated)
                } else {
                    let n = n64 as usize;
                    let payload = slice_to_vec(slice_subrange(data, pos + 8, pos + 8 + n));
                    match utf8_to_string(payload) {
                        Some(st) => Ok((GGUFMetadataValue::String(st), pos + 8 + n)),
                        None => Err(GGUFError::InvalidUtf8),
                    }
                }
            } else {
                Err(GGUFError::Truncated)
            },
            GGUfMetadataValueType::Array => if rem >= 4 {
                let code = read_u32(data, pos);
                match GGUfMetadataValueType::try_from(code) {
                    Err(e) => Err(e),
                    Ok(et) => if rem >= 12 {
                        let n64 = read_u64(data, pos + 4);
                        match parse_array_elems(data, pos + 12, et, n64) {
                            Err(e) => Err(e),
                            Ok((elems, end)) => Ok(
                                (
                                    GGUFMetadataValue::Array(
                                        GGUFMetadataArrayValue {
                                            value_type: et,
                                            len: n64,
                                            value: elems,
                                        },
                                    ),
                                    end,
                                ),
                            ),
                        }
                    } else {
                        Err(GGUFError::Truncated)
                    },
                }
            } else {
                Err(GGUFError::Truncated)
            },
            GGUfMetadataValueType::UInt64 => if rem >= 8 {
                Ok((GGUFMetadataValue::Uint64(read_u64(data, pos)), pos + 8))
            } else {
                Err(GGUFError::Truncated)
            },
            GGUfMetadataValueType::Int64 => if rem >= 8 {
                Ok((GGUFMetadataValue::Int64(#[verifier::truncate] (read_u64(data, pos) as i64)), pos + 8))
            } else {
                Err(GGUFError::Truncated)
            },
            GGUfMetadataValueType::Float64 => if rem >= 8 {
                Ok((GGUFMetadataValue::Float64(read_u64(data, pos)), pos + 8))
            } else {
                Err(GGUFError::Truncated)
            },
        }
    }
}

/// Decode `n` consecutive values of tag `et`, as [`spec_decode_elems`]
/// prescribes.
fn parse_array_elems(data: &[u8], pos: usize, et: GGUfMetadataValueType, n: u64) -> (r: Result<
    (Vec<GGUFMetadataValue>, usize),
    GGUFError,
>)
    requires
        pos <= data@.len(),
    ensures
        (match spec_decode_elems(et, n as nat, data@, pos as int) {
            Ok((ms, p2)) => r matches Ok((vs, p)) && seq_model(vs@) == ms && p as int == p2
                && vs@.len() == n && (forall|i: int|
                0 <= i < vs@.len() ==> (#[trigger] vs@[i]).wf()),
            Err(e) => r matches Err(e2) && e2 == e,
        }),
    decreases data@.len() - pos, 1nat,
{
    let ghost s = data@;
    let mut elems: Vec<GGUFMetadataValue> = Vec::new();
    let mut cur: usize = pos;
    let mut i: u64 = 0;
    while i < n
        invariant
            pos <= cur <= s.len(),
            i <= n,
            data@ == s,
            elems@.len() == i,
            forall|j: int| 0 <= j < elems@.len() ==> (#[trigger] elems@[j]).wf(),
            (match spec_decode_elems(et, (n - i) as nat, s, cur as int) {
                Ok((ms, p2)) => spec_decode_elems(et, n as nat, s, pos as int) matches Ok((all, p3))
                    && all == seq_model(elems@) + ms && p3 == p2,
                Err(e) => spec_decode_elems(et, n as nat, s, pos as int) matches Err(e2) && e2 == e,
            }),
        decreases n - i,
    {
        let ghost k = (n - i) as nat;
        let ghost elems_old = elems@;
        let ghost cur_old = cur as int;
        match GGUF::parse_metadata_value(data, cur, et) {
            Err(e) => {
                return Err(e);
            },
            Ok(vp) => {
                let (v, p2) = vp;
                proof {
                    lemma_decode_value_advances(et, s, cur_old);
                    lemma_seq_model_push(elems_old, v);
                    assert(seq_model(elems_old.push(v)) =~= seq_model(elems_old) + seq![v@]);
                    match spec_decode_elems(et, (k - 1) as nat, s, p2 as int) {
                        Ok((ms2, _q)) => {
                            assert(seq_model(elems_old) + (seq![v@] + ms2) =~= seq_model(
                                elems_old.push(v),
                            ) + ms2);
                        },
                        Err(_) => {},
                    }
                }
                elems.push(v);
                cur = p2;
                i = i + 1;
            },
        }
    }
    Ok((elems, cur))
}

impl GGUF {
    /// Decode `count` metadata entries starting at `pos`, as
    /// [`spec_decode_entries`] prescribes.
    fn parse_metadata_kv(data: &[u8], pos: usize, count: u64) -> (r: Result<
        (Vec<GGUFMetadata>, usize),
        GGUFError,
    >)
        requires
            pos <= data@.len(),
        ensures
            (match spec_decode_entries(count as nat, data@, pos as int) {
                Ok((ms, p2)) => r matches Ok((es, p)) && entries_model(es@) == ms && p as int == p2
                    && es@.len() == count && (forall|i: int|
                    0 <= i < es@.len() ==> (#[trigger] es@[i]).wf()),
                Err(e) => r matches Err(e2) && e2 == e,
            }),
    {
        let ghost s = data@;
        let mut entries: Vec<GGUFMetadata> = Vec::new();
        let mut cur: usize = pos;
        let mut i: u64 = 0;
        while i < count
            invariant
                pos <= cur <= s.len(),
                i <= count,
                data@ == s,
                entries@.len() == i,
                forall|j: int| 0 <= j < entries@.len() ==> (#[trigger] entries@[j]).wf(),
                (match spec_decode_entries((count - i) as nat, s, cur as int) {
                    Ok((ms, p2)) => spec_decode_entries(count as nat, s, pos as int) matches Ok(
                        (all, p3),
                    ) && all == entries_model(entries@) + ms && p3 == p2,
                    Err(e) => spec_decode_entries(count as nat, s, pos as int) matches Err(e2) && e2
                        == e,
                }),
            decreases count - i,
        {
            let ghost k = (count - i) as nat;
            let ghost entries_old = entries@;
            let ghost cur_old = cur as int;
            let rem = data.len() - cur;
            if rem < 8 {
                return Err(GGUFError::Truncated);
            }
            let klen64 = read_u64(data, cur);
            let rem2 = data.len() - (cur + 8);
            if klen64 > rem2 as u64 {
                return Err(GGUFError::Truncated);
            }
            let klen = klen64 as usize;
            let key_bytes = slice_to_vec(slice_subrange(data, cur + 8, cur + 8 + klen));
            let key = match utf8_to_string(key_bytes) {
                Some(st) => st,
                None => {
                    return Err(GGUFError::InvalidUtf8);
                },
            };
            let kpos = cur + 8 + klen;
            let rem3 = data.len() - kpos;
            if rem3 < 4 {
                return Err(GGUFError::Truncated);
            }
            let code = read_u32(data, kpos);
            let tag = match GGUfMetadataValueType::try_from(code) {
                Ok(tag) => tag,
                Err(e) => {
                    return Err(e);
                },
            };
            match GGUF::parse_metadata_value(data, kpos + 4, tag) {
                Err(e) => {
                    return Err(e);
                },
                Ok(vp) => {
                    let (v, p2) = vp;
                    let entry = GGUFMetadata { key, value_type: tag, value: v };
                    proof {
                        lemma_decode_value_advances(tag, s, kpos + 4);
                        match spec_decode_entries((k - 1) as nat, s, p2 as int) {
                            Ok((ms2, _q)) => {
                                assert(entries_model(entries_old.push(entry)) =~= entries_model(
                                    entries_old,
                                ) + seq![entry@]);
                                assert(entries_model(entries_old) + (seq![entry@] + ms2)
                                    =~= entries_model(entries_old.push(entry)) + ms2);
                            },
                            Err(_) => {},
                        }
                    }
                    entries.push(entry);
                    cur = p2;
                    i = i + 1;
                },
            }
        }
        Ok((entries, cur))
    }

    /// Read a whole GGUF stream into this container: magic check, header,
    /// then the metadata table, exactly as [`spec_read`] says. On failure
    /// the error identifies what was wrong and the container is left as it
    /// was; a partially decoded table is never exposed.
    pub fn read(&mut self, data: &[u8]) -> (r: Result<(), GGUFError>)
        ensures
            (match spec_read(data@) {
                Ok(c) => r is Ok && final (self)@ == c && final (self).wf(),
                Err(e) => r matches Err(e2) && e2 == e && *final (self) == *old(self),
            }),
    {
        if data.len() < 4 {
            return Err(GGUFError::Truncated);
        }
        if !(byte_at(data, 0) == 0x47 && byte_at(data, 1) == 0x47 && byte_at(data, 2) == 0x55
            && byte_at(data, 3) == 0x46) {
            return Err(GGUFError::NotThisFormat);
        }
        if data.len() < 24 {
            return Err(GGUFError::Truncated);
        }
        let version = read_u32(data, 4);
        let tensor_count = read_u64(data, 8);
        let kv_count = read_u64(data, 16);
        match GGUF::parse_metadata_kv(data, 24, kv_count) {
            Err(e) => Err(e),
            Ok(ep) => {
                let (entries, _end) = ep;
                self.version = version;
                self.tensor_count = tensor_count;
                self.metadata_kv_count = kv_count;
                self.metadata_kv = entries;
                proof {
                    assert(final (self)@ =~= spec_read(data@).unwrap());
                }
                Ok(())
            },
        }
    }
}

} // verus!
