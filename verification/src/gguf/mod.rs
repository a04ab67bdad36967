//! The GGUF container: wire-level type registry, decoded value
//! representation, and the file-level reader.
//!
//! A GGUF stream starts with the four magic bytes `GGUF`, followed by a
//! little-endian header (`version: u32`, `tensor_count: u64`,
//! `metadata_kv_count: u64`) and then `metadata_kv_count` key/value entries.
//! Only the header and the metadata table are decoded here; the tensor
//! descriptors and payloads that follow them are outside this crate's scope.

use vstd::prelude::*;

pub mod decode;
pub mod laws;

verus! {

broadcast use vstd::seq::group_seq_axioms, vstd::std_specs::vec::group_vec_axioms;

/// Why a container read failed. Every failure aborts the whole read; no
/// partially decoded table is ever returned as a success.
#[derive(Clone, Copy, Debug, PartialEq, Eq, Structural)]
pub enum GGUFError {
    /// The four magic bytes at the start of the stream are not `GGUF`.
    NotThisFormat,
    /// Fewer bytes remain than a declared or implied field length requires.
    Truncated,
    /// A value-type tag outside the defined set; carries the offending code.
    UnknownValueType(u32),
    /// A key or string payload is not valid UTF-8.
    InvalidUtf8,
    /// The byte source itself failed. The decoder never raises this; it is
    /// reserved for callers that feed the decoder from files or sockets.
    IoFailure,
}

/// The closed set of wire-level value-type tags, each read from the stream
/// as a 4-byte little-endian code between 0 and 12.
#[derive(Clone, Copy, Debug, PartialEq, Eq, Structural)]
pub enum GGUfMetadataValueType {
    /// Code 0: 8-bit unsigned integer.
    UInt8,
    /// Code 1: 8-bit signed integer.
    Int8,
    /// Code 2: 16-bit unsigned little-endian integer.
    UInt16,
    /// Code 3: 16-bit signed little-endian integer.
    Int16,
    /// Code 4: 32-bit unsigned little-endian integer.
    UInt32,
    /// Code 5: 32-bit signed little-endian integer.
    Int32,
    /// Code 6: 32-bit IEEE 754 floating point number, kept as its bit pattern.
    Float32,
    /// Code 7: one byte, 0 decoding to false and anything else to true.
    Bool,
    /// Code 8: UTF-8 string with a u64 little-endian length prefix.
    String,
    /// Code 9: array of values, with element type and length prepended;
    /// arrays nest to arbitrary depth.
    Array,
    /// Code 10: 64-bit unsigned little-endian integer.
    UInt64,
    /// Code 11: 64-bit signed little-endian integer.
    Int64,
    /// Code 12: 64-bit IEEE 754 floating point number, kept as its bit pattern.
    Float64,
}

/// The value-type registry: which tag, if any, a 32-bit wire code denotes.
pub open spec fn spec_tag_of(code: u32) -> Option<GGUfMetadataValueType> {
    if code == 0 {
        Some(GGUfMetadataValueType::UInt8)
    } else if code == 1 {
        Some(GGUfMetadataValueType::Int8)
    } else if code == 2 {
        Some(GGUfMetadataValueType::UInt16)
    } else if code == 3 {
        Some(GGUfMetadataValueType::Int16)
    } else if code == 4 {
        Some(GGUfMetadataValueType::UInt32)
    } else if code == 5 {
        Some(GGUfMetadataValueType::Int32)
    } else if code == 6 {
        Some(GGUfMetadataValueType::Float32)
    } else if code == 7 {
        Some(GGUfMetadataValueType::Bool)
    } else if code == 8 {
        Some(GGUfMetadataValueType::String)
    } else if code == 9 {
        Some(GGUfMetadataValueType::Array)
    } else if code == 10 {
        Some(GGUfMetadataValueType::UInt64)
    } else if code == 11 {
        Some(GGUfMetadataValueType::Int64)
    } else if code == 12 {
        Some(GGUfMetadataValueType::Float64)
    } else {
        None
    }
}

/// The wire code of a tag; inverse of [`spec_tag_of`] on the defined set.
pub open spec fn spec_tag_code(t: GGUfMetadataValueType) -> u32 {
    match t {
        GGUfMetadataValueType::UInt8 => 0,
        GGUfMetadataValueType::Int8 => 1,
        GGUfMetadataValueType::UInt16 => 2,
        GGUfMetadataValueType::Int16 => 3,
        GGUfMetadataValueType::UInt32 => 4,
        GGUfMetadataValueType::Int32 => 5,
        GGUfMetadataValueType::Float32 => 6,
        GGUfMetadataValueType::Bool => 7,
        GGUfMetadataValueType::String => 8,
        GGUfMetadataValueType::Array => 9,
        GGUfMetadataValueType::UInt64 => 10,
        GGUfMetadataValueType::Int64 => 11,
        GGUfMetadataValueType::Float64 => 12,
    }
}

impl GGUfMetadataValueType {
    /// Resolve a 32-bit code read from the wire into its tag, or report the
    /// code as unknown. This is a pure lookup: exactly the codes 0 through 12
    /// resolve, and every other code fails with `UnknownValueType`.
    pub fn try_from(code: u32) -> (r: Result<GGUfMetadataValueType, GGUFError>)
        ensures
            spec_tag_of(code) matches Some(t) ==> r == Ok::<GGUfMetadataValueType, GGUFError>(t),
            spec_tag_of(code) is None ==> r == Err::<GGUfMetadataValueType, GGUFError>(
                GGUFError::UnknownValueType(code),
            ),
    {
        match code {
            0 => Ok(GGUfMetadataValueType::UInt8),
            1 => Ok(GGUfMetadataValueType::Int8),
            2 => Ok(GGUfMetadataValueType::UInt16),
            3 => Ok(GGUfMetadataValueType::Int16),
            4 => Ok(GGUfMetadataValueType::UInt32),
            5 => Ok(GGUfMetadataValueType::Int32),
            6 => Ok(GGUfMetadataValueType::Float32),
            7 => Ok(GGUfMetadataValueType::Bool),
            8 => Ok(GGUfMetadataValueType::String),
            9 => Ok(GGUfMetadataValueType::Array),
            10 => Ok(GGUfMetadataValueType::UInt64),
            11 => Ok(GGUfMetadataValueType::Int64),
            12 => Ok(GGUfMetadataValueType::Float64),
            _ => Err(GGUFError::UnknownValueType(code)),
        }
    }
}

/// Mathematical model of one decoded metadata value. Strings are sequences
/// of characters; floating-point payloads are kept as their IEEE 754 bit
/// patterns; an array remembers its declared element tag.
pub enum SpecValue {
    U8(u8),
    I8(i8),
    U16(u16),
    I16(i16),
    U32(u32),
    I32(i32),
    F32Bits(u32),
    Bool(bool),
    Str(Seq<char>),
    Arr(GGUfMetadataValueType, Seq<SpecValue>),
    U64(u64),
    I64(i64),
    F64Bits(u64),
}

impl SpecValue {
    /// Does this value have the shape that the given tag declares?
    pub open spec fn has_tag(self, t: GGUfMetadataValueType) -> bool {
        match self {
            SpecValue::U8(_) => t == GGUfMetadataValueType::UInt8,
            SpecValue::I8(_) => t == GGUfMetadataValueType::Int8,
            SpecValue::U16(_) => t == GGUfMetadataValueType::UInt16,
            SpecValue::I16(_) => t == GGUfMetadataValueType::Int16,
            SpecValue::U32(_) => t == GGUfMetadataValueType::UInt32,
            SpecValue::I32(_) => t == GGUfMetadataValueType::Int32,
            SpecValue::F32Bits(_) => t == GGUfMetadataValueType::Float32,
            SpecValue::Bool(_) => t == GGUfMetadataValueType::Bool,
            SpecValue::Str(_) => t == GGUfMetadataValueType::String,
            SpecValue::Arr(_, _) => t == GGUfMetadataValueType::Array,
            SpecValue::U64(_) => t == GGUfMetadataValueType::UInt64,
            SpecValue::I64(_) => t == GGUfMetadataValueType::Int64,
            SpecValue::F64Bits(_) => t == GGUfMetadataValueType::Float64,
        }
    }

    /// Every array element has the shape its declared element tag demands,
    /// recursively.
    pub open spec fn wf(self) -> bool
        decreases self,
    {
        match self {
            SpecValue::Arr(et, vs) => forall|i: int|
                0 <= i < vs.len() ==> (#[trigger] vs[i]).has_tag(et) && vs[i].wf(),
            _ => true,
        }
    }
}

/// Mathematical model of one metadata entry: a key, the tag the stream
/// declared for the value, and the value itself.
pub struct SpecEntry {
    pub key: Seq<char>,
    pub value_type: GGUfMetadataValueType,
    pub value: SpecValue,
}

impl SpecEntry {
    /// The declared tag matches the value's shape, and the value is
    /// well-formed throughout.
    pub open spec fn wf(self) -> bool {
        self.value.has_tag(self.value_type) && self.value.wf()
    }
}

/// Mathematical model of a decoded container.
pub struct SpecContainer {
    pub version: u32,
    pub tensor_count: u64,
    pub metadata_kv_count: u64,
    pub metadata_kv: Seq<SpecEntry>,
}

impl SpecContainer {
    /// The entry count agrees with the table and every entry is well-formed.
    pub open spec fn wf(self) -> bool {
        &&& self.metadata_kv_count == self.metadata_kv.len()
        &&& forall|i: int|
            0 <= i < self.metadata_kv.len() ==> (#[trigger] self.metadata_kv[i]).wf()
    }
}

/// One decoded metadata value. `Float32` and `Float64` carry the IEEE 754
/// bit pattern of the wire value; callers that need the numeric value
/// reinterpret the bits outside the verified core.
pub enum GGUFMetadataValue {
    Uint8(u8),
    Int8(i8),
    Uint16(u16),
    Int16(i16),
    Uint32(u32),
    Int32(i32),
    Float32(u32),
    Uint64(u64),
    Int64(i64),
    Float64(u64),
    Bool(bool),
    String(String),
    Array(GGUFMetadataArrayValue),
}

/// An array value: the declared element tag, the declared element count,
/// and the decoded elements. A decoded array always satisfies
/// `len == value.len()`; the stream's count and the table agree by
/// construction, since a short stream fails with `Truncated` instead.
pub struct GGUFMetadataArrayValue {
    pub value_type: GGUfMetadataValueType,
    pub len: u64,
    pub value: Vec<GGUFMetadataValue>,
}

/// The models of a sequence of decoded values, element by element.
pub open spec fn seq_model(s: Seq<GGUFMetadataValue>) -> Seq<SpecValue>
    decreases s,
{
    if s.len() == 0 {
        Seq::empty()
    } else {
        seq_model(s.drop_last()).push(s.last()@)
    }
}

/// Appending one decoded value appends its model.
pub proof fn lemma_seq_model_push(s: Seq<GGUFMetadataValue>, v: GGUFMetadataValue)
    ensures
        seq_model(s.push(v)) == seq_model(s).push(v@),
{
    assert(s.push(v).drop_last() =~= s);
    assert(s.push(v).last() == v);
}

impl View for GGUFMetadataValue {
    type V = SpecValue;

    open spec fn view(&self) -> SpecValue
        decreases self,
    {
        match self {
            GGUFMetadataValue::Uint8(x) => SpecValue::U8(*x),
            GGUFMetadataValue::Int8(x) => SpecValue::I8(*x),
            GGUFMetadataValue::Uint16(x) => SpecValue::U16(*x),
            GGUFMetadataValue::Int16(x) => SpecValue::I16(*x),
            GGUFMetadataValue::Uint32(x) => SpecValue::U32(*x),
            GGUFMetadataValue::Int32(x) => SpecValue::I32(*x),
            GGUFMetadataValue::Float32(x) => SpecValue::F32Bits(*x),
            GGUFMetadataValue::Uint64(x) => SpecValue::U64(*x),
            GGUFMetadataValue::Int64(x) => SpecValue::I64(*x),
            GGUFMetadataValue::Float64(x) => SpecValue::F64Bits(*x),
            GGUFMetadataValue::Bool(x) => SpecValue::Bool(*x),
            GGUFMetadataValue::String(s) => SpecValue::Str(s@),
            GGUFMetadataValue::Array(arr) => SpecValue::Arr(
                arr.value_type,
                seq_model(arr.value@),
            ),
        }
    }
}

impl GGUFMetadataValue {
    /// The redundant `len` field of every nested array agrees with the
    /// number of elements actually held.
    pub open spec fn wf(&self) -> bool
        decreases self,
    {
        match self {
            GGUFMetadataValue::Array(arr) => {
                &&& arr.len as int == arr.value@.len()
                &&& forall|i: int|
                    0 <= i < arr.value@.len() ==> (#[trigger] arr.value@[i]).wf()
            },
            _ => true,
        }
    }
}

/// One metadata entry of the container: a UTF-8 key, the tag the stream
/// declared, and the decoded value. The tag always matches the value's
/// shape: the reader decodes the value with the tag it just read.
pub struct GGUFMetadata {
    pub key: String,
    pub value_type: GGUfMetadataValueType,
    pub value: GGUFMetadataValue,
}

impl View for GGUFMetadata {
    type V = SpecEntry;

    open spec fn view(&self) -> SpecEntry {
        SpecEntry { key: self.key@, value_type: self.value_type, value: self.value@ }
    }
}

impl GGUFMetadata {
    pub open spec fn wf(&self) -> bool {
        self.value.wf()
    }
}

/// A decoded GGUF container: the header fields and the ordered metadata
/// table. Entries keep file order; duplicate keys are legal and all kept.
pub struct GGUF {
    pub version: u32,
    pub tensor_count: u64,
    pub metadata_kv_count: u64,
    pub metadata_kv: Vec<GGUFMetadata>,
}

impl View for GGUF {
    type V = SpecContainer;

    open spec fn view(&self) -> SpecContainer {
        SpecContainer {
            version: self.version,
            tensor_count: self.tensor_count,
            metadata_kv_count: self.metadata_kv_count,
            metadata_kv: Seq::new(self.metadata_kv@.len(), |i: int| self.metadata_kv@[i]@),
        }
    }
}

impl GGUF {
    /// The declared entry count matches the table and every entry's nested
    /// array bookkeeping is consistent.
    pub open spec fn wf(&self) -> bool {
        &&& self.metadata_kv_count as int == self.metadata_kv@.len()
        &&& forall|i: int|
            0 <= i < self.metadata_kv@.len() ==> (#[trigger] self.metadata_kv@[i]).wf()
    }

    /// An empty container: zeroed header, no metadata entries.
    pub fn new() -> (g: GGUF)
        ensures
            g.version == 0,
            g.tensor_count == 0,
            g.metadata_kv_count == 0,
            g.metadata_kv@.len() == 0,
            g.wf(),
    {
        GGUF { version: 0, tensor_count: 0, metadata_kv_count: 0, metadata_kv: Vec::new() }
    }
}

} // verus!
