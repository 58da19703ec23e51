//! GGUF container data model: tensor dtypes, KV value types and values, KV
//! pairs, tensor metadata and the parsed header, together with the size
//! arithmetic (encoded sizes, element counts, stored sizes) used to locate the
//! tensor data section.

use vstd::prelude::*;
use vstd::hash_map::StringHashMap;
use vstd::utf8::*;


verus! {

// ───────────────────────────── tensor dtypes ─────────────────────────────

/// Tensor element type codes as stored in GGUF tensor metadata.
#[allow(non_camel_case_types)]
#[derive(Debug, Clone, Copy, PartialEq, Eq, Structural)]
pub enum GgufDtype {
    F32,
    F16,
    Q4_0,
    Q4_1,
    Q5_0,
    Q5_1,
    Q8_0,
    Q8_1,
    Q2_K,
    Q3_K,
    Q4_K,
    Q5_K,
    Q6_K,
    Q8_K,
    IQ2_XXS,
    IQ2_XS,
    IQ3_XXS,
    IQ1_S,
    IQ4_NL,
    IQ3_S,
    IQ2_S,
    IQ4_XS,
    I8,
    I16,
    I32,
    I64,
    F64,
    IQ1_M,
    BF16,
    Unknown(u32),
}

/// The dtype a numeric code names.
pub open spec fn dtype_of(v: u32) -> GgufDtype {
    if v == 0 { GgufDtype::F32 }
    else if v == 1 { GgufDtype::F16 }
    else if v == 2 { GgufDtype::Q4_0 }
    else if v == 3 { GgufDtype::Q4_1 }
    else if v == 6 { GgufDtype::Q5_0 }
    else if v == 7 { GgufDtype::Q5_1 }
    else if v == 8 { GgufDtype::Q8_0 }
    else if v == 9 { GgufDtype::Q8_1 }
    else if v == 10 { GgufDtype::Q2_K }
    else if v == 11 { GgufDtype::Q3_K }
    else if v == 12 { GgufDtype::Q4_K }
    else if v == 13 { GgufDtype::Q5_K }
    else if v == 14 { GgufDtype::Q6_K }
    else if v == 15 { GgufDtype::Q8_K }
    else if v == 16 { GgufDtype::IQ2_XXS }
    else if v == 17 { GgufDtype::IQ2_XS }
    else if v == 18 { GgufDtype::IQ3_XXS }
    else if v == 19 { GgufDtype::IQ1_S }
    else if v == 20 { GgufDtype::IQ4_NL }
    else if v == 21 { GgufDtype::IQ3_S }
    else if v == 22 { GgufDtype::IQ2_S }
    else if v == 23 { GgufDtype::IQ4_XS }
    else if v == 24 { GgufDtype::I8 }
    else if v == 25 { GgufDtype::I16 }
    else if v == 26 { GgufDtype::I32 }
    else if v == 27 { GgufDtype::I64 }
    else if v == 28 { GgufDtype::F64 }
    else if v == 29 { GgufDtype::IQ1_M }
    else if v == 30 { GgufDtype::BF16 }
    else { GgufDtype::Unknown(v) }
}

/// The numeric code of a dtype.
pub open spec fn dtype_code(d: GgufDtype) -> u32 {
    match d {
        GgufDtype::F32 => 0,
        GgufDtype::F16 => 1,
        GgufDtype::Q4_0 => 2,
        GgufDtype::Q4_1 => 3,
        GgufDtype::Q5_0 => 6,
        GgufDtype::Q5_1 => 7,
        GgufDtype::Q8_0 => 8,
        GgufDtype::Q8_1 => 9,
        GgufDtype::Q2_K => 10,
        GgufDtype::Q3_K => 11,
        GgufDtype::Q4_K => 12,
        GgufDtype::Q5_K => 13,
        GgufDtype::Q6_K => 14,
        GgufDtype::Q8_K => 15,
        GgufDtype::IQ2_XXS => 16,
        GgufDtype::IQ2_XS => 17,
        GgufDtype::IQ3_XXS => 18,
        GgufDtype::IQ1_S => 19,
        GgufDtype::IQ4_NL => 20,
        GgufDtype::IQ3_S => 21,
        GgufDtype::IQ2_S => 22,
        GgufDtype::IQ4_XS => 23,
        GgufDtype::I8 => 24,
        GgufDtype::I16 => 25,
        GgufDtype::I32 => 26,
        GgufDtype::I64 => 27,
        GgufDtype::F64 => 28,
        GgufDtype::IQ1_M => 29,
        GgufDtype::BF16 => 30,
        GgufDtype::Unknown(v) => v,
    }
}

/// Block-quantized dtypes: elements per block and bytes per block.
pub open spec fn block_layout(d: GgufDtype) -> Option<(nat, nat)> {
    match d {
        GgufDtype::Q4_0 => Some((32, 18)),
        GgufDtype::Q4_1 => Some((32, 20)),
        GgufDtype::Q5_0 => Some((32, 22)),
        GgufDtype::Q5_1 => Some((32, 24)),
        GgufDtype::Q8_0 => Some((32, 34)),
        GgufDtype::Q8_1 => Some((32, 36)),
        GgufDtype::Q2_K => Some((256, 84)),
        GgufDtype::Q3_K => Some((256, 110)),
        GgufDtype::Q4_K => Some((256, 144)),
        GgufDtype::Q5_K => Some((256, 176)),
        GgufDtype::Q6_K => Some((256, 210)),
        GgufDtype::Q8_K => Some((256, 292)),
        GgufDtype::IQ2_XXS => Some((256, 66)),
        GgufDtype::IQ2_XS => Some((256, 74)),
        GgufDtype::IQ3_XXS => Some((256, 98)),
        GgufDtype::IQ1_S => Some((256, 50)),
        GgufDtype::IQ4_NL => Some((32, 18)),
        GgufDtype::IQ3_S => Some((256, 110)),
        GgufDtype::IQ2_S => Some((256, 82)),
        GgufDtype::IQ4_XS => Some((256, 136)),
        GgufDtype::IQ1_M => Some((256, 56)),
        _ => None,
    }
}

/// Bytes per element for dtypes with a fixed per-element width (0 otherwise).
pub open spec fn dtype_bytes_per_element(d: GgufDtype) -> nat {
    match d {
        GgufDtype::F32 => 4,
        GgufDtype::F16 => 2,
        GgufDtype::BF16 => 2,
        GgufDtype::F64 => 8,
        GgufDtype::I8 => 1,
        GgufDtype::I16 => 2,
        GgufDtype::I32 => 4,
        GgufDtype::I64 => 8,
        GgufDtype::Q8_0 => 2,
        _ => 0,
    }
}

/// Bytes that `n` elements of dtype `d` occupy in the file: whole blocks for
/// block-quantized dtypes (a trailing partial block counts as a whole one),
/// the per-element width otherwise.
pub open spec fn stored_bytes(n: nat, d: GgufDtype) -> nat {
    match block_layout(d) {
        Some((be, bb)) => (n / be + (if n % be == 0 { 0nat } else { 1nat })) * bb,
        None => n * dtype_bytes_per_element(d),
    }
}

impl GgufDtype {
    pub fn from_u32(v: u32) -> (r: GgufDtype)
        ensures
            r == dtype_of(v),
    {
        match v {
            0 => GgufDtype::F32,
            1 => GgufDtype::F16,
            2 => GgufDtype::Q4_0,
            3 => GgufDtype::Q4_1,
            6 => GgufDtype::Q5_0,
            7 => GgufDtype::Q5_1,
            8 => GgufDtype::Q8_0,
            9 => GgufDtype::Q8_1,
            10 => GgufDtype::Q2_K,
            11 => GgufDtype::Q3_K,
            12 => GgufDtype::Q4_K,
            13 => GgufDtype::Q5_K,
            14 => GgufDtype::Q6_K,
            15 => GgufDtype::Q8_K,
            16 => GgufDtype::IQ2_XXS,
            17 => GgufDtype::IQ2_XS,
            18 => GgufDtype::IQ3_XXS,
            19 => GgufDtype::IQ1_S,
            20 => GgufDtype::IQ4_NL,
            21 => GgufDtype::IQ3_S,
            22 => GgufDtype::IQ2_S,
            23 => GgufDtype::IQ4_XS,
            24 => GgufDtype::I8,
            25 => GgufDtype::I16,
            26 => GgufDtype::I32,
            27 => GgufDtype::I64,
            28 => GgufDtype::F64,
            29 => GgufDtype::IQ1_M,
            30 => GgufDtype::BF16,
            _ => GgufDtype::Unknown(v),
        }
    }

    pub fn to_u32(&self) -> (r: u32)
        ensures
            r == dtype_code(*self),
    {
        match self {
            GgufDtype::F32 => 0,
            GgufDtype::F16 => 1,
            GgufDtype::Q4_0 => 2,
            GgufDtype::Q4_1 => 3,
            GgufDtype::Q5_0 => 6,
            GgufDtype::Q5_1 => 7,
            GgufDtype::Q8_0 => 8,
            GgufDtype::Q8_1 => 9,
            GgufDtype::Q2_K => 10,
            GgufDtype::Q3_K => 11,
            GgufDtype::Q4_K => 12,
            GgufDtype::Q5_K => 13,
            GgufDtype::Q6_K => 14,
            GgufDtype::Q8_K => 15,
            GgufDtype::IQ2_XXS => 16,
            GgufDtype::IQ2_XS => 17,
            GgufDtype::IQ3_XXS => 18,
            GgufDtype::IQ1_S => 19,
            GgufDtype::IQ4_NL => 20,
            GgufDtype::IQ3_S => 21,
            GgufDtype::IQ2_S => 22,
            GgufDtype::IQ4_XS => 23,
            GgufDtype::I8 => 24,
            GgufDtype::I16 => 25,
            GgufDtype::I32 => 26,
            GgufDtype::I64 => 27,
            GgufDtype::F64 => 28,
            GgufDtype::IQ1_M => 29,
            GgufDtype::BF16 => 30,
            GgufDtype::Unknown(v) => *v,
        }
    }

    /// Whether the dtype is block-quantized.
    pub fn is_quantized(&self) -> (r: bool)
        ensures
            r == block_layout(*self).is_some(),
    {
        match self {
            GgufDtype::Q4_0 | GgufDtype::Q4_1 | GgufDtype::Q5_0 | GgufDtype::Q5_1
            | GgufDtype::Q8_0 | GgufDtype::Q8_1 | GgufDtype::Q2_K | GgufDtype::Q3_K
            | GgufDtype::Q4_K | GgufDtype::Q5_K | GgufDtype::Q6_K | GgufDtype::Q8_K
            | GgufDtype::IQ2_XXS | GgufDtype::IQ2_XS | GgufDtype::IQ3_XXS | GgufDtype::IQ1_S
            | GgufDtype::IQ4_NL | GgufDtype::IQ3_S | GgufDtype::IQ2_S | GgufDtype::IQ4_XS
            | GgufDtype::IQ1_M => true,
            _ => false,
        }
    }

    /// Bytes per element (0 for dtypes without a fixed per-element width).
    pub fn bytes_per_element(&self) -> (r: usize)
        ensures
            r == dtype_bytes_per_element(*self),
    {
        match self {
            GgufDtype::F32 => 4,
            GgufDtype::F16 => 2,
            GgufDtype::BF16 => 2,
            GgufDtype::F64 => 8,
            GgufDtype::I8 => 1,
            GgufDtype::I16 => 2,
            GgufDtype::I32 => 4,
            GgufDtype::I64 => 8,
            GgufDtype::Q8_0 => 2,
            _ => 0,
        }
    }

    /// Elements and bytes per block of a block-quantized dtype.
    pub fn block_layout(&self) -> (r: Option<(u64, u64)>)
        ensures
            r is Some <==> block_layout(*self) is Some,
            r matches Some((e, b)) ==> block_layout(*self) == Some((e as nat, b as nat)),
            r matches Some((e, b)) ==> 32 <= e <= 256 && b <= 292,
    {
        match self {
            GgufDtype::Q4_0 => Some((32, 18)),
            GgufDtype::Q4_1 => Some((32, 20)),
            GgufDtype::Q5_0 => Some((32, 22)),
            GgufDtype::Q5_1 => Some((32, 24)),
            GgufDtype::Q8_0 => Some((32, 34)),
            GgufDtype::Q8_1 => Some((32, 36)),
            GgufDtype::Q2_K => Some((256, 84)),
            GgufDtype::Q3_K => Some((256, 110)),
            GgufDtype::Q4_K => Some((256, 144)),
            GgufDtype::Q5_K => Some((256, 176)),
            GgufDtype::Q6_K => Some((256, 210)),
            GgufDtype::Q8_K => Some((256, 292)),
            GgufDtype::IQ2_XXS => Some((256, 66)),
            GgufDtype::IQ2_XS => Some((256, 74)),
            GgufDtype::IQ3_XXS => Some((256, 98)),
            GgufDtype::IQ1_S => Some((256, 50)),
            GgufDtype::IQ4_NL => Some((32, 18)),
            GgufDtype::IQ3_S => Some((256, 110)),
            GgufDtype::IQ2_S => Some((256, 82)),
            GgufDtype::IQ4_XS => Some((256, 136)),
            GgufDtype::IQ1_M => Some((256, 56)),
            _ => None,
        }
    }
}

/// Every numeric dtype code survives a round trip through the dtype.
pub proof fn lemma_dtype_code_roundtrip(v: u32)
    ensures
        dtype_code(dtype_of(v)) == v,
{
}

/// Every named dtype, and every unknown code that names no dtype, survives a
/// round trip through its numeric code.
pub proof fn lemma_dtype_roundtrip(d: GgufDtype)
    requires
        d matches GgufDtype::Unknown(v) ==> dtype_of(v) == GgufDtype::Unknown(v),
    ensures
        dtype_of(dtype_code(d)) == d,
{
}

// ──────────────────────────── GGUF versions ────────────────────────────

/// GGUF container format versions.
#[derive(Debug, Clone, Copy, PartialEq, Eq, Structural)]
pub enum GgufVersion {
    V1,
    V2,
    V3,
}

impl GgufVersion {
    pub fn from_u32(v: u32) -> (r: Option<GgufVersion>)
        ensures
            v == 1 ==> r == Some(GgufVersion::V1),
            v == 2 ==> r == Some(GgufVersion::V2),
            v == 3 ==> r == Some(GgufVersion::V3),
            !(1 <= v <= 3) ==> r is None,
    {
        match v {
            1 => Some(GgufVersion::V1),
            2 => Some(GgufVersion::V2),
            3 => Some(GgufVersion::V3),
            _ => None,
        }
    }

    pub fn to_u32(&self) -> (r: u32)
        ensures
            *self == GgufVersion::V1 ==> r == 1,
            *self == GgufVersion::V2 ==> r == 2,
            *self == GgufVersion::V3 ==> r == 3,
    {
        match self {
            GgufVersion::V1 => 1,
            GgufVersion::V2 => 2,
            GgufVersion::V3 => 3,
        }
    }
}

// ──────────────────────────── KV value types ────────────────────────────

/// Type tags of GGUF metadata values.
#[derive(Debug, Clone, Copy, PartialEq, Eq, Structural)]
pub enum GgufValueType {
    Uint8,
    Int8,
    Uint16,
    Int16,
    Uint32,
    Int32,
    Uint64,
    Int64,
    Float32,
    Bool,
    String,
    Array,
    Float16,
    Int8Array,
    Uint8Array,
    Bfloat16,
}

impl View for GgufValueType {
    type V = GgufValueType;

    open spec fn view(&self) -> GgufValueType {
        *self
    }
}

/// The value type a numeric tag names, if any.
pub open spec fn value_type_of(raw: u32) -> Option<GgufValueType> {
    if raw == 0 { Some(GgufValueType::Uint8) }
    else if raw == 1 { Some(GgufValueType::Int8) }
    else if raw == 2 { Some(GgufValueType::Uint16) }
    else if raw == 3 { Some(GgufValueType::Int16) }
    else if raw == 4 { Some(GgufValueType::Uint32) }
    else if raw == 5 { Some(GgufValueType::Int32) }
    else if raw == 6 { Some(GgufValueType::Uint64) }
    else if raw == 7 { Some(GgufValueType::Int64) }
    else if raw == 8 { Some(GgufValueType::Float32) }
    else if raw == 9 { Some(GgufValueType::Bool) }
    else if raw == 10 { Some(GgufValueType::String) }
    else if raw == 11 { Some(GgufValueType::Array) }
    else if raw == 12 { Some(GgufValueType::Float16) }
    else if raw == 13 { Some(GgufValueType::Int8Array) }
    else if raw == 14 { Some(GgufValueType::Uint8Array) }
    else if raw == 15 { Some(GgufValueType::Bfloat16) }
    else { None }
}

/// The numeric tag of a value type.
pub open spec fn value_type_code(t: GgufValueType) -> u32 {
    match t {
        GgufValueType::Uint8 => 0,
        GgufValueType::Int8 => 1,
        GgufValueType::Uint16 => 2,
        GgufValueType::Int16 => 3,
        GgufValueType::Uint32 => 4,
        GgufValueType::Int32 => 5,
        GgufValueType::Uint64 => 6,
        GgufValueType::Int64 => 7,
        GgufValueType::Float32 => 8,
        GgufValueType::Bool => 9,
        GgufValueType::String => 10,
        GgufValueType::Array => 11,
        GgufValueType::Float16 => 12,
        GgufValueType::Int8Array => 13,
        GgufValueType::Uint8Array => 14,
        GgufValueType::Bfloat16 => 15,
    }
}

impl GgufValueType {
    pub fn from_u32(raw: u32) -> (r: Option<GgufValueType>)
        ensures
            r == value_type_of(raw),
    {
        match raw {
            0 => Some(GgufValueType::Uint8),
            1 => Some(GgufValueType::Int8),
            2 => Some(GgufValueType::Uint16),
            3 => Some(GgufValueType::Int16),
            4 => Some(GgufValueType::Uint32),
            5 => Some(GgufValueType::Int32),
            6 => Some(GgufValueType::Uint64),
            7 => Some(GgufValueType::Int64),
            8 => Some(GgufValueType::Float32),
            9 => Some(GgufValueType::Bool),
            10 => Some(GgufValueType::String),
            11 => Some(GgufValueType::Array),
            12 => Some(GgufValueType::Float16),
            13 => Some(GgufValueType::Int8Array),
            14 => Some(GgufValueType::Uint8Array),
            15 => Some(GgufValueType::Bfloat16),
            _ => None,
        }
    }

    pub fn to_u32(&self) -> (r: u32)
        ensures
            r == value_type_code(*self),
    {
        match self {
            GgufValueType::Uint8 => 0,
            GgufValueType::Int8 => 1,
            GgufValueType::Uint16 => 2,
            GgufValueType::Int16 => 3,
            GgufValueType::Uint32 => 4,
            GgufValueType::Int32 => 5,
            GgufValueType::Uint64 => 6,
            GgufValueType::Int64 => 7,
            GgufValueType::Float32 => 8,
            GgufValueType::Bool => 9,
            GgufValueType::String => 10,
            GgufValueType::Array => 11,
            GgufValueType::Float16 => 12,
            GgufValueType::Int8Array => 13,
            GgufValueType::Uint8Array => 14,
            GgufValueType::Bfloat16 => 15,
        }
    }
}

/// Tags and value types correspond one to one.
pub proof fn lemma_value_type_roundtrip(t: GgufValueType, raw: u32)
    ensures
        value_type_of(value_type_code(t)) == Some(t),
        value_type_of(raw) matches Some(u) ==> value_type_code(u) == raw,
{
}

// ─────────────────────────────── KV values ───────────────────────────────

/// A GGUF metadata value. Floating-point values are kept as their IEEE bit
/// patterns: `Float32` holds the `f32` bits, `Bfloat16` the bits of the `f32`
/// it widens to, `Float16` the raw half-precision bits.
#[derive(Debug)]
pub enum GgufKvValue {
    Uint8(u8),
    Int8(i8),
    Uint16(u16),
    Int16(i16),
    Uint32(u32),
    Int32(i32),
    Uint64(u64),
    Int64(i64),
    Float32(u32),
    Bool(bool),
    String(String),
    Array(Vec<GgufKvValue>),
    Float16(u16),
    Int8Array(Vec<i8>),
    Uint8Array(Vec<u8>),
    Bfloat16(u32),
}

/// Mathematical model of a metadata value.
pub enum KvValueView {
    Uint8(u8),
    Int8(i8),
    Uint16(u16),
    Int16(i16),
    Uint32(u32),
    Int32(i32),
    Uint64(u64),
    Int64(i64),
    Float32(u32),
    Bool(bool),
    String(Seq<char>),
    Array(Seq<KvValueView>),
    Float16(u16),
    Int8Array(Seq<i8>),
    Uint8Array(Seq<u8>),
    Bfloat16(u32),
}

pub open spec fn kv_value_view(v: GgufKvValue) -> KvValueView
    decreases v,
{
    match v {
        GgufKvValue::Uint8(x) => KvValueView::Uint8(x),
        GgufKvValue::Int8(x) => KvValueView::Int8(x),
        GgufKvValue::Uint16(x) => KvValueView::Uint16(x),
        GgufKvValue::Int16(x) => KvValueView::Int16(x),
        GgufKvValue::Uint32(x) => KvValueView::Uint32(x),
        GgufKvValue::Int32(x) => KvValueView::Int32(x),
        GgufKvValue::Uint64(x) => KvValueView::Uint64(x),
        GgufKvValue::Int64(x) => KvValueView::Int64(x),
        GgufKvValue::Float32(x) => KvValueView::Float32(x),
        GgufKvValue::Bool(x) => KvValueView::Bool(x),
        GgufKvValue::String(s) => KvValueView::String(s@),
        GgufKvValue::Array(vs) => KvValueView::Array(
            Seq::new(
                vs@.len(),
                |i: int|
                    if 0 <= i < vs@.len() {
                        kv_value_view(vs@[i])
                    } else {
                        KvValueView::Bool(false)
                    },
            ),
        ),
        GgufKvValue::Float16(x) => KvValueView::Float16(x),
        GgufKvValue::Int8Array(xs) => KvValueView::Int8Array(xs@),
        GgufKvValue::Uint8Array(xs) => KvValueView::Uint8Array(xs@),
        GgufKvValue::Bfloat16(x) => KvValueView::Bfloat16(x),
    }
}

impl View for GgufKvValue {
    type V = KvValueView;

    open spec fn view(&self) -> KvValueView {
        kv_value_view(*self)
    }
}

/// Encoded byte size of a value. `arrayed` tells whether an `Int8Array` or
/// `Uint8Array` value was written in the array form (element type tag and
/// count, 12 bytes of prefix) rather than its own form (count only, 8 bytes).
pub open spec fn value_size(v: KvValueView, arrayed: bool) -> nat
    decreases v,
{
    match v {
        KvValueView::Uint8(_) => 1,
        KvValueView::Int8(_) => 1,
        KvValueView::Bool(_) => 1,
        KvValueView::Uint16(_) => 2,
        KvValueView::Int16(_) => 2,
        KvValueView::Float16(_) => 2,
        KvValueView::Bfloat16(_) => 2,
        KvValueView::Uint32(_) => 4,
        KvValueView::Int32(_) => 4,
        KvValueView::Float32(_) => 4,
        KvValueView::Uint64(_) => 8,
        KvValueView::Int64(_) => 8,
        KvValueView::String(s) => 8 + encode_utf8(s).len(),
        KvValueView::Int8Array(xs) => (if arrayed { 12nat } else { 8nat }) + xs.len(),
        KvValueView::Uint8Array(xs) => (if arrayed { 12nat } else { 8nat }) + xs.len(),
        KvValueView::Array(xs) => 12 + values_size(xs),
    }
}

/// Encoded byte size of the elements of an array value, each written in its
/// array form.
pub open spec fn values_size(xs: Seq<KvValueView>) -> nat
    decreases xs,
{
    if xs.len() == 0 {
        0
    } else {
        values_size(xs.subrange(0, xs.len() - 1)) + value_size(xs[xs.len() - 1], true)
    }
}

/// Spec form of `GgufKvValue::as_u64`: unsigned integers widen to `u64`.
pub open spec fn value_as_u64(v: KvValueView) -> Option<u64> {
    match v {
        KvValueView::Uint8(x) => Some(x as u64),
        KvValueView::Uint16(x) => Some(x as u64),
        KvValueView::Uint32(x) => Some(x as u64),
        KvValueView::Uint64(x) => Some(x),
        _ => None,
    }
}

impl GgufKvValue {
    /// The value as an unsigned 64-bit integer, for unsigned integer values.
    pub fn as_u64(&self) -> (r: Option<u64>)
        ensures
            r == value_as_u64(self@),
    {
        match self {
            GgufKvValue::Uint8(x) => Some(*x as u64),
            GgufKvValue::Uint16(x) => Some(*x as u64),
            GgufKvValue::Uint32(x) => Some(*x as u64),
            GgufKvValue::Uint64(x) => Some(*x),
            _ => None,
        }
    }

    /// The value of a `Uint32` value.
    pub fn as_u32(&self) -> (r: Option<u32>)
        ensures
            self@ matches KvValueView::Uint32(x) ==> r == Some(x),
            !(self@ is Uint32) ==> r is None,
    {
        match self {
            GgufKvValue::Uint32(x) => Some(*x),
            _ => None,
        }
    }

    /// The value of an `Int32` value.
    pub fn as_i32(&self) -> (r: Option<i32>)
        ensures
            self@ matches KvValueView::Int32(x) ==> r == Some(x),
            !(self@ is Int32) ==> r is None,
    {
        match self {
            GgufKvValue::Int32(x) => Some(*x),
            _ => None,
        }
    }

    /// The value of a `Bool` value.
    pub fn as_bool(&self) -> (r: Option<bool>)
        ensures
            self@ matches KvValueView::Bool(b) ==> r == Some(b),
            !(self@ is Bool) ==> r is None,
    {
        match self {
            GgufKvValue::Bool(b) => Some(*b),
            _ => None,
        }
    }

    /// The text of a `String` value.
    pub fn as_str(&self) -> (r: Option<&str>)
        ensures
            self@ matches KvValueView::String(s) ==> (r matches Some(t) && t@ == s),
            !(self@ is String) ==> r is None,
    {
        match self {
            GgufKvValue::String(s) => Some(s.as_str()),
            _ => None,
        }
    }

    /// The elements of an `Array` value.
    pub fn as_array(&self) -> (r: Option<&Vec<GgufKvValue>>)
        ensures
            self@ is Array <==> r is Some,
            r matches Some(a) ==> self@ == KvValueView::Array(GgufKvValue::Array(*a)@->Array_0),
    {
        match self {
            GgufKvValue::Array(a) => Some(a),
            _ => None,
        }
    }

    /// Short name of the value's type.
    pub fn type_label(&self) -> (r: &'static str)
        ensures
            self@ is Uint8 ==> r@ == "u8"@,
            self@ is Int8 ==> r@ == "i8"@,
            self@ is Uint16 ==> r@ == "u16"@,
            self@ is Int16 ==> r@ == "i16"@,
            self@ is Uint32 ==> r@ == "u32"@,
            self@ is Int32 ==> r@ == "i32"@,
            self@ is Uint64 ==> r@ == "u64"@,
            self@ is Int64 ==> r@ == "i64"@,
            self@ is Float32 ==> r@ == "f32"@,
            self@ is Bool ==> r@ == "bool"@,
            self@ is String ==> r@ == "str"@,
            self@ is Array ==> r@ == "array"@,
            self@ is Float16 ==> r@ == "f16"@,
            self@ is Int8Array ==> r@ == "i8_array"@,
            self@ is Uint8Array ==> r@ == "u8_array"@,
            self@ is Bfloat16 ==> r@ == "bf16"@,
    {
        match self {
            GgufKvValue::Uint8(_) => "u8",
            GgufKvValue::Int8(_) => "i8",
            GgufKvValue::Uint16(_) => "u16",
            GgufKvValue::Int16(_) => "i16",
            GgufKvValue::Uint32(_) => "u32",
            GgufKvValue::Int32(_) => "i32",
            GgufKvValue::Uint64(_) => "u64",
            GgufKvValue::Int64(_) => "i64",
            GgufKvValue::Float32(_) => "f32",
            GgufKvValue::Bool(_) => "bool",
            GgufKvValue::String(_) => "str",
            GgufKvValue::Array(_) => "array",
            GgufKvValue::Float16(_) => "f16",
            GgufKvValue::Int8Array(_) => "i8_array",
            GgufKvValue::Uint8Array(_) => "u8_array",
            GgufKvValue::Bfloat16(_) => "bf16",
        }
    }
}


/// Deep copy of a metadata value.
fn clone_value(v: &GgufKvValue) -> (r: GgufKvValue)
    ensures
        r@ == v@,
    decreases v,
{
    match v {
        GgufKvValue::Uint8(x) => GgufKvValue::Uint8(*x),
        GgufKvValue::Int8(x) => GgufKvValue::Int8(*x),
        GgufKvValue::Uint16(x) => GgufKvValue::Uint16(*x),
        GgufKvValue::Int16(x) => GgufKvValue::Int16(*x),
        GgufKvValue::Uint32(x) => GgufKvValue::Uint32(*x),
        GgufKvValue::Int32(x) => GgufKvValue::Int32(*x),
        GgufKvValue::Uint64(x) => GgufKvValue::Uint64(*x),
        GgufKvValue::Int64(x) => GgufKvValue::Int64(*x),
        GgufKvValue::Float32(x) => GgufKvValue::Float32(*x),
        GgufKvValue::Bool(x) => GgufKvValue::Bool(*x),
        GgufKvValue::String(s) => GgufKvValue::String(s.clone()),
        GgufKvValue::Array(vs) => {
            let mut out: Vec<GgufKvValue> = Vec::new();
            let mut i: usize = 0;
            while i < vs.len()
                invariant
                    i <= vs@.len(),
                    *v is Array,
                    *vs == v->Array_0,
                    out@.len() == i,
                    forall|j: int| 0 <= j < i ==> out@[j]@ == vs@[j]@,
                decreases vs@.len() - i,
            {
                proof {
                    assert(decreases_to!(*v => v->Array_0));
                    assert(decreases_to!(*vs => vs@));
                    assert(decreases_to!(vs@ => vs@[i as int]));
                }
                let e = clone_value(&vs[i]);
                out.push(e);
                i = i + 1;
            }
            let r = GgufKvValue::Array(out);
            proof {
                assert(r@ =~= v@) by {
                    let a = r@->Array_0;
                    let b = v@->Array_0;
                    assert(a =~= b);
                }
            }
            r
        },
        GgufKvValue::Float16(x) => GgufKvValue::Float16(*x),
        GgufKvValue::Int8Array(xs) => GgufKvValue::Int8Array(xs.clone()),
        GgufKvValue::Uint8Array(xs) => GgufKvValue::Uint8Array(xs.clone()),
        GgufKvValue::Bfloat16(x) => GgufKvValue::Bfloat16(*x),
    }
}

impl Clone for GgufKvValue {
    fn clone(&self) -> (r: Self)
        ensures
            r@ == self@,
    {
        clone_value(self)
    }
}


/// Encoded byte size of a value as an exec computation.
fn value_raw_size(v: &GgufKvValue, arrayed: bool) -> (r: usize)
    requires
        value_size(v@, arrayed) <= usize::MAX,
    ensures
        r == value_size(v@, arrayed),
    decreases v,
{
    match v {
        GgufKvValue::Uint8(_) => 1,
        GgufKvValue::Int8(_) => 1,
        GgufKvValue::Bool(_) => 1,
        GgufKvValue::Uint16(_) => 2,
        GgufKvValue::Int16(_) => 2,
        GgufKvValue::Float16(_) => 2,
        GgufKvValue::Bfloat16(_) => 2,
        GgufKvValue::Uint32(_) => 4,
        GgufKvValue::Int32(_) => 4,
        GgufKvValue::Float32(_) => 4,
        GgufKvValue::Uint64(_) => 8,
        GgufKvValue::Int64(_) => 8,
        GgufKvValue::String(s) => 8 + s.as_str().len(),
        GgufKvValue::Int8Array(xs) => (if arrayed { 12 } else { 8 }) + xs.len(),
        GgufKvValue::Uint8Array(xs) => (if arrayed { 12 } else { 8 }) + xs.len(),
        GgufKvValue::Array(vs) => {
            let ghost xs = v@->Array_0;
            let mut total: usize = 12;
            let mut i: usize = 0;
            while i < vs.len()
                invariant
                    i <= vs@.len(),
                    *v is Array,
                    *vs == v->Array_0,
                    xs == v@->Array_0,
                    xs.len() == vs@.len(),
                    forall|j: int| 0 <= j < vs@.len() ==> xs[j] == vs@[j]@,
                    12 + values_size(xs) <= usize::MAX,
                    total == 12 + values_size(xs.take(i as int)),
                decreases vs@.len() - i,
            {
                proof {
                    assert(decreases_to!(*v => v->Array_0));
                    assert(decreases_to!(*vs => vs@));
                    assert(decreases_to!(vs@ => vs@[i as int]));
                    assert(xs.take(i as int + 1).subrange(0, i as int) =~= xs.take(i as int));
                    lemma_values_size_take_le(xs, i as int + 1);
                }
                let e = value_raw_size(&vs[i], true);
                total = total + e;
                i = i + 1;
            }
            proof {
                assert(xs.take(vs@.len() as int) =~= xs);
            }
            total
        },
    }
}

/// Encoded byte size of a value, or `None` where it does not fit a `usize`.
pub(crate) fn checked_value_raw_size(v: &GgufKvValue, arrayed: bool) -> (r: Option<usize>)
    ensures
        r matches Some(n) ==> n == value_size(v@, arrayed),
        r is None ==> value_size(v@, arrayed) > usize::MAX,
    decreases v,
{
    match v {
        GgufKvValue::String(s) => s.as_str().as_bytes().len().checked_add(8),
        GgufKvValue::Int8Array(xs) => xs.len().checked_add(if arrayed { 12 } else { 8 }),
        GgufKvValue::Uint8Array(xs) => xs.len().checked_add(if arrayed { 12 } else { 8 }),
        GgufKvValue::Array(vs) => {
            let ghost xs = v@->Array_0;
            let mut total: usize = 12;
            let mut i: usize = 0;
            while i < vs.len()
                invariant
                    i <= vs@.len(),
                    *v is Array,
                    *vs == v->Array_0,
                    xs == v@->Array_0,
                    xs.len() == vs@.len(),
                    forall|j: int| 0 <= j < vs@.len() ==> xs[j] == vs@[j]@,
                    total == 12 + values_size(xs.take(i as int)),
                decreases vs@.len() - i,
            {
                proof {
                    assert(decreases_to!(*v => v->Array_0));
                    assert(decreases_to!(*vs => vs@));
                    assert(decreases_to!(vs@ => vs@[i as int]));
                    assert(xs.take(i as int + 1).subrange(0, i as int) =~= xs.take(i as int));
                    lemma_values_size_take_le(xs, i as int + 1);
                }
                match checked_value_raw_size(&vs[i], true) {
                    Some(e) => match total.checked_add(e) {
                        Some(t) => {
                            total = t;
                        },
                        None => {
                            return None;
                        },
                    },
                    None => {
                        return None;
                    },
                }
                i = i + 1;
            }
            proof {
                assert(xs.take(vs@.len() as int) =~= xs);
            }
            Some(total)
        },
        _ => Some(value_raw_size(v, arrayed)),
    }
}

/// A prefix of an array's elements takes no more bytes than all of them.
pub proof fn lemma_values_size_take_le(xs: Seq<KvValueView>, i: int)
    requires
        0 <= i <= xs.len(),
    ensures
        values_size(xs.take(i)) <= values_size(xs),
    decreases xs.len() - i,
{
    if i < xs.len() {
        assert(xs.take(i + 1).subrange(0, i) =~= xs.take(i));
        lemma_values_size_take_le(xs, i + 1);
    } else {
        assert(xs.take(i) =~= xs);
    }
}

// ─────────────────────────────── KV pairs ───────────────────────────────

/// A metadata key/value pair.
#[derive(Debug, Clone)]
pub struct GgufKvPair {
    pub key: String,
    pub value_type: GgufValueType,
    pub value: GgufKvValue,
}

/// Mathematical model of a metadata pair.
pub struct KvPairView {
    pub key: Seq<char>,
    pub value_type: GgufValueType,
    pub value: KvValueView,
}

impl View for GgufKvPair {
    type V = KvPairView;

    open spec fn view(&self) -> KvPairView {
        KvPairView { key: self.key@, value_type: self.value_type, value: self.value@ }
    }
}

/// Encoded byte size of a pair: key length and bytes, type tag, value.
pub open spec fn kv_pair_size(p: KvPairView) -> nat {
    8 + encode_utf8(p.key).len() + 4 + value_size(p.value, p.value_type == GgufValueType::Array)
}

impl GgufKvPair {
    /// Encoded byte size of this pair.
    pub fn raw_byte_size(&self) -> (r: usize)
        requires
            kv_pair_size(self@) <= usize::MAX,
        ensures
            r == kv_pair_size(self@),
    {
        let arrayed = match self.value_type {
            GgufValueType::Array => true,
            _ => false,
        };
        8 + self.key.as_str().len() + 4 + value_raw_size(&self.value, arrayed)
    }
}

impl GgufKvPair {
    /// Encoded byte size of this pair, or `None` where it does not fit a
    /// `usize`.
    pub(crate) fn checked_raw_byte_size(&self) -> (r: Option<usize>)
        ensures
            r matches Some(n) ==> n == kv_pair_size(self@),
            r is None ==> kv_pair_size(self@) > usize::MAX,
    {
        let arrayed = match self.value_type {
            GgufValueType::Array => true,
            _ => false,
        };
        match checked_value_raw_size(&self.value, arrayed) {
            Some(n) => match self.key.as_str().as_bytes().len().checked_add(12) {
                Some(k) => k.checked_add(n),
                None => None,
            },
            None => None,
        }
    }
}

/// Bytes a value occupies in the version 3 layout of the lenient reader
/// (`crate::lenient_gguf`), after its length field and apart from the padding
/// that aligns a string value: a string's text; a `u64` count and four bytes
/// per element for an array; a scalar's width.
pub open spec fn value_size_v3(v: KvValueView) -> nat {
    match v {
        KvValueView::String(s) => encode_utf8(s).len(),
        KvValueView::Array(xs) => 8 + 4 * xs.len(),
        KvValueView::Int8Array(xs) => 8 + 4 * xs.len(),
        KvValueView::Uint8Array(xs) => 8 + 4 * xs.len(),
        _ => value_size(v, false),
    }
}

/// Size of a pair in that layout: key bytes, type tag, length field, value.
pub open spec fn kv_pair_size_v3(p: KvPairView) -> nat {
    encode_utf8(p.key).len() + 4 + 4 + value_size_v3(p.value)
}

impl GgufKvPair {
    /// Size of this pair in the version 3 layout of the lenient reader.
    pub fn raw_byte_size_v3(&self) -> (r: usize)
        requires
            kv_pair_size_v3(self@) <= usize::MAX,
        ensures
            r == kv_pair_size_v3(self@),
    {
        let payload: usize = match &self.value {
            GgufKvValue::String(s) => s.as_str().len(),
            GgufKvValue::Array(xs) => 8 + 4 * xs.len(),
            GgufKvValue::Int8Array(xs) => 8 + 4 * xs.len(),
            GgufKvValue::Uint8Array(xs) => 8 + 4 * xs.len(),
            _ => value_raw_size(&self.value, false),
        };
        self.key.as_str().len() + 8 + payload
    }
}

impl GgufKvPair {
    /// Size of this pair in the version 3 layout of the lenient reader, or
    /// `None` where it does not fit a `usize`.
    pub(crate) fn checked_raw_byte_size_v3(&self) -> (r: Option<usize>)
        ensures
            r matches Some(n) ==> n == kv_pair_size_v3(self@),
            r is None ==> kv_pair_size_v3(self@) > usize::MAX,
    {
        let payload: Option<usize> = match &self.value {
            GgufKvValue::String(s) => Some(s.as_str().as_bytes().len()),
            GgufKvValue::Array(xs) => checked_count_words(xs.len()),
            GgufKvValue::Int8Array(xs) => checked_count_words(xs.len()),
            GgufKvValue::Uint8Array(xs) => checked_count_words(xs.len()),
            _ => Some(value_raw_size(&self.value, false)),
        };
        match payload {
            Some(p) => match self.key.as_str().as_bytes().len().checked_add(8) {
                Some(k) => k.checked_add(p),
                None => None,
            },
            None => None,
        }
    }
}

/// `8 + 4 * n`, or `None` where it does not fit a `usize`.
fn checked_count_words(n: usize) -> (r: Option<usize>)
    ensures
        r matches Some(x) ==> x == 8 + 4 * n,
        r is None ==> 8 + 4 * n > usize::MAX,
{
    match n.checked_mul(4) {
        Some(m) => m.checked_add(8),
        None => None,
    }
}

// ───────────────────────────── tensor metadata ─────────────────────────────

/// Metadata of one tensor: name, shape, offset within the data section, dtype code.
#[derive(Debug, Clone)]
pub struct GgufTensorInfo {
    pub name: String,
    pub shape: Vec<u64>,
    pub offset: u64,
    pub dtype: u32,
}

/// Mathematical model of tensor metadata.
pub struct TensorInfoView {
    pub name: Seq<char>,
    pub shape: Seq<u64>,
    pub offset: u64,
    pub dtype: u32,
}

impl View for GgufTensorInfo {
    type V = TensorInfoView;

    open spec fn view(&self) -> TensorInfoView {
        TensorInfoView { name: self.name@, shape: self.shape@, offset: self.offset, dtype: self.dtype }
    }
}

/// Product of the dimensions of a shape (1 for the empty shape).
pub open spec fn shape_product(s: Seq<u64>) -> nat
    decreases s.len(),
{
    if s.len() == 0 {
        1
    } else {
        shape_product(s.drop_last()) * (s.last() as nat)
    }
}

/// Every running product of the dimensions fits in a `u64`.
pub open spec fn shape_products_fit(s: Seq<u64>) -> bool {
    forall|i: int| 0 <= i <= s.len() ==> #[trigger] shape_product(s.take(i)) <= u64::MAX
}

/// Encoded byte size of tensor metadata.
pub open spec fn tensor_info_size(t: TensorInfoView) -> nat {
    8 + encode_utf8(t.name).len() + 4 + 8 * t.shape.len() + 4 + 8
}

impl GgufTensorInfo {
    /// Number of elements: the product of the dimensions.
    pub fn element_count(&self) -> (r: u64)
        requires
            shape_products_fit(self.shape@),
        ensures
            r == shape_product(self.shape@),
    {
        let mut p: u64 = 1;
        let mut i: usize = 0;
        proof {
            assert(self.shape@.take(0) =~= Seq::<u64>::empty());
        }
        while i < self.shape.len()
            invariant
                i <= self.shape@.len(),
                shape_products_fit(self.shape@),
                p == shape_product(self.shape@.take(i as int)),
            decreases self.shape@.len() - i,
        {
            proof {
                assert(self.shape@.take(i + 1).drop_last() =~= self.shape@.take(i as int));
                assert(shape_product(self.shape@.take(i + 1)) <= u64::MAX);
            }
            p = p * self.shape[i];
            i = i + 1;
        }
        proof {
            assert(self.shape@.take(self.shape@.len() as int) =~= self.shape@);
        }
        p
    }

    /// Number of dimensions.
    pub fn ndims(&self) -> (r: usize)
        ensures
            r == self.shape@.len(),
    {
        self.shape.len()
    }

    /// Bytes the tensor occupies in the data section.
    pub fn stored_size(&self) -> (r: u64)
        requires
            shape_products_fit(self.shape@),
            stored_bytes(shape_product(self.shape@), dtype_of(self.dtype)) <= u64::MAX,
        ensures
            r == stored_bytes(shape_product(self.shape@), dtype_of(self.dtype)),
    {
        let n = self.element_count();
        let d = GgufDtype::from_u32(self.dtype);
        match d.block_layout() {
            Some((be, bb)) => {
                let blocks = n / be + if n % be == 0 { 0 } else { 1 };
                proof {
                    assert(blocks as nat == (n as nat) / (be as nat) + (if (n as nat) % (be as nat) == 0 { 0nat } else { 1nat }));
                }
                blocks * bb
            },
            None => {
                let w = d.bytes_per_element() as u64;
                n * w
            },
        }
    }

    /// The element count, or `None` when a running product of the
    /// dimensions overflows a `u64`.
    pub fn checked_element_count(&self) -> (r: Option<u64>)
        ensures
            r is Some <==> shape_products_fit(self.shape@),
            r matches Some(n) ==> n == shape_product(self.shape@),
    {
        let mut p: u64 = 1;
        let mut i: usize = 0;
        proof {
            assert(self.shape@.take(0) =~= Seq::<u64>::empty());
        }
        while i < self.shape.len()
            invariant
                i <= self.shape@.len(),
                p == shape_product(self.shape@.take(i as int)),
                forall|j: int| 0 <= j <= i ==> #[trigger] shape_product(self.shape@.take(j)) <= u64::MAX,
            decreases self.shape@.len() - i,
        {
            proof {
                assert(self.shape@.take(i + 1).drop_last() =~= self.shape@.take(i as int));
            }
            match p.checked_mul(self.shape[i]) {
                Some(q) => {
                    p = q;
                },
                None => {
                    proof {
                        assert(shape_product(self.shape@.take(i + 1)) > u64::MAX);
                    }
                    return None;
                },
            }
            i = i + 1;
        }
        proof {
            assert(self.shape@.take(self.shape@.len() as int) =~= self.shape@);
        }
        Some(p)
    }

    /// The stored size, or `None` when it (or the element count) does not
    /// fit in a `u64`.
    pub fn checked_stored_size(&self) -> (r: Option<u64>)
        ensures
            r is Some <==> shape_products_fit(self.shape@) && stored_bytes(
                shape_product(self.shape@),
                dtype_of(self.dtype),
            ) <= u64::MAX,
            r matches Some(n) ==> n == stored_bytes(shape_product(self.shape@), dtype_of(self.dtype)),
    {
        let n = match self.checked_element_count() {
            Some(n) => n,
            None => return None,
        };
        let d = GgufDtype::from_u32(self.dtype);
        match d.block_layout() {
            Some((be, bb)) => {
                let blocks = n / be + if n % be == 0 { 0 } else { 1 };
                proof {
                    assert(blocks as nat == (n as nat) / (be as nat) + (if (n as nat) % (be as nat) == 0 { 0nat } else { 1nat }));
                }
                blocks.checked_mul(bb)
            },
            None => {
                let w = d.bytes_per_element() as u64;
                n.checked_mul(w)
            },
        }
    }

    /// Encoded byte size of this metadata entry, or `None` where it does
    /// not fit a `usize`.
    pub(crate) fn checked_raw_byte_size(&self) -> (r: Option<usize>)
        ensures
            r matches Some(n) ==> n == tensor_info_size(self@),
            r is None ==> tensor_info_size(self@) > usize::MAX,
    {
        match self.shape.len().checked_mul(8) {
            Some(dims) => match self.name.as_str().as_bytes().len().checked_add(24) {
                Some(k) => k.checked_add(dims),
                None => None,
            },
            None => None,
        }
    }

    /// Encoded byte size of this metadata entry.
    pub fn raw_byte_size(&self) -> (r: usize)
        requires
            tensor_info_size(self@) <= usize::MAX,
        ensures
            r == tensor_info_size(self@),
    {
        8 + self.name.as_str().len() + 4 + 8 * self.shape.len() + 4 + 8
    }
}

// ─────────────────────────────── header ───────────────────────────────

/// A parsed GGUF header.
#[derive(Debug, Clone)]
pub struct GgufHeader {
    pub version: u32,
    pub kv_pairs: Vec<GgufKvPair>,
    pub tensors: Vec<GgufTensorInfo>,
    pub data_alignment: Option<u64>,
    /// File offset where the tensor data section begins.
    pub data_section_start: u64,
}

/// Mathematical model of a header.
pub struct HeaderView {
    pub version: u32,
    pub kv_pairs: Seq<KvPairView>,
    pub tensors: Seq<TensorInfoView>,
    pub data_alignment: Option<u64>,
    pub data_section_start: u64,
}

pub open spec fn kv_pairs_view(v: Seq<GgufKvPair>) -> Seq<KvPairView> {
    v.map_values(|p: GgufKvPair| p@)
}

pub open spec fn tensors_view(v: Seq<GgufTensorInfo>) -> Seq<TensorInfoView> {
    v.map_values(|t: GgufTensorInfo| t@)
}

impl View for GgufHeader {
    type V = HeaderView;

    open spec fn view(&self) -> HeaderView {
        HeaderView {
            version: self.version,
            kv_pairs: kv_pairs_view(self.kv_pairs@),
            tensors: tensors_view(self.tensors@),
            data_alignment: self.data_alignment,
            data_section_start: self.data_section_start,
        }
    }
}

/// `i` is the first index whose pair has the given key.
pub open spec fn is_first_key(kvs: Seq<KvPairView>, key: Seq<char>, i: int) -> bool {
    &&& 0 <= i < kvs.len()
    &&& kvs[i].key == key
    &&& forall|j: int| 0 <= j < i ==> kvs[j].key != key
}

/// Value of the first pair with the given key.
pub open spec fn kv_lookup(kvs: Seq<KvPairView>, key: Seq<char>) -> Option<KvValueView> {
    if exists|i: int| is_first_key(kvs, key, i) {
        Some(kvs[choose|i: int| is_first_key(kvs, key, i)].value)
    } else {
        None
    }
}

/// `i` is the first index whose tensor has the given name.
pub open spec fn is_first_tensor(ts: Seq<TensorInfoView>, name: Seq<char>, i: int) -> bool {
    &&& 0 <= i < ts.len()
    &&& ts[i].name == name
    &&& forall|j: int| 0 <= j < i ==> ts[j].name != name
}

/// Text value of the first pair with the given key, if it holds text.
pub open spec fn lookup_str(kvs: Seq<KvPairView>, key: Seq<char>) -> Option<Seq<char>> {
    match kv_lookup(kvs, key) {
        Some(KvValueView::String(s)) => Some(s),
        _ => None,
    }
}

/// `Uint32` value of the first pair with the given key.
pub open spec fn lookup_u32(kvs: Seq<KvPairView>, key: Seq<char>) -> Option<u32> {
    match kv_lookup(kvs, key) {
        Some(KvValueView::Uint32(x)) => Some(x),
        _ => None,
    }
}

/// `Bool` value of the first pair with the given key.
pub open spec fn lookup_bool(kvs: Seq<KvPairView>, key: Seq<char>) -> Option<bool> {
    match kv_lookup(kvs, key) {
        Some(KvValueView::Bool(b)) => Some(b),
        _ => None,
    }
}

/// Vocabulary size recorded under `tokenizer.ggml.tokens`: the number of
/// entries where the key holds the token list (if it fits in a `u32`), or
/// the count itself where it holds a `Uint32`.
pub open spec fn lookup_vocab_size(kvs: Seq<KvPairView>) -> Option<u32> {
    match kv_lookup(kvs, "tokenizer.ggml.tokens"@) {
        Some(KvValueView::Array(xs)) => if xs.len() <= u32::MAX {
            Some(xs.len() as u32)
        } else {
            None
        },
        Some(KvValueView::Uint32(n)) => Some(n),
        _ => None,
    }
}

/// `Int32` value of the first pair with the given key.
pub open spec fn lookup_i32(kvs: Seq<KvPairView>, key: Seq<char>) -> Option<i32> {
    match kv_lookup(kvs, key) {
        Some(KvValueView::Int32(x)) => Some(x),
        _ => None,
    }
}

/// `Uint32` value of the key `<architecture><suffix>`, where the architecture
/// is the text under `general.architecture`.
pub open spec fn lookup_arch_u32(kvs: Seq<KvPairView>, suffix: Seq<char>) -> Option<u32> {
    match lookup_str(kvs, "general.architecture"@) {
        Some(a) => lookup_u32(kvs, a + suffix),
        None => None,
    }
}

/// `Int32` value of the key `<architecture><suffix>`.
pub open spec fn lookup_arch_i32(kvs: Seq<KvPairView>, suffix: Seq<char>) -> Option<i32> {
    match lookup_str(kvs, "general.architecture"@) {
        Some(a) => lookup_i32(kvs, a + suffix),
        None => None,
    }
}

pub open spec fn opt_str_view(o: Option<&str>) -> Option<Seq<char>> {
    match o {
        Some(t) => Some(t@),
        None => None,
    }
}

/// Sum of the element counts of all tensors.
pub open spec fn element_count_sum(ts: Seq<TensorInfoView>) -> nat
    decreases ts.len(),
{
    if ts.len() == 0 {
        0
    } else {
        element_count_sum(ts.drop_last()) + shape_product(ts.last().shape)
    }
}

impl GgufHeader {
    /// Index of the first pair with the given key.
    fn find_kv(&self, key: &str) -> (r: Option<usize>)
        ensures
            r matches Some(i) ==> is_first_key(self@.kv_pairs, key@, i as int),
            r is None ==> forall|i: int| 0 <= i < self@.kv_pairs.len() ==> self@.kv_pairs[i].key != key@,
    {
        let k = key.to_string();
        let mut i: usize = 0;
        while i < self.kv_pairs.len()
            invariant
                i <= self.kv_pairs@.len(),
                k@ == key@,
                forall|j: int| 0 <= j < i ==> self@.kv_pairs[j].key != key@,
            decreases self.kv_pairs@.len() - i,
        {
            if self.kv_pairs[i].key == k {
                return Some(i);
            }
            i = i + 1;
        }
        None
    }

    /// Value stored under the first pair with the given key.
    pub fn get_kv(&self, key: &str) -> (r: Option<&GgufKvValue>)
        ensures
            match r {
                Some(v) => kv_lookup(self@.kv_pairs, key@) == Some(v@),
                None => kv_lookup(self@.kv_pairs, key@) is None,
            },
    {
        match self.find_kv(key) {
            Some(i) => {
                proof {
                    lemma_first_key_unique(self@.kv_pairs, key@, i as int);
                }
                Some(&self.kv_pairs[i].value)
            },
            None => None,
        }
    }

    /// Text under the given key.
    pub fn get_kv_str(&self, key: &str) -> (r: Option<&str>)
        ensures
            opt_str_view(r) == lookup_str(self@.kv_pairs, key@),
    {
        match self.get_kv(key) {
            Some(v) => v.as_str(),
            None => None,
        }
    }

    /// `Uint32` value under the given key.
    pub fn get_kv_u32(&self, key: &str) -> (r: Option<u32>)
        ensures
            r == lookup_u32(self@.kv_pairs, key@),
    {
        match self.get_kv(key) {
            Some(v) => v.as_u32(),
            None => None,
        }
    }

    /// `Int32` value under the given key.
    pub fn get_kv_i32(&self, key: &str) -> (r: Option<i32>)
        ensures
            r == lookup_i32(self@.kv_pairs, key@),
    {
        match self.get_kv(key) {
            Some(v) => v.as_i32(),
            None => None,
        }
    }

    /// `Bool` value under the given key.
    pub fn get_kv_bool(&self, key: &str) -> (r: Option<bool>)
        ensures
            r == lookup_bool(self@.kv_pairs, key@),
    {
        match self.get_kv(key) {
            Some(v) => v.as_bool(),
            None => None,
        }
    }

    /// Vocabulary size: the length of the `tokenizer.ggml.tokens` token
    /// list, or the `Uint32` count stored under that key.
    pub fn vocab_size(&self) -> (r: Option<u32>)
        ensures
            r == lookup_vocab_size(self@.kv_pairs),
    {
        match self.get_kv("tokenizer.ggml.tokens") {
            Some(GgufKvValue::Array(xs)) => {
                if xs.len() <= 0xFFFF_FFFFusize {
                    Some(xs.len() as u32)
                } else {
                    None
                }
            },
            Some(GgufKvValue::Uint32(n)) => Some(*n),
            _ => None,
        }
    }

    /// Array elements under the given key.
    pub fn get_kv_array(&self, key: &str) -> (r: Option<&Vec<GgufKvValue>>)
        ensures
            r is Some <==> (kv_lookup(self@.kv_pairs, key@) matches Some(KvValueView::Array(_))),
            r matches Some(a) ==> kv_lookup(self@.kv_pairs, key@) == Some(GgufKvValue::Array(*a)@),
    {
        match self.get_kv(key) {
            Some(v) => v.as_array(),
            None => None,
        }
    }

    /// The model architecture (`general.architecture`).
    pub fn architecture(&self) -> (r: Option<&str>)
        ensures
            opt_str_view(r) == lookup_str(self@.kv_pairs, "general.architecture"@),
    {
        self.get_kv_str("general.architecture")
    }

    /// `Uint32` value under `<architecture><suffix>`.
    fn arch_u32(&self, suffix: &str) -> (r: Option<u32>)
        ensures
            r == lookup_arch_u32(self@.kv_pairs, suffix@),
    {
        match self.architecture() {
            Some(a) => {
                let mut key = a.to_string();
                crate::text::push_str(&mut key, suffix);
                self.get_kv_u32(key.as_str())
            },
            None => None,
        }
    }

    /// Context length (`<arch>.context_length`).
    pub fn context_length(&self) -> (r: Option<u32>)
        ensures
            r == lookup_arch_u32(self@.kv_pairs, ".context_length"@),
    {
        self.arch_u32(".context_length")
    }

    /// Embedding length (`<arch>.embedding_length`).
    pub fn embedding_length(&self) -> (r: Option<u32>)
        ensures
            r == lookup_arch_u32(self@.kv_pairs, ".embedding_length"@),
    {
        self.arch_u32(".embedding_length")
    }

    /// Number of transformer blocks (`<arch>.block_count`).
    pub fn block_count(&self) -> (r: Option<u32>)
        ensures
            r == lookup_arch_u32(self@.kv_pairs, ".block_count"@),
    {
        self.arch_u32(".block_count")
    }

    /// Attention head count (`<arch>.attention.head_count`).
    pub fn attention_head_count(&self) -> (r: Option<u32>)
        ensures
            r == lookup_arch_u32(self@.kv_pairs, ".attention.head_count"@),
    {
        self.arch_u32(".attention.head_count")
    }

    /// KV attention head count (`<arch>.attention.head_count_kv`).
    pub fn attention_head_count_kv(&self) -> (r: Option<u32>)
        ensures
            r == lookup_arch_u32(self@.kv_pairs, ".attention.head_count_kv"@),
    {
        self.arch_u32(".attention.head_count_kv")
    }

    /// RoPE dimension count (`<arch>.rope.dimension_count`, an `Int32`).
    pub fn rope_dimension_count(&self) -> (r: Option<i32>)
        ensures
            r == lookup_arch_i32(self@.kv_pairs, ".rope.dimension_count"@),
    {
        match self.architecture() {
            Some(a) => {
                let mut key = a.to_string();
                crate::text::push_str(&mut key, ".rope.dimension_count");
                self.get_kv_i32(key.as_str())
            },
            None => None,
        }
    }

    /// The file type code (`general.file_type`) rendered in decimal.
    pub fn file_type(&self) -> (r: Option<String>)
        ensures
            match lookup_u32(self@.kv_pairs, "general.file_type"@) {
                Some(x) => r matches Some(s) && s@ == crate::text::decimal(x as nat),
                None => r is None,
            },
    {
        match self.get_kv_u32("general.file_type") {
            Some(x) => Some(crate::text::u64_to_decimal(x as u64)),
            None => None,
        }
    }

    /// Index of the first tensor with the given name.
    fn find_tensor(&self, name: &str) -> (r: Option<usize>)
        ensures
            r matches Some(i) ==> is_first_tensor(self@.tensors, name@, i as int),
            r is None ==> forall|i: int| 0 <= i < self@.tensors.len() ==> self@.tensors[i].name != name@,
    {
        let k = name.to_string();
        let mut i: usize = 0;
        while i < self.tensors.len()
            invariant
                i <= self.tensors@.len(),
                k@ == name@,
                forall|j: int| 0 <= j < i ==> self@.tensors[j].name != name@,
            decreases self.tensors@.len() - i,
        {
            if self.tensors[i].name == k {
                return Some(i);
            }
            i = i + 1;
        }
        None
    }

    /// Whether a tensor with the given name exists.
    pub fn has_tensor(&self, name: &str) -> (r: bool)
        ensures
            r == exists|i: int| 0 <= i < self@.tensors.len() && self@.tensors[i].name == name@,
    {
        self.find_tensor(name).is_some()
    }

    /// The first tensor with the given name.
    pub fn get_tensor(&self, name: &str) -> (r: Option<&GgufTensorInfo>)
        ensures
            r matches Some(t) ==> exists|i: int| is_first_tensor(self@.tensors, name@, i) && self@.tensors[i] == t@,
            r is None ==> forall|i: int| 0 <= i < self@.tensors.len() ==> self@.tensors[i].name != name@,
    {
        match self.find_tensor(name) {
            Some(i) => Some(&self.tensors[i]),
            None => None,
        }
    }

    /// Sum of the element counts of all tensors.
    pub fn total_tensor_bytes_f32(&self) -> (r: u64)
        requires
            forall|i: int| 0 <= i < self@.tensors.len() ==> shape_products_fit(#[trigger] self@.tensors[i].shape),
            element_count_sum(self@.tensors) <= u64::MAX,
        ensures
            r == element_count_sum(self@.tensors),
    {
        let mut total: u64 = 0;
        let mut i: usize = 0;
        while i < self.tensors.len()
            invariant
                i <= self.tensors@.len(),
                forall|j: int| 0 <= j < self@.tensors.len() ==> shape_products_fit(#[trigger] self@.tensors[j].shape),
                element_count_sum(self@.tensors) <= u64::MAX,
                total == element_count_sum(self@.tensors.take(i as int)),
            decreases self.tensors@.len() - i,
        {
            proof {
                assert(self@.tensors.take(i + 1).drop_last() =~= self@.tensors.take(i as int));
                lemma_element_count_sum_prefix(self@.tensors, i + 1);
                assert(self@.tensors[i as int] == self.tensors@[i as int]@);
            }
            let n = self.tensors[i].element_count();
            total = total + n;
            i = i + 1;
        }
        proof {
            assert(self@.tensors.take(self@.tensors.len() as int) =~= self@.tensors);
        }
        total
    }
}

/// The configuration map of a sequence of pairs: each key mapped to the
/// value of its last pair.
pub open spec fn config_map(kvs: Seq<KvPairView>) -> Map<Seq<char>, KvValueView>
    decreases kvs.len(),
{
    if kvs.len() == 0 {
        Map::empty()
    } else {
        config_map(kvs.drop_last()).insert(kvs.last().key, kvs.last().value)
    }
}

impl GgufHeader {
    /// Every pair's value under its key; a later pair with a repeated key
    /// replaces an earlier one.
    pub fn to_config_map(&self) -> (r: StringHashMap<GgufKvValue>)
        ensures
            r@.map_values(|v: GgufKvValue| v@) == config_map(self@.kv_pairs),
    {
        let mut m: StringHashMap<GgufKvValue> = StringHashMap::new();
        let ghost kvs = self@.kv_pairs;
        let mut i: usize = 0;
        proof {
            assert(m@.map_values(|v: GgufKvValue| v@) =~= config_map(kvs.take(0)));
        }
        while i < self.kv_pairs.len()
            invariant
                kvs == self@.kv_pairs,
                kvs.len() == self.kv_pairs@.len(),
                i <= kvs.len(),
                m@.map_values(|v: GgufKvValue| v@) == config_map(kvs.take(i as int)),
            decreases kvs.len() - i,
        {
            let ghost before = m@;
            let key = self.kv_pairs[i].key.clone();
            let value = self.kv_pairs[i].value.clone();
            m.insert(key, value);
            proof {
                assert(kvs.take(i + 1).drop_last() =~= kvs.take(i as int));
                assert(kvs[i as int] == self.kv_pairs@[i as int]@);
                assert(m@.map_values(|v: GgufKvValue| v@) =~= before.map_values(|v: GgufKvValue| v@).insert(
                    kvs[i as int].key,
                    kvs[i as int].value,
                ));
            }
            i = i + 1;
        }
        proof {
            assert(kvs.take(kvs.len() as int) =~= kvs);
        }
        m
    }
}

/// The first index with a key is unique, so the lookup names that index.
pub proof fn lemma_first_key_unique(kvs: Seq<KvPairView>, key: Seq<char>, i: int)
    requires
        is_first_key(kvs, key, i),
    ensures
        kv_lookup(kvs, key) == Some(kvs[i].value),
{
    let c = choose|c: int| is_first_key(kvs, key, c);
    assert(is_first_key(kvs, key, c));
    if c < i {
        assert(kvs[c].key != key);
    } else if c > i {
        assert(kvs[i].key != key);
    }
}

/// A prefix of the tensors has no larger element-count sum.
pub proof fn lemma_element_count_sum_prefix(ts: Seq<TensorInfoView>, i: int)
    requires
        0 <= i <= ts.len(),
    ensures
        element_count_sum(ts.take(i)) <= element_count_sum(ts),
    decreases ts.len() - i,
{
    if i < ts.len() {
        assert(ts.take(i + 1).drop_last() =~= ts.take(i));
        lemma_element_count_sum_prefix(ts, i + 1);
    } else {
        assert(ts.take(i) =~= ts);
    }
}

} // verus!
