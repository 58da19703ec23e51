//! GGUF container parsing over an in-memory byte buffer.
//!
//! The format is specified here by spec functions that read a value at a
//! position and return it with the position just past it (`sp_*`); each
//! executable reader is proved to agree with its spec function, including the
//! exact error produced on malformed or truncated input.

use vstd::prelude::*;
use vstd::utf8::*;
use vstd::slice::{slice_subrange, slice_to_vec};

use crate::gguf_types::{
    dtype_bytes_per_element, dtype_of, shape_product, shape_products_fit, stored_bytes, GgufDtype,
    is_first_key, lemma_first_key_unique, kv_lookup, kv_pair_size, kv_pairs_view, tensor_info_size, tensors_view, value_as_u64,
    value_size, value_type_of, values_size, GgufHeader, GgufKvPair, GgufKvValue, GgufTensorInfo,
    GgufValueType, HeaderView, KvPairView, KvValueView, TensorInfoView,
};
use crate::le_bytes::{le_u16, le_u32, le_u64, read_u16_le, read_u32_le, read_u64_le};
use crate::text::{decimal, push_decimal, push_str, string_from_utf8, string_from_utf8_lossy, utf8_lossy};

verus! {

// ─────────────────────────────── errors ───────────────────────────────

/// Errors of GGUF parsing and tensor extraction.
#[derive(Debug)]
pub enum GgufError {
    /// A read of a known length or a limit check failed; the text says which.
    Io(String),
    /// The file does not start with `GGUF`.
    InvalidMagic(String),
    UnsupportedVersion(u32),
    InvalidValueType(u32),
    /// A string was not valid UTF-8; holds the offending bytes.
    Utf8(Vec<u8>),
    /// A fixed-width integer could not be read; holds the reader's message.
    Binary(String),
    InvalidTensor(String),
    QuantizationNotSupported(String),
}

/// Mathematical model of an error.
pub enum GgufErrorView {
    Io(Seq<char>),
    InvalidMagic(Seq<char>),
    UnsupportedVersion(u32),
    InvalidValueType(u32),
    Utf8(Seq<u8>),
    Binary(Seq<char>),
    InvalidTensor(Seq<char>),
    QuantizationNotSupported(Seq<char>),
}

impl View for GgufError {
    type V = GgufErrorView;

    open spec fn view(&self) -> GgufErrorView {
        match self {
            GgufError::Io(s) => GgufErrorView::Io(s@),
            GgufError::InvalidMagic(s) => GgufErrorView::InvalidMagic(s@),
            GgufError::UnsupportedVersion(v) => GgufErrorView::UnsupportedVersion(*v),
            GgufError::InvalidValueType(v) => GgufErrorView::InvalidValueType(*v),
            GgufError::Utf8(b) => GgufErrorView::Utf8(b@),
            GgufError::Binary(s) => GgufErrorView::Binary(s@),
            GgufError::InvalidTensor(s) => GgufErrorView::InvalidTensor(s@),
            GgufError::QuantizationNotSupported(s) => GgufErrorView::QuantizationNotSupported(s@),
        }
    }
}

/// Text of an error whose payload is plain text or a number; a UTF-8 error's
/// text also describes the offending bytes, which is the decoder's own
/// wording and not modelled here.
pub open spec fn gguf_error_text(e: GgufErrorView) -> Option<Seq<char>> {
    match e {
        GgufErrorView::Io(s) => Some("IO error: "@ + s),
        GgufErrorView::InvalidMagic(s) => Some("invalid magic number: "@ + s),
        GgufErrorView::UnsupportedVersion(v) => Some(
            "unsupported GGUF version: "@ + decimal(v as nat),
        ),
        GgufErrorView::InvalidValueType(v) => Some("invalid value type: "@ + decimal(v as nat)),
        GgufErrorView::Utf8(_) => None,
        GgufErrorView::Binary(s) => Some("binary read error: "@ + s),
        GgufErrorView::InvalidTensor(s) => Some("invalid tensor data: "@ + s),
        GgufErrorView::QuantizationNotSupported(s) => Some("quantization not supported: "@ + s),
    }
}

/// The decoder's description of why `bytes` are not UTF-8
/// (`std::str::from_utf8`'s error, rendered). What the description says is
/// std's wording and is not stated here.
#[verifier::external_body]
fn utf8_error_text(bytes: &[u8]) -> (r: String) {
    match std::str::from_utf8(bytes) {
        Ok(_) => String::new(),
        Err(e) => e.to_string(),
    }
}

impl GgufError {
    /// The error's text.
    pub fn message(&self) -> (r: String)
        ensures
            gguf_error_text(self@) matches Some(t) ==> r@ == t,
            self is Utf8 ==> r@.subrange(0, 20) == "UTF-8 decode error: "@,
    {
        let mut s = String::new();
        match self {
            GgufError::Io(t) => {
                push_str(&mut s, "IO error: ");
                push_str(&mut s, t.as_str());
            },
            GgufError::InvalidMagic(t) => {
                push_str(&mut s, "invalid magic number: ");
                push_str(&mut s, t.as_str());
            },
            GgufError::UnsupportedVersion(v) => {
                push_str(&mut s, "unsupported GGUF version: ");
                push_decimal(&mut s, *v as u64);
            },
            GgufError::InvalidValueType(v) => {
                push_str(&mut s, "invalid value type: ");
                push_decimal(&mut s, *v as u64);
            },
            GgufError::Utf8(b) => {
                push_str(&mut s, "UTF-8 decode error: ");
                proof {
                    reveal_strlit("UTF-8 decode error: ");
                }
                let detail = utf8_error_text(b.as_slice());
                push_str(&mut s, detail.as_str());
            },
            GgufError::Binary(t) => {
                push_str(&mut s, "binary read error: ");
                push_str(&mut s, t.as_str());
            },
            GgufError::InvalidTensor(t) => {
                push_str(&mut s, "invalid tensor data: ");
                push_str(&mut s, t.as_str());
            },
            GgufError::QuantizationNotSupported(t) => {
                push_str(&mut s, "quantization not supported: ");
                push_str(&mut s, t.as_str());
            },
        }
        s
    }
}

/// Error of a fixed-width read past the end of the input.
pub open spec fn eof() -> GgufErrorView {
    GgufErrorView::Binary("failed to fill whole buffer"@)
}

/// Message of a failed read of `n` bytes.
pub open spec fn read_fail_msg(n: nat) -> Seq<char> {
    "read "@ + decimal(n) + " bytes: failed to fill whole buffer"@
}

/// Message of a string length over the limit.
pub open spec fn too_long_msg(n: nat) -> Seq<char> {
    "string length "@ + decimal(n) + " exceeds max 1MB"@
}

/// Longest string accepted, in bytes.
pub const MAX_STRING_LEN: u64 = 1048576;

/// The four magic bytes `GGUF`.
pub open spec fn gguf_magic() -> Seq<u8> {
    seq![0x47u8, 0x47u8, 0x55u8, 0x46u8]
}

// ─────────────────────────── the format, as spec ───────────────────────────

/// `n` bytes are available at position `p`.
pub open spec fn fits(d: Seq<u8>, p: int, n: int) -> bool {
    0 <= p && p + n <= d.len()
}

pub open spec fn sp_u8(d: Seq<u8>, p: int) -> Result<(u8, int), GgufErrorView> {
    if fits(d, p, 1) {
        Ok((d[p], p + 1))
    } else {
        Err(eof())
    }
}

pub open spec fn sp_u16(d: Seq<u8>, p: int) -> Result<(u16, int), GgufErrorView> {
    if fits(d, p, 2) {
        Ok((le_u16(d.subrange(p, p + 2)), p + 2))
    } else {
        Err(eof())
    }
}

pub open spec fn sp_u32(d: Seq<u8>, p: int) -> Result<(u32, int), GgufErrorView> {
    if fits(d, p, 4) {
        Ok((le_u32(d.subrange(p, p + 4)), p + 4))
    } else {
        Err(eof())
    }
}

pub open spec fn sp_u64(d: Seq<u8>, p: int) -> Result<(u64, int), GgufErrorView> {
    if fits(d, p, 8) {
        Ok((le_u64(d.subrange(p, p + 8)), p + 8))
    } else {
        Err(eof())
    }
}

/// A run of `n` raw bytes.
pub open spec fn sp_run(d: Seq<u8>, p: int, n: int) -> Result<(Seq<u8>, int), GgufErrorView> {
    if fits(d, p, n) {
        Ok((d.subrange(p, p + n), p + n))
    } else {
        Err(eof())
    }
}

/// `n` consecutive little-endian `u64`s.
pub open spec fn sp_u64s(d: Seq<u8>, p: int, n: nat) -> Result<(Seq<u64>, int), GgufErrorView> {
    if fits(d, p, 8 * n as int) {
        Ok((Seq::new(n, |i: int| le_u64(d.subrange(p + 8 * i, p + 8 * i + 8))), p + 8 * n))
    } else {
        Err(eof())
    }
}

/// A value-type tag.
pub open spec fn sp_value_type(d: Seq<u8>, p: int) -> Result<(GgufValueType, int), GgufErrorView> {
    match sp_u32(d, p) {
        Err(e) => Err(e),
        Ok((raw, q)) => match value_type_of(raw) {
            Some(t) => Ok((t, q)),
            None => Err(GgufErrorView::InvalidValueType(raw)),
        },
    }
}

/// A string: a `u64` byte length (at most 1 MiB) and that many UTF-8 bytes.
pub open spec fn sp_string(d: Seq<u8>, p: int) -> Result<(Seq<char>, int), GgufErrorView> {
    match sp_u64(d, p) {
        Err(e) => Err(e),
        Ok((n, q)) => if n > MAX_STRING_LEN {
            Err(GgufErrorView::Io(too_long_msg(n as nat)))
        } else if !fits(d, q, n as int) {
            Err(GgufErrorView::Io(read_fail_msg(n as nat)))
        } else {
            let b = d.subrange(q, q + n);
            if valid_utf8(b) {
                Ok((decode_utf8(b), q + n))
            } else {
                Err(GgufErrorView::Utf8(b))
            }
        },
    }
}

/// Bytes reinterpreted as signed bytes.
pub open spec fn as_i8s(b: Seq<u8>) -> Seq<i8> {
    b.map_values(|x: u8| x as i8)
}

/// A value of declared type `t`.
pub open spec fn sp_value(d: Seq<u8>, p: int, t: GgufValueType) -> Result<(KvValueView, int), GgufErrorView>
    decreases d.len() - p, 0int,
{
    match t {
        GgufValueType::Uint8 => match sp_u8(d, p) {
            Ok((x, q)) => Ok((KvValueView::Uint8(x), q)),
            Err(e) => Err(e),
        },
        GgufValueType::Int8 => match sp_u8(d, p) {
            Ok((x, q)) => Ok((KvValueView::Int8(x as i8), q)),
            Err(e) => Err(e),
        },
        GgufValueType::Uint16 => match sp_u16(d, p) {
            Ok((x, q)) => Ok((KvValueView::Uint16(x), q)),
            Err(e) => Err(e),
        },
        GgufValueType::Int16 => match sp_u16(d, p) {
            Ok((x, q)) => Ok((KvValueView::Int16(x as i16), q)),
            Err(e) => Err(e),
        },
        GgufValueType::Uint32 => match sp_u32(d, p) {
            Ok((x, q)) => Ok((KvValueView::Uint32(x), q)),
            Err(e) => Err(e),
        },
        GgufValueType::Int32 => match sp_u32(d, p) {
            Ok((x, q)) => Ok((KvValueView::Int32(x as i32), q)),
            Err(e) => Err(e),
        },
        GgufValueType::Uint64 => match sp_u64(d, p) {
            Ok((x, q)) => Ok((KvValueView::Uint64(x), q)),
            Err(e) => Err(e),
        },
        GgufValueType::Int64 => match sp_u64(d, p) {
            Ok((x, q)) => Ok((KvValueView::Int64(x as i64), q)),
            Err(e) => Err(e),
        },
        GgufValueType::Float32 => match sp_u32(d, p) {
            Ok((x, q)) => Ok((KvValueView::Float32(x), q)),
            Err(e) => Err(e),
        },
        GgufValueType::Bool => match sp_u8(d, p) {
            Ok((x, q)) => Ok((KvValueView::Bool(x != 0), q)),
            Err(e) => Err(e),
        },
        GgufValueType::String => match sp_string(d, p) {
            Ok((s, q)) => Ok((KvValueView::String(s), q)),
            Err(e) => Err(e),
        },
        GgufValueType::Array => match sp_value_type(d, p) {
            Err(e) => Err(e),
            Ok((et, q1)) => match sp_u64(d, q1) {
                Err(e) => Err(e),
                Ok((n, q2)) => match et {
                    GgufValueType::Int8Array => match sp_run(d, q2, n as int) {
                        Ok((b, q)) => Ok((KvValueView::Int8Array(as_i8s(b)), q)),
                        Err(e) => Err(e),
                    },
                    GgufValueType::Uint8Array => match sp_run(d, q2, n as int) {
                        Ok((b, q)) => Ok((KvValueView::Uint8Array(b), q)),
                        Err(e) => Err(e),
                    },
                    _ => match sp_values(d, q2, et, n as nat, Seq::empty()) {
                        Ok((vs, q)) => Ok((KvValueView::Array(vs), q)),
                        Err(e) => Err(e),
                    },
                },
            },
        },
        GgufValueType::Float16 => match sp_u16(d, p) {
            Ok((x, q)) => Ok((KvValueView::Float16(x), q)),
            Err(e) => Err(e),
        },
        GgufValueType::Int8Array => match sp_u64(d, p) {
            Err(e) => Err(e),
            Ok((n, q1)) => match sp_run(d, q1, n as int) {
                Ok((b, q)) => Ok((KvValueView::Int8Array(as_i8s(b)), q)),
                Err(e) => Err(e),
            },
        },
        GgufValueType::Uint8Array => match sp_u64(d, p) {
            Err(e) => Err(e),
            Ok((n, q1)) => match sp_run(d, q1, n as int) {
                Ok((b, q)) => Ok((KvValueView::Uint8Array(b), q)),
                Err(e) => Err(e),
            },
        },
        GgufValueType::Bfloat16 => match sp_u16(d, p) {
            Ok((x, q)) => Ok((KvValueView::Bfloat16((x as u32) << 16u32), q)),
            Err(e) => Err(e),
        },
    }
}

/// `n` more array elements of type `t`, appended to those read so far.
/// Every element occupies at least one byte, so the position advances; the
/// `p < q` test makes that visible to the termination argument and never fails
/// (`lemma_value_extent`).
pub open spec fn sp_values(d: Seq<u8>, p: int, t: GgufValueType, n: nat, acc: Seq<KvValueView>) -> Result<
    (Seq<KvValueView>, int),
    GgufErrorView,
>
    decreases d.len() - p, 1int,
{
    if n == 0 {
        Ok((acc, p))
    } else {
        match sp_value(d, p, t) {
            Err(e) => Err(e),
            Ok((v, q)) => if p < q <= d.len() {
                sp_values(d, q, t, (n - 1) as nat, acc.push(v))
            } else {
                Err(eof())
            },
        }
    }
}

/// A metadata pair: key string, value-type tag, value.
pub open spec fn sp_kv_pair(d: Seq<u8>, p: int) -> Result<(KvPairView, int), GgufErrorView> {
    match sp_string(d, p) {
        Err(e) => Err(e),
        Ok((key, q1)) => match sp_value_type(d, q1) {
            Err(e) => Err(e),
            Ok((t, q2)) => match sp_value(d, q2, t) {
                Err(e) => Err(e),
                Ok((v, q)) => Ok((KvPairView { key, value_type: t, value: v }, q)),
            },
        },
    }
}

/// `n` more metadata pairs, appended to those read so far.
pub open spec fn sp_kv_pairs(d: Seq<u8>, p: int, n: nat, acc: Seq<KvPairView>) -> Result<
    (Seq<KvPairView>, int),
    GgufErrorView,
>
    decreases n,
{
    if n == 0 {
        Ok((acc, p))
    } else {
        match sp_kv_pair(d, p) {
            Err(e) => Err(e),
            Ok((kv, q)) => sp_kv_pairs(d, q, (n - 1) as nat, acc.push(kv)),
        }
    }
}

/// Tensor metadata: name, dimension count, dimensions, dtype code, offset.
pub open spec fn sp_tensor_info(d: Seq<u8>, p: int) -> Result<(TensorInfoView, int), GgufErrorView> {
    match sp_string(d, p) {
        Err(e) => Err(e),
        Ok((name, q1)) => match sp_u32(d, q1) {
            Err(e) => Err(e),
            Ok((n_dims, q2)) => match sp_u64s(d, q2, n_dims as nat) {
                Err(e) => Err(e),
                Ok((shape, q3)) => match sp_u32(d, q3) {
                    Err(e) => Err(e),
                    Ok((dtype, q4)) => match sp_u64(d, q4) {
                        Err(e) => Err(e),
                        Ok((offset, q)) => Ok((TensorInfoView { name, shape, offset, dtype }, q)),
                    },
                },
            },
        },
    }
}

/// `n` more tensor metadata entries, appended to those read so far.
pub open spec fn sp_tensors(d: Seq<u8>, p: int, n: nat, acc: Seq<TensorInfoView>) -> Result<
    (Seq<TensorInfoView>, int),
    GgufErrorView,
>
    decreases n,
{
    if n == 0 {
        Ok((acc, p))
    } else {
        match sp_tensor_info(d, p) {
            Err(e) => Err(e),
            Ok((t, q)) => sp_tensors(d, q, (n - 1) as nat, acc.push(t)),
        }
    }
}

/// What a header's metadata section holds, and where it ends.
pub struct GgufLayout {
    pub version: u32,
    pub kv_pairs: Seq<KvPairView>,
    pub tensors: Seq<TensorInfoView>,
    pub metadata_end: int,
}

/// The pairs and tensor entries that follow the 24-byte fixed prefix.
pub open spec fn sp_entries(d: Seq<u8>, version: u32, tensor_count: u64, kv_count: u64) -> Result<
    GgufLayout,
    GgufErrorView,
> {
    match sp_kv_pairs(d, 24, kv_count as nat, Seq::empty()) {
        Err(e) => Err(e),
        Ok((kvs, p1)) => match sp_tensors(d, p1, tensor_count as nat, Seq::empty()) {
            Err(e) => Err(e),
            Ok((ts, p2)) => Ok(GgufLayout { version, kv_pairs: kvs, tensors: ts, metadata_end: p2 }),
        },
    }
}

/// The fixed prefix of a file: magic, version (1 to 3), tensor count and
/// pair count.
pub open spec fn sp_preamble(d: Seq<u8>) -> Result<(u32, u64, u64), GgufErrorView> {
    if d.len() < 4 {
        Err(GgufErrorView::Io(read_fail_msg(4)))
    } else if d.subrange(0, 4) != gguf_magic() {
        Err(GgufErrorView::InvalidMagic("expected GGUF, got "@ + utf8_lossy(d.subrange(0, 4))))
    } else {
        match sp_u32(d, 4) {
            Err(e) => Err(e),
            Ok((version, _)) => if !(1 <= version <= 3) {
                Err(GgufErrorView::UnsupportedVersion(version))
            } else {
                match sp_u64(d, 8) {
                    Err(e) => Err(e),
                    Ok((tensor_count, _)) => match sp_u64(d, 16) {
                        Err(e) => Err(e),
                        Ok((kv_count, _)) => Ok((version, tensor_count, kv_count)),
                    },
                }
            },
        }
    }
}

/// The metadata section of a whole file: the fixed prefix, the pairs, the
/// tensor entries.
pub open spec fn sp_layout(d: Seq<u8>) -> Result<GgufLayout, GgufErrorView> {
    match sp_preamble(d) {
        Err(e) => Err(e),
        Ok((version, tensor_count, kv_count)) => sp_entries(d, version, tensor_count, kv_count),
    }
}

// ───────────────────────────── sizes and layout ─────────────────────────────

/// Encoded size of a sequence of pairs.
pub open spec fn kv_sizes(s: Seq<KvPairView>) -> nat
    decreases s.len(),
{
    if s.len() == 0 {
        0
    } else {
        kv_sizes(s.drop_last()) + kv_pair_size(s.last())
    }
}

/// Encoded size of a sequence of tensor entries.
pub open spec fn tensor_sizes(s: Seq<TensorInfoView>) -> nat
    decreases s.len(),
{
    if s.len() == 0 {
        0
    } else {
        tensor_sizes(s.drop_last()) + tensor_info_size(s.last())
    }
}

/// The least multiple of `a` at or above `x`.
pub open spec fn round_up(x: int, a: int) -> int {
    if x % a == 0 {
        x
    } else {
        x + (a - x % a)
    }
}

/// Offset of the tensor data section: the fixed 24-byte prefix plus the
/// encoded pairs and tensor entries, rounded up to the alignment for version 3.
pub open spec fn section_start(
    version: u32,
    kvs: Seq<KvPairView>,
    ts: Seq<TensorInfoView>,
    alignment: Option<u64>,
) -> int {
    let base = (24 + kv_sizes(kvs) + tensor_sizes(ts)) as int;
    match alignment {
        Some(a) => if version == 3 && a > 0 {
            round_up(base, a as int)
        } else {
            base
        },
        None => base,
    }
}

/// Alignment declared by the first `general.alignment` pair, when it holds an
/// unsigned integer.
pub open spec fn alignment_of(kvs: Seq<KvPairView>) -> Option<u64> {
    match kv_lookup(kvs, "general.alignment"@) {
        Some(v) => value_as_u64(v),
        None => None,
    }
}

/// Alignment a header of this layout records: only version 3 declares one.
pub open spec fn layout_alignment(l: GgufLayout) -> Option<u64> {
    if l.version == 3 {
        alignment_of(l.kv_pairs)
    } else {
        None
    }
}

/// Data section offset of a layout.
pub open spec fn layout_start(l: GgufLayout) -> int {
    section_start(l.version, l.kv_pairs, l.tensors, layout_alignment(l))
}

/// The header a layout is reported as.
pub open spec fn header_of(l: GgufLayout) -> HeaderView {
    HeaderView {
        version: l.version,
        kv_pairs: l.kv_pairs,
        tensors: l.tensors,
        data_alignment: layout_alignment(l),
        data_section_start: layout_start(l) as u64,
    }
}

// ───────────────────────────── extent lemmas ─────────────────────────────

/// Reading a value consumes exactly its encoded size, and at least one byte.
pub proof fn lemma_value_extent(d: Seq<u8>, p: int, t: GgufValueType)
    ensures
        sp_value(d, p, t) matches Ok((v, q)) ==> (0 <= p < q <= d.len() && q == p + value_size(
            v,
            t == GgufValueType::Array,
        ) && ((t != GgufValueType::Int8Array && t != GgufValueType::Uint8Array) ==> q == p
            + value_size(v, true))),
    decreases d.len() - p, 0int,
{
    match t {
        GgufValueType::Array => {
            match sp_value_type(d, p) {
                Ok((et, q1)) => match sp_u64(d, q1) {
                    Ok((n, q2)) => {
                        if et != GgufValueType::Int8Array && et != GgufValueType::Uint8Array {
                            lemma_values_extent(d, q2, et, n as nat, Seq::empty());
                        }
                    },
                    Err(_) => {},
                },
                Err(_) => {},
            }
        },
        GgufValueType::String => {
            lemma_string_extent(d, p);
        },
        _ => {},
    }
}

/// Reading a string consumes its 8-byte length and its UTF-8 encoding.
pub proof fn lemma_string_extent(d: Seq<u8>, p: int)
    ensures
        sp_string(d, p) matches Ok((s, q)) ==> (0 <= p && q == p + 8 + encode_utf8(s).len() && q
            <= d.len()),
{
    match sp_u64(d, p) {
        Ok((n, q)) => {
            if n <= MAX_STRING_LEN && fits(d, q, n as int) {
                let b = d.subrange(q, q + n);
                if valid_utf8(b) {
                    decode_utf8_encode_utf8(b);
                }
            }
        },
        Err(_) => {},
    }
}

/// Reading `n` more array elements consumes their encoded sizes.
pub proof fn lemma_values_extent(
    d: Seq<u8>,
    p: int,
    t: GgufValueType,
    n: nat,
    acc: Seq<KvValueView>,
)
    requires
        t != GgufValueType::Int8Array,
        t != GgufValueType::Uint8Array,
    ensures
        sp_values(d, p, t, n, acc) matches Ok((vs, q)) ==> (p <= q && q == p + values_size(vs)
            - values_size(acc) && (p <= d.len() ==> q <= d.len()) && vs.len() == acc.len() + n
            && vs.subrange(0, acc.len() as int) == acc),
    decreases d.len() - p, 1int,
{
    if n == 0 {
        assert(acc.subrange(0, acc.len() as int) =~= acc);
    } else {
        lemma_value_extent(d, p, t);
        match sp_value(d, p, t) {
            Ok((v, q)) => {
                if p < q <= d.len() {
                    let acc2 = acc.push(v);
                    lemma_values_extent(d, q, t, (n - 1) as nat, acc2);
                    assert(acc2.subrange(0, acc.len() as int) =~= acc);
                    match sp_values(d, q, t, (n - 1) as nat, acc2) {
                        Ok((vs, q3)) => {
                            assert(vs.subrange(0, acc.len() as int) =~= vs.subrange(
                                0,
                                acc2.len() as int,
                            ).subrange(0, acc.len() as int));
                        },
                        Err(_) => {},
                    }
                }
            },
            Err(_) => {},
        }
    }
}

/// Reading a pair consumes exactly its encoded size.
pub proof fn lemma_kv_pair_extent(d: Seq<u8>, p: int)
    ensures
        sp_kv_pair(d, p) matches Ok((kv, q)) ==> (0 <= p < q && q == p + kv_pair_size(kv) && q
            <= d.len()),
{
    lemma_string_extent(d, p);
    match sp_string(d, p) {
        Ok((key, q1)) => match sp_value_type(d, q1) {
            Ok((t, q2)) => {
                lemma_value_extent(d, q2, t);
            },
            Err(_) => {},
        },
        Err(_) => {},
    }
}

/// Reading `n` more pairs consumes their encoded sizes.
pub proof fn lemma_kv_pairs_extent(d: Seq<u8>, p: int, n: nat, acc: Seq<KvPairView>)
    ensures
        sp_kv_pairs(d, p, n, acc) matches Ok((kvs, q)) ==> (p <= q && q == p + kv_sizes(kvs)
            - kv_sizes(acc) && (p <= d.len() ==> q <= d.len()) && kvs.len() == acc.len() + n),
    decreases n,
{
    if n > 0 {
        lemma_kv_pair_extent(d, p);
        match sp_kv_pair(d, p) {
            Ok((kv, q)) => {
                let acc2 = acc.push(kv);
                lemma_kv_pairs_extent(d, q, (n - 1) as nat, acc2);
                assert(acc2.drop_last() =~= acc);
            },
            Err(_) => {},
        }
    }
}

/// Reading tensor metadata consumes exactly its encoded size.
pub proof fn lemma_tensor_info_extent(d: Seq<u8>, p: int)
    ensures
        sp_tensor_info(d, p) matches Ok((ti, q)) ==> (0 <= p < q && q == p + tensor_info_size(ti)
            && q <= d.len()),
{
    lemma_string_extent(d, p);
}

/// Reading `n` more tensor entries consumes their encoded sizes.
pub proof fn lemma_tensors_extent(d: Seq<u8>, p: int, n: nat, acc: Seq<TensorInfoView>)
    ensures
        sp_tensors(d, p, n, acc) matches Ok((ts, q)) ==> (p <= q && q == p + tensor_sizes(ts)
            - tensor_sizes(acc) && (p <= d.len() ==> q <= d.len()) && ts.len() == acc.len() + n),
    decreases n,
{
    if n > 0 {
        lemma_tensor_info_extent(d, p);
        match sp_tensor_info(d, p) {
            Ok((ti, q)) => {
                let acc2 = acc.push(ti);
                lemma_tensors_extent(d, q, (n - 1) as nat, acc2);
                assert(acc2.drop_last() =~= acc);
            },
            Err(_) => {},
        }
    }
}

/// The metadata section ends exactly where the fixed prefix, the encoded
/// pairs and the encoded tensor entries end, inside the input.
pub proof fn lemma_layout_extent(d: Seq<u8>)
    ensures
        sp_layout(d) matches Ok(l) ==> (l.metadata_end == 24 + kv_sizes(l.kv_pairs)
            + tensor_sizes(l.tensors) && l.metadata_end <= d.len()),
{
    match sp_preamble(d) {
        Ok((version, tc, kc)) => {
            lemma_kv_pairs_extent(d, 24, kc as nat, Seq::empty());
            match sp_kv_pairs(d, 24, kc as nat, Seq::empty()) {
                Ok((kvs, p1)) => {
                    lemma_tensors_extent(d, p1, tc as nat, Seq::empty());
                },
                Err(_) => {},
            }
        },
        Err(_) => {},
    }
}

// ───────────────────────────── executable readers ─────────────────────────────

/// An executable reading result agrees with the spec reading result.
pub open spec fn agrees<T: View>(
    r: Result<(T, usize), GgufError>,
    s: Result<(T::V, int), GgufErrorView>,
) -> bool {
    match r {
        Ok((x, q)) => s matches Ok((v, p)) && x@ == v && q as int == p,
        Err(e) => s matches Err(f) && e@ == f,
    }
}

/// Views of a sequence of values.
pub open spec fn values_view(s: Seq<GgufKvValue>) -> Seq<KvValueView> {
    s.map_values(|v: GgufKvValue| v@)
}

pub(crate) fn eof_error() -> (e: GgufError)
    ensures
        e@ == eof(),
{
    GgufError::Binary("failed to fill whole buffer".to_string())
}

fn read_fail_message(n: u64) -> (s: String)
    ensures
        s@ == read_fail_msg(n as nat),
{
    let mut s = String::new();
    push_str(&mut s, "read ");
    push_decimal(&mut s, n);
    push_str(&mut s, " bytes: failed to fill whole buffer");
    s
}

fn too_long_message(n: u64) -> (s: String)
    ensures
        s@ == too_long_msg(n as nat),
{
    let mut s = String::new();
    push_str(&mut s, "string length ");
    push_decimal(&mut s, n);
    push_str(&mut s, " exceeds max 1MB");
    s
}

pub(crate) fn read_u8_at(data: &[u8], pos: usize) -> (r: Result<(u8, usize), GgufError>)
    ensures
        agrees(r, sp_u8(data@, pos as int)),
{
    if pos < data.len() {
        Ok((data[pos], pos + 1))
    } else {
        Err(eof_error())
    }
}

fn read_u16_at(data: &[u8], pos: usize) -> (r: Result<(u16, usize), GgufError>)
    ensures
        agrees(r, sp_u16(data@, pos as int)),
{
    if pos <= data.len() && data.len() - pos >= 2 {
        let b = slice_subrange(data, pos, pos + 2);
        Ok((read_u16_le(b), pos + 2))
    } else {
        Err(eof_error())
    }
}

pub(crate) fn read_u32_at(data: &[u8], pos: usize) -> (r: Result<(u32, usize), GgufError>)
    ensures
        agrees(r, sp_u32(data@, pos as int)),
{
    if pos <= data.len() && data.len() - pos >= 4 {
        let b = slice_subrange(data, pos, pos + 4);
        Ok((read_u32_le(b), pos + 4))
    } else {
        Err(eof_error())
    }
}

pub(crate) fn read_u64_at(data: &[u8], pos: usize) -> (r: Result<(u64, usize), GgufError>)
    ensures
        agrees(r, sp_u64(data@, pos as int)),
{
    if pos <= data.len() && data.len() - pos >= 8 {
        let b = slice_subrange(data, pos, pos + 8);
        Ok((read_u64_le(b), pos + 8))
    } else {
        Err(eof_error())
    }
}

pub(crate) fn read_run_at(data: &[u8], pos: usize, n: u64) -> (r: Result<(Vec<u8>, usize), GgufError>)
    ensures
        agrees(r, sp_run(data@, pos as int, n as int)),
{
    if pos <= data.len() && ((data.len() - pos) as u64) >= n {
        let m = n as usize;
        let b = slice_to_vec(slice_subrange(data, pos, pos + m));
        Ok((b, pos + m))
    } else {
        Err(eof_error())
    }
}

pub(crate) fn to_i8s(b: &Vec<u8>) -> (r: Vec<i8>)
    ensures
        r@ == as_i8s(b@),
{
    let mut out: Vec<i8> = Vec::new();
    let mut i: usize = 0;
    while i < b.len()
        invariant
            i <= b@.len(),
            out@ == as_i8s(b@.take(i as int)),
        decreases b@.len() - i,
    {
        proof {
            assert(as_i8s(b@.take(i + 1)) =~= as_i8s(b@.take(i as int)).push(b@[i as int] as i8));
        }
        out.push(b[i] as i8);
        i = i + 1;
    }
    proof {
        assert(b@.take(b@.len() as int) =~= b@);
    }
    out
}

pub(crate) fn read_value_type_at(data: &[u8], pos: usize) -> (r: Result<(GgufValueType, usize), GgufError>)
    ensures
        agrees(r, sp_value_type(data@, pos as int)),
{
    match read_u32_at(data, pos) {
        Err(e) => Err(e),
        Ok((raw, q)) => match GgufValueType::from_u32(raw) {
            Some(t) => Ok((t, q)),
            None => Err(GgufError::InvalidValueType(raw)),
        },
    }
}

fn read_string_at(data: &[u8], pos: usize) -> (r: Result<(String, usize), GgufError>)
    ensures
        agrees(r, sp_string(data@, pos as int)),
{
    let (n, q) = match read_u64_at(data, pos) {
        Ok(x) => x,
        Err(e) => return Err(e),
    };
    if n > MAX_STRING_LEN {
        return Err(GgufError::Io(too_long_message(n)));
    }
    if ((data.len() - q) as u64) < n {
        return Err(GgufError::Io(read_fail_message(n)));
    }
    let m = n as usize;
    let bytes = slice_to_vec(slice_subrange(data, q, q + m));
    match string_from_utf8(bytes) {
        Ok(s) => Ok((s, q + m)),
        Err(b) => Err(GgufError::Utf8(b)),
    }
}

/// Reads a value of declared type `t` at `pos`.
fn read_kv_value(data: &[u8], pos: usize, t: GgufValueType) -> (r: Result<(GgufKvValue, usize), GgufError>)
    ensures
        agrees(r, sp_value(data@, pos as int, t)),
    decreases data@.len() - pos, 0int,
{
    match t {
        GgufValueType::Uint8 => match read_u8_at(data, pos) {
            Ok((x, q)) => Ok((GgufKvValue::Uint8(x), q)),
            Err(e) => Err(e),
        },
        GgufValueType::Int8 => match read_u8_at(data, pos) {
            Ok((x, q)) => Ok((GgufKvValue::Int8(x as i8), q)),
            Err(e) => Err(e),
        },
        GgufValueType::Uint16 => match read_u16_at(data, pos) {
            Ok((x, q)) => Ok((GgufKvValue::Uint16(x), q)),
            Err(e) => Err(e),
        },
        GgufValueType::Int16 => match read_u16_at(data, pos) {
            Ok((x, q)) => Ok((GgufKvValue::Int16(x as i16), q)),
            Err(e) => Err(e),
        },
        GgufValueType::Uint32 => match read_u32_at(data, pos) {
            Ok((x, q)) => Ok((GgufKvValue::Uint32(x), q)),
            Err(e) => Err(e),
        },
        GgufValueType::Int32 => match read_u32_at(data, pos) {
            Ok((x, q)) => Ok((GgufKvValue::Int32(x as i32), q)),
            Err(e) => Err(e),
        },
        GgufValueType::Uint64 => match read_u64_at(data, pos) {
            Ok((x, q)) => Ok((GgufKvValue::Uint64(x), q)),
            Err(e) => Err(e),
        },
        GgufValueType::Int64 => match read_u64_at(data, pos) {
            Ok((x, q)) => Ok((GgufKvValue::Int64(x as i64), q)),
            Err(e) => Err(e),
        },
        GgufValueType::Float32 => match read_u32_at(data, pos) {
            Ok((x, q)) => Ok((GgufKvValue::Float32(x), q)),
            Err(e) => Err(e),
        },
        GgufValueType::Bool => match read_u8_at(data, pos) {
            Ok((x, q)) => Ok((GgufKvValue::Bool(x != 0), q)),
            Err(e) => Err(e),
        },
        GgufValueType::String => match read_string_at(data, pos) {
            Ok((s, q)) => Ok((GgufKvValue::String(s), q)),
            Err(e) => Err(e),
        },
        GgufValueType::Array => {
            let (et, q1) = match read_value_type_at(data, pos) {
                Ok(x) => x,
                Err(e) => return Err(e),
            };
            let (n, q2) = match read_u64_at(data, q1) {
                Ok(x) => x,
                Err(e) => return Err(e),
            };
            match et {
                GgufValueType::Int8Array => match read_run_at(data, q2, n) {
                    Ok((b, q)) => Ok((GgufKvValue::Int8Array(to_i8s(&b)), q)),
                    Err(e) => Err(e),
                },
                GgufValueType::Uint8Array => match read_run_at(data, q2, n) {
                    Ok((b, q)) => Ok((GgufKvValue::Uint8Array(b), q)),
                    Err(e) => Err(e),
                },
                _ => {
                    let ghost d = data@;
                    let mut values: Vec<GgufKvValue> = Vec::new();
                    let mut p = q2;
                    let mut i: u64 = 0;
                    proof {
                        assert(values_view(values@) =~= Seq::<KvValueView>::empty());
                    }
                    while i < n
                        invariant
                            d == data@,
                            pos + 12 == q2 <= p <= d.len(),
                            i <= n,
                            et != GgufValueType::Int8Array,
                            et != GgufValueType::Uint8Array,
                            sp_value(d, pos as int, t) == (match sp_values(d, q2 as int, et, n as nat, Seq::empty()) {
                                Ok((vs, q)) => Ok((KvValueView::Array(vs), q)),
                                Err(e) => Err(e),
                            }),
                            sp_values(d, q2 as int, et, n as nat, Seq::empty()) == sp_values(
                                d,
                                p as int,
                                et,
                                (n - i) as nat,
                                values_view(values@),
                            ),
                        decreases n - i,
                    {
                        proof {
                            lemma_value_extent(d, p as int, et);
                        }
                        let (v, q) = match read_kv_value(data, p, et) {
                            Ok(x) => x,
                            Err(e) => return Err(e),
                        };
                        proof {
                            assert(values_view(values@.push(v)) =~= values_view(values@).push(v@));
                        }
                        values.push(v);
                        p = q;
                        i = i + 1;
                    }
                    let r = GgufKvValue::Array(values);
                    proof {
                        assert(r@->Array_0 =~= values_view(values@));
                    }
                    Ok((r, p))
                },
            }
        },
        GgufValueType::Float16 => match read_u16_at(data, pos) {
            Ok((x, q)) => Ok((GgufKvValue::Float16(x), q)),
            Err(e) => Err(e),
        },
        GgufValueType::Int8Array => {
            let (n, q1) = match read_u64_at(data, pos) {
                Ok(x) => x,
                Err(e) => return Err(e),
            };
            match read_run_at(data, q1, n) {
                Ok((b, q)) => Ok((GgufKvValue::Int8Array(to_i8s(&b)), q)),
                Err(e) => Err(e),
            }
        },
        GgufValueType::Uint8Array => {
            let (n, q1) = match read_u64_at(data, pos) {
                Ok(x) => x,
                Err(e) => return Err(e),
            };
            match read_run_at(data, q1, n) {
                Ok((b, q)) => Ok((GgufKvValue::Uint8Array(b), q)),
                Err(e) => Err(e),
            }
        },
        GgufValueType::Bfloat16 => match read_u16_at(data, pos) {
            Ok((x, q)) => Ok((GgufKvValue::Bfloat16((x as u32) << 16u32), q)),
            Err(e) => Err(e),
        },
    }
}

fn read_kv_pair_at(data: &[u8], pos: usize) -> (r: Result<(GgufKvPair, usize), GgufError>)
    ensures
        agrees(r, sp_kv_pair(data@, pos as int)),
{
    let (key, q1) = match read_string_at(data, pos) {
        Ok(x) => x,
        Err(e) => return Err(e),
    };
    let (value_type, q2) = match read_value_type_at(data, q1) {
        Ok(x) => x,
        Err(e) => return Err(e),
    };
    match read_kv_value(data, q2, value_type) {
        Ok((value, q)) => Ok((GgufKvPair { key, value_type, value }, q)),
        Err(e) => Err(e),
    }
}

fn read_tensor_info_at(data: &[u8], pos: usize) -> (r: Result<(GgufTensorInfo, usize), GgufError>)
    ensures
        agrees(r, sp_tensor_info(data@, pos as int)),
{
    let ghost d = data@;
    let (name, q1) = match read_string_at(data, pos) {
        Ok(x) => x,
        Err(e) => return Err(e),
    };
    let (n_dims, q2) = match read_u32_at(data, q1) {
        Ok(x) => x,
        Err(e) => return Err(e),
    };
    let mut shape: Vec<u64> = Vec::new();
    let mut p = q2;
    let mut i: u32 = 0;
    while i < n_dims
        invariant
            d == data@,
            sp_string(d, pos as int) == Ok::<(Seq<char>, int), GgufErrorView>((name@, q1 as int)),
            sp_u32(d, q1 as int) == Ok::<(u32, int), GgufErrorView>((n_dims, q2 as int)),
            i <= n_dims,
            p == q2 + 8 * i,
            fits(d, q2 as int, 8 * i),
            shape@ == Seq::new(i as nat, |k: int| le_u64(d.subrange(q2 + 8 * k, q2 + 8 * k + 8))),
        decreases n_dims - i,
    {
        let (x, q) = match read_u64_at(data, p) {
            Ok(x) => x,
            Err(e) => {
                proof {
                    assert(!fits(d, q2 as int, 8 * n_dims as int));
                    assert(sp_u64s(d, q2 as int, n_dims as nat) == Err::<(Seq<u64>, int), GgufErrorView>(eof()));
                }
                return Err(e);
            },
        };
        proof {
            assert(shape@.push(x) =~= Seq::new(
                (i + 1) as nat,
                |k: int| le_u64(d.subrange(q2 + 8 * k, q2 + 8 * k + 8)),
            ));
        }
        shape.push(x);
        p = q;
        i = i + 1;
    }
    let (dtype, q3) = match read_u32_at(data, p) {
        Ok(x) => x,
        Err(e) => return Err(e),
    };
    let (offset, q) = match read_u64_at(data, q3) {
        Ok(x) => x,
        Err(e) => return Err(e),
    };
    Ok((GgufTensorInfo { name, shape, offset, dtype }, q))
}

/// Alignment declared by the first `general.alignment` pair, when it holds an
/// unsigned integer.
pub(crate) fn read_alignment_from_kv(kv_pairs: &[GgufKvPair]) -> (r: Option<u64>)
    ensures
        r == alignment_of(kv_pairs_view(kv_pairs@)),
{
    let ghost kvs = kv_pairs_view(kv_pairs@);
    let key = "general.alignment".to_string();
    let mut i: usize = 0;
    while i < kv_pairs.len()
        invariant
            kvs == kv_pairs_view(kv_pairs@),
            i <= kv_pairs@.len(),
            key@ == "general.alignment"@,
            forall|j: int| 0 <= j < i ==> kvs[j].key != key@,
        decreases kv_pairs@.len() - i,
    {
        if kv_pairs[i].key == key {
            proof {
                lemma_first_key_unique(kvs, key@, i as int);
            }
            return kv_pairs[i].value.as_u64();
        }
        i = i + 1;
    }
    proof {
        assert(!exists|j: int| is_first_key(kvs, key@, j));
    }
    None
}

/// Prefix sums of pair sizes grow one pair at a time and stay below the total.
pub(crate) proof fn lemma_kv_sizes_prefix(s: Seq<KvPairView>, i: int)
    requires
        0 <= i < s.len(),
    ensures
        kv_sizes(s.take(i + 1)) == kv_sizes(s.take(i)) + kv_pair_size(s[i]),
        kv_sizes(s.take(i + 1)) <= kv_sizes(s),
    decreases s.len() - i,
{
    assert(s.take(i + 1).drop_last() =~= s.take(i));
    if i + 1 < s.len() {
        lemma_kv_sizes_prefix(s, i + 1);
    } else {
        assert(s.take(i + 1) =~= s);
    }
}

/// Prefix sums of tensor entry sizes grow one entry at a time and stay below
/// the total.
pub(crate) proof fn lemma_tensor_sizes_prefix(s: Seq<TensorInfoView>, i: int)
    requires
        0 <= i < s.len(),
    ensures
        tensor_sizes(s.take(i + 1)) == tensor_sizes(s.take(i)) + tensor_info_size(s[i]),
        tensor_sizes(s.take(i + 1)) <= tensor_sizes(s),
    decreases s.len() - i,
{
    assert(s.take(i + 1).drop_last() =~= s.take(i));
    if i + 1 < s.len() {
        lemma_tensor_sizes_prefix(s, i + 1);
    } else {
        assert(s.take(i + 1) =~= s);
    }
}

/// Rounding up to a positive alignment gives the least aligned offset at or
/// above the input.
pub proof fn lemma_round_up(x: int, a: int)
    requires
        0 <= x,
        0 < a,
    ensures
        round_up(x, a) % a == 0,
        x <= round_up(x, a) < x + a,
{
    let r = x % a;
    assert(x == a * (x / a) + r) by (nonlinear_arith)
        requires
            0 < a,
            r == x % a,
    ;
    if r != 0 {
        assert((x + (a - r)) % a == 0) by (nonlinear_arith)
            requires
                0 < a,
                x == a * (x / a) + r,
                0 < r < a,
        {
            assert(x + (a - r) == a * (x / a + 1));
            vstd::arithmetic::div_mod::lemma_mod_multiples_basic(x / a + 1, a);
        }
    }
}

/// A data section offset computed from metadata of at most `isize::MAX`
/// bytes fits in a `u64`, whatever the declared alignment.
proof fn lemma_start_fits(l: GgufLayout, n: nat)
    requires
        l.metadata_end == 24 + kv_sizes(l.kv_pairs) + tensor_sizes(l.tensors),
        l.metadata_end <= n,
        n <= isize::MAX,
    ensures
        layout_start(l) <= u64::MAX,
{
    let x = l.metadata_end;
    match layout_alignment(l) {
        Some(a) => if l.version == 3 && a > 0 {
            lemma_round_up(x, a as int);
            if x % (a as int) != 0 {
                if (a as int) > x {
                    assert(x % (a as int) == x) by {
                        vstd::arithmetic::div_mod::lemma_small_mod(x as nat, a as nat);
                    }
                }
            }
        },
        None => {},
    }
}

/// Size of the metadata section: the 24-byte fixed prefix (magic, version and
/// the two counts) plus the encoded pairs and tensor entries.
fn metadata_size(kv_pairs: &[GgufKvPair], tensors: &[GgufTensorInfo]) -> (r: u64)
    requires
        kv_sizes(kv_pairs_view(kv_pairs@)) <= usize::MAX,
        tensor_sizes(tensors_view(tensors@)) <= usize::MAX,
        24 + kv_sizes(kv_pairs_view(kv_pairs@)) + tensor_sizes(tensors_view(tensors@)) <= u64::MAX,
    ensures
        r == 24 + kv_sizes(kv_pairs_view(kv_pairs@)) + tensor_sizes(tensors_view(tensors@)),
{
    let ghost kvs = kv_pairs_view(kv_pairs@);
    let ghost ts = tensors_view(tensors@);
    let header_base: u64 = 4 + 4 + 8 + 8;
    let mut kv_size: usize = 0;
    let mut i: usize = 0;
    proof {
        assert(kvs.take(0) =~= Seq::<KvPairView>::empty());
    }
    while i < kv_pairs.len()
        invariant
            kvs == kv_pairs_view(kv_pairs@),
            kv_sizes(kvs) <= usize::MAX,
            i <= kv_pairs@.len(),
            kv_size == kv_sizes(kvs.take(i as int)),
        decreases kv_pairs@.len() - i,
    {
        proof {
            lemma_kv_sizes_prefix(kvs, i as int);
        }
        kv_size = kv_size + kv_pairs[i].raw_byte_size();
        i = i + 1;
    }
    proof {
        assert(kvs.take(i as int) =~= kvs);
    }
    let mut tensor_size: usize = 0;
    let mut j: usize = 0;
    proof {
        assert(ts.take(0) =~= Seq::<TensorInfoView>::empty());
    }
    while j < tensors.len()
        invariant
            ts == tensors_view(tensors@),
            tensor_sizes(ts) <= usize::MAX,
            j <= tensors@.len(),
            tensor_size == tensor_sizes(ts.take(j as int)),
        decreases tensors@.len() - j,
    {
        proof {
            lemma_tensor_sizes_prefix(ts, j as int);
        }
        tensor_size = tensor_size + tensors[j].raw_byte_size();
        j = j + 1;
    }
    proof {
        assert(ts.take(j as int) =~= ts);
    }
    header_base + kv_size as u64 + tensor_size as u64
}

/// Offset of the tensor data section after the given metadata: the 24-byte
/// fixed prefix plus the encoded pairs and tensor entries, rounded up to the
/// alignment when the version is 3 and the alignment is positive.
pub fn compute_data_section_start(
    version: u32,
    kv_pairs: &[GgufKvPair],
    tensors: &[GgufTensorInfo],
    data_alignment: Option<u64>,
) -> (r: u64)
    requires
        kv_sizes(kv_pairs_view(kv_pairs@)) <= usize::MAX,
        tensor_sizes(tensors_view(tensors@)) <= usize::MAX,
        section_start(version, kv_pairs_view(kv_pairs@), tensors_view(tensors@), data_alignment)
            <= u64::MAX,
    ensures
        r == section_start(version, kv_pairs_view(kv_pairs@), tensors_view(tensors@), data_alignment),
        ({
            let base = 24 + kv_sizes(kv_pairs_view(kv_pairs@)) + tensor_sizes(tensors_view(tensors@));
            match data_alignment {
                Some(a) => if version == 3 && a > 0 {
                    r % a == 0 && base <= r < base + a
                } else {
                    r == base
                },
                None => r == base,
            }
        }),
{
    proof {
        let base = 24 + kv_sizes(kv_pairs_view(kv_pairs@)) + tensor_sizes(tensors_view(tensors@));
        match data_alignment {
            Some(a) => if version == 3 && a > 0 {
                lemma_round_up(base as int, a as int);
            },
            None => {},
        }
    }
    let mut data_section = metadata_size(kv_pairs, tensors);
    match data_alignment {
        Some(alignment) => {
            if version == 3 && alignment > 0 {
                let remainder = data_section % alignment;
                if remainder != 0 {
                    data_section = data_section + (alignment - remainder);
                }
            }
        },
        None => {},
    }
    data_section
}

/// Reads `count` metadata pairs starting at `pos`.
fn read_kv_pairs(data: &[u8], pos: usize, count: u64) -> (r: Result<(Vec<GgufKvPair>, usize), GgufError>)
    ensures
        match sp_kv_pairs(data@, pos as int, count as nat, Seq::empty()) {
            Ok((kvs, q)) => r matches Ok((v, p)) && kv_pairs_view(v@) == kvs && p == q,
            Err(e) => r matches Err(x) && x@ == e,
        },
{
    let ghost d = data@;
    let mut kv_pairs: Vec<GgufKvPair> = Vec::new();
    let mut p: usize = pos;
    let mut i: u64 = 0;
    proof {
        assert(kv_pairs_view(kv_pairs@) =~= Seq::<KvPairView>::empty());
    }
    while i < count
        invariant
            d == data@,
            i <= count,
            sp_kv_pairs(d, pos as int, count as nat, Seq::empty()) == sp_kv_pairs(
                d,
                p as int,
                (count - i) as nat,
                kv_pairs_view(kv_pairs@),
            ),
        decreases count - i,
    {
        let (kv, q) = match read_kv_pair_at(data, p) {
            Ok(x) => x,
            Err(e) => return Err(e),
        };
        proof {
            assert(kv_pairs_view(kv_pairs@.push(kv)) =~= kv_pairs_view(kv_pairs@).push(kv@));
        }
        kv_pairs.push(kv);
        p = q;
        i = i + 1;
    }
    Ok((kv_pairs, p))
}

/// Reads `count` tensor entries starting at `pos`.
fn read_tensor_infos(data: &[u8], pos: usize, count: u64) -> (r: Result<(Vec<GgufTensorInfo>, usize), GgufError>)
    ensures
        match sp_tensors(data@, pos as int, count as nat, Seq::empty()) {
            Ok((ts, q)) => r matches Ok((v, p)) && tensors_view(v@) == ts && p == q,
            Err(e) => r matches Err(x) && x@ == e,
        },
{
    let ghost d = data@;
    let mut tensors: Vec<GgufTensorInfo> = Vec::new();
    let mut p: usize = pos;
    let mut j: u64 = 0;
    proof {
        assert(tensors_view(tensors@) =~= Seq::<TensorInfoView>::empty());
    }
    while j < count
        invariant
            d == data@,
            j <= count,
            sp_tensors(d, pos as int, count as nat, Seq::empty()) == sp_tensors(
                d,
                p as int,
                (count - j) as nat,
                tensors_view(tensors@),
            ),
        decreases count - j,
    {
        let (ti, q) = match read_tensor_info_at(data, p) {
            Ok(x) => x,
            Err(e) => return Err(e),
        };
        proof {
            assert(tensors_view(tensors@.push(ti)) =~= tensors_view(tensors@).push(ti@));
        }
        tensors.push(ti);
        p = q;
        j = j + 1;
    }
    Ok((tensors, p))
}

/// Reads the fixed prefix: magic, version, tensor count, pair count.
fn read_preamble(data: &[u8]) -> (r: Result<(u32, u64, u64), GgufError>)
    ensures
        match sp_preamble(data@) {
            Ok((v, tc, kc)) => r == Ok::<(u32, u64, u64), GgufError>((v, tc, kc)),
            Err(e) => r matches Err(x) && x@ == e,
        },
{
    let ghost d = data@;
    if data.len() < 4 {
        return Err(GgufError::Io(read_fail_message(4)));
    }
    let magic = slice_subrange(data, 0, 4);
    if !(magic[0] == 0x47 && magic[1] == 0x47 && magic[2] == 0x55 && magic[3] == 0x46) {
        let mut msg = String::new();
        push_str(&mut msg, "expected GGUF, got ");
        let shown = string_from_utf8_lossy(magic);
        push_str(&mut msg, shown.as_str());
        proof {
            if d.subrange(0, 4) == gguf_magic() {
                assert(magic@[0] == gguf_magic()[0]);
                assert(magic@[1] == gguf_magic()[1]);
                assert(magic@[2] == gguf_magic()[2]);
                assert(magic@[3] == gguf_magic()[3]);
            }
        }
        return Err(GgufError::InvalidMagic(msg));
    }
    proof {
        assert(d.subrange(0, 4) =~= gguf_magic());
    }
    let (version, _) = match read_u32_at(data, 4) {
        Ok(x) => x,
        Err(e) => return Err(e),
    };
    if !(1 <= version && version <= 3) {
        return Err(GgufError::UnsupportedVersion(version));
    }
    let (tensor_count, _) = match read_u64_at(data, 8) {
        Ok(x) => x,
        Err(e) => return Err(e),
    };
    let (kv_count, _) = match read_u64_at(data, 16) {
        Ok(x) => x,
        Err(e) => return Err(e),
    };
    Ok((version, tensor_count, kv_count))
}

/// The version, pairs and tensor entries of the metadata section.
fn parse_metadata(data: &[u8]) -> (r: Result<(u32, Vec<GgufKvPair>, Vec<GgufTensorInfo>), GgufError>)
    ensures
        match sp_layout(data@) {
            Ok(l) => r matches Ok((v, kvs, ts)) && v == l.version && kv_pairs_view(kvs@) == l.kv_pairs
                && tensors_view(ts@) == l.tensors,
            Err(e) => r matches Err(x) && x@ == e,
        },
{
    let (version, tensor_count, kv_count) = match read_preamble(data) {
        Ok(x) => x,
        Err(e) => return Err(e),
    };
    let (kv_pairs, p1) = match read_kv_pairs(data, 24, kv_count) {
        Ok(x) => x,
        Err(e) => return Err(e),
    };
    let (tensors, _) = match read_tensor_infos(data, p1, tensor_count) {
        Ok(x) => x,
        Err(e) => return Err(e),
    };
    Ok((version, kv_pairs, tensors))
}

/// Parses a GGUF header from the bytes of a file (at least its metadata
/// section). The header records the version, the pairs and tensor entries in
/// file order, the declared alignment (version 3 only) and where the tensor
/// data section starts.
pub fn parse_gguf_reader(data: &[u8]) -> (r: Result<GgufHeader, GgufError>)
    requires
        data@.len() <= isize::MAX,
    ensures
        match sp_layout(data@) {
            Ok(l) => r matches Ok(h) && h@ == header_of(l),
            Err(e) => r matches Err(x) && x@ == e,
        },
{
    let len = data.len();
    proof {
        lemma_layout_extent(data@);
    }
    match parse_metadata(data) {
        Err(e) => Err(e),
        Ok((version, kv_pairs, tensors)) => {
            proof {
                let l = sp_layout(data@)->Ok_0;
                assert(l.metadata_end <= data@.len());
                assert(data@.len() <= usize::MAX);
                lemma_start_fits(l, data@.len());
            }
            let data_alignment = if version == 3 {
                read_alignment_from_kv(kv_pairs.as_slice())
            } else {
                None
            };
            let data_section_start = compute_data_section_start(
                version,
                kv_pairs.as_slice(),
                tensors.as_slice(),
                data_alignment,
            );
            Ok(GgufHeader { version, kv_pairs, tensors, data_alignment, data_section_start })
        },
    }
}

// ─────────────────────────── tensor data access ───────────────────────────

/// Message of a failed read of tensor data.
pub open spec fn extract_fail_msg(size: nat, offset: nat) -> Seq<char> {
    "read "@ + decimal(size) + " bytes at offset "@ + decimal(offset)
        + ": failed to fill whole buffer"@
}

/// Bytes `offset .. offset + size` of a file's contents.
pub fn extract_tensor_bytes_from(data: &[u8], offset: u64, size: usize) -> (r: Result<Vec<u8>, GgufError>)
    ensures
        match r {
            Ok(b) => offset + size <= data@.len() && b@ == data@.subrange(
                offset as int,
                offset + size,
            ),
            Err(e) => offset + size > data@.len() && e@ == GgufErrorView::Io(
                extract_fail_msg(size as nat, offset as nat),
            ),
        },
{
    let len = data.len();
    if (offset as u128) + (size as u128) <= (len as u128) {
        let start = offset as usize;
        Ok(slice_to_vec(slice_subrange(data, start, start + size)))
    } else {
        let mut msg = String::new();
        push_str(&mut msg, "read ");
        push_decimal(&mut msg, size as u64);
        push_str(&mut msg, " bytes at offset ");
        push_decimal(&mut msg, offset);
        push_str(&mut msg, ": failed to fill whole buffer");
        Err(GgufError::Io(msg))
    }
}

/// File offset and byte length of a tensor's data: the data section start
/// plus the tensor's offset, and its stored size.
pub fn tensor_data_range(header: &GgufHeader, tensor: &GgufTensorInfo) -> (r: (u64, usize))
    requires
        header.data_section_start + tensor.offset <= u64::MAX,
        shape_products_fit(tensor.shape@),
        stored_bytes(shape_product(tensor.shape@), dtype_of(tensor.dtype)) <= u64::MAX,
    ensures
        r.0 == header.data_section_start + tensor.offset,
        r.1 == stored_bytes(shape_product(tensor.shape@), dtype_of(tensor.dtype)) as usize,
{
    let file_offset = header.data_section_start + tensor.offset;
    let size = tensor.stored_size() as usize;
    (file_offset, size)
}

/// `tensor_data_range` without its bounds: `None` exactly when the offset,
/// the element count or the stored size does not fit in a `u64`.
pub fn checked_tensor_data_range(header: &GgufHeader, tensor: &GgufTensorInfo) -> (r: Option<(u64, usize)>)
    ensures
        r is Some <==> (header.data_section_start + tensor.offset <= u64::MAX && shape_products_fit(
            tensor.shape@,
        ) && stored_bytes(shape_product(tensor.shape@), dtype_of(tensor.dtype)) <= u64::MAX),
        r matches Some((o, s)) ==> o == header.data_section_start + tensor.offset && s == stored_bytes(
            shape_product(tensor.shape@),
            dtype_of(tensor.dtype),
        ) as usize,
{
    let file_offset = match header.data_section_start.checked_add(tensor.offset) {
        Some(o) => o,
        None => return None,
    };
    match tensor.checked_stored_size() {
        Some(size) => Some((file_offset, size as usize)),
        None => None,
    }
}

/// The stored bytes of a tensor, read from a file's contents at the data
/// section start plus the tensor's offset.
pub fn extract_tensor_bytes_with_header(
    data: &[u8],
    header: &GgufHeader,
    tensor: &GgufTensorInfo,
) -> (r: Result<Vec<u8>, GgufError>)
    requires
        header.data_section_start + tensor.offset <= u64::MAX,
        shape_products_fit(tensor.shape@),
        stored_bytes(shape_product(tensor.shape@), dtype_of(tensor.dtype)) <= u64::MAX,
    ensures
        ({
            let offset = header.data_section_start + tensor.offset;
            let size = stored_bytes(shape_product(tensor.shape@), dtype_of(tensor.dtype)) as usize;
            match r {
                Ok(b) => offset + size <= data@.len() && b@ == data@.subrange(offset, offset + size),
                Err(e) => offset + size > data@.len() && e@ == GgufErrorView::Io(
                    extract_fail_msg(size as nat, offset as nat),
                ),
            }
        }),
{
    let (file_offset, size) = tensor_data_range(header, tensor);
    extract_tensor_bytes_from(data, file_offset, size)
}

/// Unquantized byte size of `element_count` elements of `dtype` (0 for
/// dtypes without a fixed per-element width).
pub fn tensor_bytes_for_dtype(element_count: u64, dtype: GgufDtype) -> (r: usize)
    requires
        (element_count as usize) * dtype_bytes_per_element(dtype) <= usize::MAX,
    ensures
        r == (element_count as usize) * dtype_bytes_per_element(dtype),
{
    (element_count as usize) * dtype.bytes_per_element()
}

// ───────────────────────────────── laws ─────────────────────────────────

/// The tensor data section of a parsed file begins right after its metadata:
/// the metadata ends where the 24-byte prefix, the encoded pairs and the
/// encoded tensor entries end; the data section starts there for versions 1
/// and 2, and at the first multiple of the declared alignment at or after it
/// for version 3.
pub proof fn lemma_data_section_follows_metadata(d: Seq<u8>)
    ensures
        sp_layout(d) matches Ok(l) ==> {
            &&& l.metadata_end <= d.len()
            &&& l.metadata_end == 24 + kv_sizes(l.kv_pairs) + tensor_sizes(l.tensors)
            &&& match layout_alignment(l) {
                Some(a) => if a > 0 {
                    layout_start(l) % (a as int) == 0 && l.metadata_end <= layout_start(l)
                        < l.metadata_end + a
                } else {
                    layout_start(l) == l.metadata_end
                },
                None => layout_start(l) == l.metadata_end,
            }
        },
{
    lemma_layout_extent(d);
    match sp_layout(d) {
        Ok(l) => match layout_alignment(l) {
            Some(a) => if a > 0 {
                lemma_round_up(l.metadata_end, a as int);
            },
            None => {},
        },
        Err(_) => {},
    }
}

} // verus!
