//! A lenient GGUF header reader for files whose metadata does not follow the
//! standard layout.
//!
//! What it accepts:
//! - version 1: magic, version, a `u64` pair count and the pairs; no tensor
//!   entries;
//! - version 2: magic, version, `u64` tensor and pair counts, the pairs, the
//!   tensor entries;
//! - any other version is read as version 3: the two counts, eight padding
//!   bytes, then pairs and tensor entries whose names carry no length: a name
//!   is a run of bytes of value 32 or more, ended by the first byte of the
//!   value-type tag that follows it.
//!
//! Strings of versions 1 and 2 have `u32` lengths (at most 1 MiB). In the
//! version 3 pairs a `u32` length field follows the type tag; a string value
//! starts at the next multiple of eight in the file, and an array holds a
//! `u64` count of `u32` elements. Every read past the end of the input is a
//! `Binary` error.

use vstd::prelude::*;
use vstd::utf8::*;
use vstd::slice::{slice_subrange, slice_to_vec};

use crate::gguf_parser::{
    agrees, alignment_of, as_i8s, eof, eof_error, fits, gguf_magic, kv_sizes, lemma_kv_sizes_prefix,
    lemma_round_up, lemma_tensor_sizes_prefix, read_alignment_from_kv, read_run_at, read_u32_at,
    read_u64_at, read_u8_at, read_value_type_at, round_up, sp_run, sp_u32, sp_u64, sp_u64s, sp_u8,
    sp_value_type, tensor_sizes, to_i8s, values_view, GgufError, GgufErrorView, GgufLayout, MAX_STRING_LEN,
};
use crate::gguf_types::{
    kv_pair_size, kv_pair_size_v3, kv_pairs_view, tensor_info_size, tensors_view, value_type_code,
    GgufHeader, GgufKvPair, GgufKvValue, GgufTensorInfo, GgufValueType, HeaderView, KvPairView,
    KvValueView, TensorInfoView,
};
use crate::le_bytes::{le_u32, le_u64};
use crate::text::{decimal, push_decimal, push_str, string_from_utf8, string_from_utf8_lossy, utf8_lossy};

verus! {

// ─────────────────────────── the layout, as spec ───────────────────────────

/// Message of a string length over the limit.
pub open spec fn long_string_msg(n: nat) -> Seq<char> {
    "string length "@ + decimal(n) + " exceeds max"@
}

/// Message of a tensor name length over the limit.
pub open spec fn long_name_msg(n: nat) -> Seq<char> {
    "tensor name length "@ + decimal(n) + " exceeds max"@
}

/// Bytes decoded as UTF-8 text, or the error that reports them.
pub open spec fn utf8_text(b: Seq<u8>) -> Result<Seq<char>, GgufErrorView> {
    if valid_utf8(b) {
        Ok(decode_utf8(b))
    } else {
        Err(GgufErrorView::Utf8(b))
    }
}

/// `n` consecutive little-endian `u32`s.
pub open spec fn sp_u32s(d: Seq<u8>, p: int, n: nat) -> Result<(Seq<u32>, int), GgufErrorView> {
    if fits(d, p, 4 * n as int) {
        Ok((Seq::new(n, |i: int| le_u32(d.subrange(p + 4 * i, p + 4 * i + 4))), p + 4 * n))
    } else {
        Err(eof())
    }
}

/// `u32`s as array elements.
pub open spec fn as_uint32s(xs: Seq<u32>) -> Seq<KvValueView> {
    xs.map_values(|x: u32| KvValueView::Uint32(x))
}

/// A string with a `u32` byte length of at most 1 MiB.
pub open spec fn lx_string(d: Seq<u8>, p: int) -> Result<(Seq<char>, int), GgufErrorView> {
    match sp_u32(d, p) {
        Err(e) => Err(e),
        Ok((n, q)) => if n > MAX_STRING_LEN {
            Err(GgufErrorView::Io(long_string_msg(n as nat)))
        } else {
            match sp_run(d, q, n as int) {
                Err(e) => Err(e),
                Ok((b, q2)) => match utf8_text(b) {
                    Ok(s) => Ok((s, q2)),
                    Err(e) => Err(e),
                },
            }
        },
    }
}

/// A value of declared type `t`. Ten types are known here; the others are
/// reported as invalid.
pub open spec fn lx_value(d: Seq<u8>, p: int, t: GgufValueType) -> Result<(KvValueView, int), GgufErrorView> {
    match t {
        GgufValueType::Uint8 => match sp_u8(d, p) {
            Ok((x, q)) => Ok((KvValueView::Uint8(x), q)),
            Err(e) => Err(e),
        },
        GgufValueType::Int8 => match sp_u8(d, p) {
            Ok((x, q)) => Ok((KvValueView::Int8(x as i8), q)),
            Err(e) => Err(e),
        },
        GgufValueType::Float32 => match sp_u32(d, p) {
            Ok((x, q)) => Ok((KvValueView::Float32(x), q)),
            Err(e) => Err(e),
        },
        GgufValueType::Uint32 => match sp_u32(d, p) {
            Ok((x, q)) => Ok((KvValueView::Uint32(x), q)),
            Err(e) => Err(e),
        },
        GgufValueType::Int32 => match sp_u32(d, p) {
            Ok((x, q)) => Ok((KvValueView::Int32(x as i32), q)),
            Err(e) => Err(e),
        },
        GgufValueType::Bool => match sp_u8(d, p) {
            Ok((x, q)) => Ok((KvValueView::Bool(x != 0), q)),
            Err(e) => Err(e),
        },
        GgufValueType::String => match sp_u32(d, p) {
            Err(e) => Err(e),
            Ok((n, q)) => match sp_run(d, q, n as int) {
                Err(e) => Err(e),
                Ok((b, q2)) => match utf8_text(b) {
                    Ok(s) => Ok((KvValueView::String(s), q2)),
                    Err(e) => Err(e),
                },
            },
        },
        GgufValueType::Array => match sp_u32(d, p) {
            Err(e) => Err(e),
            Ok((n, q)) => match sp_u32s(d, q, n as nat) {
                Err(e) => Err(e),
                Ok((xs, q2)) => Ok((KvValueView::Array(as_uint32s(xs)), q2)),
            },
        },
        GgufValueType::Int8Array => match sp_u32(d, p) {
            Err(e) => Err(e),
            Ok((n, q)) => match sp_run(d, q, n as int) {
                Err(e) => Err(e),
                Ok((b, q2)) => Ok((KvValueView::Int8Array(as_i8s(b)), q2)),
            },
        },
        GgufValueType::Uint8Array => match sp_u32(d, p) {
            Err(e) => Err(e),
            Ok((n, q)) => match sp_run(d, q, n as int) {
                Err(e) => Err(e),
                Ok((b, q2)) => Ok((KvValueView::Uint8Array(b), q2)),
            },
        },
        _ => Err(GgufErrorView::InvalidValueType(value_type_code(t))),
    }
}

/// A version 1 or 2 pair: key string, value-type tag, value.
pub open spec fn lx_kv_pair(d: Seq<u8>, p: int) -> Result<(KvPairView, int), GgufErrorView> {
    match lx_string(d, p) {
        Err(e) => Err(e),
        Ok((key, q1)) => match sp_value_type(d, q1) {
            Err(e) => Err(e),
            Ok((t, q2)) => match lx_value(d, q2, t) {
                Err(e) => Err(e),
                Ok((v, q)) => Ok((KvPairView { key, value_type: t, value: v }, q)),
            },
        },
    }
}

/// The end of a tensor entry after its name: dimension count, dimensions,
/// dtype code, offset.
pub open spec fn tensor_tail(d: Seq<u8>, p: int, name: Seq<char>) -> Result<(TensorInfoView, int), GgufErrorView> {
    match sp_u32(d, p) {
        Err(e) => Err(e),
        Ok((n_dims, q1)) => match sp_u64s(d, q1, n_dims as nat) {
            Err(e) => Err(e),
            Ok((shape, q2)) => match sp_u32(d, q2) {
                Err(e) => Err(e),
                Ok((dtype, q3)) => match sp_u64(d, q3) {
                    Err(e) => Err(e),
                    Ok((offset, q)) => Ok((TensorInfoView { name, shape, offset, dtype }, q)),
                },
            },
        },
    }
}

/// A version 1 or 2 tensor entry: name string, then the tail.
pub open spec fn lx_tensor_info(d: Seq<u8>, p: int) -> Result<(TensorInfoView, int), GgufErrorView> {
    match lx_string(d, p) {
        Err(e) => Err(e),
        Ok((name, q)) => tensor_tail(d, q, name),
    }
}

/// Position of the first byte below 32 at or after `p`, if any.
pub open spec fn name_end(d: Seq<u8>, p: int) -> Option<int>
    decreases d.len() - p,
{
    if 0 <= p < d.len() {
        if d[p] < 32 {
            Some(p)
        } else {
            name_end(d, p + 1)
        }
    } else {
        None
    }
}

/// Padding that brings position `q` to a multiple of eight.
pub open spec fn pad_to_eight(q: int) -> int {
    (8 - q % 8) % 8
}

/// A version 3 value of type `t` whose length field held `len`; `q` is the
/// position just past that field.
pub open spec fn v3_value(d: Seq<u8>, q: int, t: GgufValueType, len: u32) -> Result<(KvValueView, int), GgufErrorView> {
    if t == GgufValueType::String {
        match sp_run(d, q, pad_to_eight(q)) {
            Err(e) => Err(e),
            Ok((_, q1)) => if len > 0 {
                match sp_run(d, q1, len as int) {
                    Err(e) => Err(e),
                    Ok((b, q2)) => match utf8_text(b) {
                        Ok(s) => Ok((KvValueView::String(s), q2)),
                        Err(e) => Err(e),
                    },
                }
            } else {
                Ok((KvValueView::String(Seq::empty()), q1))
            },
        }
    } else if t == GgufValueType::Array || t == GgufValueType::Int8Array || t
        == GgufValueType::Uint8Array {
        match sp_u64(d, q) {
            Err(e) => Err(e),
            Ok((n, q1)) => match sp_u32s(d, q1, n as nat) {
                Err(e) => Err(e),
                Ok((xs, q2)) => Ok((KvValueView::Array(as_uint32s(xs)), q2)),
            },
        }
    } else {
        lx_value(d, q, t)
    }
}

/// A version 3 pair: key bytes up to the type tag, the tag, the length field,
/// the value. The key is decoded after the value.
pub open spec fn v3_kv_pair(d: Seq<u8>, p: int) -> Result<(KvPairView, int), GgufErrorView> {
    match name_end(d, p) {
        None => Err(eof()),
        Some(j) => match sp_value_type(d, j) {
            Err(e) => Err(e),
            Ok((t, q1)) => match sp_u32(d, q1) {
                Err(e) => Err(e),
                Ok((len, q2)) => match v3_value(d, q2, t, len) {
                    Err(e) => Err(e),
                    Ok((v, q)) => match utf8_text(d.subrange(p, j)) {
                        Err(e) => Err(e),
                        Ok(key) => Ok((KvPairView { key, value_type: t, value: v }, q)),
                    },
                },
            },
        },
    }
}

/// A version 3 tensor entry: bytes up to the first one below 32 are passed
/// over; from that byte on come a four-byte tag (ignored), a `u32` name
/// length of at most 1 MiB, the name, then the tail.
pub open spec fn v3_tensor_info(d: Seq<u8>, p: int) -> Result<(TensorInfoView, int), GgufErrorView> {
    match name_end(d, p) {
        None => Err(eof()),
        Some(j) => match sp_u32(d, j) {
            Err(e) => Err(e),
            Ok((_, q1)) => match sp_u32(d, q1) {
                Err(e) => Err(e),
                Ok((n, q2)) => if n > MAX_STRING_LEN {
                    Err(GgufErrorView::Io(long_name_msg(n as nat)))
                } else {
                    match sp_run(d, q2, n as int) {
                        Err(e) => Err(e),
                        Ok((b, q3)) => match utf8_text(b) {
                            Err(e) => Err(e),
                            Ok(name) => tensor_tail(d, q3, name),
                        },
                    }
                },
            },
        },
    }
}

/// One pair in the given form.
pub open spec fn one_pair(d: Seq<u8>, p: int, v3: bool) -> Result<(KvPairView, int), GgufErrorView> {
    if v3 {
        v3_kv_pair(d, p)
    } else {
        lx_kv_pair(d, p)
    }
}

/// One tensor entry in the given form.
pub open spec fn one_tensor(d: Seq<u8>, p: int, v3: bool) -> Result<(TensorInfoView, int), GgufErrorView> {
    if v3 {
        v3_tensor_info(d, p)
    } else {
        lx_tensor_info(d, p)
    }
}

/// `n` more pairs, appended to those read so far.
pub open spec fn lx_kv_pairs(d: Seq<u8>, p: int, n: nat, acc: Seq<KvPairView>, v3: bool) -> Result<
    (Seq<KvPairView>, int),
    GgufErrorView,
>
    decreases n,
{
    if n == 0 {
        Ok((acc, p))
    } else {
        match one_pair(d, p, v3) {
            Err(e) => Err(e),
            Ok((kv, q)) => lx_kv_pairs(d, q, (n - 1) as nat, acc.push(kv), v3),
        }
    }
}

/// `n` more tensor entries, appended to those read so far.
pub open spec fn lx_tensors(d: Seq<u8>, p: int, n: nat, acc: Seq<TensorInfoView>, v3: bool) -> Result<
    (Seq<TensorInfoView>, int),
    GgufErrorView,
>
    decreases n,
{
    if n == 0 {
        Ok((acc, p))
    } else {
        match one_tensor(d, p, v3) {
            Err(e) => Err(e),
            Ok((t, q)) => lx_tensors(d, q, (n - 1) as nat, acc.push(t), v3),
        }
    }
}

/// Pairs then tensor entries, starting at `p`, in the given form.
pub open spec fn lx_entries(d: Seq<u8>, p: int, version: u32, tensor_count: u64, kv_count: u64, v3: bool) -> Result<
    GgufLayout,
    GgufErrorView,
> {
    match lx_kv_pairs(d, p, kv_count as nat, Seq::empty(), v3) {
        Err(e) => Err(e),
        Ok((kvs, p1)) => match lx_tensors(d, p1, tensor_count as nat, Seq::empty(), v3) {
            Err(e) => Err(e),
            Ok((ts, p2)) => Ok(GgufLayout { version, kv_pairs: kvs, tensors: ts, metadata_end: p2 }),
        },
    }
}

/// The metadata of a whole file, as this reader understands it.
pub open spec fn lenient_layout(d: Seq<u8>) -> Result<GgufLayout, GgufErrorView> {
    if d.len() < 4 {
        Err(eof())
    } else if d.subrange(0, 4) != gguf_magic() {
        Err(GgufErrorView::InvalidMagic(utf8_lossy(d.subrange(0, 4))))
    } else {
        match sp_u32(d, 4) {
            Err(e) => Err(e),
            Ok((version, _)) => if version == 1 {
                match sp_u64(d, 8) {
                    Err(e) => Err(e),
                    Ok((kv_count, _)) => lx_entries(d, 16, 1, 0, kv_count, false),
                }
            } else {
                match sp_u64(d, 8) {
                    Err(e) => Err(e),
                    Ok((tensor_count, _)) => match sp_u64(d, 16) {
                        Err(e) => Err(e),
                        Ok((kv_count, _)) => if version == 2 {
                            lx_entries(d, 24, 2, tensor_count, kv_count, false)
                        } else {
                            match sp_run(d, 24, 8) {
                                Err(e) => Err(e),
                                Ok(_) => lx_entries(d, 32, 3, tensor_count, kv_count, true),
                            }
                        },
                    },
                }
            },
        }
    }
}

// ───────────────────────────── data section ─────────────────────────────

/// Sizes of a sequence of pairs in the version 3 layout.
pub open spec fn kv_sizes_v3(s: Seq<KvPairView>) -> nat
    decreases s.len(),
{
    if s.len() == 0 {
        0
    } else {
        kv_sizes_v3(s.drop_last()) + kv_pair_size_v3(s.last())
    }
}

/// Size of the pairs as counted for a version: the version 3 layout's sizes
/// for version 3, the standard encoding's otherwise.
pub open spec fn pair_bytes(version: u32, kvs: Seq<KvPairView>) -> nat {
    if version == 3 {
        kv_sizes_v3(kvs)
    } else {
        kv_sizes(kvs)
    }
}

/// Offset of the data section: 24 plus the pairs' and tensor entries' sizes
/// (the sum stops at `u64::MAX`), rounded up to a positive alignment for
/// version 3.
pub open spec fn lenient_start(
    version: u32,
    kvs: Seq<KvPairView>,
    ts: Seq<TensorInfoView>,
    alignment: Option<u64>,
) -> int {
    let sum = 24 + pair_bytes(version, kvs) + tensor_sizes(ts);
    let base: int = if sum <= u64::MAX {
        sum as int
    } else {
        u64::MAX as int
    };
    match alignment {
        Some(a) => if version == 3 && a > 0 {
            round_up(base, a as int)
        } else {
            base
        },
        None => base,
    }
}

/// The offset can be computed: each size fits a `usize`, each sum a `u64`,
/// and rounding up does not overflow.
pub open spec fn start_computable(
    version: u32,
    kvs: Seq<KvPairView>,
    ts: Seq<TensorInfoView>,
    alignment: Option<u64>,
) -> bool {
    &&& forall|i: int|
        0 <= i < kvs.len() ==> (if version == 3 {
            kv_pair_size_v3(#[trigger] kvs[i])
        } else {
            kv_pair_size(kvs[i])
        }) <= usize::MAX
    &&& forall|i: int| 0 <= i < ts.len() ==> tensor_info_size(#[trigger] ts[i]) <= usize::MAX
    &&& pair_bytes(version, kvs) <= u64::MAX
    &&& tensor_sizes(ts) <= u64::MAX
    &&& lenient_start(version, kvs, ts, alignment) <= u64::MAX
}

/// The header a layout is reported as: the alignment is that of the first
/// `general.alignment` pair, whatever the version.
pub open spec fn lenient_header(l: GgufLayout) -> HeaderView {
    let a = alignment_of(l.kv_pairs);
    HeaderView {
        version: l.version,
        kv_pairs: l.kv_pairs,
        tensors: l.tensors,
        data_alignment: a,
        data_section_start: lenient_start(l.version, l.kv_pairs, l.tensors, a) as u64,
    }
}

/// The data section offset of a parsed layout can be computed.
pub open spec fn layout_computable(l: GgufLayout) -> bool {
    start_computable(l.version, l.kv_pairs, l.tensors, alignment_of(l.kv_pairs))
}

// ───────────────────────────── lemmas ─────────────────────────────

/// A name ends at a byte below 32; the bytes before it are 32 or more.
pub proof fn lemma_name_end(d: Seq<u8>, p: int)
    ensures
        name_end(d, p) matches Some(j) ==> (0 <= p <= j < d.len() && d[j] < 32 && forall|k: int|
            p <= k < j ==> d[k] >= 32),
    decreases d.len() - p,
{
    if 0 <= p < d.len() && d[p] >= 32 {
        lemma_name_end(d, p + 1);
    }
}

/// Prefix sums of version 3 pair sizes grow one pair at a time and stay below
/// the total.
proof fn lemma_kv_sizes_v3_prefix(s: Seq<KvPairView>, i: int)
    requires
        0 <= i < s.len(),
    ensures
        kv_sizes_v3(s.take(i + 1)) == kv_sizes_v3(s.take(i)) + kv_pair_size_v3(s[i]),
        kv_sizes_v3(s.take(i + 1)) <= kv_sizes_v3(s),
    decreases s.len() - i,
{
    assert(s.take(i + 1).drop_last() =~= s.take(i));
    if i + 1 < s.len() {
        lemma_kv_sizes_v3_prefix(s, i + 1);
    } else {
        assert(s.take(i + 1) =~= s);
    }
}

/// Every key is encoded with bytes of value 32 or more.
pub open spec fn printable_keys(kvs: Seq<KvPairView>) -> bool {
    forall|i: int, k: int|
        0 <= i < kvs.len() && 0 <= k < encode_utf8(kvs[i].key).len() ==> #[trigger] encode_utf8(
            kvs[i].key,
        )[k] >= 32
}

/// A version 3 pair's key is the run of bytes before its type tag.
proof fn lemma_v3_key_printable(d: Seq<u8>, p: int)
    ensures
        v3_kv_pair(d, p) matches Ok((kv, _)) ==> forall|k: int|
            0 <= k < encode_utf8(kv.key).len() ==> #[trigger] encode_utf8(kv.key)[k] >= 32,
{
    lemma_name_end(d, p);
    match v3_kv_pair(d, p) {
        Ok((kv, _)) => {
            let j = name_end(d, p)->Some_0;
            let b = d.subrange(p, j);
            decode_utf8_encode_utf8(b);
            assert forall|k: int| 0 <= k < encode_utf8(kv.key).len() implies #[trigger] encode_utf8(
                kv.key,
            )[k] >= 32 by {
                assert(encode_utf8(kv.key)[k] == d[p + k]);
            }
        },
        Err(_) => {},
    }
}

/// Reading version 3 pairs keeps every key printable.
proof fn lemma_v3_pairs_printable(d: Seq<u8>, p: int, n: nat, acc: Seq<KvPairView>)
    requires
        printable_keys(acc),
    ensures
        lx_kv_pairs(d, p, n, acc, true) matches Ok((kvs, _)) ==> printable_keys(kvs),
    decreases n,
{
    if n > 0 {
        lemma_v3_key_printable(d, p);
        match v3_kv_pair(d, p) {
            Ok((kv, q)) => {
                let acc2 = acc.push(kv);
                assert forall|i: int, k: int|
                    0 <= i < acc2.len() && 0 <= k < encode_utf8(acc2[i].key).len() implies #[trigger] encode_utf8(
                    acc2[i].key,
                )[k] >= 32 by {
                    if i < acc.len() {
                        assert(acc2[i] == acc[i]);
                    }
                }
                lemma_v3_pairs_printable(d, q, (n - 1) as nat, acc2);
            },
            Err(_) => {},
        }
    }
}

/// What a parsed header looks like: its version is 1, 2 or 3; a version 1
/// header has no tensor entries; every key of a version 3 header is made of
/// bytes of value 32 or more (the byte that ends a key is the first byte of
/// its type tag).
pub proof fn lemma_lenient_layout_shape(d: Seq<u8>)
    ensures
        lenient_layout(d) matches Ok(l) ==> {
            &&& 1 <= l.version <= 3
            &&& l.version == 1 ==> l.tensors.len() == 0
            &&& l.version == 3 ==> printable_keys(l.kv_pairs)
        },
{
    if d.len() >= 4 && d.subrange(0, 4) == gguf_magic() {
        match sp_u32(d, 4) {
            Ok((version, _)) => if version != 1 && version != 2 {
                match sp_u64(d, 16) {
                    Ok((kv_count, _)) => {
                        lemma_v3_pairs_printable(d, 32, kv_count as nat, Seq::empty());
                    },
                    Err(_) => {},
                }
            },
            Err(_) => {},
        }
    }
}

// ───────────────────────────── executable readers ─────────────────────────────

fn long_string_message(n: u64) -> (s: String)
    ensures
        s@ == long_string_msg(n as nat),
{
    let mut s = String::new();
    push_str(&mut s, "string length ");
    push_decimal(&mut s, n);
    push_str(&mut s, " exceeds max");
    s
}

fn long_name_message(n: u64) -> (s: String)
    ensures
        s@ == long_name_msg(n as nat),
{
    let mut s = String::new();
    push_str(&mut s, "tensor name length ");
    push_decimal(&mut s, n);
    push_str(&mut s, " exceeds max");
    s
}

/// Decodes bytes as UTF-8 text.
fn decode_text(b: Vec<u8>) -> (r: Result<String, GgufError>)
    ensures
        match utf8_text(b@) {
            Ok(s) => r matches Ok(x) && x@ == s,
            Err(e) => r matches Err(x) && x@ == e,
        },
{
    match string_from_utf8(b) {
        Ok(s) => Ok(s),
        Err(bytes) => Err(GgufError::Utf8(bytes)),
    }
}

/// Reads `n` little-endian `u32`s at `pos` as array elements.
fn read_u32s_at(data: &[u8], pos: usize, n: u64) -> (r: Result<(Vec<GgufKvValue>, usize), GgufError>)
    ensures
        match sp_u32s(data@, pos as int, n as nat) {
            Ok((xs, q)) => r matches Ok((v, p)) && values_view(v@) == as_uint32s(xs) && p as int == q,
            Err(e) => r matches Err(x) && x@ == e,
        },
{
    let ghost d = data@;
    if pos > data.len() || (((data.len() - pos) / 4) as u64) < n {
        return Err(eof_error());
    }
    let len = data.len();
    let mut out: Vec<GgufKvValue> = Vec::new();
    let mut p: usize = pos;
    let mut i: u64 = 0;
    proof {
        assert(values_view(out@) =~= as_uint32s(Seq::<u32>::empty()));
    }
    while i < n
        invariant
            d == data@,
            len == data@.len(),
            pos <= data@.len(),
            4 * (n as int) <= data@.len() - pos,
            i <= n,
            p == pos + 4 * i,
            values_view(out@) == as_uint32s(
                Seq::new(i as nat, |k: int| le_u32(d.subrange(pos + 4 * k, pos + 4 * k + 4))),
            ),
        decreases n - i,
    {
        assert(4 * (i as int) + 4 <= 4 * (n as int));
        let b = slice_subrange(data, p, p + 4);
        let x = crate::le_bytes::read_u32_le(b);
        proof {
            let xs = Seq::new(i as nat, |k: int| le_u32(d.subrange(pos + 4 * k, pos + 4 * k + 4)));
            let ys = Seq::new((i + 1) as nat, |k: int| le_u32(d.subrange(pos + 4 * k, pos + 4 * k + 4)));
            assert(b@ =~= d.subrange(pos + 4 * i, pos + 4 * i + 4));
            assert(ys =~= xs.push(x));
            assert(values_view(out@.push(GgufKvValue::Uint32(x))) =~= values_view(out@).push(
                KvValueView::Uint32(x),
            ));
            assert(as_uint32s(xs.push(x)) =~= as_uint32s(xs).push(KvValueView::Uint32(x)));
        }
        out.push(GgufKvValue::Uint32(x));
        p = p + 4;
        i = i + 1;
    }
    Ok((out, p))
}

/// Reads a string with a `u32` length at `pos`.
fn read_lx_string_at(data: &[u8], pos: usize) -> (r: Result<(String, usize), GgufError>)
    ensures
        agrees(r, lx_string(data@, pos as int)),
{
    let (n, q) = match read_u32_at(data, pos) {
        Ok(x) => x,
        Err(e) => return Err(e),
    };
    if (n as u64) > MAX_STRING_LEN {
        return Err(GgufError::Io(long_string_message(n as u64)));
    }
    let (b, q2) = match read_run_at(data, q, n as u64) {
        Ok(x) => x,
        Err(e) => return Err(e),
    };
    match decode_text(b) {
        Ok(s) => Ok((s, q2)),
        Err(e) => Err(e),
    }
}

/// Reads a value of declared type `t` at `pos`.
fn read_lx_value(data: &[u8], pos: usize, t: GgufValueType) -> (r: Result<(GgufKvValue, usize), GgufError>)
    ensures
        agrees(r, lx_value(data@, pos as int, t)),
{
    match t {
        GgufValueType::Uint8 => match read_u8_at(data, pos) {
            Ok((x, q)) => Ok((GgufKvValue::Uint8(x), q)),
            Err(e) => Err(e),
        },
        GgufValueType::Int8 => match read_u8_at(data, pos) {
            Ok((x, q)) => Ok((GgufKvValue::Int8(x as i8), q)),
            Err(e) => Err(e),
        },
        GgufValueType::Float32 => match read_u32_at(data, pos) {
            Ok((x, q)) => Ok((GgufKvValue::Float32(x), q)),
            Err(e) => Err(e),
        },
        GgufValueType::Uint32 => match read_u32_at(data, pos) {
            Ok((x, q)) => Ok((GgufKvValue::Uint32(x), q)),
            Err(e) => Err(e),
        },
        GgufValueType::Int32 => match read_u32_at(data, pos) {
            Ok((x, q)) => Ok((GgufKvValue::Int32(x as i32), q)),
            Err(e) => Err(e),
        },
        GgufValueType::Bool => match read_u8_at(data, pos) {
            Ok((x, q)) => Ok((GgufKvValue::Bool(x != 0), q)),
            Err(e) => Err(e),
        },
        GgufValueType::String => {
            let (n, q) = match read_u32_at(data, pos) {
                Ok(x) => x,
                Err(e) => return Err(e),
            };
            let (b, q2) = match read_run_at(data, q, n as u64) {
                Ok(x) => x,
                Err(e) => return Err(e),
            };
            match decode_text(b) {
                Ok(s) => Ok((GgufKvValue::String(s), q2)),
                Err(e) => Err(e),
            }
        },
        GgufValueType::Array => {
            let (n, q) = match read_u32_at(data, pos) {
                Ok(x) => x,
                Err(e) => return Err(e),
            };
            match read_u32s_at(data, q, n as u64) {
                Ok((xs, q2)) => {
                    let v = GgufKvValue::Array(xs);
                    proof {
                        assert(v@->Array_0 =~= values_view(xs@));
                    }
                    Ok((v, q2))
                },
                Err(e) => Err(e),
            }
        },
        GgufValueType::Int8Array => {
            let (n, q) = match read_u32_at(data, pos) {
                Ok(x) => x,
                Err(e) => return Err(e),
            };
            match read_run_at(data, q, n as u64) {
                Ok((b, q2)) => Ok((GgufKvValue::Int8Array(to_i8s(&b)), q2)),
                Err(e) => Err(e),
            }
        },
        GgufValueType::Uint8Array => {
            let (n, q) = match read_u32_at(data, pos) {
                Ok(x) => x,
                Err(e) => return Err(e),
            };
            match read_run_at(data, q, n as u64) {
                Ok((b, q2)) => Ok((GgufKvValue::Uint8Array(b), q2)),
                Err(e) => Err(e),
            }
        },
        _ => Err(GgufError::InvalidValueType(t.to_u32())),
    }
}

/// Reads a version 1 or 2 pair at `pos`.
fn read_lx_kv_pair_at(data: &[u8], pos: usize) -> (r: Result<(GgufKvPair, usize), GgufError>)
    ensures
        agrees(r, lx_kv_pair(data@, pos as int)),
{
    let (key, q1) = match read_lx_string_at(data, pos) {
        Ok(x) => x,
        Err(e) => return Err(e),
    };
    let (value_type, q2) = match read_value_type_at(data, q1) {
        Ok(x) => x,
        Err(e) => return Err(e),
    };
    match read_lx_value(data, q2, value_type) {
        Ok((value, q)) => Ok((GgufKvPair { key, value_type, value }, q)),
        Err(e) => Err(e),
    }
}

/// Reads `n` little-endian `u64`s at `pos`.
fn read_u64s_at(data: &[u8], pos: usize, n: u32) -> (r: Result<(Vec<u64>, usize), GgufError>)
    requires
        pos <= data@.len(),
    ensures
        match sp_u64s(data@, pos as int, n as nat) {
            Ok((xs, q)) => r matches Ok((v, p)) && v@ == xs && p as int == q,
            Err(e) => r matches Err(x) && x@ == e,
        },
{
    let ghost d = data@;
    let mut out: Vec<u64> = Vec::new();
    let mut p = pos;
    let mut i: u32 = 0;
    while i < n
        invariant
            d == data@,
            i <= n,
            p == pos + 8 * i,
            fits(d, pos as int, 8 * i),
            out@ == Seq::new(i as nat, |k: int| le_u64(d.subrange(pos + 8 * k, pos + 8 * k + 8))),
        decreases n - i,
    {
        let (x, q) = match read_u64_at(data, p) {
            Ok(x) => x,
            Err(e) => {
                proof {
                    assert(!fits(d, pos as int, 8 * n as int));
                }
                return Err(e);
            },
        };
        proof {
            assert(out@.push(x) =~= Seq::new(
                (i + 1) as nat,
                |k: int| le_u64(d.subrange(pos + 8 * k, pos + 8 * k + 8)),
            ));
        }
        out.push(x);
        p = q;
        i = i + 1;
    }
    Ok((out, p))
}

/// Reads the end of a tensor entry, after its name, at `pos`.
fn read_tensor_tail(data: &[u8], pos: usize, name: String) -> (r: Result<(GgufTensorInfo, usize), GgufError>)
    requires
        pos <= data@.len(),
    ensures
        agrees(r, tensor_tail(data@, pos as int, name@)),
{
    let (n_dims, q1) = match read_u32_at(data, pos) {
        Ok(x) => x,
        Err(e) => return Err(e),
    };
    let (shape, q2) = match read_u64s_at(data, q1, n_dims) {
        Ok(x) => x,
        Err(e) => return Err(e),
    };
    let (dtype, q3) = match read_u32_at(data, q2) {
        Ok(x) => x,
        Err(e) => return Err(e),
    };
    let (offset, q) = match read_u64_at(data, q3) {
        Ok(x) => x,
        Err(e) => return Err(e),
    };
    Ok((GgufTensorInfo { name, shape, offset, dtype }, q))
}

/// Reads a version 1 or 2 tensor entry at `pos`.
fn read_lx_tensor_info_at(data: &[u8], pos: usize) -> (r: Result<(GgufTensorInfo, usize), GgufError>)
    ensures
        agrees(r, lx_tensor_info(data@, pos as int)),
{
    let (name, q) = match read_lx_string_at(data, pos) {
        Ok(x) => x,
        Err(e) => return Err(e),
    };
    read_tensor_tail(data, q, name)
}

/// Finds the first byte below 32 at or after `pos`.
fn find_name_end(data: &[u8], pos: usize) -> (r: Option<usize>)
    ensures
        match name_end(data@, pos as int) {
            Some(j) => r == Some(j as usize) && j == r.unwrap() as int,
            None => r is None,
        },
{
    let ghost d = data@;
    let mut i = pos;
    while i < data.len()
        invariant
            d == data@,
            pos <= i,
            name_end(d, pos as int) == name_end(d, i as int),
        decreases data@.len() - i,
    {
        if data[i] < 32 {
            return Some(i);
        }
        i = i + 1;
    }
    None
}

/// Reads a version 3 value of type `t` whose length field held `len`, at `q`.
fn read_v3_value(data: &[u8], q: usize, t: GgufValueType, len: u32) -> (r: Result<(GgufKvValue, usize), GgufError>)
    ensures
        agrees(r, v3_value(data@, q as int, t, len)),
{
    match t {
        GgufValueType::String => {
            let pad = (8 - q % 8) % 8;
            let (_, q1) = match read_run_at(data, q, pad as u64) {
                Ok(x) => x,
                Err(e) => return Err(e),
            };
            if len > 0 {
                let (b, q2) = match read_run_at(data, q1, len as u64) {
                    Ok(x) => x,
                    Err(e) => return Err(e),
                };
                match decode_text(b) {
                    Ok(s) => Ok((GgufKvValue::String(s), q2)),
                    Err(e) => Err(e),
                }
            } else {
                Ok((GgufKvValue::String(String::new()), q1))
            }
        },
        GgufValueType::Array | GgufValueType::Int8Array | GgufValueType::Uint8Array => {
            let (n, q1) = match read_u64_at(data, q) {
                Ok(x) => x,
                Err(e) => return Err(e),
            };
            match read_u32s_at(data, q1, n) {
                Ok((xs, q2)) => {
                    let v = GgufKvValue::Array(xs);
                    proof {
                        assert(v@->Array_0 =~= values_view(xs@));
                    }
                    Ok((v, q2))
                },
                Err(e) => Err(e),
            }
        },
        _ => read_lx_value(data, q, t),
    }
}

/// Reads a version 3 pair at `pos`.
fn read_v3_kv_pair_at(data: &[u8], pos: usize) -> (r: Result<(GgufKvPair, usize), GgufError>)
    ensures
        agrees(r, v3_kv_pair(data@, pos as int)),
{
    proof {
        lemma_name_end(data@, pos as int);
    }
    let j = match find_name_end(data, pos) {
        Some(j) => j,
        None => return Err(eof_error()),
    };
    let (value_type, q1) = match read_value_type_at(data, j) {
        Ok(x) => x,
        Err(e) => return Err(e),
    };
    let (len, q2) = match read_u32_at(data, q1) {
        Ok(x) => x,
        Err(e) => return Err(e),
    };
    let (value, q) = match read_v3_value(data, q2, value_type, len) {
        Ok(x) => x,
        Err(e) => return Err(e),
    };
    let key_bytes = slice_to_vec(slice_subrange(data, pos, j));
    match decode_text(key_bytes) {
        Ok(key) => Ok((GgufKvPair { key, value_type, value }, q)),
        Err(e) => Err(e),
    }
}

/// Reads a version 3 tensor entry at `pos`.
fn read_v3_tensor_info_at(data: &[u8], pos: usize) -> (r: Result<(GgufTensorInfo, usize), GgufError>)
    ensures
        agrees(r, v3_tensor_info(data@, pos as int)),
{
    proof {
        lemma_name_end(data@, pos as int);
    }
    let j = match find_name_end(data, pos) {
        Some(j) => j,
        None => return Err(eof_error()),
    };
    let (_, q1) = match read_u32_at(data, j) {
        Ok(x) => x,
        Err(e) => return Err(e),
    };
    let (n, q2) = match read_u32_at(data, q1) {
        Ok(x) => x,
        Err(e) => return Err(e),
    };
    if (n as u64) > MAX_STRING_LEN {
        return Err(GgufError::Io(long_name_message(n as u64)));
    }
    let (b, q3) = match read_run_at(data, q2, n as u64) {
        Ok(x) => x,
        Err(e) => return Err(e),
    };
    let name = match decode_text(b) {
        Ok(s) => s,
        Err(e) => return Err(e),
    };
    read_tensor_tail(data, q3, name)
}

/// Reads one pair in the given form.
fn read_one_pair(data: &[u8], pos: usize, v3: bool) -> (r: Result<(GgufKvPair, usize), GgufError>)
    ensures
        agrees(r, one_pair(data@, pos as int, v3)),
{
    if v3 {
        read_v3_kv_pair_at(data, pos)
    } else {
        read_lx_kv_pair_at(data, pos)
    }
}

/// Reads one tensor entry in the given form.
fn read_one_tensor(data: &[u8], pos: usize, v3: bool) -> (r: Result<(GgufTensorInfo, usize), GgufError>)
    ensures
        agrees(r, one_tensor(data@, pos as int, v3)),
{
    if v3 {
        read_v3_tensor_info_at(data, pos)
    } else {
        read_lx_tensor_info_at(data, pos)
    }
}

/// Reads `count` pairs in the given form, starting at `pos`.
fn read_pairs(data: &[u8], pos: usize, count: u64, v3: bool) -> (r: Result<(Vec<GgufKvPair>, usize), GgufError>)
    ensures
        match lx_kv_pairs(data@, pos as int, count as nat, Seq::empty(), v3) {
            Ok((kvs, q)) => r matches Ok((v, p)) && kv_pairs_view(v@) == kvs && p as int == q,
            Err(e) => r matches Err(x) && x@ == e,
        },
{
    let ghost d = data@;
    let mut kv_pairs: Vec<GgufKvPair> = Vec::new();
    let mut p: usize = pos;
    let mut i: u64 = 0;
    proof {
        assert(kv_pairs_view(kv_pairs@) =~= Seq::<KvPairView>::empty());
    }
    while i < count
        invariant
            d == data@,
            i <= count,
            lx_kv_pairs(d, pos as int, count as nat, Seq::empty(), v3) == lx_kv_pairs(
                d,
                p as int,
                (count - i) as nat,
                kv_pairs_view(kv_pairs@),
                v3,
            ),
        decreases count - i,
    {
        let (kv, q) = match read_one_pair(data, p, v3) {
            Ok(x) => x,
            Err(e) => return Err(e),
        };
        proof {
            assert(kv_pairs_view(kv_pairs@.push(kv)) =~= kv_pairs_view(kv_pairs@).push(kv@));
        }
        kv_pairs.push(kv);
        p = q;
        i = i + 1;
    }
    Ok((kv_pairs, p))
}

/// Reads `count` tensor entries in the given form, starting at `pos`.
fn read_tensors(data: &[u8], pos: usize, count: u64, v3: bool) -> (r: Result<(Vec<GgufTensorInfo>, usize), GgufError>)
    ensures
        match lx_tensors(data@, pos as int, count as nat, Seq::empty(), v3) {
            Ok((ts, q)) => r matches Ok((v, p)) && tensors_view(v@) == ts && p as int == q,
            Err(e) => r matches Err(x) && x@ == e,
        },
{
    let ghost d = data@;
    let mut tensors: Vec<GgufTensorInfo> = Vec::new();
    let mut p: usize = pos;
    let mut j: u64 = 0;
    proof {
        assert(tensors_view(tensors@) =~= Seq::<TensorInfoView>::empty());
    }
    while j < count
        invariant
            d == data@,
            j <= count,
            lx_tensors(d, pos as int, count as nat, Seq::empty(), v3) == lx_tensors(
                d,
                p as int,
                (count - j) as nat,
                tensors_view(tensors@),
                v3,
            ),
        decreases count - j,
    {
        let (ti, q) = match read_one_tensor(data, p, v3) {
            Ok(x) => x,
            Err(e) => return Err(e),
        };
        proof {
            assert(tensors_view(tensors@.push(ti)) =~= tensors_view(tensors@).push(ti@));
        }
        tensors.push(ti);
        p = q;
        j = j + 1;
    }
    Ok((tensors, p))
}

/// Reads the pairs and then the tensor entries.
fn read_entries(data: &[u8], pos: usize, version: u32, tensor_count: u64, kv_count: u64, v3: bool) -> (r: Result<
    (u32, Vec<GgufKvPair>, Vec<GgufTensorInfo>),
    GgufError,
>)
    ensures
        match lx_entries(data@, pos as int, version, tensor_count, kv_count, v3) {
            Ok(l) => r matches Ok((v, kvs, ts)) && v == l.version && kv_pairs_view(kvs@) == l.kv_pairs
                && tensors_view(ts@) == l.tensors,
            Err(e) => r matches Err(x) && x@ == e,
        },
{
    let (kv_pairs, p1) = match read_pairs(data, pos, kv_count, v3) {
        Ok(x) => x,
        Err(e) => return Err(e),
    };
    let (tensors, _) = match read_tensors(data, p1, tensor_count, v3) {
        Ok(x) => x,
        Err(e) => return Err(e),
    };
    Ok((version, kv_pairs, tensors))
}

/// Reads the metadata of a whole file.
fn read_layout(data: &[u8]) -> (r: Result<(u32, Vec<GgufKvPair>, Vec<GgufTensorInfo>), GgufError>)
    ensures
        match lenient_layout(data@) {
            Ok(l) => r matches Ok((v, kvs, ts)) && v == l.version && kv_pairs_view(kvs@) == l.kv_pairs
                && tensors_view(ts@) == l.tensors,
            Err(e) => r matches Err(x) && x@ == e,
        },
{
    let ghost d = data@;
    if data.len() < 4 {
        return Err(eof_error());
    }
    let magic = slice_subrange(data, 0, 4);
    if !(magic[0] == 0x47 && magic[1] == 0x47 && magic[2] == 0x55 && magic[3] == 0x46) {
        let shown = string_from_utf8_lossy(magic);
        proof {
            if d.subrange(0, 4) == gguf_magic() {
                assert(magic@[0] == gguf_magic()[0]);
                assert(magic@[1] == gguf_magic()[1]);
                assert(magic@[2] == gguf_magic()[2]);
                assert(magic@[3] == gguf_magic()[3]);
            }
        }
        return Err(GgufError::InvalidMagic(shown));
    }
    proof {
        assert(d.subrange(0, 4) =~= gguf_magic());
    }
    let (version, _) = match read_u32_at(data, 4) {
        Ok(x) => x,
        Err(e) => return Err(e),
    };
    if version == 1 {
        let (kv_count, _) = match read_u64_at(data, 8) {
            Ok(x) => x,
            Err(e) => return Err(e),
        };
        return read_entries(data, 16, 1, 0, kv_count, false);
    }
    let (tensor_count, _) = match read_u64_at(data, 8) {
        Ok(x) => x,
        Err(e) => return Err(e),
    };
    let (kv_count, _) = match read_u64_at(data, 16) {
        Ok(x) => x,
        Err(e) => return Err(e),
    };
    if version == 2 {
        return read_entries(data, 24, 2, tensor_count, kv_count, false);
    }
    match read_run_at(data, 24, 8) {
        Ok(_) => read_entries(data, 32, 3, tensor_count, kv_count, true),
        Err(e) => Err(e),
    }
}

/// Size of the pairs as counted for `version`, summed in a `u64`.
fn pair_bytes_sum(version: u32, kv_pairs: &[GgufKvPair]) -> (r: u64)
    requires
        forall|i: int|
            0 <= i < kv_pairs@.len() ==> (if version == 3 {
                kv_pair_size_v3(#[trigger] kv_pairs_view(kv_pairs@)[i])
            } else {
                kv_pair_size(kv_pairs_view(kv_pairs@)[i])
            }) <= usize::MAX,
        pair_bytes(version, kv_pairs_view(kv_pairs@)) <= u64::MAX,
    ensures
        r == pair_bytes(version, kv_pairs_view(kv_pairs@)),
{
    let ghost kvs = kv_pairs_view(kv_pairs@);
    let mut total: u64 = 0;
    let mut i: usize = 0;
    proof {
        assert(kvs.take(0) =~= Seq::<KvPairView>::empty());
    }
    while i < kv_pairs.len()
        invariant
            kvs == kv_pairs_view(kv_pairs@),
            forall|k: int|
                0 <= k < kv_pairs@.len() ==> (if version == 3 {
                    kv_pair_size_v3(#[trigger] kvs[k])
                } else {
                    kv_pair_size(kvs[k])
                }) <= usize::MAX,
            pair_bytes(version, kvs) <= u64::MAX,
            i <= kv_pairs@.len(),
            total == pair_bytes(version, kvs.take(i as int)),
        decreases kv_pairs@.len() - i,
    {
        proof {
            if version == 3 {
                lemma_kv_sizes_v3_prefix(kvs, i as int);
            } else {
                lemma_kv_sizes_prefix(kvs, i as int);
            }
            assert(kvs[i as int] == kv_pairs@[i as int]@);
        }
        let size = if version == 3 {
            kv_pairs[i].raw_byte_size_v3()
        } else {
            kv_pairs[i].raw_byte_size()
        };
        total = total + size as u64;
        i = i + 1;
    }
    proof {
        assert(kvs.take(i as int) =~= kvs);
    }
    total
}

/// Size of the tensor entries, summed in a `u64`.
fn tensor_bytes_sum(tensors: &[GgufTensorInfo]) -> (r: u64)
    requires
        forall|i: int|
            0 <= i < tensors@.len() ==> tensor_info_size(#[trigger] tensors_view(tensors@)[i])
                <= usize::MAX,
        tensor_sizes(tensors_view(tensors@)) <= u64::MAX,
    ensures
        r == tensor_sizes(tensors_view(tensors@)),
{
    let ghost ts = tensors_view(tensors@);
    let mut total: u64 = 0;
    let mut j: usize = 0;
    proof {
        assert(ts.take(0) =~= Seq::<TensorInfoView>::empty());
    }
    while j < tensors.len()
        invariant
            ts == tensors_view(tensors@),
            forall|k: int| 0 <= k < tensors@.len() ==> tensor_info_size(#[trigger] ts[k]) <= usize::MAX,
            tensor_sizes(ts) <= u64::MAX,
            j <= tensors@.len(),
            total == tensor_sizes(ts.take(j as int)),
        decreases tensors@.len() - j,
    {
        proof {
            lemma_tensor_sizes_prefix(ts, j as int);
            assert(ts[j as int] == tensors@[j as int]@);
        }
        total = total + tensors[j].raw_byte_size() as u64;
        j = j + 1;
    }
    proof {
        assert(ts.take(j as int) =~= ts);
    }
    total
}

/// Offset of the tensor data section after the given metadata: 24 bytes for
/// the fixed prefix plus the sizes of the pairs (in the version 3 layout for
/// version 3, in the standard encoding otherwise) and of the tensor entries,
/// the sum stopping at `u64::MAX`; for version 3 and a positive alignment,
/// rounded up to the next multiple of the alignment.
pub fn compute_data_section_start(
    version: u32,
    kv_pairs: &[GgufKvPair],
    tensors: &[GgufTensorInfo],
    data_alignment: Option<u64>,
) -> (r: u64)
    requires
        start_computable(version, kv_pairs_view(kv_pairs@), tensors_view(tensors@), data_alignment),
    ensures
        r == lenient_start(version, kv_pairs_view(kv_pairs@), tensors_view(tensors@), data_alignment),
        ({
            let sum = 24 + pair_bytes(version, kv_pairs_view(kv_pairs@)) + tensor_sizes(
                tensors_view(tensors@),
            );
            let base = if sum <= u64::MAX {
                sum
            } else {
                u64::MAX as nat
            };
            match data_alignment {
                Some(a) => if version == 3 && a > 0 {
                    r % a == 0 && base <= r < base + a
                } else {
                    r == base
                },
                None => r == base,
            }
        }),
{
    let ghost kvs = kv_pairs_view(kv_pairs@);
    let ghost ts = tensors_view(tensors@);
    proof {
        assert forall|i: int|
            0 <= i < kv_pairs@.len() implies (if version == 3 {
                kv_pair_size_v3(#[trigger] kv_pairs_view(kv_pairs@)[i])
            } else {
                kv_pair_size(kv_pairs_view(kv_pairs@)[i])
            }) <= usize::MAX by {
            assert(0 <= i < kvs.len());
        }
        assert forall|i: int|
            0 <= i < tensors@.len() implies tensor_info_size(#[trigger] tensors_view(tensors@)[i])
                <= usize::MAX by {
            assert(0 <= i < ts.len());
        }
    }
    let header_base: u64 = 4 + 4 + 8 + 8;
    let kv_size = pair_bytes_sum(version, kv_pairs);
    let tensor_size = tensor_bytes_sum(tensors);
    let mut data_section: u64 = match header_base.checked_add(kv_size) {
        Some(x) => match x.checked_add(tensor_size) {
            Some(y) => y,
            None => u64::MAX,
        },
        None => u64::MAX,
    };
    proof {
        match data_alignment {
            Some(a) => if version == 3 && a > 0 {
                lemma_round_up(data_section as int, a as int);
            },
            None => {},
        }
    }
    if version == 3 {
        match data_alignment {
            Some(alignment) => {
                if alignment > 0 {
                    let remainder = data_section % alignment;
                    if remainder != 0 {
                        data_section = data_section + (alignment - remainder);
                    }
                }
            },
            None => {},
        }
    }
    data_section
}

/// Parses a GGUF header from the bytes of a file (at least its metadata
/// section) in the layouts described at the top of this module. The header
/// records the version (1, 2, or 3 for every other version number), the pairs
/// and tensor entries in file order, the alignment of the first
/// `general.alignment` pair, and the data section offset that
/// `compute_data_section_start` gives for them.
pub fn parse_gguf_reader(data: &[u8]) -> (r: Result<GgufHeader, GgufError>)
    requires
        lenient_layout(data@) matches Ok(l) ==> layout_computable(l),
    ensures
        match lenient_layout(data@) {
            Ok(l) => r matches Ok(h) && h@ == lenient_header(l),
            Err(e) => r matches Err(x) && x@ == e,
        },
{
    match read_layout(data) {
        Err(e) => Err(e),
        Ok((version, kv_pairs, tensors)) => {
            let data_alignment = read_alignment_from_kv(kv_pairs.as_slice());
            let data_section_start = compute_data_section_start(
                version,
                kv_pairs.as_slice(),
                tensors.as_slice(),
                data_alignment,
            );
            Ok(GgufHeader { version, kv_pairs, tensors, data_alignment, data_section_start })
        },
    }
}

/// Whether the data section offset of the given metadata can be computed:
/// `start_computable`, decided with checked arithmetic.
pub fn start_is_computable(
    version: u32,
    kv_pairs: &[GgufKvPair],
    tensors: &[GgufTensorInfo],
    data_alignment: Option<u64>,
) -> (r: bool)
    ensures
        r == start_computable(version, kv_pairs_view(kv_pairs@), tensors_view(tensors@), data_alignment),
{
    let ghost kvs = kv_pairs_view(kv_pairs@);
    let ghost ts = tensors_view(tensors@);
    let mut pairs_total: u64 = 0;
    let mut i: usize = 0;
    proof {
        assert(kvs.take(0) =~= Seq::<KvPairView>::empty());
    }
    while i < kv_pairs.len()
        invariant
            kvs == kv_pairs_view(kv_pairs@),
            i <= kv_pairs@.len(),
            forall|k: int|
                0 <= k < i ==> (if version == 3 {
                    kv_pair_size_v3(#[trigger] kvs[k])
                } else {
                    kv_pair_size(kvs[k])
                }) <= usize::MAX,
            pairs_total == pair_bytes(version, kvs.take(i as int)),
        decreases kv_pairs@.len() - i,
    {
        proof {
            if version == 3 {
                lemma_kv_sizes_v3_prefix(kvs, i as int);
            } else {
                lemma_kv_sizes_prefix(kvs, i as int);
            }
            assert(kvs[i as int] == kv_pairs@[i as int]@);
        }
        let size = if version == 3 {
            kv_pairs[i].checked_raw_byte_size_v3()
        } else {
            kv_pairs[i].checked_raw_byte_size()
        };
        match size {
            Some(n) => match pairs_total.checked_add(n as u64) {
                Some(t) => {
                    pairs_total = t;
                },
                None => {
                    return false;
                },
            },
            None => {
                return false;
            },
        }
        i = i + 1;
    }
    proof {
        assert(kvs.take(i as int) =~= kvs);
    }
    let mut tensors_total: u64 = 0;
    let mut j: usize = 0;
    proof {
        assert(ts.take(0) =~= Seq::<TensorInfoView>::empty());
    }
    while j < tensors.len()
        invariant
            ts == tensors_view(tensors@),
            j <= tensors@.len(),
            forall|k: int| 0 <= k < j ==> tensor_info_size(#[trigger] ts[k]) <= usize::MAX,
            tensors_total == tensor_sizes(ts.take(j as int)),
        decreases tensors@.len() - j,
    {
        proof {
            lemma_tensor_sizes_prefix(ts, j as int);
            assert(ts[j as int] == tensors@[j as int]@);
        }
        match tensors[j].checked_raw_byte_size() {
            Some(n) => match tensors_total.checked_add(n as u64) {
                Some(t) => {
                    tensors_total = t;
                },
                None => {
                    return false;
                },
            },
            None => {
                return false;
            },
        }
        j = j + 1;
    }
    proof {
        assert(ts.take(j as int) =~= ts);
    }
    let base: u64 = match pairs_total.checked_add(24) {
        Some(x) => match x.checked_add(tensors_total) {
            Some(y) => y,
            None => u64::MAX,
        },
        None => u64::MAX,
    };
    match data_alignment {
        Some(a) => {
            if version == 3 && a > 0 {
                let rem = base % a;
                if rem == 0 {
                    true
                } else {
                    base <= u64::MAX - (a - rem)
                }
            } else {
                true
            }
        },
        None => true,
    }
}

/// `parse_gguf_reader` for any input: where the header reads but its data
/// section offset cannot be computed, an `Io` error saying so.
pub fn parse_gguf_reader_checked(data: &[u8]) -> (r: Result<GgufHeader, GgufError>)
    ensures
        match lenient_layout(data@) {
            Ok(l) => if layout_computable(l) {
                r matches Ok(h) && h@ == lenient_header(l)
            } else {
                r matches Err(GgufError::Io(m)) && m@ == offset_overflow_message()
            },
            Err(e) => r matches Err(x) && x@ == e,
        },
{
    match read_layout(data) {
        Err(e) => Err(e),
        Ok((version, kv_pairs, tensors)) => {
            let data_alignment = read_alignment_from_kv(kv_pairs.as_slice());
            if start_is_computable(version, kv_pairs.as_slice(), tensors.as_slice(), data_alignment) {
                let data_section_start = compute_data_section_start(
                    version,
                    kv_pairs.as_slice(),
                    tensors.as_slice(),
                    data_alignment,
                );
                Ok(GgufHeader { version, kv_pairs, tensors, data_alignment, data_section_start })
            } else {
                Err(GgufError::Io("data section offset overflows".to_string()))
            }
        },
    }
}

/// Text of the error of a header whose data section offset overflows.
pub open spec fn offset_overflow_message() -> Seq<char> {
    "data section offset overflows"@
}

/// Bytes for `element_count` elements at four bytes each, whatever the dtype.
pub fn tensor_bytes_for_dtype(_dtype: u32, element_count: u64) -> (r: usize)
    requires
        element_count * 4 <= usize::MAX,
    ensures
        r == element_count * 4,
{
    element_count as usize * 4
}

} // verus!
