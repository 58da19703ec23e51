//! SafeTensors tensor data: widening half-precision tensors to `f32` bit
//! patterns, and the loaded tensors of a file.
//!
//! `F16` and `BF16` tensors are widened to 32-bit floats and stored as their
//! little-endian bytes; `F32` and the integer dtypes pass through as they are.
//! The widening works on bit patterns only: no floating-point arithmetic is
//! involved.

use safetensors::tensor::{Metadata, TensorView};
use safetensors::{SafeTensorError, SafeTensors};

pub use vstd::hash_map::StringHashMap;
use vstd::prelude::*;
use vstd::slice::{slice_subrange, slice_to_vec};

use crate::error::RunnerError;
use crate::le_bytes::{le_u16, le_u64, read_u16_le, read_u64_le};
use crate::text::push_str;

verus! {

/// A safetensors file's tensors in memory, widened to `f32` where they were
/// half precision.
pub struct SafetensorsWeights {
    /// Path of the loaded file.
    pub path: String,
    /// Per tensor name: shape, dtype name, stored size in bytes.
    pub metadata: StringHashMap<(Vec<usize>, String, usize)>,
    /// Per tensor name: the loaded bytes.
    pub tensors: StringHashMap<Vec<u8>>,
}

/// Index of the highest set bit of a nonzero 10-bit fraction.
pub open spec fn top_bit(f: u32) -> u32 {
    if f >= 512 {
        9
    } else if f >= 256 {
        8
    } else if f >= 128 {
        7
    } else if f >= 64 {
        6
    } else if f >= 32 {
        5
    } else if f >= 16 {
        4
    } else if f >= 8 {
        3
    } else if f >= 4 {
        2
    } else if f >= 2 {
        1
    } else {
        0
    }
}

/// The `f32` bit pattern a half-precision value widens to: its exact value
/// as a binary32. `bf16` selects bfloat16 (the upper half of an `f32`);
/// otherwise IEEE binary16, whose exponent is rebiased by 112 and fraction
/// shifted left by 13. A subnormal binary16 (zero exponent, fraction `f`
/// with highest set bit `k`) is `f * 2^-24`, a normal binary32 with exponent
/// field `k + 103` and the bits of `f` below `k` as its fraction; zero keeps
/// its sign; the all-ones exponent becomes the all-ones `f32` exponent.
pub open spec fn widen_bits(h: u16, bf16: bool) -> u32 {
    if bf16 {
        (h as u32) << 16u32
    } else {
        let sign = ((h >> 15u16) & 1u16) as u32;
        let exp = ((h >> 10u16) & 0x1Fu16) as u32;
        let frac = (h & 0x3FFu16) as u32;
        if exp == 0 {
            if frac == 0 {
                sign << 31u32
            } else {
                let k = top_bit(frac);
                (sign << 31u32) | (((k + 103) as u32) << 23u32) | ((frac ^ (1u32 << k)) << ((23
                    - k) as u32))
            }
        } else if exp == 31 {
            (sign << 31u32) | (0xFFu32 << 23u32) | (frac << 13u32)
        } else {
            (sign << 31u32) | (((exp + 112) as u32) << 23u32) | (frac << 13u32)
        }
    }
}

/// The widened bit patterns of the complete two-byte little-endian values
/// of `raw` (a trailing odd byte is ignored).
pub open spec fn widened_words(raw: Seq<u8>, bf16: bool) -> Seq<u32> {
    Seq::new(raw.len() / 2, |i: int| widen_bits(le_u16(raw.subrange(2 * i, 2 * i + 2)), bf16))
}

/// Byte `k` (0 least significant) of a word.
pub open spec fn word_byte(w: u32, k: int) -> u8 {
    ((w >> ((8 * k) as u32)) & 0xFFu32) as u8
}

/// Words as little-endian bytes.
pub open spec fn words_le_bytes(ws: Seq<u32>) -> Seq<u8> {
    Seq::new(4 * ws.len(), |j: int| word_byte(ws[j / 4], j % 4))
}

/// Dtype names whose bytes pass through unchanged.
pub open spec fn is_passthrough_dtype(d: Seq<char>) -> bool {
    ||| d == "F32"@
    ||| d == "FLOAT_32"@
    ||| d == "U8"@
    ||| d == "UINT_8"@
    ||| d == "I8"@
    ||| d == "INT_8"@
    ||| d == "I16"@
    ||| d == "INT_16"@
    ||| d == "I32"@
    ||| d == "INT_32"@
    ||| d == "I64"@
    ||| d == "INT_64"@
    ||| d == "U32"@
    ||| d == "UINT_32"@
    ||| d == "U64"@
    ||| d == "UINT_64"@
}

/// Dtype names of IEEE half precision.
pub open spec fn is_f16_dtype(d: Seq<char>) -> bool {
    d == "F16"@ || d == "FLOAT_16"@
}

/// Dtype names of bfloat16.
pub open spec fn is_bf16_dtype(d: Seq<char>) -> bool {
    d == "BF16"@ || d == "BFLOAT_16"@
}

/// The bytes a tensor of the given dtype is loaded as, or `None` for a dtype
/// that is not supported.
pub open spec fn converted(raw: Seq<u8>, d: Seq<char>) -> Option<Seq<u8>> {
    if is_passthrough_dtype(d) {
        Some(raw)
    } else if is_f16_dtype(d) {
        Some(words_le_bytes(widened_words(raw, false)))
    } else if is_bf16_dtype(d) {
        Some(words_le_bytes(widened_words(raw, true)))
    } else {
        None
    }
}

/// Index of the highest set bit of a nonzero 10-bit fraction.
fn top_bit_index(f: u32) -> (r: u32)
    ensures
        r == top_bit(f),
{
    if f >= 512 {
        9
    } else if f >= 256 {
        8
    } else if f >= 128 {
        7
    } else if f >= 64 {
        6
    } else if f >= 32 {
        5
    } else if f >= 16 {
        4
    } else if f >= 8 {
        3
    } else if f >= 4 {
        2
    } else if f >= 2 {
        1
    } else {
        0
    }
}

fn widen(h: u16, bf16: bool) -> (r: u32)
    ensures
        r == widen_bits(h, bf16),
{
    if bf16 {
        (h as u32) << 16u32
    } else {
        let sign = ((h >> 15u16) & 1u16) as u32;
        let exp = ((h >> 10u16) & 0x1Fu16) as i32;
        let frac = (h & 0x3FFu16) as u32;
        proof {
            assert(((h >> 10u16) & 0x1Fu16) <= 31) by (bit_vector);
        }
        if exp == 0 {
            if frac == 0 {
                sign << 31u32
            } else {
                let k = top_bit_index(frac);
                (sign << 31u32) | ((k + 103) << 23u32) | ((frac ^ (1u32 << k)) << (23 - k))
            }
        } else if exp == 31 {
            (sign << 31u32) | (0xFFu32 << 23u32) | (frac << 13u32)
        } else {
            let f32_exp = (exp - 15 + 127) as u32;
            (sign << 31u32) | (f32_exp << 23u32) | (frac << 13u32)
        }
    }
}

/// Widened `f32` bit patterns of the complete two-byte values of `data`.
pub fn widen_halves(data: &[u8], bf16: bool) -> (r: Vec<u32>)
    ensures
        r@ == widened_words(data@, bf16),
{
    let len = data.len();
    let n = len / 2;
    let mut out: Vec<u32> = Vec::new();
    let mut i: usize = 0;
    while i < n
        invariant
            len == data@.len(),
            n == data@.len() / 2,
            i <= n,
            out@ == widened_words(data@, bf16).take(i as int),
        decreases n - i,
    {
        let h = read_u16_le(slice_subrange(data, 2 * i, 2 * i + 2));
        out.push(widen(h, bf16));
        proof {
            assert(out@ =~= widened_words(data@, bf16).take(i + 1));
        }
        i = i + 1;
    }
    proof {
        assert(widened_words(data@, bf16).take(n as int) =~= widened_words(data@, bf16));
    }
    out
}

/// Words as little-endian bytes.
fn to_le_bytes(ws: &Vec<u32>) -> (r: Vec<u8>)
    requires
        4 * ws@.len() <= usize::MAX,
    ensures
        r@ == words_le_bytes(ws@),
{
    let mut out: Vec<u8> = Vec::new();
    let mut i: usize = 0;
    while i < ws.len()
        invariant
            4 * ws@.len() <= usize::MAX,
            i <= ws@.len(),
            out@ == words_le_bytes(ws@.take(i as int)),
        decreases ws@.len() - i,
    {
        let w = ws[i];
        let ghost before = out@;
        out.push((w & 0xFFu32) as u8);
        out.push(((w >> 8u32) & 0xFFu32) as u8);
        out.push(((w >> 16u32) & 0xFFu32) as u8);
        out.push(((w >> 24u32) & 0xFFu32) as u8);
        proof {
            assert(w >> 0u32 == w) by (bit_vector);
            assert(out@ =~= words_le_bytes(ws@.take(i + 1)));
        }
        i = i + 1;
    }
    proof {
        assert(ws@.take(ws@.len() as int) =~= ws@);
    }
    out
}

fn is_one_of(d: &String, names: &[&str]) -> (r: bool)
    ensures
        r <==> exists|i: int| 0 <= i < names@.len() && d@ == names@[i]@,
{
    let mut i: usize = 0;
    while i < names.len()
        invariant
            i <= names@.len(),
            forall|j: int| 0 <= j < i ==> d@ != names@[j]@,
        decreases names@.len() - i,
    {
        let name = names[i].to_string();
        if *d == name {
            return true;
        }
        i = i + 1;
    }
    false
}

/// Tensor bytes as loaded: `F16`/`FLOAT_16` and `BF16`/`BFLOAT_16` widened
/// to little-endian `f32` bit patterns, `F32` and the integer dtypes as
/// they are; any other dtype is refused.
pub fn convert_dtype(raw: &[u8], dtype: &str) -> (r: Result<Vec<u8>, RunnerError>)
    requires
        raw@.len() <= usize::MAX / 2,
    ensures
        match converted(raw@, dtype@) {
            Some(b) => r matches Ok(v) && v@ == b,
            None => r matches Err(RunnerError::ModelLoad(m)) && m@
                == "Unsupported safetensors dtype: "@ + dtype@,
        },
{
    let d = dtype.to_string();
    let f16_names: [&str; 2] = ["F16", "FLOAT_16"];
    let bf16_names: [&str; 2] = ["BF16", "BFLOAT_16"];
    let pass_names: [&str; 16] = [
        "F32",
        "FLOAT_32",
        "U8",
        "UINT_8",
        "I8",
        "INT_8",
        "I16",
        "INT_16",
        "I32",
        "INT_32",
        "I64",
        "INT_64",
        "U32",
        "UINT_32",
        "U64",
        "UINT_64",
    ];
    proof {
        reveal_strlit("F16");
        reveal_strlit("FLOAT_16");
        reveal_strlit("BF16");
        reveal_strlit("BFLOAT_16");
        reveal_strlit("F32");
        reveal_strlit("FLOAT_32");
        reveal_strlit("U8");
        reveal_strlit("UINT_8");
        reveal_strlit("I8");
        reveal_strlit("INT_8");
        reveal_strlit("I16");
        reveal_strlit("INT_16");
        reveal_strlit("I32");
        reveal_strlit("INT_32");
        reveal_strlit("I64");
        reveal_strlit("INT_64");
        reveal_strlit("U32");
        reveal_strlit("UINT_32");
        reveal_strlit("U64");
        reveal_strlit("UINT_64");
    }
    if is_one_of(&d, &pass_names) {
        proof {
            let i = choose|i: int| 0 <= i < pass_names@.len() && d@ == pass_names@[i]@;
            assert(is_passthrough_dtype(dtype@));
        }
        Ok(slice_to_vec(raw))
    } else if is_one_of(&d, &f16_names) {
        proof {
            let i = choose|i: int| 0 <= i < f16_names@.len() && d@ == f16_names@[i]@;
            assert(is_f16_dtype(dtype@));
        }
        let ws = widen_halves(raw, false);
        Ok(to_le_bytes(&ws))
    } else if is_one_of(&d, &bf16_names) {
        proof {
            let i = choose|i: int| 0 <= i < bf16_names@.len() && d@ == bf16_names@[i]@;
            assert(is_bf16_dtype(dtype@));
        }
        let ws = widen_halves(raw, true);
        Ok(to_le_bytes(&ws))
    } else {
        proof {
            assert(d@ != pass_names@[0]@);
            assert(d@ != pass_names@[1]@);
            assert(d@ != pass_names@[2]@);
            assert(d@ != pass_names@[3]@);
            assert(d@ != pass_names@[4]@);
            assert(d@ != pass_names@[5]@);
            assert(d@ != pass_names@[6]@);
            assert(d@ != pass_names@[7]@);
            assert(d@ != pass_names@[8]@);
            assert(d@ != pass_names@[9]@);
            assert(d@ != pass_names@[10]@);
            assert(d@ != pass_names@[11]@);
            assert(d@ != pass_names@[12]@);
            assert(d@ != pass_names@[13]@);
            assert(d@ != pass_names@[14]@);
            assert(d@ != pass_names@[15]@);
            assert(d@ != f16_names@[0]@);
            assert(d@ != f16_names@[1]@);
            assert(d@ != bf16_names@[0]@);
            assert(d@ != bf16_names@[1]@);
        }
        let mut m = String::new();
        push_str(&mut m, "Unsupported safetensors dtype: ");
        push_str(&mut m, dtype);
        Err(RunnerError::ModelLoad(m))
    }
}

// ───────────────────────── header numbers ─────────────────────────

/// An ASCII decimal digit.
pub open spec fn is_digit_byte(b: u8) -> bool {
    48 <= b <= 57
}

/// The value of a run of ASCII decimal digits.
pub open spec fn digits_num(s: Seq<u8>) -> nat
    decreases s.len(),
{
    if s.len() == 0 {
        0
    } else {
        digits_num(s.drop_last()) * 10 + (s.last() - 48) as nat
    }
}

/// Every run of decimal digits in `h`, read from its first digit up to any
/// point, stays at or below `bound`.
pub open spec fn digit_runs_at_most(h: Seq<u8>, bound: nat) -> bool {
    forall|i: int, j: int|
        0 <= i < j <= h.len() && (i == 0 || !is_digit_byte(h[i - 1])) && (forall|k: int|
            i <= k < j ==> is_digit_byte(h[k])) ==> #[trigger] digits_num(h.subrange(i, j)) <= bound
}

/// Longest header the safetensors crate reads, in bytes.
pub const MAX_HEADER_BYTES: u64 = 100000000;

/// The numbers of a safetensors file's header leave room for the header's
/// length and prefix: when the first eight bytes give a header length `n` of
/// at most 100 MB that fits in the bytes, every run of digits in the header
/// is at most `usize::MAX - 8 - n`. The crate adds the data length that the
/// header declares (one of those numbers) to `n + 8` without an overflow
/// check; on other headers it does not get that far.
pub open spec fn header_offsets_fit(d: Seq<u8>) -> bool {
    d.len() < 8 || {
        let n = le_u64(d.subrange(0, 8));
        n > MAX_HEADER_BYTES || 8 + n > d.len() || digit_runs_at_most(
            d.subrange(8, 8 + n),
            (usize::MAX - 8 - n) as nat,
        )
    }
}

/// Whether every digit run of `h` stays at or below `bound`.
fn digit_runs_fit(h: &[u8], bound: u128) -> (r: bool)
    requires
        bound <= u64::MAX,
    ensures
        r == digit_runs_at_most(h@, bound as nat),
{
    let ghost d = h@;
    let mut p: usize = 0;
    let mut start: usize = 0;
    let mut acc: u128 = 0;
    while p < h.len()
        invariant
            d == h@,
            bound <= u64::MAX,
            start <= p <= d.len(),
            start == p ==> (p == 0 || !is_digit_byte(d[p - 1])),
            start < p ==> (start == 0 || !is_digit_byte(d[start - 1])),
            forall|k: int| start <= k < p ==> is_digit_byte(d[k]),
            acc == digits_num(d.subrange(start as int, p as int)),
            acc <= bound,
            forall|i: int, j: int|
                0 <= i < j <= p && (i == 0 || !is_digit_byte(d[i - 1])) && (forall|k: int|
                    i <= k < j ==> is_digit_byte(d[k])) ==> #[trigger] digits_num(d.subrange(i, j))
                    <= bound,
        decreases d.len() - p,
    {
        let b = h[p];
        if 48 <= b && b <= 57 {
            let next = acc * 10 + (b - 48) as u128;
            proof {
                assert(d.subrange(start as int, p + 1).drop_last() =~= d.subrange(start as int, p as int));
            }
            if next > bound {
                proof {
                    assert(digits_num(d.subrange(start as int, p + 1)) > bound);
                    assert(forall|k: int| start <= k < p + 1 ==> is_digit_byte(d[k]));
                }
                return false;
            }
            proof {
                assert forall|i: int, j: int|
                    0 <= i < j <= p + 1 && (i == 0 || !is_digit_byte(d[i - 1])) && (forall|k: int|
                        i <= k < j ==> is_digit_byte(d[k])) implies #[trigger] digits_num(d.subrange(i, j))
                    <= bound by {
                    if j == p + 1 {
                        if i < start {
                            assert(is_digit_byte(d[start - 1]));
                        }
                        if i > start {
                            assert(is_digit_byte(d[i - 1]));
                        }
                    }
                }
            }
            acc = next;
            p = p + 1;
        } else {
            proof {
                assert forall|i: int, j: int|
                    0 <= i < j <= p + 1 && (i == 0 || !is_digit_byte(d[i - 1])) && (forall|k: int|
                        i <= k < j ==> is_digit_byte(d[k])) implies #[trigger] digits_num(d.subrange(i, j))
                    <= bound by {
                    if j == p + 1 {
                        assert(is_digit_byte(d[p as int]));
                    }
                }
            }
            p = p + 1;
            start = p;
            acc = 0;
            proof {
                assert(d.subrange(start as int, p as int) =~= Seq::<u8>::empty());
            }
        }
    }
    true
}

/// Whether the safetensors crate can read these bytes without an overflow
/// in its header arithmetic (`header_offsets_fit`); the readers below take
/// only such bytes.
pub fn safetensors_offsets_fit(data: &[u8]) -> (r: bool)
    ensures
        r == header_offsets_fit(data@),
{
    if data.len() < 8 {
        return true;
    }
    let first = slice_subrange(data, 0, 8);
    let n = read_u64_le(first);
    if n > MAX_HEADER_BYTES || ((data.len() - 8) as u64) < n {
        return true;
    }
    let m = n as usize;
    let bound: u128 = (usize::MAX - 8 - m) as u128;
    let header = slice_subrange(data, 8, 8 + m);
    digit_runs_fit(header, bound)
}

// ───────────────────────── reading safetensors files ─────────────────────────

#[verifier::external_type_specification]
#[verifier::external_body]
pub struct ExSafeTensors<'data>(SafeTensors<'data>);

#[verifier::external_type_specification]
#[verifier::external_body]
pub struct ExTensorView<'data>(TensorView<'data>);

#[verifier::external_type_specification]
#[verifier::external_body]
pub struct ExSafeTensorError(SafeTensorError);

#[verifier::external_type_specification]
#[verifier::external_body]
pub struct ExMetadata(Metadata);

/// Whether `SafeTensors::deserialize` accepts a file's bytes: its header
/// parses and describes the data that follows. It depends on the bytes alone.
pub uninterp spec fn safetensors_accepts(buffer: Seq<u8>) -> bool;

/// What `SafeTensors::read_metadata` makes of a file's bytes: `None` when it
/// refuses them, otherwise the header's free-form string entries (the
/// `__metadata__` object, `None` when the header has none). It depends on the
/// bytes alone.
pub uninterp spec fn safetensors_header_strings(buffer: Seq<u8>) -> Option<Option<Map<Seq<char>, Seq<char>>>>;

/// The free-form string entries that a parsed header holds
/// (`Metadata::metadata`).
pub uninterp spec fn metadata_strings(m: Metadata) -> Option<Map<Seq<char>, Seq<char>>>;

/// A tensor as a file describes it: its dtype's display name (`F32`,
/// `BF16`, ...), its shape and its data bytes.
pub type TensorEntry = (Seq<char>, Seq<usize>, Seq<u8>);

/// The tensors of a file's bytes as `SafeTensors::deserialize` parses them,
/// by name. It depends on the bytes alone; a map, since the walk order of
/// the parsed index is not fixed.
pub uninterp spec fn safetensors_tensors(buffer: Seq<u8>) -> Map<Seq<char>, (Seq<char>, Seq<usize>, Seq<u8>)>;

/// The tensors a parsed file holds, by name.
pub uninterp spec fn held_tensors(st: SafeTensors<'static>) -> Map<Seq<char>, (Seq<char>, Seq<usize>, Seq<u8>)>;

/// What a tensor view holds: dtype display name, shape, data.
pub uninterp spec fn view_parts(tv: TensorView<'static>) -> (Seq<char>, Seq<usize>, Seq<u8>);

/// `ks` names every tensor of `t` once.
pub open spec fn lists_names(ks: Seq<Seq<char>>, t: Map<Seq<char>, TensorEntry>) -> bool {
    &&& ks.no_duplicates()
    &&& forall|i: int| 0 <= i < ks.len() ==> t.contains_key(#[trigger] ks[i])
    &&& forall|k: Seq<char>| #[trigger] t.contains_key(k) ==> ks.contains(k)
}

/// Total data bytes of the tensors named by `ks`.
pub open spec fn data_sum(ks: Seq<Seq<char>>, t: Map<Seq<char>, TensorEntry>) -> nat
    decreases ks.len(),
{
    if ks.len() == 0 {
        0
    } else {
        data_sum(ks.drop_last(), t) + t[ks.last()].2.len()
    }
}

/// `SafeTensors::deserialize`: parses the header of a whole file's bytes and
/// checks it against the data. It succeeds exactly on the bytes it accepts;
/// the parsed value then holds the file's tensors, whose data are disjoint
/// parts of the bytes (so their lengths add up to at most the bytes'
/// length). The bytes are ones on which the crate's header arithmetic does
/// not overflow.
#[verifier::external_body]
fn deserialize_file<'a>(buffer: &'a [u8]) -> (r: Result<SafeTensors<'a>, SafeTensorError>)
    requires
        header_offsets_fit(buffer@),
    ensures
        r is Ok <==> safetensors_accepts(buffer@),
        r matches Ok(st) ==> held_tensors(st) == safetensors_tensors(buffer@),
        r is Ok ==> forall|ks: Seq<Seq<char>>|
            #[trigger] lists_names(ks, safetensors_tensors(buffer@)) ==> data_sum(
                ks,
                safetensors_tensors(buffer@),
            ) <= buffer@.len(),
{
    SafeTensors::deserialize(buffer)
}

/// `SafeTensors::read_metadata`: parses and checks the header only (on bytes
/// whose header arithmetic does not overflow). It
/// succeeds exactly on the bytes it accepts, and the parsed header holds the
/// free-form entries that the named result gives for those bytes.
#[verifier::external_body]
fn read_file_metadata(buffer: &[u8]) -> (r: Result<(usize, Metadata), SafeTensorError>)
    requires
        header_offsets_fit(buffer@),
    ensures
        r is Ok <==> safetensors_header_strings(buffer@) is Some,
        r matches Ok((_, m)) ==> safetensors_header_strings(buffer@) == Some(metadata_strings(m)),
{
    SafeTensors::read_metadata(buffer)
}

/// `es` lists the tensors of `t`, each once, with views holding them.
pub open spec fn lists_views<'a>(es: Seq<(String, TensorView<'a>)>, t: Map<Seq<char>, TensorEntry>) -> bool {
    &&& forall|i: int, j: int| 0 <= i < j < es.len() ==> (#[trigger] es[i]).0@ != (#[trigger] es[j]).0@
    &&& forall|i: int|
        0 <= i < es.len() ==> t.contains_key((#[trigger] es[i]).0@) && t[es[i].0@] == view_parts(
            es[i].1,
        )
    &&& forall|k: Seq<char>| #[trigger] t.contains_key(k) ==> exists|i: int| 0 <= i < es.len() && (#[trigger] es[i]).0@ == k
}

/// `SafeTensors::tensors`: every tensor once, with its name, in the order
/// the header's index map is walked (which is not fixed).
#[verifier::external_body]
fn tensor_views<'a>(st: &SafeTensors<'a>) -> (r: Vec<(String, TensorView<'a>)>)
    ensures
        lists_views(r@, held_tensors(*st)),
{
    st.tensors()
}

/// `SafeTensors::tensor`: the tensor with the given name, or an error when
/// there is none.
#[verifier::external_body]
fn tensor_view<'a>(st: &SafeTensors<'a>, name: &str) -> (r: Result<TensorView<'a>, SafeTensorError>)
    ensures
        r is Ok <==> held_tensors(*st).contains_key(name@),
        r matches Ok(tv) ==> view_parts(tv) == held_tensors(*st)[name@],
{
    st.tensor(name)
}

/// `TensorView::dtype`, as the dtype's display name (`F32`, `BF16`, ...).
#[verifier::external_body]
fn view_dtype_name(tv: &TensorView) -> (r: String)
    ensures
        r@ == view_parts(*tv).0,
{
    tv.dtype().to_string()
}

/// `TensorView::shape`, copied.
#[verifier::external_body]
fn view_shape(tv: &TensorView) -> (r: Vec<usize>)
    ensures
        r@ == view_parts(*tv).1,
{
    tv.shape().to_vec()
}

/// `TensorView::data`: the tensor's bytes. Like every Rust slice it spans
/// at most `isize::MAX` bytes.
#[verifier::external_body]
fn view_data<'a>(tv: &TensorView<'a>) -> (r: &'a [u8])
    ensures
        r@ == view_parts(*tv).2,
        r@.len() <= isize::MAX,
{
    tv.data()
}

/// `es` lists the entries of `m`, each exactly once, in any order.
pub open spec fn lists_entries(es: Seq<(String, String)>, m: Map<Seq<char>, Seq<char>>) -> bool {
    &&& forall|i: int, j: int| 0 <= i < j < es.len() ==> (#[trigger] es[i]).0@ != (#[trigger] es[j]).0@
    &&& forall|i: int| 0 <= i < es.len() ==> m.contains_key((#[trigger] es[i]).0@) && m[es[i].0@] == es[i].1@
    &&& forall|k: Seq<char>| #[trigger] m.contains_key(k) ==> exists|i: int| 0 <= i < es.len() && (#[trigger] es[i]).0@ == k
}

/// A map of strings holds the same entries as a map of texts.
pub open spec fn same_strings(c: Map<Seq<char>, String>, m: Map<Seq<char>, Seq<char>>) -> bool {
    &&& c.dom() == m.dom()
    &&& forall|k: Seq<char>| #[trigger] c.contains_key(k) ==> c[k]@ == m[k]
}

/// `Metadata::metadata`: the free-form string entries of a header, if any,
/// as pairs in the order the map is walked; each entry of the map comes out
/// once.
#[verifier::external_body]
fn metadata_entries(m: &Metadata) -> (r: Option<Vec<(String, String)>>)
    ensures
        match metadata_strings(*m) {
            None => r is None,
            Some(map) => r matches Some(es) && lists_entries(es@, map),
        },
{
    m.metadata().as_ref().map(|entries| entries.iter().map(|(k, v)| (k.clone(), v.clone())).collect())
}

/// The display text of a safetensors error.
#[verifier::external_body]
fn error_text(e: &SafeTensorError) -> (r: String) {
    e.to_string()
}

/// Whether a text starts with a prefix.
pub open spec fn starts_with(m: Seq<char>, prefix: Seq<char>) -> bool {
    m.len() >= prefix.len() && m.subrange(0, prefix.len() as int) == prefix
}

/// A `ModelLoad` error with the given prefix and detail.
fn load_error(prefix: &str, detail: &str) -> (r: RunnerError)
    ensures
        r matches RunnerError::ModelLoad(m) && m@ == prefix@ + detail@ && starts_with(m@, prefix@),
{
    let mut m = String::new();
    push_str(&mut m, prefix);
    push_str(&mut m, detail);
    proof {
        assert(m@.subrange(0, prefix@.len() as int) =~= prefix@);
    }
    RunnerError::ModelLoad(m)
}

/// Records one tensor: its metadata (shape, dtype name, stored size) and its
/// bytes as loaded. Fails, with the metadata already recorded, on a dtype
/// that is not supported.
pub fn add_tensor(weights: &mut SafetensorsWeights, name: String, shape: Vec<usize>, dtype: String, data: &[u8]) -> (r:
    Result<(), RunnerError>)
    requires
        data@.len() <= usize::MAX / 2,
    ensures
        final(weights).path@ == old(weights).path@,
        final(weights).metadata@ == old(weights).metadata@.insert(name@, (shape, dtype, data@.len() as usize)),
        match converted(data@, dtype@) {
            Some(b) => r is Ok && final(weights).tensors@.dom() == old(weights).tensors@.dom().insert(name@)
                && final(weights).tensors@[name@]@ == b && forall|k: Seq<char>|
                k != name@ && old(weights).tensors@.contains_key(k) ==> final(weights).tensors@[k]
                    == old(weights).tensors@[k],
            None => r matches Err(RunnerError::ModelLoad(m)) && m@ == "Unsupported safetensors dtype: "@
                + dtype@ && final(weights).tensors@ == old(weights).tensors@,
        },
{
    let size_bytes = data.len();
    let converted_bytes = convert_dtype(data, dtype.as_str());
    weights.metadata.insert(name.clone(), (shape, dtype, size_bytes));
    match converted_bytes {
        Ok(b) => {
            weights.tensors.insert(name, b);
            Ok(())
        },
        Err(e) => Err(e),
    }
}

/// The loaded tables hold exactly the tensors of `t`: per name, the bytes
/// its data converts to under its dtype, and its shape, dtype name and
/// stored size.
pub open spec fn loaded_exactly(w: SafetensorsWeights, t: Map<Seq<char>, TensorEntry>) -> bool {
    &&& w.tensors@.dom() == t.dom()
    &&& w.metadata@.dom() == t.dom()
    &&& forall|k: Seq<char>|
        #[trigger] t.contains_key(k) ==> converted(t[k].2, t[k].0) == Some(w.tensors@[k]@)
            && w.metadata@[k].0@ == t[k].1 && w.metadata@[k].1@ == t[k].0 && w.metadata@[k].2
            == t[k].2.len()
}

/// Every tensor of `t` has a dtype that converts.
pub open spec fn all_convert(t: Map<Seq<char>, TensorEntry>) -> bool {
    forall|k: Seq<char>| #[trigger] t.contains_key(k) ==> converted(t[k].2, t[k].0) is Some
}

/// Loads every tensor of a safetensors file's bytes (`path` is recorded):
/// half-precision tensors widened to `f32`, others as stored. It fails when
/// the bytes are not a safetensors file, and on the first tensor (in the
/// walk order of the file's index) whose dtype is not supported.
pub fn load_safetensors_weights(path: &str, file_data: &[u8]) -> (r: Result<SafetensorsWeights, RunnerError>)
    requires
        header_offsets_fit(file_data@),
    ensures
        !safetensors_accepts(file_data@) ==> (r matches Err(RunnerError::ModelLoad(m)) && starts_with(
            m@,
            "Failed to deserialize safetensors: "@,
        )),
        safetensors_accepts(file_data@) ==> (r is Ok <==> all_convert(safetensors_tensors(file_data@))),
        r matches Ok(w) ==> (w.path@ == path@ && loaded_exactly(w, safetensors_tensors(file_data@))),
        safetensors_accepts(file_data@) && !all_convert(safetensors_tensors(file_data@)) ==> (r matches Err(
            RunnerError::ModelLoad(m),
        ) && exists|k: Seq<char>|
            #[trigger] safetensors_tensors(file_data@).contains_key(k) && converted(
                safetensors_tensors(file_data@)[k].2,
                safetensors_tensors(file_data@)[k].0,
            ) is None && m@ == "Unsupported safetensors dtype: "@ + safetensors_tensors(file_data@)[k].0),
{
    let ghost t = safetensors_tensors(file_data@);
    let st = match deserialize_file(file_data) {
        Ok(st) => st,
        Err(e) => {
            let t = error_text(&e);
            return Err(load_error("Failed to deserialize safetensors: ", t.as_str()));
        },
    };
    let views = tensor_views(&st);
    let ghost vs = views@;
    let mut weights = SafetensorsWeights {
        path: path.to_string(),
        metadata: StringHashMap::new(),
        tensors: StringHashMap::new(),
    };
    let mut i: usize = 0;
    while i < views.len()
        invariant
            vs == views@,
            held_tensors(st) == t,
            t == safetensors_tensors(file_data@),
            safetensors_accepts(file_data@),
            lists_views(vs, t),
            i <= vs.len(),
            weights.path@ == path@,
            forall|j: int|
                0 <= j < i ==> {
                    let k = (#[trigger] vs[j]).0@;
                    &&& converted(t[k].2, t[k].0) == Some(weights.tensors@[k]@)
                    &&& weights.tensors@.contains_key(k)
                    &&& weights.metadata@.contains_key(k)
                    &&& weights.metadata@[k].0@ == t[k].1
                    &&& weights.metadata@[k].1@ == t[k].0
                    &&& weights.metadata@[k].2 == t[k].2.len()
                },
            forall|k: Seq<char>|
                #[trigger] weights.tensors@.contains_key(k) ==> exists|j: int| 0 <= j < i && (#[trigger] vs[j]).0@ == k,
            forall|k: Seq<char>|
                #[trigger] weights.metadata@.contains_key(k) ==> exists|j: int| 0 <= j < i && (#[trigger] vs[j]).0@ == k,
        decreases vs.len() - i,
    {
        let (name, tv) = &views[i];
        proof {
            assert(vs[i as int] == (*name, *tv));
        }
        let dtype = view_dtype_name(tv);
        let shape = view_shape(tv);
        let data = view_data(tv);
        let ghost before_t = weights.tensors@;
        let ghost before_m = weights.metadata@;
        let ghost k = name@;
        let ghost raw = data@;
        let ghost d = dtype@;
        let ghost sh = shape@;
        match add_tensor(&mut weights, name.clone(), shape, dtype, data) {
            Ok(()) => {
                proof {
                    assert forall|j: int|
                        0 <= j < i + 1 implies {
                        let kk = (#[trigger] vs[j]).0@;
                        &&& converted(t[kk].2, t[kk].0) == Some(weights.tensors@[kk]@)
                        &&& weights.tensors@.contains_key(kk)
                        &&& weights.metadata@.contains_key(kk)
                        &&& weights.metadata@[kk].0@ == t[kk].1
                        &&& weights.metadata@[kk].1@ == t[kk].0
                        &&& weights.metadata@[kk].2 == t[kk].2.len()
                    } by {
                        if j < i {
                            assert(vs[j].0@ != vs[i as int].0@);
                        }
                    }
                    assert forall|kk: Seq<char>| #[trigger] weights.tensors@.contains_key(kk) implies exists|j: int|
                        0 <= j < i + 1 && (#[trigger] vs[j]).0@ == kk by {
                        if kk == k {
                            assert(vs[i as int].0@ == kk);
                        } else {
                            assert(before_t.contains_key(kk));
                        }
                    }
                    assert forall|kk: Seq<char>| #[trigger] weights.metadata@.contains_key(kk) implies exists|j: int|
                        0 <= j < i + 1 && (#[trigger] vs[j]).0@ == kk by {
                        if kk == k {
                            assert(vs[i as int].0@ == kk);
                        } else {
                            assert(before_m.contains_key(kk));
                        }
                    }
                }
            },
            Err(e) => {
                proof {
                    assert(t.contains_key(k) && t[k] == view_parts(vs[i as int].1));
                    assert(converted(t[k].2, t[k].0) is None);
                    assert(!all_convert(t));
                }
                return Err(e);
            },
        }
        i = i + 1;
    }
    proof {
        assert forall|kk: Seq<char>| #[trigger] t.contains_key(kk) implies converted(t[kk].2, t[kk].0)
            == Some(weights.tensors@[kk]@) && weights.metadata@[kk].0@ == t[kk].1
            && weights.metadata@[kk].1@ == t[kk].0 && weights.metadata@[kk].2 == t[kk].2.len()
            && weights.tensors@.contains_key(kk) && weights.metadata@.contains_key(kk) by {
            let j = choose|j: int| 0 <= j < vs.len() && (#[trigger] vs[j]).0@ == kk;
        }
        assert forall|kk: Seq<char>| #[trigger] weights.tensors@.contains_key(kk) implies t.contains_key(kk) by {
            let j = choose|j: int| 0 <= j < i && (#[trigger] vs[j]).0@ == kk;
        }
        assert forall|kk: Seq<char>| #[trigger] weights.metadata@.contains_key(kk) implies t.contains_key(kk) by {
            let j = choose|j: int| 0 <= j < i && (#[trigger] vs[j]).0@ == kk;
        }
        assert(weights.tensors@.dom() =~= t.dom());
        assert(weights.metadata@.dom() =~= t.dom());
    }
    Ok(weights)
}

/// The dtype name and loaded bytes of one named tensor of a safetensors
/// file's bytes.
pub fn load_safetensors_tensor(file_data: &[u8], tensor_name: &str) -> (r: Result<(String, Vec<u8>), RunnerError>)
    requires
        header_offsets_fit(file_data@),
    ensures
        !safetensors_accepts(file_data@) ==> (r matches Err(RunnerError::ModelLoad(m)) && starts_with(
            m@,
            "Failed to deserialize safetensors: "@,
        )),
        safetensors_accepts(file_data@) && !safetensors_tensors(file_data@).contains_key(tensor_name@)
            ==> (r matches Err(RunnerError::ModelLoad(m)) && starts_with(
            m@,
            "Tensor '"@ + tensor_name@ + "' not found: "@,
        )),
        safetensors_accepts(file_data@) && safetensors_tensors(file_data@).contains_key(tensor_name@)
            ==> ({
            let e = safetensors_tensors(file_data@)[tensor_name@];
            match converted(e.2, e.0) {
                Some(b) => r matches Ok((d, x)) && d@ == e.0 && x@ == b,
                None => r matches Err(RunnerError::ModelLoad(m)) && m@ == "Unsupported safetensors dtype: "@
                    + e.0,
            }
        }),
{
    let st = match deserialize_file(file_data) {
        Ok(st) => st,
        Err(e) => {
            let t = error_text(&e);
            return Err(load_error("Failed to deserialize safetensors: ", t.as_str()));
        },
    };
    let tv = match tensor_view(&st, tensor_name) {
        Ok(tv) => tv,
        Err(e) => {
            let mut m = String::new();
            push_str(&mut m, "Tensor '");
            push_str(&mut m, tensor_name);
            push_str(&mut m, "' not found: ");
            let ghost p = m@;
            let t = error_text(&e);
            push_str(&mut m, t.as_str());
            proof {
                assert(p == "Tensor '"@ + tensor_name@ + "' not found: "@);
                assert(m@.subrange(0, p.len() as int) =~= p);
            }
            return Err(RunnerError::ModelLoad(m));
        },
    };
    let dtype = view_dtype_name(&tv);
    let data = view_data(&tv);
    match convert_dtype(data, dtype.as_str()) {
        Ok(b) => Ok((dtype, b)),
        Err(e) => Err(e),
    }
}

/// The free-form string entries of a safetensors file's header.
pub fn extract_safetensors_config(file_data: &[u8]) -> (r: Result<StringHashMap<String>, RunnerError>)
    requires
        header_offsets_fit(file_data@),
    ensures
        r is Ok <==> safetensors_header_strings(file_data@) is Some,
        r matches Ok(c) ==> match safetensors_header_strings(file_data@)->Some_0 {
            None => c@ == Map::<Seq<char>, String>::empty(),
            Some(m) => same_strings(c@, m),
        },
        r matches Err(e) ==> (e matches RunnerError::ModelLoad(m) && starts_with(
            m@,
            "Failed to read safetensors metadata: "@,
        )),
{
    let (_, metadata) = match read_file_metadata(file_data) {
        Ok(x) => x,
        Err(e) => {
            let t = error_text(&e);
            return Err(load_error("Failed to read safetensors metadata: ", t.as_str()));
        },
    };
    let mut config: StringHashMap<String> = StringHashMap::new();
    match metadata_entries(&metadata) {
        Some(entries) => {
            let ghost m = metadata_strings(metadata)->Some_0;
            let mut i: usize = 0;
            while i < entries.len()
                invariant
                    i <= entries@.len(),
                    lists_entries(entries@, m),
                    forall|j: int|
                        0 <= j < i ==> config@.contains_key((#[trigger] entries@[j]).0@) && config@[entries@[j].0@]@
                            == entries@[j].1@,
                    forall|k: Seq<char>|
                        #[trigger] config@.contains_key(k) ==> exists|j: int| 0 <= j < i && (#[trigger] entries@[j]).0@ == k,
                decreases entries@.len() - i,
            {
                let (k, v) = &entries[i];
                proof {
                    assert(entries@[i as int] == (*k, *v));
                }
                config.insert(k.clone(), v.clone());
                proof {
                    assert forall|j: int| 0 <= j < i + 1 implies config@.contains_key((#[trigger] entries@[j]).0@)
                        && config@[entries@[j].0@]@ == entries@[j].1@ by {
                        if j < i {
                            assert(entries@[j].0@ != entries@[i as int].0@);
                        }
                    }
                    assert forall|key: Seq<char>| #[trigger] config@.contains_key(key) implies exists|j: int|
                        0 <= j < i + 1 && (#[trigger] entries@[j]).0@ == key by {
                        if key == k@ {
                            assert(entries@[i as int].0@ == key);
                        }
                    }
                }
                i = i + 1;
            }
            proof {
                assert forall|key: Seq<char>| #[trigger] config@.contains_key(key) implies config@[key]@ == m[key] by {
                    let j = choose|j: int| 0 <= j < entries@.len() && (#[trigger] entries@[j]).0@ == key;
                }
                assert forall|key: Seq<char>| m.contains_key(key) implies #[trigger] config@.contains_key(key) by {
                    let j = choose|j: int| 0 <= j < entries@.len() && (#[trigger] entries@[j]).0@ == key;
                }
                assert(config@.dom() =~= m.dom());
            }
        },
        None => {},
    }
    Ok(config)
}

/// Number of tensors in a safetensors file's bytes.
pub fn get_safetensors_tensor_count(file_data: &[u8]) -> (r: Result<usize, RunnerError>)
    requires
        header_offsets_fit(file_data@),
    ensures
        r is Ok <==> safetensors_accepts(file_data@),
        r matches Ok(n) ==> n == safetensors_tensors(file_data@).dom().len(),
        r matches Err(e) ==> (e matches RunnerError::ModelLoad(m) && starts_with(
            m@,
            "Failed to deserialize safetensors: "@,
        )),
{
    match deserialize_file(file_data) {
        Ok(st) => {
            let views = tensor_views(&st);
            let ghost t = safetensors_tensors(file_data@);
            proof {
                lemma_views_count(views@, t);
            }
            Ok(views.len())
        },
        Err(e) => {
            let t = error_text(&e);
            Err(load_error("Failed to deserialize safetensors: ", t.as_str()))
        },
    }
}

/// The names of listed views.
pub open spec fn view_names<'a>(es: Seq<(String, TensorView<'a>)>) -> Seq<Seq<char>> {
    es.map_values(|e: (String, TensorView<'a>)| e.0@)
}

/// Views that list a map's tensors name each of them once, so there are as
/// many views as tensors.
proof fn lemma_views_count<'a>(es: Seq<(String, TensorView<'a>)>, t: Map<Seq<char>, TensorEntry>)
    requires
        lists_views(es, t),
    ensures
        lists_names(view_names(es), t),
        t.dom().len() == es.len(),
{
    let ks = view_names(es);
    assert forall|i: int, j: int| 0 <= i < ks.len() && 0 <= j < ks.len() && i != j implies ks[i] != ks[j] by {
        if i < j {
            assert(es[i].0@ != es[j].0@);
        } else {
            assert(es[j].0@ != es[i].0@);
        }
    }
    assert forall|k: Seq<char>| #[trigger] t.contains_key(k) implies ks.contains(k) by {
        let i = choose|i: int| 0 <= i < es.len() && (#[trigger] es[i]).0@ == k;
        assert(ks[i] == k);
    }
    assert forall|i: int| 0 <= i < ks.len() implies t.contains_key(#[trigger] ks[i]) by {
        assert(t.contains_key(es[i].0@));
    }
    assert(ks.to_set() =~= t.dom());
    ks.unique_seq_to_set();
}

/// Total size of data sums taken over a prefix: the running total only grows.
proof fn lemma_data_sum_prefix(ks: Seq<Seq<char>>, t: Map<Seq<char>, TensorEntry>, i: int)
    requires
        0 <= i < ks.len(),
    ensures
        data_sum(ks.take(i + 1), t) == data_sum(ks.take(i), t) + t[ks[i]].2.len(),
        data_sum(ks.take(i + 1), t) <= data_sum(ks, t),
    decreases ks.len() - i,
{
    assert(ks.take(i + 1).drop_last() =~= ks.take(i));
    if i + 1 < ks.len() {
        lemma_data_sum_prefix(ks, t, i + 1);
    } else {
        assert(ks.take(i + 1) =~= ks);
    }
}

/// Total data bytes of the tensors in a safetensors file's bytes.
pub fn get_safetensors_total_size(file_data: &[u8]) -> (r: Result<usize, RunnerError>)
    requires
        header_offsets_fit(file_data@),
    ensures
        r is Ok <==> safetensors_accepts(file_data@),
        r matches Ok(n) ==> exists|ks: Seq<Seq<char>>|
            lists_names(ks, safetensors_tensors(file_data@)) && n == data_sum(
                ks,
                safetensors_tensors(file_data@),
            ),
        r matches Err(e) ==> (e matches RunnerError::ModelLoad(m) && starts_with(
            m@,
            "Failed to deserialize safetensors: "@,
        )),
{
    let st = match deserialize_file(file_data) {
        Ok(st) => st,
        Err(e) => {
            let t = error_text(&e);
            return Err(load_error("Failed to deserialize safetensors: ", t.as_str()));
        },
    };
    let views = tensor_views(&st);
    let ghost t = safetensors_tensors(file_data@);
    let ghost ks = view_names(views@);
    proof {
        lemma_views_count(views@, t);
        assert(data_sum(ks, t) <= file_data@.len());
        assert(ks.take(0) =~= Seq::<Seq<char>>::empty());
    }
    let flen = file_data.len();
    let mut total: usize = 0;
    let mut i: usize = 0;
    while i < views.len()
        invariant
            flen == file_data@.len(),
            ks == view_names(views@),
            held_tensors(st) == t,
            lists_views(views@, t),
            data_sum(ks, t) <= file_data@.len(),
            i <= views@.len(),
            total == data_sum(ks.take(i as int), t),
        decreases views@.len() - i,
    {
        let (_, tv) = &views[i];
        let data = view_data(tv);
        proof {
            lemma_data_sum_prefix(ks, t, i as int);
            assert(views@[i as int].1 == *tv);
            assert(ks[i as int] == views@[i as int].0@);
            assert(t[ks[i as int]] == view_parts(views@[i as int].1));
        }
        total = total + data.len();
        i = i + 1;
    }
    proof {
        assert(ks.take(i as int) =~= ks);
    }
    Ok(total)
}

/// Law: the integer dtypes of the format (`U8`, `I8`, `I16`, `I32`, `I64`,
/// `U32`, `U64` and their long names) and `F32` load as their bytes,
/// unchanged, whatever the bytes.
pub proof fn lemma_integer_dtypes_pass_through(raw: Seq<u8>)
    ensures
        converted(raw, "U8"@) == Some(raw),
        converted(raw, "UINT_8"@) == Some(raw),
        converted(raw, "I8"@) == Some(raw),
        converted(raw, "INT_8"@) == Some(raw),
        converted(raw, "I16"@) == Some(raw),
        converted(raw, "INT_16"@) == Some(raw),
        converted(raw, "I32"@) == Some(raw),
        converted(raw, "INT_32"@) == Some(raw),
        converted(raw, "I64"@) == Some(raw),
        converted(raw, "INT_64"@) == Some(raw),
        converted(raw, "U32"@) == Some(raw),
        converted(raw, "UINT_32"@) == Some(raw),
        converted(raw, "U64"@) == Some(raw),
        converted(raw, "UINT_64"@) == Some(raw),
        converted(raw, "F32"@) == Some(raw),
        converted(raw, "FLOAT_32"@) == Some(raw),
{
}


/// Law: widening keeps a half-precision value. The sign is kept; a normal
/// binary16 `(1 + f/2^10) * 2^(e-15)` becomes the binary32 with exponent
/// `e - 15` and the same significand; a subnormal `f * 2^-24` becomes a
/// normal binary32 `(1 + m/2^23) * 2^(E-127)` of the same value, that is
/// `(2^23 + m) * 2^(E-103) == f * 2^23` with `E` from 103 to 112.
pub proof fn lemma_widening_keeps_value(h: u16)
    ensures
        ({
            let w = widen_bits(h, false);
            let e = (h >> 10u16) & 0x1Fu16;
            let f = h & 0x3FFu16;
            let we = (w >> 23u32) & 0xFFu32;
            let wm = w & 0x7F_FFFFu32;
            &&& w >> 31u32 == (h >> 15u16) as u32
            &&& (1 <= e <= 30 ==> we == e + 112 && (0x80_0000u32 | wm) == (0x400u32 | f as u32) << 13u32)
            &&& (e == 0 && f != 0 ==> 103 <= we <= 112 && ((0x80_0000u32 | wm) as u64) << ((we
                - 103) as u64) == (f as u64) << 23u64)
            &&& (e == 0 && f == 0 ==> w & 0x7FFF_FFFFu32 == 0)
        }),
{
    let w = widen_bits(h, false);
    assert({
        let e = (h >> 10u16) & 0x1Fu16;
        let f = h & 0x3FFu16;
        let we = (w >> 23u32) & 0xFFu32;
        let wm = w & 0x7F_FFFFu32;
        &&& w >> 31u32 == (h >> 15u16) as u32
        &&& (1 <= e <= 30 ==> we == e + 112 && (0x80_0000u32 | wm) == (0x400u32 | f as u32) << 13u32)
        &&& (e == 0 && f != 0 ==> 103 <= we <= 112 && ((0x80_0000u32 | wm) as u64) << ((we - 103)
            as u64) == (f as u64) << 23u64)
        &&& (e == 0 && f == 0 ==> w & 0x7FFF_FFFFu32 == 0)
    }) by (bit_vector)
        requires
            w == widen_bits(h, false),
    ;
}

} // verus!
