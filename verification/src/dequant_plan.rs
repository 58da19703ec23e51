//! How a GGUF tensor's stored bytes become `f32` values: which conversion a
//! dtype takes, and how many stored bytes the block dequantizers require
//! before they start.

use vstd::prelude::*;

use crate::gguf_types::{block_layout, dtype_of, stored_bytes, GgufDtype};

verus! {

/// The conversion a tensor's bytes go through.
#[derive(Debug, Clone, Copy, PartialEq, Eq, Structural)]
pub enum DequantRoute {
    /// Bytes kept as they are (`F32` and the integer dtypes).
    PassThrough,
    /// IEEE half precision widened to `f32`.
    WidenHalf,
    /// bfloat16 widened to `f32`.
    WidenBf16,
    Q4_0,
    Q4_1,
    Q8_0,
    Q2K,
    Q3K,
    Q4K,
    Q5K,
    Q6K,
    Q8K,
    /// A dtype code with no name.
    UnknownDtype,
    /// A named dtype with no conversion here.
    Unsupported,
}

/// The conversion each dtype takes.
pub open spec fn route_of(d: GgufDtype) -> DequantRoute {
    match d {
        GgufDtype::F32 => DequantRoute::PassThrough,
        GgufDtype::F16 => DequantRoute::WidenHalf,
        GgufDtype::BF16 => DequantRoute::WidenBf16,
        GgufDtype::Q4_0 => DequantRoute::Q4_0,
        GgufDtype::Q4_1 => DequantRoute::Q4_1,
        GgufDtype::Q8_0 => DequantRoute::Q8_0,
        GgufDtype::Q2_K => DequantRoute::Q2K,
        GgufDtype::Q3_K => DequantRoute::Q3K,
        GgufDtype::Q4_K => DequantRoute::Q4K,
        GgufDtype::Q5_K => DequantRoute::Q5K,
        GgufDtype::Q6_K => DequantRoute::Q6K,
        GgufDtype::Q8_K => DequantRoute::Q8K,
        GgufDtype::I8 => DequantRoute::PassThrough,
        GgufDtype::I16 => DequantRoute::PassThrough,
        GgufDtype::I32 => DequantRoute::PassThrough,
        GgufDtype::I64 => DequantRoute::PassThrough,
        GgufDtype::Unknown(_) => DequantRoute::UnknownDtype,
        _ => DequantRoute::Unsupported,
    }
}

/// The conversion a tensor of the given dtype code takes.
pub fn dequant_route(dtype: u32) -> (r: DequantRoute)
    ensures
        r == route_of(dtype_of(dtype)),
{
    match GgufDtype::from_u32(dtype) {
        GgufDtype::F32 => DequantRoute::PassThrough,
        GgufDtype::F16 => DequantRoute::WidenHalf,
        GgufDtype::BF16 => DequantRoute::WidenBf16,
        GgufDtype::Q4_0 => DequantRoute::Q4_0,
        GgufDtype::Q4_1 => DequantRoute::Q4_1,
        GgufDtype::Q8_0 => DequantRoute::Q8_0,
        GgufDtype::Q2_K => DequantRoute::Q2K,
        GgufDtype::Q3_K => DequantRoute::Q3K,
        GgufDtype::Q4_K => DequantRoute::Q4K,
        GgufDtype::Q5_K => DequantRoute::Q5K,
        GgufDtype::Q6_K => DequantRoute::Q6K,
        GgufDtype::Q8_K => DequantRoute::Q8K,
        GgufDtype::I8 | GgufDtype::I16 | GgufDtype::I32 | GgufDtype::I64 => DequantRoute::PassThrough,
        GgufDtype::Unknown(_) => DequantRoute::UnknownDtype,
        _ => DequantRoute::Unsupported,
    }
}

/// Whether the route's size formula takes six thirty-seconds of the count.
pub open spec fn uses_six_32nds(route: DequantRoute) -> bool {
    route is Q2K || route is Q3K || route is Q4K || route is Q5K || route is Q8K
}

/// Stored bytes the dequantizer of a route requires for `n` elements: for
/// Q4_0 and Q4_1, whole 32-element blocks of 18 and 20 bytes plus a partial
/// block of its scale(s) and packed nibbles; for Q8_0, 34 bytes per started
/// 32-element block; for the K family, a fixed formula per layout. The
/// other routes check nothing.
pub open spec fn required_stored_bytes(route: DequantRoute, n: nat) -> nat {
    let rem = n % 32;
    match route {
        DequantRoute::Q4_0 => (n / 32) * 18 + if rem > 0 { 2 + (rem + 1) / 2 } else { 0 },
        DequantRoute::Q4_1 => (n / 32) * 20 + if rem > 0 { 4 + (rem + 1) / 2 } else { 0 },
        DequantRoute::Q8_0 => ((n + 31) / 32) * 34,
        DequantRoute::Q2K => n / 4 + (n * 6) / 32 + 8,
        DequantRoute::Q3K => n / 8 + (n * 6) / 32 + 16,
        DequantRoute::Q4K => n / 4 + (n * 6) / 32 + 48,
        DequantRoute::Q5K => n / 4 + (n * 6) / 32 + 64,
        DequantRoute::Q6K => n / 2 + n / 4 + 256,
        DequantRoute::Q8K => n / 2 + (n * 6) / 32 + 256,
        _ => 0,
    }
}

/// Whether computing the required size overflows a machine word: six times
/// the count past `u64` for the K-family formulas that use it, or the Q8_0
/// total past `usize`.
pub open spec fn size_overflows(route: DequantRoute, n: nat) -> bool {
    ||| uses_six_32nds(route) && n * 6 > u64::MAX
    ||| route is Q8_0 && required_stored_bytes(route, n) > usize::MAX
}

/// The stored bytes a route's dequantizer requires for `element_count`
/// elements, or `None` where computing it overflows.
pub fn required_bytes(route: DequantRoute, element_count: usize) -> (r: Option<usize>)
    ensures
        r is None <==> size_overflows(route, element_count as nat),
        r matches Some(x) ==> x == required_stored_bytes(route, element_count as nat),
{
    let n = element_count;
    let n64 = element_count as u64;
    let rem = n % 32;
    if uses_six(route) && n64 > 0x2AAA_AAAA_AAAA_AAAAu64 {
        return None;
    }
    let six: u64 = if uses_six(route) { n64 * 6 / 32 } else { 0 };
    proof {
        assert(n / 32 * 18 <= n) by (nonlinear_arith);
        assert(n / 32 * 20 <= n) by (nonlinear_arith);
        assert(rem < 32);
        if uses_six_32nds(route) {
            assert(six == (n * 6) / 32);
            assert(six <= n) by (nonlinear_arith)
                requires six == (n * 6) / 32;
        }
    }
    match route {
        DequantRoute::Q4_0 => Some(n / 32 * 18 + if rem > 0 { 2 + (rem + 1) / 2 } else { 0 }),
        DequantRoute::Q4_1 => Some(n / 32 * 20 + if rem > 0 { 4 + (rem + 1) / 2 } else { 0 }),
        DequantRoute::Q8_0 => {
            let blocks = n / 32 + if rem > 0 { 1 } else { 0 };
            proof {
                assert(blocks == (n + 31) / 32);
            }
            if blocks > usize::MAX / 34 {
                proof {
                    assert(blocks * 34 > usize::MAX) by (nonlinear_arith)
                        requires blocks > usize::MAX / 34;
                }
                None
            } else {
                proof {
                    assert(blocks * 34 <= usize::MAX) by (nonlinear_arith)
                        requires blocks <= usize::MAX / 34;
                }
                Some(blocks * 34)
            }
        },
        DequantRoute::Q2K => Some(n / 4 + six as usize + 8),
        DequantRoute::Q3K => Some(n / 8 + six as usize + 16),
        DequantRoute::Q4K => Some(n / 4 + six as usize + 48),
        DequantRoute::Q5K => Some(n / 4 + six as usize + 64),
        DequantRoute::Q6K => Some(n / 2 + n / 4 + 256),
        DequantRoute::Q8K => Some(n / 2 + six as usize + 256),
        _ => Some(0),
    }
}

fn uses_six(route: DequantRoute) -> (r: bool)
    ensures
        r == uses_six_32nds(route),
{
    match route {
        DequantRoute::Q2K | DequantRoute::Q3K | DequantRoute::Q4K | DequantRoute::Q5K
        | DequantRoute::Q8K => true,
        _ => false,
    }
}

/// Law: a Q8_0 tensor of `n` elements is stored in exactly the bytes its
/// dequantizer requires, 34 per started block of 32 elements; Q4_0 and Q4_1
/// tensors are stored in at least the bytes theirs require, exactly those
/// for whole blocks (18 and 20 bytes per 32 elements).
pub proof fn lemma_stored_size_meets_dequantizer(n: nat)
    ensures
        stored_bytes(n, GgufDtype::Q8_0) == ((n + 31) / 32) * 34,
        stored_bytes(n, GgufDtype::Q8_0) == required_stored_bytes(DequantRoute::Q8_0, n),
        stored_bytes(n, GgufDtype::Q4_0) >= required_stored_bytes(DequantRoute::Q4_0, n),
        stored_bytes(n, GgufDtype::Q4_1) >= required_stored_bytes(DequantRoute::Q4_1, n),
        n % 32 == 0 ==> stored_bytes(n, GgufDtype::Q4_0) == (n / 32) * 18 && stored_bytes(
            n,
            GgufDtype::Q4_0,
        ) == required_stored_bytes(DequantRoute::Q4_0, n),
        n % 32 == 0 ==> stored_bytes(n, GgufDtype::Q4_1) == (n / 32) * 20 && stored_bytes(
            n,
            GgufDtype::Q4_1,
        ) == required_stored_bytes(DequantRoute::Q4_1, n),
{
    let q = n / 32;
    let rem = n % 32;
    assert(n == q * 32 + rem);
    if rem == 0 {
        assert((n + 31) / 32 == q);
    } else {
        assert((n + 31) / 32 == q + 1);
    }
}

/// Law: each ggml block is its scales followed by its packed weights: for
/// the 32-element blocks a 2-byte scale (two for the offset kinds `_1`),
/// the fifth bits for the 5-bit kinds, and 4 or 8 bits per weight; for the
/// 256-element K blocks their sub-block scales and 2- to 8-bit weights.
pub proof fn lemma_block_layouts_are_scales_and_weights()
    ensures
        block_layout(GgufDtype::Q4_0) == Some((32nat, 2nat + 32nat * 4nat / 8nat)),
        block_layout(GgufDtype::Q4_1) == Some((32nat, 2nat + 2nat + 32nat * 4nat / 8nat)),
        block_layout(GgufDtype::Q5_0) == Some((32nat, 2nat + 32nat / 8nat + 32nat * 4nat / 8nat)),
        block_layout(GgufDtype::Q5_1) == Some((32nat, 2nat + 2nat + 32nat / 8nat + 32nat * 4nat / 8nat)),
        block_layout(GgufDtype::Q8_0) == Some((32nat, 2nat + 32nat * 8nat / 8nat)),
        block_layout(GgufDtype::Q8_1) == Some((32nat, 2nat + 2nat + 32nat * 8nat / 8nat)),
        block_layout(GgufDtype::Q2_K) == Some((256nat, 256nat / 16nat + 256nat * 2nat / 8nat + 2nat + 2nat)),
        block_layout(GgufDtype::Q3_K) == Some((256nat, 256nat / 8nat + 256nat * 2nat / 8nat + 12nat + 2nat)),
        block_layout(GgufDtype::Q4_K) == Some((256nat, 2nat + 2nat + 12nat + 256nat * 4nat / 8nat)),
        block_layout(GgufDtype::Q5_K) == Some((256nat, 2nat + 2nat + 12nat + 256nat / 8nat + 256nat * 4nat / 8nat)),
        block_layout(GgufDtype::Q6_K) == Some((256nat, 256nat * 4nat / 8nat + 256nat * 2nat / 8nat + 256nat / 16nat + 2nat)),
        block_layout(GgufDtype::Q8_K) == Some((256nat, 4nat + 256nat * 8nat / 8nat + 256nat / 16nat * 2nat)),
{
}

} // verus!
