//! The 128-bit TMA global-cache read descriptor: the source of an
//! asynchronous global-to-shared memory copy, packed into one `u128`.
//!
//! Field layout, from bit 0:
//! - `[0, 32)`   global memory address offset
//! - `[32, 48)`  box X extent
//! - `[48, 56)`  global X stride (saturated at 255)
//! - `[56, 64)`  shared X stride (saturated at 255)
//! - `[64, 80)`  box Y extent
//! - `[72, 80)`  descriptor type (shares the upper byte of the Y extent)
//! - `[80, 96)`  global Y stride
//! - `[96, 112)` shared Y stride
//! - `[104, 112)` shared-memory configuration (shares the upper byte of the shared Y stride)
//! - `[112, 116)` element info
//! - `[122, 124)` cache hint
//!
//! Every `with_*` setter ORs its field into the descriptor, so fields are
//! meant to be set once on a zeroed descriptor.

use vstd::prelude::*;

verus! {

/// A 128-bit TMA descriptor.
#[derive(Debug, Clone, Copy, PartialEq, Eq, Structural)]
pub struct TmaDescriptor(pub u128);

/// `x` clamped to 255.
pub open spec fn saturate_255(x: u16) -> u16 {
    if x > 255 {
        255
    } else {
        x
    }
}

/// The four 32-bit words of a descriptor, least significant first.
pub open spec fn words_of(v: u128) -> Seq<u32> {
    seq![v as u32, (v >> 32u128) as u32, (v >> 64u128) as u32, (v >> 96u128) as u32]
}

/// The descriptor assembled from four words, least significant first.
pub open spec fn from_words(w0: u32, w1: u32, w2: u32, w3: u32) -> u128 {
    (w0 as u128) | ((w1 as u128) << 32u128) | ((w2 as u128) << 64u128) | ((w3 as u128) << 96u128)
}

/// The box field bits that `with_box` ORs in.
pub open spec fn box_bits(
    box_x: u16,
    gmem_x_stride: u16,
    smem_x_stride: u16,
    box_y: u16,
    gmem_y_stride: u16,
    smem_y_stride: u16,
) -> u128 {
    ((box_x as u128) << 32u128) | ((saturate_255(gmem_x_stride) as u128) << 48u128) | ((
    saturate_255(smem_x_stride) as u128) << 56u128) | ((box_y as u128) << 64u128) | ((
    gmem_y_stride as u128) << 80u128) | ((smem_y_stride as u128) << 96u128)
}

/// The bits `with_element_info` ORs in.
pub open spec fn element_info_bits(element_size: u8) -> u128 {
    ((element_size as u128) & 0xFu128) << 112u128
}

/// The bits `with_descriptor_type` ORs in.
pub open spec fn descriptor_type_bits(dtype: u8) -> u128 {
    (dtype as u128) << 72u128
}

/// The bits `with_smem_config` ORs in.
pub open spec fn smem_config_bits(config: u8) -> u128 {
    (config as u128) << 104u128
}

/// The bits `with_cache_hint` ORs in.
pub open spec fn cache_hint_bits(hint: u8) -> u128 {
    ((hint as u128) & 0x3u128) << 122u128
}

impl TmaDescriptor {
    /// A zeroed descriptor.
    pub fn new() -> (r: Self)
        ensures
            r.0 == 0,
    {
        TmaDescriptor(0u128)
    }

    /// The packed value.
    pub fn as_u128(&self) -> (r: u128)
        ensures
            r == self.0,
    {
        self.0
    }

    /// The four 32-bit words, least significant first.
    pub fn as_u32_words(&self) -> (r: [u32; 4])
        ensures
            r@ == words_of(self.0),
    {
        let v = self.0;
        let r = [v as u32, (v >> 32u128) as u32, (v >> 64u128) as u32, (v >> 96u128) as u32];
        proof {
            assert(r@ =~= words_of(self.0));
        }
        r
    }

    /// ORs in the global memory address offset: the low 32 bits of `addr`.
    pub fn with_gmem_addr(self, addr: u64) -> (r: Self)
        ensures
            r.0 == self.0 | ((addr as u128) & 0xFFFF_FFFFu128),
    {
        TmaDescriptor(self.0 | ((addr as u128) & 0xFFFF_FFFFu128))
    }

    /// The global memory address offset: the low 32 bits.
    pub fn gmem_addr(&self) -> (r: u64)
        ensures
            r == (self.0 & 0xFFFF_FFFFu128) as u64,
    {
        (self.0 & 0xFFFF_FFFFu128) as u64
    }

    /// ORs in the box extents and strides; the X strides saturate at 255.
    pub fn with_box(
        self,
        box_x: u16,
        gmem_x_stride: u16,
        smem_x_stride: u16,
        box_y: u16,
        gmem_y_stride: u16,
        smem_y_stride: u16,
    ) -> (r: Self)
        ensures
            r.0 == self.0 | box_bits(
                box_x,
                gmem_x_stride,
                smem_x_stride,
                box_y,
                gmem_y_stride,
                smem_y_stride,
            ),
    {
        let gmem_x: u16 = if gmem_x_stride > 255 {
            255
        } else {
            gmem_x_stride
        };
        let smem_x: u16 = if smem_x_stride > 255 {
            255
        } else {
            smem_x_stride
        };
        let bits = ((box_x as u128) << 32u128) | ((gmem_x as u128) << 48u128) | ((smem_x as u128)
            << 56u128) | ((box_y as u128) << 64u128) | ((gmem_y_stride as u128) << 80u128) | ((
        smem_y_stride as u128) << 96u128);
        TmaDescriptor(self.0 | bits)
    }

    /// ORs in the element info: the low four bits of `element_size`.
    pub fn with_element_info(self, element_size: u8) -> (r: Self)
        ensures
            r.0 == self.0 | element_info_bits(element_size),
    {
        TmaDescriptor(self.0 | (((element_size as u128) & 0xFu128) << 112u128))
    }

    /// ORs in the descriptor type at bit 72.
    pub fn with_descriptor_type(self, dtype: u8) -> (r: Self)
        ensures
            r.0 == self.0 | descriptor_type_bits(dtype),
    {
        TmaDescriptor(self.0 | ((dtype as u128) << 72u128))
    }

    /// ORs in the shared-memory configuration at bit 104.
    pub fn with_smem_config(self, config: u8) -> (r: Self)
        ensures
            r.0 == self.0 | smem_config_bits(config),
    {
        TmaDescriptor(self.0 | ((config as u128) << 104u128))
    }

    /// ORs in the cache hint: the low two bits of `hint`, at bit 122.
    pub fn with_cache_hint(self, hint: u8) -> (r: Self)
        ensures
            r.0 == self.0 | cache_hint_bits(hint),
    {
        TmaDescriptor(self.0 | (((hint as u128) & 0x3u128) << 122u128))
    }

    /// The descriptor with the given four words, least significant first.
    pub fn from_u32_words(words: [u32; 4]) -> (r: Self)
        ensures
            r.0 == from_words(words@[0], words@[1], words@[2], words@[3]),
    {
        TmaDescriptor(
            (words[0] as u128) | ((words[1] as u128) << 32u128) | ((words[2] as u128) << 64u128)
                | ((words[3] as u128) << 96u128),
        )
    }
}

impl Default for TmaDescriptor {
    fn default() -> (r: Self)
        ensures
            r.0 == 0,
    {
        TmaDescriptor::new()
    }
}

/// Splitting a descriptor into words and joining them gives it back, and
/// joining words then splitting gives the words back.
pub proof fn lemma_words_roundtrip(v: u128, w0: u32, w1: u32, w2: u32, w3: u32)
    ensures
        ({
            let w = words_of(v);
            from_words(w[0], w[1], w[2], w[3]) == v
        }),
        words_of(from_words(w0, w1, w2, w3)) == seq![w0, w1, w2, w3],
{
    assert(from_words(v as u32, (v >> 32u128) as u32, (v >> 64u128) as u32, (v >> 96u128) as u32)
        == v) by (bit_vector);
    let j = from_words(w0, w1, w2, w3);
    assert(j as u32 == w0 && (j >> 32u128) as u32 == w1 && (j >> 64u128) as u32 == w2 && (j
        >> 96u128) as u32 == w3) by (bit_vector)
        requires
            j == (w0 as u128) | ((w1 as u128) << 32u128) | ((w2 as u128) << 64u128) | ((w3 as u128)
                << 96u128),
    ;
    assert(words_of(j) =~= seq![w0, w1, w2, w3]);
}

/// The address a zeroed descriptor is given is read back, truncated to 32 bits.
pub proof fn lemma_gmem_addr_roundtrip(addr: u64)
    ensures
        (((0u128 | ((addr as u128) & 0xFFFF_FFFFu128)) & 0xFFFF_FFFFu128) as u64) == addr
            & 0xFFFF_FFFFu64,
{
    assert((((0u128 | ((addr as u128) & 0xFFFF_FFFFu128)) & 0xFFFF_FFFFu128) as u64) == addr
        & 0xFFFF_FFFFu64) by (bit_vector);
}

/// The box, element info, type, shared-memory configuration and cache hint
/// fields lie above the address field: setting them leaves the address as it was.
pub proof fn lemma_fields_keep_gmem_addr(
    v: u128,
    box_x: u16,
    gmem_x_stride: u16,
    smem_x_stride: u16,
    box_y: u16,
    gmem_y_stride: u16,
    smem_y_stride: u16,
    small: u8,
)
    ensures
        (v | box_bits(box_x, gmem_x_stride, smem_x_stride, box_y, gmem_y_stride, smem_y_stride))
            & 0xFFFF_FFFFu128 == v & 0xFFFF_FFFFu128,
        (v | (((small as u128) & 0xFu128) << 112u128)) & 0xFFFF_FFFFu128 == v & 0xFFFF_FFFFu128,
        (v | ((small as u128) << 72u128)) & 0xFFFF_FFFFu128 == v & 0xFFFF_FFFFu128,
        (v | ((small as u128) << 104u128)) & 0xFFFF_FFFFu128 == v & 0xFFFF_FFFFu128,
        (v | (((small as u128) & 0x3u128) << 122u128)) & 0xFFFF_FFFFu128 == v & 0xFFFF_FFFFu128,
{
    let gx = saturate_255(gmem_x_stride);
    let sx = saturate_255(smem_x_stride);
    assert((v | (((box_x as u128) << 32u128) | ((gx as u128) << 48u128) | ((sx as u128)
        << 56u128) | ((box_y as u128) << 64u128) | ((gmem_y_stride as u128) << 80u128) | ((
    smem_y_stride as u128) << 96u128))) & 0xFFFF_FFFFu128 == v & 0xFFFF_FFFFu128) by (bit_vector);
    assert((v | (((small as u128) & 0xFu128) << 112u128)) & 0xFFFF_FFFFu128 == v
        & 0xFFFF_FFFFu128) by (bit_vector);
    assert((v | ((small as u128) << 72u128)) & 0xFFFF_FFFFu128 == v & 0xFFFF_FFFFu128)
        by (bit_vector);
    assert((v | ((small as u128) << 104u128)) & 0xFFFF_FFFFu128 == v & 0xFFFF_FFFFu128)
        by (bit_vector);
    assert((v | (((small as u128) & 0x3u128) << 122u128)) & 0xFFFF_FFFFu128 == v
        & 0xFFFF_FFFFu128) by (bit_vector);
}

/// Law: every box field is read back from its own bit range of the bits
/// `with_box` sets: box X at 32, the X strides (clamped to 255) at 48 and 56,
/// box Y at 64, the global Y stride at 80 and the shared Y stride at 96;
/// nothing lands in the address field or above bit 112.
pub proof fn lemma_box_fields_read_back(bx: u16, gx: u16, sx: u16, by: u16, gy: u16, sy: u16)
    ensures
        ({
            let v = box_bits(bx, gx, sx, by, gy, sy);
            &&& v & 0xFFFF_FFFFu128 == 0
            &&& (v >> 32u128) & 0xFFFFu128 == bx as u128
            &&& (v >> 48u128) & 0xFFu128 == (if gx > 255 { 255u16 } else { gx }) as u128
            &&& (v >> 56u128) & 0xFFu128 == (if sx > 255 { 255u16 } else { sx }) as u128
            &&& (v >> 64u128) & 0xFFFFu128 == by as u128
            &&& (v >> 80u128) & 0xFFFFu128 == gy as u128
            &&& (v >> 96u128) & 0xFFFFu128 == sy as u128
            &&& v >> 112u128 == 0
        }),
{
    let g = saturate_255(gx);
    let s = saturate_255(sx);
    let v = box_bits(bx, gx, sx, by, gy, sy);
    assert({
        &&& v & 0xFFFF_FFFFu128 == 0
        &&& (v >> 32u128) & 0xFFFFu128 == bx as u128
        &&& (v >> 48u128) & 0xFFu128 == g as u128
        &&& (v >> 56u128) & 0xFFu128 == s as u128
        &&& (v >> 64u128) & 0xFFFFu128 == by as u128
        &&& (v >> 80u128) & 0xFFFFu128 == gy as u128
        &&& (v >> 96u128) & 0xFFFFu128 == sy as u128
        &&& v >> 112u128 == 0
    }) by (bit_vector)
        requires
            g <= 255,
            s <= 255,
            v == ((bx as u128) << 32u128) | ((g as u128) << 48u128) | ((s as u128) << 56u128) | ((
            by as u128) << 64u128) | ((gy as u128) << 80u128) | ((sy as u128) << 96u128),
    ;
}

/// Law: each small field is read back from its own bits of the descriptor's
/// words and sets nothing else: element info in bits 16..20 of word 3
/// (its low four bits), the descriptor type in bits 8..16 of word 2, the
/// shared-memory configuration in bits 8..16 of word 3, the cache hint in
/// bits 26..28 of word 3 (its low two bits).
pub proof fn lemma_small_fields_read_back(e: u8, t: u8, c: u8, h: u8)
    ensures
        words_of(element_info_bits(e)) == seq![0u32, 0u32, 0u32, ((e & 0xFu8) as u32) << 16u32],
        words_of(descriptor_type_bits(t)) == seq![0u32, 0u32, (t as u32) << 8u32, 0u32],
        words_of(smem_config_bits(c)) == seq![0u32, 0u32, 0u32, (c as u32) << 8u32],
        words_of(cache_hint_bits(h)) == seq![0u32, 0u32, 0u32, ((h & 0x3u8) as u32) << 26u32],
{
    let ve = element_info_bits(e);
    let vt = descriptor_type_bits(t);
    let vc = smem_config_bits(c);
    let vh = cache_hint_bits(h);
    assert({
        &&& ve as u32 == 0 && (ve >> 32u128) as u32 == 0 && (ve >> 64u128) as u32 == 0
        &&& (ve >> 96u128) as u32 == ((e & 0xFu8) as u32) << 16u32
        &&& vt as u32 == 0 && (vt >> 32u128) as u32 == 0 && (vt >> 96u128) as u32 == 0
        &&& (vt >> 64u128) as u32 == (t as u32) << 8u32
        &&& vc as u32 == 0 && (vc >> 32u128) as u32 == 0 && (vc >> 64u128) as u32 == 0
        &&& (vc >> 96u128) as u32 == (c as u32) << 8u32
        &&& vh as u32 == 0 && (vh >> 32u128) as u32 == 0 && (vh >> 64u128) as u32 == 0
        &&& (vh >> 96u128) as u32 == ((h & 0x3u8) as u32) << 26u32
    }) by (bit_vector)
        requires
            ve == ((e as u128) & 0xFu128) << 112u128,
            vt == (t as u128) << 72u128,
            vc == (c as u128) << 104u128,
            vh == ((h as u128) & 0x3u128) << 122u128,
    ;
    assert(words_of(ve) =~= seq![0u32, 0u32, 0u32, ((e & 0xFu8) as u32) << 16u32]);
    assert(words_of(vt) =~= seq![0u32, 0u32, (t as u32) << 8u32, 0u32]);
    assert(words_of(vc) =~= seq![0u32, 0u32, 0u32, (c as u32) << 8u32]);
    assert(words_of(vh) =~= seq![0u32, 0u32, 0u32, ((h & 0x3u8) as u32) << 26u32]);
}

} // verus!
