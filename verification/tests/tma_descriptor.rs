use pesti::tma_descriptor::TmaDescriptor;

#[test]
fn descriptor_new_is_zeroed() {
    let desc = TmaDescriptor::new();
    assert_eq!(desc.as_u128(), 0);
}

#[test]
fn descriptor_gmem_addr() {
    let addr: u64 = 0x1234_5678;
    let desc = TmaDescriptor::new().with_gmem_addr(addr);
    assert_eq!(desc.gmem_addr(), addr);
}

#[test]
fn descriptor_gmem_addr_max() {
    let addr: u64 = 0xFFFF_FFFF;
    let desc = TmaDescriptor::new().with_gmem_addr(addr);
    assert_eq!(desc.gmem_addr(), addr);
}

#[test]
fn descriptor_gmem_addr_small() {
    let addr: u64 = 0x100;
    let desc = TmaDescriptor::new().with_gmem_addr(addr);
    assert_eq!(desc.gmem_addr(), addr);
}

#[test]
fn descriptor_gmem_addr_truncates_upper_bits() {
    let addr: u64 = 0x1234_5678_9ABC_DEF0;
    let desc = TmaDescriptor::new().with_gmem_addr(addr);
    assert_eq!(desc.gmem_addr(), 0x9ABC_DEF0);
}

#[test]
fn descriptor_with_box() {
    let desc = TmaDescriptor::new().with_box(64, 128, 128, 256, 128, 128);
    let words = desc.as_u32_words();

    assert_eq!(words[0] & 0xFFFFFFFF, 0u32);
    assert_eq!(words[1] & 0xFFFF, 64u32);
    assert_eq!((words[1] >> 16) & 0xFF, 128u32);
    assert_eq!((words[1] >> 24) & 0xFF, 128u32);
    assert_eq!(words[2] & 0xFFFF, 256u32);
    assert_eq!((words[2] >> 16) & 0xFFFF, 128u32);
}

#[test]
fn descriptor_with_element_info() {
    let desc = TmaDescriptor::new().with_element_info(1);
    let words = desc.as_u32_words();
    assert_eq!((words[3] >> 16) & 0xF, 1u32);
}

#[test]
fn descriptor_with_descriptor_type() {
    let desc = TmaDescriptor::new().with_descriptor_type(1);
    let words = desc.as_u32_words();
    assert_eq!((words[2] >> 8) & 0xFF, 1u32);
}

#[test]
fn descriptor_with_smem_config() {
    let desc = TmaDescriptor::new().with_smem_config(0);
    let words = desc.as_u32_words();
    assert_eq!((words[3] >> 8) & 0xF, 0u32);
}

#[test]
fn descriptor_with_cache_hint() {
    let desc = TmaDescriptor::new().with_cache_hint(0);
    let words = desc.as_u32_words();
    assert_eq!((words[3] >> 26) & 0x3, 0u32);
}

#[test]
fn descriptor_from_words_roundtrip() {
    let words = [1, 2, 3, 4];
    let desc = TmaDescriptor::from_u32_words(words);
    assert_eq!(desc.as_u32_words(), words);
}

#[test]
fn descriptor_clone_copy() {
    let desc = TmaDescriptor::new()
        .with_gmem_addr(0x1000)
        .with_box(64, 128, 128, 256, 128, 128);
    let dup = desc;
    assert_eq!(dup.gmem_addr(), desc.gmem_addr());
    assert_eq!(dup.as_u32_words()[0] & 0xFFFF, desc.as_u32_words()[0] & 0xFFFF);
    assert_eq!(dup.as_u32_words()[1], desc.as_u32_words()[1]);
}

// ── further cases ──

// The X strides live in word 1, bits 16..31, where `descriptor_with_box`
// reads them; word 0 holds the global address only.
#[test]
fn descriptor_with_box_saturates_large_stride() {
    let desc = TmaDescriptor::new().with_box(64, 500, 500, 256, 128, 128);
    let words = desc.as_u32_words();

    assert_eq!((words[1] >> 16) & 0xFF, 255u32);
    assert_eq!((words[1] >> 24) & 0xFF, 255u32);
    assert_eq!(words[0], 0u32);
}

// Word 0 is the address field and keeps 0x2000; box_x and box_y sit at the
// low halves of words 1 and 2, as in `descriptor_with_box`. The descriptor
// type shares word 2's second byte with the upper byte of box_y, so box_y
// 512 (0x200) and type 1 read back there as 3.
#[test]
fn descriptor_full_chain() {
    let addr: u64 = 0x2000;
    let desc = TmaDescriptor::new()
        .with_gmem_addr(addr)
        .with_box(64, 128, 128, 512, 128, 128)
        .with_element_info(1)
        .with_descriptor_type(1)
        .with_smem_config(0)
        .with_cache_hint(0);

    assert_eq!(desc.gmem_addr(), addr);
    let words = desc.as_u32_words();
    assert_eq!(words[0], 0x2000u32);
    assert_eq!(words[1] & 0xFFFF, 64u32);
    assert_eq!(words[2] & 0xFF, 0u32);
    assert_eq!((words[2] >> 8) & 0xFF, 3u32);
    assert_eq!((words[3] >> 16) & 0xF, 1u32);
}

#[test]
fn setters_leave_the_address_alone() {
    let desc = TmaDescriptor::new()
        .with_gmem_addr(0x2000)
        .with_box(64, 128, 128, 512, 128, 128)
        .with_element_info(1)
        .with_descriptor_type(1)
        .with_smem_config(3)
        .with_cache_hint(2);
    assert_eq!(desc.gmem_addr(), 0x2000);
    let words = desc.as_u32_words();
    assert_eq!(words[1] & 0xFFFF, 64);
    assert_eq!((words[3] >> 8) & 0xFF, 3);
    assert_eq!((words[3] >> 26) & 0x3, 2);
    assert_eq!((words[3] >> 16) & 0xF, 1);
}

#[test]
fn words_split_and_join() {
    let v: u128 = 0x0123_4567_89AB_CDEF_FEDC_BA98_7654_3210;
    let desc = TmaDescriptor(v);
    let words = desc.as_u32_words();
    assert_eq!(words, [0x7654_3210, 0xFEDC_BA98, 0x89AB_CDEF, 0x0123_4567]);
    assert_eq!(TmaDescriptor::from_u32_words(words).as_u128(), v);
    assert_eq!(TmaDescriptor::default().as_u128(), 0);
}
