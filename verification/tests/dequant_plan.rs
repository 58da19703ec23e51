use pesti::dequant_plan::{dequant_route, required_bytes, DequantRoute};

#[test]
fn dtype_codes_take_their_conversion() {
    assert_eq!(dequant_route(0), DequantRoute::PassThrough);
    assert_eq!(dequant_route(1), DequantRoute::WidenHalf);
    assert_eq!(dequant_route(30), DequantRoute::WidenBf16);
    assert_eq!(dequant_route(2), DequantRoute::Q4_0);
    assert_eq!(dequant_route(3), DequantRoute::Q4_1);
    assert_eq!(dequant_route(8), DequantRoute::Q8_0);
    assert_eq!(dequant_route(10), DequantRoute::Q2K);
    assert_eq!(dequant_route(11), DequantRoute::Q3K);
    assert_eq!(dequant_route(12), DequantRoute::Q4K);
    assert_eq!(dequant_route(13), DequantRoute::Q5K);
    assert_eq!(dequant_route(14), DequantRoute::Q6K);
    assert_eq!(dequant_route(15), DequantRoute::Q8K);
    for code in [24u32, 25, 26, 27] {
        assert_eq!(dequant_route(code), DequantRoute::PassThrough);
    }
    // named, but not converted here
    assert_eq!(dequant_route(6), DequantRoute::Unsupported);
    assert_eq!(dequant_route(28), DequantRoute::Unsupported);
    assert_eq!(dequant_route(99), DequantRoute::UnknownDtype);
}

#[test]
fn block_sizes_required_before_dequantizing() {
    assert_eq!(required_bytes(DequantRoute::Q4_0, 64), Some(36));
    assert_eq!(required_bytes(DequantRoute::Q4_0, 33), Some(21));
    assert_eq!(required_bytes(DequantRoute::Q4_1, 40), Some(28));
    assert_eq!(required_bytes(DequantRoute::Q8_0, 33), Some(68));
    assert_eq!(required_bytes(DequantRoute::Q8_0, 32), Some(34));
    assert_eq!(required_bytes(DequantRoute::Q2K, 256), Some(120));
    assert_eq!(required_bytes(DequantRoute::Q3K, 256), Some(96));
    assert_eq!(required_bytes(DequantRoute::Q4K, 256), Some(160));
    assert_eq!(required_bytes(DequantRoute::Q5K, 256), Some(176));
    assert_eq!(required_bytes(DequantRoute::Q6K, 256), Some(448));
    assert_eq!(required_bytes(DequantRoute::Q8K, 256), Some(432));
    assert_eq!(required_bytes(DequantRoute::PassThrough, 100), Some(0));
    assert_eq!(required_bytes(DequantRoute::WidenHalf, 100), Some(0));
}

#[test]
fn size_arithmetic_overflow_is_reported() {
    assert_eq!(required_bytes(DequantRoute::Q8K, usize::MAX), None);
    assert_eq!(required_bytes(DequantRoute::Q8_0, usize::MAX), None);
    assert_eq!(
        required_bytes(DequantRoute::Q6K, usize::MAX),
        Some(usize::MAX / 2 + usize::MAX / 4 + 256)
    );
    assert_eq!(required_bytes(DequantRoute::Q4_0, usize::MAX), Some(usize::MAX / 32 * 18 + 2 + 16));
}
