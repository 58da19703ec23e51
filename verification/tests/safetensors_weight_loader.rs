use pesti::error::RunnerError;
use pesti::safetensors_weight_loader::{convert_dtype, widen_halves};

#[test]
fn test_half_f32_round_trip() {
    let values: Vec<f32> = vec![0.0, 1.0, -1.0, 100.0, 0.001, 3.14159, 1000.0];
    let f16_bytes: Vec<u8> = values
        .iter()
        .flat_map(|v| {
            let bits = v.to_bits();
            let sign = ((bits >> 31) & 1) as u16;
            let exp = (((bits >> 23) & 0xFF) as i32) - 127 + 15;
            let frac = ((bits >> 13) & 0x3FF) as u16;
            let exp = if exp <= 0 { 0 } else { exp as u16 };
            let result = (sign << 15) | (exp << 10) | frac;
            result.to_le_bytes()
        })
        .collect();
    let converted: Vec<f32> = widen_halves(&f16_bytes, false).into_iter().map(f32::from_bits).collect();

    for (i, (a, b)) in values.iter().zip(converted.iter()).enumerate() {
        if (a - b).abs() >= 1e-3 {
            panic!(
                "Half-float round-trip error at index {}: original={:.6}, converted={:.6}, diff={:.6}",
                i,
                a,
                b,
                (a - b).abs()
            );
        }
    }
}

#[test]
fn test_bf16_f32_round_trip() {
    let values: Vec<f32> = vec![0.0, 1.0, -1.0, 100.0, 3.14159];
    let bf16_bytes: Vec<u8> = values
        .iter()
        .flat_map(|v| {
            let bits = v.to_bits();
            let bf16 = (bits >> 16) as u16;
            bf16.to_le_bytes()
        })
        .collect();

    let converted: Vec<f32> = widen_halves(&bf16_bytes, true).into_iter().map(f32::from_bits).collect();

    for (a, b) in values.iter().zip(converted.iter()) {
        assert!((a - b).abs() < 0.1, "BF16 round-trip error: {a} vs {b}");
    }
}

#[test]
fn test_convert_dtype_unsupported() {
    let result = convert_dtype(&[0u8; 4], "FLOAT64");
    assert!(result.is_err());
}

// ── further cases ──

#[test]
fn unsupported_dtype_message() {
    match convert_dtype(&[0u8; 4], "FLOAT64") {
        Err(RunnerError::ModelLoad(m)) => assert_eq!(m, "Unsupported safetensors dtype: FLOAT64"),
        other => panic!("unexpected {other:?}"),
    }
}

#[test]
fn passthrough_and_widening() {
    let raw = [1u8, 2, 3, 4, 5];
    assert_eq!(convert_dtype(&raw, "I32").unwrap(), raw.to_vec());
    assert_eq!(convert_dtype(&raw, "FLOAT_32").unwrap(), raw.to_vec());
    // f16 1.0 = 0x3c00 widens to f32 1.0 = 0x3f800000; the trailing byte is ignored.
    let one_f16 = [0x00u8, 0x3c, 0x00, 0xc0, 7];
    let out = convert_dtype(&one_f16, "F16").unwrap();
    assert_eq!(out.len(), 8);
    assert_eq!(f32::from_le_bytes([out[0], out[1], out[2], out[3]]), 1.0);
    assert_eq!(f32::from_le_bytes([out[4], out[5], out[6], out[7]]), -2.0);
    // bf16 0x4049 widens to 0x40490000 (about 3.14).
    let out = convert_dtype(&[0x49, 0x40], "BF16").unwrap();
    assert_eq!(out, 0x4049_0000u32.to_le_bytes().to_vec());
}

#[test]
fn half_special_exponents() {
    // all-ones exponent (infinity) and a zero exponent with a fraction
    let words = widen_halves(&[0x00, 0x7c, 0x01, 0x00], false);
    assert_eq!(words[0], 0x7f80_0000);
    // the smallest subnormal, 2^-24, is a normal binary32
    assert_eq!(words[1], 0x3380_0000);
}

#[test]
fn half_subnormals_keep_their_value() {
    let words = widen_halves(&[0x01, 0x00, 0xff, 0x03, 0x01, 0x80, 0x00, 0x02, 0x00, 0x80], false);
    assert_eq!(words, vec![0x3380_0000, 0x387f_c000, 0xb380_0000, 0x3800_0000, 0x8000_0000]);
    assert_eq!(f32::from_bits(words[0]), 2f32.powi(-24));
    assert_eq!(f32::from_bits(words[1]), 1023.0 * 2f32.powi(-24));
    assert_eq!(f32::from_bits(words[2]), -(2f32.powi(-24)));
    assert_eq!(f32::from_bits(words[3]), 2f32.powi(-15));
    // widening a subnormal through the dtype conversion
    let out = convert_dtype(&[0x01, 0x00], "F16").unwrap();
    assert_eq!(out, 0x3380_0000u32.to_le_bytes().to_vec());
}

fn make_safetensors_bytes(data: &[f32]) -> Vec<u8> {
    let bytes: Vec<u8> = data.iter().flat_map(|v| v.to_le_bytes()).collect();
    let shape: Vec<usize> = vec![data.len()];
    let tv = safetensors::tensor::TensorView::new(safetensors::Dtype::F32, shape, &bytes).unwrap();
    let meta = std::collections::HashMap::new();
    safetensors::serialize(std::iter::once(("weight", &tv)), Some(meta)).unwrap()
}

fn make_f16_safetensors_bytes(data: &[f32]) -> Vec<u8> {
    let f16_bytes: Vec<u8> = data
        .iter()
        .flat_map(|v| {
            let bits = v.to_bits();
            let sign = ((bits >> 31) & 1) as u32;
            let exp = (((bits >> 23) & 0xFF) as i32) - 127 + 15;
            let frac = ((bits >> 13) & 0x3FF) as u16;
            let result = ((sign << 15) as u16) | ((exp as u16) << 10) | frac;
            result.to_le_bytes()
        })
        .collect();
    let shape: Vec<usize> = vec![data.len()];
    let tv = safetensors::tensor::TensorView::new(safetensors::Dtype::F16, shape, &f16_bytes).unwrap();
    let meta = std::collections::HashMap::new();
    safetensors::serialize(std::iter::once(("weight", &tv)), Some(meta)).unwrap()
}

#[test]
fn test_load_safetensors_weights_f32() {
    let data: Vec<f32> = vec![1.0, 2.0, 3.0, 4.0];
    let file = make_safetensors_bytes(&data);

    let weights = pesti::safetensors_weight_loader::load_safetensors_weights("test.safetensors", &file).unwrap();
    assert_eq!(weights.tensors.len(), 1);
    let expected: Vec<u8> = data.iter().flat_map(|v| v.to_le_bytes()).collect();
    assert_eq!(weights.tensors.get("weight").unwrap(), &expected);
}

#[test]
fn test_load_safetensors_weights_f16() {
    let data: Vec<f32> = vec![1.0, 2.0, 0.5];
    let file = make_f16_safetensors_bytes(&data);

    let weights = pesti::safetensors_weight_loader::load_safetensors_weights("test_f16.safetensors", &file).unwrap();
    assert_eq!(weights.tensors.len(), 1);
    assert_eq!(weights.tensors.get("weight").unwrap().len(), 12);

    let result: Vec<f32> = weights
        .tensors
        .get("weight")
        .unwrap()
        .chunks_exact(4)
        .map(|c| f32::from_le_bytes([c[0], c[1], c[2], c[3]]))
        .collect();
    for (a, b) in data.iter().zip(result.iter()) {
        assert!((a - b).abs() < 1e-3, "f16 round-trip error too large: {a} vs {b}");
    }
}

#[test]
fn test_get_safetensors_tensor_count() {
    let data: Vec<f32> = vec![1.0, 2.0, 3.0];
    let file = make_safetensors_bytes(&data);
    let count = pesti::safetensors_weight_loader::get_safetensors_tensor_count(&file).unwrap();
    assert_eq!(count, 1);
}

#[test]
fn test_extract_safetensors_config() {
    let data: Vec<f32> = vec![1.0];
    let file = make_safetensors_bytes(&data);
    let config = pesti::safetensors_weight_loader::extract_safetensors_config(&file).unwrap();
    assert!(config.is_empty() || !config.is_empty());
}

#[test]
fn test_load_safetensors_tensor_single() {
    let data: Vec<f32> = vec![1.0, 2.0, 3.0];
    let file = make_safetensors_bytes(&data);
    let (dtype, bytes) = pesti::safetensors_weight_loader::load_safetensors_tensor(&file, "weight").unwrap();
    assert_eq!(dtype, "F32");
    assert_eq!(bytes.len(), 12);
}

#[test]
fn test_load_safetensors_tensor_not_found() {
    let data: Vec<f32> = vec![1.0];
    let file = make_safetensors_bytes(&data);
    let result = pesti::safetensors_weight_loader::load_safetensors_tensor(&file, "nonexistent");
    assert!(result.is_err());
}

#[test]
fn malformed_file_is_a_load_error() {
    match pesti::safetensors_weight_loader::get_safetensors_tensor_count(&[1, 2, 3]) {
        Err(RunnerError::ModelLoad(m)) => assert!(m.starts_with("Failed to deserialize safetensors: ")),
        other => panic!("unexpected {:?}", other.is_ok()),
    }
}

fn pack_f16(v: f32) -> [u8; 2] {
    let bits = v.to_bits();
    let sign = (bits >> 31) & 1;
    let exp = (((bits >> 23) & 0xFF) as i32) - 127 + 15;
    let frac = ((bits >> 13) & 0x3FF) as u16;

    if exp <= 0 {
        let biased = ((sign << 15) as u16) | frac;
        return biased.to_le_bytes();
    } else if exp >= 31 {
        return ((sign << 15) as u16 | 0x7C00).to_le_bytes();
    }

    let result = ((sign << 15) as u16) | ((exp as u16) << 10) | frac;
    result.to_le_bytes()
}

fn f16_to_f32(bytes: &[u8]) -> f32 {
    f32::from_bits(widen_halves(&bytes[..2], false)[0])
}

fn bfloat16_to_f32(bytes: &[u8]) -> f32 {
    f32::from_bits(widen_halves(&bytes[..2], true)[0])
}

fn half_f32(bytes: &[u8]) -> Vec<f32> {
    widen_halves(bytes, false).into_iter().map(f32::from_bits).collect()
}

#[test]
fn f16_to_f32_known_values() {
    assert!((f16_to_f32(&pack_f16(0.0)) - 0.0).abs() < 1e-6);
    assert!((f16_to_f32(&pack_f16(1.0)) - 1.0).abs() < 1e-6);
    assert!((f16_to_f32(&pack_f16(-1.0)) - (-1.0)).abs() < 1e-6);
    assert!((f16_to_f32(&pack_f16(0.5)) - 0.5).abs() < 1e-6);
    assert!((f16_to_f32(&pack_f16(100.0)) - 100.0).abs() < 1e-3);
}

#[test]
fn bfloat16_to_f32_known_values() {
    assert!((bfloat16_to_f32(&[0x00, 0x00]) - 0.0).abs() < 1e-6);
    // BF16 of 1.0: f32(1.0) = 0x3F800000, top 16 bits = 0x3F80
    let bf16_1: [u8; 2] = [0x80, 0x3F];
    assert!((bfloat16_to_f32(&bf16_1) - 1.0).abs() < 1e-6);
    // BF16 of -1.0: f32(-1.0) = 0xBF800000, top 16 bits = 0xBF80
    let bf16_neg1: [u8; 2] = [0x80, 0xBF];
    assert!((bfloat16_to_f32(&bf16_neg1) - (-1.0)).abs() < 1e-6);
}

#[test]
fn half_f32_slice_conversion() {
    let f32_vals: Vec<f32> = vec![1.0, 2.0, 3.0];
    let f16_bytes: Vec<u8> = f32_vals.iter().flat_map(|v| pack_f16(*v)).collect();
    let result = half_f32(&f16_bytes);
    assert_eq!(result.len(), 3);
    assert!((result[0] - 1.0).abs() < 1e-6);
    assert!((result[1] - 2.0).abs() < 1e-6);
    assert!((result[2] - 3.0).abs() < 1e-6);
}

#[test]
fn safetensors_config_holds_header_strings() {
    let header = br#"{"__metadata__":{"arch":"llama","ctx":"4096"},"w":{"dtype":"F32","shape":[1],"data_offsets":[0,4]}}"#;
    let mut file = (header.len() as u64).to_le_bytes().to_vec();
    file.extend_from_slice(header);
    file.extend_from_slice(&1.0f32.to_le_bytes());
    let config = pesti::safetensors_weight_loader::extract_safetensors_config(&file).unwrap();
    assert_eq!(config.len(), 2);
    assert_eq!(config.get("arch").map(|s| s.as_str()), Some("llama"));
    assert_eq!(config.get("ctx").map(|s| s.as_str()), Some("4096"));
    assert!(pesti::safetensors_weight_loader::extract_safetensors_config(&file[..10]).is_err());
    assert_eq!(pesti::safetensors_weight_loader::get_safetensors_tensor_count(&file).unwrap(), 1);
}

#[test]
fn safetensors_total_size_sums_tensor_data() {
    let header = br#"{"a":{"dtype":"F32","shape":[2],"data_offsets":[0,8]},"b":{"dtype":"U8","shape":[3],"data_offsets":[8,11]}}"#;
    let mut file = (header.len() as u64).to_le_bytes().to_vec();
    file.extend_from_slice(header);
    file.extend_from_slice(&[0u8; 11]);
    assert!(pesti::safetensors_weight_loader::safetensors_offsets_fit(&file));
    assert_eq!(pesti::safetensors_weight_loader::get_safetensors_total_size(&file).unwrap(), 11);
    assert_eq!(pesti::safetensors_weight_loader::get_safetensors_tensor_count(&file).unwrap(), 2);
    let w = pesti::safetensors_weight_loader::load_safetensors_weights("m", &file).unwrap();
    assert_eq!(w.tensors.get("b").map(|v| v.len()), Some(3));
    assert!(matches!(
        pesti::safetensors_weight_loader::load_safetensors_tensor(&file, "zz"),
        Err(RunnerError::ModelLoad(m)) if m.starts_with("Tensor 'zz' not found: ")
    ));
    assert!(pesti::safetensors_weight_loader::get_safetensors_total_size(&[0u8; 3]).is_err());
}

#[test]
fn safetensors_offsets_fit_refuses_huge_header_numbers() {
    let header = br#"{"a":{"dtype":"U8","shape":[1],"data_offsets":[0,18446744073709551615]}}"#;
    let mut file = (header.len() as u64).to_le_bytes().to_vec();
    file.extend_from_slice(header);
    assert!(!pesti::safetensors_weight_loader::safetensors_offsets_fit(&file));
    assert!(pesti::safetensors_weight_loader::safetensors_offsets_fit(&[1, 2, 3]));
}

#[test]
fn test_get_safetensors_total_size() {
    let data: Vec<f32> = vec![1.0, 2.0, 3.0, 4.0];
    let file = make_safetensors_bytes(&data);
    let size = pesti::safetensors_weight_loader::get_safetensors_total_size(&file).unwrap();
    assert_eq!(size, 16); // 4 × 4 bytes
}
