use pesti::gguf_parser::{
    compute_data_section_start, extract_tensor_bytes_from, extract_tensor_bytes_with_header,
    parse_gguf_reader, tensor_bytes_for_dtype, GgufError,
};
use pesti::gguf_types::{
    GgufDtype, GgufHeader, GgufKvPair, GgufKvValue, GgufTensorInfo, GgufValueType, GgufVersion,
};

fn make_v3_header() -> GgufHeader {
    let kv_pairs = vec![
        GgufKvPair {
            key: "general.architecture".to_string(),
            value_type: GgufValueType::String,
            value: GgufKvValue::String("llama".to_string()),
        },
        GgufKvPair {
            key: "general.file_type".to_string(),
            value_type: GgufValueType::Uint32,
            value: GgufKvValue::Uint32(6),
        },
        GgufKvPair {
            key: "llama.context_length".to_string(),
            value_type: GgufValueType::Uint32,
            value: GgufKvValue::Uint32(4096),
        },
        GgufKvPair {
            key: "llama.embedding_length".to_string(),
            value_type: GgufValueType::Uint32,
            value: GgufKvValue::Uint32(4096),
        },
        GgufKvPair {
            key: "llama.block_count".to_string(),
            value_type: GgufValueType::Uint32,
            value: GgufKvValue::Uint32(32),
        },
        GgufKvPair {
            key: "llama.attention.head_count".to_string(),
            value_type: GgufValueType::Uint32,
            value: GgufKvValue::Uint32(32),
        },
        GgufKvPair {
            key: "llama.attention.head_count_kv".to_string(),
            value_type: GgufValueType::Uint32,
            value: GgufKvValue::Uint32(8),
        },
        GgufKvPair {
            key: "llama.rope.dimension_count".to_string(),
            value_type: GgufValueType::Int32,
            value: GgufKvValue::Int32(128),
        },
    ];
    let tensors = vec![
        GgufTensorInfo {
            name: "token_embd.weight".to_string(),
            shape: vec![4096],
            offset: 0,
            dtype: 1,
        },
        GgufTensorInfo {
            name: "blk.0.attn_k.weight".to_string(),
            shape: vec![4096, 4096],
            offset: 67108864,
            dtype: 1,
        },
        GgufTensorInfo {
            name: "blk.0.attn_output.weight".to_string(),
            shape: vec![4096, 4096],
            offset: 134217728,
            dtype: 1,
        },
    ];
    let data_section_start = compute_data_section_start(3, &kv_pairs, &tensors, Some(32));

    GgufHeader {
        version: 3,
        kv_pairs,
        tensors,
        data_alignment: Some(32),
        data_section_start,
    }
}

#[test]
fn test_get_kv_str() {
    let header = make_v3_header();
    assert_eq!(header.get_kv_str("general.architecture"), Some("llama"));
    assert!(header.get_kv_str("nonexistent").is_none());
}

#[test]
fn test_get_kv_u32() {
    let header = make_v3_header();
    assert_eq!(header.get_kv_u32("general.file_type"), Some(6));
    assert_eq!(header.get_kv_u32("llama.context_length"), Some(4096));
    assert!(header.get_kv_u32("nonexistent").is_none());
}

#[test]
fn test_get_kv_i32() {
    let header = make_v3_header();
    assert_eq!(header.get_kv_i32("llama.rope.dimension_count"), Some(128));
    assert!(header.get_kv_i32("nonexistent").is_none());
}

#[test]
fn test_get_kv_array() {
    let header = make_v3_header();
    assert!(header.get_kv_array("nonexistent").is_none());
}

#[test]
fn test_to_config_map() {
    let header = make_v3_header();
    let map = header.to_config_map();
    assert_eq!(map.len(), 8);
    assert!(map.contains_key("general.architecture"));
    assert_eq!(map.get("general.architecture").unwrap().as_str(), Some("llama"));
}

#[test]
fn test_gguf_type_e2e() {
    let header = make_v3_header();
    let config = header.to_config_map();
    let arch = config.get("general.architecture").unwrap();
    assert_eq!(arch.as_str(), Some("llama"));
    let ctx = config.get("llama.context_length").unwrap();
    assert_eq!(ctx.as_u32(), Some(4096));
}

#[test]
fn test_architecture_helper() {
    let header = make_v3_header();
    assert_eq!(header.architecture(), Some("llama"));
}

#[test]
fn test_context_length_helper() {
    let header = make_v3_header();
    assert_eq!(header.context_length(), Some(4096));
}

#[test]
fn test_embedding_length_helper() {
    let header = make_v3_header();
    assert_eq!(header.embedding_length(), Some(4096));
}

#[test]
fn test_block_count_helper() {
    let header = make_v3_header();
    assert_eq!(header.block_count(), Some(32));
}

#[test]
fn test_attention_head_count_helpers() {
    let header = make_v3_header();
    assert_eq!(header.attention_head_count(), Some(32));
    assert_eq!(header.attention_head_count_kv(), Some(8));
}

#[test]
fn test_rope_dimension_count_helper() {
    let header = make_v3_header();
    assert_eq!(header.rope_dimension_count(), Some(128));
}

#[test]
fn test_file_type_helper() {
    let header = make_v3_header();
    assert_eq!(header.file_type(), Some("6".to_string()));
}

#[test]
fn test_tensor_helpers() {
    let header = make_v3_header();
    assert!(header.has_tensor("token_embd.weight"));
    assert!(!header.has_tensor("nonexistent"));
    let tensor = header.get_tensor("token_embd.weight").unwrap();
    assert_eq!(tensor.element_count(), 4096);
    assert_eq!(tensor.ndims(), 1);
}

#[test]
fn test_total_tensor_bytes_f32() {
    let header = make_v3_header();
    let expected = 4096 + (4096 * 4096) + (4096 * 4096);
    assert_eq!(header.total_tensor_bytes_f32(), expected);
}

fn push_str_field(buf: &mut Vec<u8>, s: &str) {
    buf.extend_from_slice(&(s.len() as u64).to_le_bytes());
    buf.extend_from_slice(s.as_bytes());
}

fn make_minimal_gguf_v3_bytes() -> Vec<u8> {
    let mut buf = Vec::new();
    buf.extend_from_slice(b"GGUF");
    buf.extend_from_slice(&3u32.to_le_bytes());
    buf.extend_from_slice(&2u64.to_le_bytes());
    buf.extend_from_slice(&3u64.to_le_bytes());

    push_str_field(&mut buf, "general.architecture");
    buf.extend_from_slice(&(10u32).to_le_bytes());
    buf.extend_from_slice(&(5u64).to_le_bytes());
    buf.extend_from_slice(b"llama");

    push_str_field(&mut buf, "general.file_type");
    buf.extend_from_slice(&(4u32).to_le_bytes());
    buf.extend_from_slice(&1u32.to_le_bytes());

    push_str_field(&mut buf, "general.alignment");
    buf.extend_from_slice(&(4u32).to_le_bytes());
    buf.extend_from_slice(&32u32.to_le_bytes());

    push_str_field(&mut buf, "token_embd.weight");
    buf.extend_from_slice(&1u32.to_le_bytes());
    buf.extend_from_slice(&4096u64.to_le_bytes());
    buf.extend_from_slice(&1u32.to_le_bytes());
    buf.extend_from_slice(&0u64.to_le_bytes());

    push_str_field(&mut buf, "output.weight");
    buf.extend_from_slice(&2u32.to_le_bytes());
    buf.extend_from_slice(&4096u64.to_le_bytes());
    buf.extend_from_slice(&32000u64.to_le_bytes());
    buf.extend_from_slice(&1u32.to_le_bytes());
    buf.extend_from_slice(&(4096 * 2u64).to_le_bytes());

    buf
}

#[test]
fn test_parse_minimal_gguf_v3() {
    let bytes = make_minimal_gguf_v3_bytes();
    let header = parse_gguf_reader(&bytes).unwrap();

    assert_eq!(header.version, 3);
    assert_eq!(header.data_alignment, Some(32));
    assert_eq!(header.kv_pairs.len(), 3);
    assert_eq!(header.tensors.len(), 2);

    assert_eq!(header.architecture(), Some("llama"));
    assert_eq!(header.get_kv_u32("general.file_type"), Some(1));
}

#[test]
fn test_parse_invalid_magic() {
    let bytes = vec![b'B', b'G', b'G', b'M', 3, 0, 0, 0, 0, 0, 0, 0, 0, 0, 0, 0];
    let result = parse_gguf_reader(&bytes);
    assert!(result.is_err());
    match result.unwrap_err() {
        GgufError::InvalidMagic(_) => {}
        other => panic!("expected InvalidMagic, got {other:?}"),
    }
}

#[test]
fn test_parse_unsupported_version() {
    let mut bytes = vec![b'G', b'G', b'U', b'F'];
    bytes.extend_from_slice(&99u32.to_le_bytes());
    let result = parse_gguf_reader(&bytes);
    assert!(result.is_err());
    match result.unwrap_err() {
        GgufError::UnsupportedVersion(99) => {}
        other => panic!("expected UnsupportedVersion(99), got {other:?}"),
    }
}

#[test]
fn test_extract_tensor_bytes_from_cursor() {
    let bytes = make_minimal_gguf_v3_bytes();
    let data = extract_tensor_bytes_from(&bytes, 0, 16).unwrap();
    assert_eq!(data.len(), 16);
}

#[test]
fn test_dtype_roundtrip() {
    for v in 0..=29u32 {
        let dtype = GgufDtype::from_u32(v);
        assert_eq!(dtype.to_u32(), v);
    }
    assert_eq!(GgufDtype::from_u32(100).to_u32(), 100);
}

#[test]
fn test_dtype_quantized_check() {
    assert!(!GgufDtype::F32.is_quantized());
    assert!(!GgufDtype::F16.is_quantized());
    assert!(GgufDtype::Q4_0.is_quantized());
    assert!(GgufDtype::Q8_0.is_quantized());
    assert!(GgufDtype::Q2_K.is_quantized());
    assert!(!GgufDtype::I8.is_quantized());
    assert!(!GgufDtype::I32.is_quantized());
}

#[test]
fn test_dtype_bytes_per_element() {
    assert_eq!(GgufDtype::F32.bytes_per_element(), 4);
    assert_eq!(GgufDtype::F16.bytes_per_element(), 2);
    assert_eq!(GgufDtype::I8.bytes_per_element(), 1);
    assert_eq!(GgufDtype::I32.bytes_per_element(), 4);
    assert_eq!(GgufDtype::I64.bytes_per_element(), 8);
    assert_eq!(GgufDtype::F64.bytes_per_element(), 8);
    assert_eq!(GgufDtype::BF16.bytes_per_element(), 2);
    assert_eq!(GgufDtype::Q8_0.bytes_per_element(), 2);
    assert_eq!(GgufDtype::Q4_0.bytes_per_element(), 0);
    assert_eq!(GgufDtype::Unknown(99).bytes_per_element(), 0);
}

#[test]
fn test_tensor_bytes_for_dtype() {
    assert_eq!(tensor_bytes_for_dtype(4096, GgufDtype::F32), 4096 * 4);
    assert_eq!(tensor_bytes_for_dtype(4096, GgufDtype::F16), 4096 * 2);
    assert_eq!(tensor_bytes_for_dtype(100, GgufDtype::I8), 100);
}

fn make_minimal_gguf_v1_bytes() -> Vec<u8> {
    let mut buf = Vec::new();
    buf.extend_from_slice(b"GGUF");
    buf.extend_from_slice(&1u32.to_le_bytes());
    buf.extend_from_slice(&1u64.to_le_bytes());
    buf.extend_from_slice(&1u64.to_le_bytes());

    push_str_field(&mut buf, "general.architecture");
    buf.extend_from_slice(&(10u32).to_le_bytes());
    buf.extend_from_slice(&(5u64).to_le_bytes());
    buf.extend_from_slice(b"llama");

    push_str_field(&mut buf, "token_embd.weight");
    buf.extend_from_slice(&1u32.to_le_bytes());
    buf.extend_from_slice(&4096u64.to_le_bytes());
    buf.extend_from_slice(&1u32.to_le_bytes());
    buf.extend_from_slice(&0u64.to_le_bytes());

    buf
}

fn make_minimal_gguf_v2_bytes() -> Vec<u8> {
    let mut buf = Vec::new();
    buf.extend_from_slice(b"GGUF");
    buf.extend_from_slice(&2u32.to_le_bytes());
    buf.extend_from_slice(&1u64.to_le_bytes());
    buf.extend_from_slice(&1u64.to_le_bytes());

    push_str_field(&mut buf, "general.architecture");
    buf.extend_from_slice(&(10u32).to_le_bytes());
    buf.extend_from_slice(&(5u64).to_le_bytes());
    buf.extend_from_slice(b"qwen2");

    push_str_field(&mut buf, "token_embd.weight");
    buf.extend_from_slice(&1u32.to_le_bytes());
    buf.extend_from_slice(&4096u64.to_le_bytes());
    buf.extend_from_slice(&1u32.to_le_bytes());
    buf.extend_from_slice(&0u64.to_le_bytes());

    buf
}

#[test]
fn test_parse_minimal_gguf_v1() {
    let bytes = make_minimal_gguf_v1_bytes();
    let header = parse_gguf_reader(&bytes).unwrap();

    assert_eq!(header.version, 1);
    assert_eq!(header.data_alignment, None);
    assert_eq!(header.kv_pairs.len(), 1);
    assert_eq!(header.tensors.len(), 1);
    assert_eq!(header.architecture(), Some("llama"));
    assert_eq!(header.data_section_start, 118);
}

#[test]
fn test_parse_minimal_gguf_v2() {
    let bytes = make_minimal_gguf_v2_bytes();
    let header = parse_gguf_reader(&bytes).unwrap();

    assert_eq!(header.version, 2);
    assert_eq!(header.data_alignment, None);
    assert_eq!(header.kv_pairs.len(), 1);
    assert_eq!(header.tensors.len(), 1);
    assert_eq!(header.architecture(), Some("qwen2"));
}

#[test]
fn test_parse_gguf_v1_v2_v3_data_section_alignment() {
    let v1 = make_minimal_gguf_v1_bytes();
    let h1 = parse_gguf_reader(&v1).unwrap();

    let v2 = make_minimal_gguf_v2_bytes();
    let h2 = parse_gguf_reader(&v2).unwrap();

    let v3 = make_minimal_gguf_v3_bytes();
    let h3 = parse_gguf_reader(&v3).unwrap();

    assert_eq!(h1.data_section_start, h2.data_section_start);
    assert!(h3.data_section_start >= h1.data_section_start);
    assert_eq!(h3.data_alignment, Some(32));
}

#[test]
fn test_kv_pair_raw_byte_size() {
    let kv = GgufKvPair {
        key: "test".to_string(),
        value_type: GgufValueType::Uint32,
        value: GgufKvValue::Uint32(42),
    };
    assert_eq!(kv.raw_byte_size(), 8 + 4 + 4 + 4);

    let str_kv = GgufKvPair {
        key: "arch".to_string(),
        value_type: GgufValueType::String,
        value: GgufKvValue::String("llama".to_string()),
    };
    assert_eq!(str_kv.raw_byte_size(), 8 + 4 + 4 + 8 + 5);
}

#[test]
fn test_tensor_stored_size_f32() {
    let info = GgufTensorInfo {
        name: "test".to_string(),
        shape: vec![100, 200],
        offset: 0,
        dtype: 0,
    };
    assert_eq!(info.stored_size(), 100 * 200 * 4);
}

#[test]
fn test_tensor_stored_size_f16() {
    let info = GgufTensorInfo {
        name: "test".to_string(),
        shape: vec![100, 200],
        offset: 0,
        dtype: 1,
    };
    assert_eq!(info.stored_size(), 100 * 200 * 2);
}

#[test]
fn test_tensor_stored_size_q4_0() {
    let info = GgufTensorInfo {
        name: "test".to_string(),
        shape: vec![256],
        offset: 0,
        dtype: 2,
    };
    assert_eq!(info.stored_size(), 144);
}

#[test]
fn test_tensor_stored_size_q4_0_partial() {
    let info = GgufTensorInfo {
        name: "test".to_string(),
        shape: vec![32],
        offset: 0,
        dtype: 2,
    };
    assert_eq!(info.stored_size(), 18);
}

#[test]
fn test_gguf_header_get_tensor() {
    let header = make_v3_header();
    let tensor = header.get_tensor("token_embd.weight").unwrap();
    assert_eq!(tensor.name, "token_embd.weight");
    assert_eq!(tensor.shape, vec![4096u64]);
    assert_eq!(tensor.element_count(), 4096);
    assert!(header.has_tensor("blk.0.attn_k.weight"));
    assert!(!header.has_tensor("nonexistent"));
}

#[test]
fn test_gguf_header_helpers_comprehensive() {
    let header = make_v3_header();
    assert_eq!(header.architecture(), Some("llama"));
    assert_eq!(header.context_length(), Some(4096));
    assert_eq!(header.embedding_length(), Some(4096));
    assert_eq!(header.block_count(), Some(32));
    assert_eq!(header.attention_head_count(), Some(32));
    assert_eq!(header.attention_head_count_kv(), Some(8));
    assert_eq!(header.rope_dimension_count(), Some(128));
    assert_eq!(header.file_type(), Some("6".to_string()));
}

#[test]
fn test_value_type_name() {
    assert_eq!(GgufKvValue::Uint8(1).type_label(), "u8");
    assert_eq!(GgufKvValue::String("test".to_string()).type_label(), "str");
    assert_eq!(GgufKvValue::Bool(true).type_label(), "bool");
    assert_eq!(GgufKvValue::Float32(1.0f32.to_bits()).type_label(), "f32");
    assert_eq!(GgufKvValue::Array(vec![]).type_label(), "array");
    assert_eq!(GgufKvValue::Bfloat16(1.0f32.to_bits()).type_label(), "bf16");
}

#[test]
fn test_gguf_version_from_u32_and_to_u32() {
    assert_eq!(GgufVersion::from_u32(1), Some(GgufVersion::V1));
    assert_eq!(GgufVersion::from_u32(2), Some(GgufVersion::V2));
    assert_eq!(GgufVersion::from_u32(3), Some(GgufVersion::V3));
    assert_eq!(GgufVersion::from_u32(4), None);

    assert_eq!(GgufVersion::V1.to_u32(), 1);
    assert_eq!(GgufVersion::V2.to_u32(), 2);
    assert_eq!(GgufVersion::V3.to_u32(), 3);
}

#[test]
fn test_extract_tensor_bytes_with_header() {
    let header = make_v3_header();
    let tensor = header.get_tensor("token_embd.weight").unwrap();
    let file_offset = header.data_section_start + tensor.offset;
    assert!(file_offset > 0 || header.data_section_start > 0);
}

#[test]
fn test_compute_data_section_start_v3_aligned() {
    let kv_pairs: Vec<GgufKvPair> = vec![];
    let tensors: Vec<GgufTensorInfo> = vec![];
    let start = compute_data_section_start(3, &kv_pairs, &tensors, Some(32));
    assert_eq!(start % 32, 0);
}

#[test]
fn test_compute_data_section_start_v3_not_aligned() {
    let kv_pairs = vec![GgufKvPair {
        key: "x".to_string(),
        value_type: GgufValueType::Uint32,
        value: GgufKvValue::Uint32(1),
    }];
    let tensors: Vec<GgufTensorInfo> = vec![];
    let start = compute_data_section_start(3, &kv_pairs, &tensors, Some(32));
    assert_eq!(start % 32, 0);
}

// ── further cases ──

#[test]
fn data_section_starts_after_metadata_v3() {
    // Prefix 24, pairs 45 + 33 + 33, tensors 49 + 53: metadata ends at 237,
    // the next multiple of 32 is 256.
    let bytes = make_minimal_gguf_v3_bytes();
    let header = parse_gguf_reader(&bytes).unwrap();
    assert_eq!(header.data_section_start, 256);
    assert_eq!(header.data_section_start % 32, 0);
}

#[test]
fn truncated_magic_is_an_io_error() {
    let result = parse_gguf_reader(b"GG");
    match result {
        Err(GgufError::Io(m)) => assert_eq!(m, "read 4 bytes: failed to fill whole buffer"),
        other => panic!("unexpected {other:?}"),
    }
}

#[test]
fn invalid_magic_message_shows_bytes() {
    let bytes = vec![b'B', b'G', b'G', b'M', 3, 0, 0, 0];
    match parse_gguf_reader(&bytes) {
        Err(GgufError::InvalidMagic(m)) => assert_eq!(m, "expected GGUF, got BGGM"),
        other => panic!("unexpected {other:?}"),
    }
}

#[test]
fn truncated_version_is_a_binary_error() {
    match parse_gguf_reader(b"GGUF\x03\x00") {
        Err(GgufError::Binary(m)) => assert_eq!(m, "failed to fill whole buffer"),
        other => panic!("unexpected {other:?}"),
    }
}

#[test]
fn invalid_value_type_is_reported() {
    let mut buf = Vec::new();
    buf.extend_from_slice(b"GGUF");
    buf.extend_from_slice(&2u32.to_le_bytes());
    buf.extend_from_slice(&0u64.to_le_bytes());
    buf.extend_from_slice(&1u64.to_le_bytes());
    push_str_field(&mut buf, "k");
    buf.extend_from_slice(&99u32.to_le_bytes());
    match parse_gguf_reader(&buf) {
        Err(GgufError::InvalidValueType(99)) => {}
        other => panic!("unexpected {other:?}"),
    }
}

#[test]
fn overlong_string_is_refused() {
    let mut buf = Vec::new();
    buf.extend_from_slice(b"GGUF");
    buf.extend_from_slice(&2u32.to_le_bytes());
    buf.extend_from_slice(&0u64.to_le_bytes());
    buf.extend_from_slice(&1u64.to_le_bytes());
    buf.extend_from_slice(&(2_000_000u64).to_le_bytes());
    match parse_gguf_reader(&buf) {
        Err(GgufError::Io(m)) => assert_eq!(m, "string length 2000000 exceeds max 1MB"),
        other => panic!("unexpected {other:?}"),
    }
}

#[test]
fn short_string_is_a_read_failure() {
    let mut buf = Vec::new();
    buf.extend_from_slice(b"GGUF");
    buf.extend_from_slice(&2u32.to_le_bytes());
    buf.extend_from_slice(&0u64.to_le_bytes());
    buf.extend_from_slice(&1u64.to_le_bytes());
    buf.extend_from_slice(&(10u64).to_le_bytes());
    buf.extend_from_slice(b"abc");
    match parse_gguf_reader(&buf) {
        Err(GgufError::Io(m)) => assert_eq!(m, "read 10 bytes: failed to fill whole buffer"),
        other => panic!("unexpected {other:?}"),
    }
}

#[test]
fn invalid_utf8_key_is_reported() {
    let mut buf = Vec::new();
    buf.extend_from_slice(b"GGUF");
    buf.extend_from_slice(&2u32.to_le_bytes());
    buf.extend_from_slice(&0u64.to_le_bytes());
    buf.extend_from_slice(&1u64.to_le_bytes());
    buf.extend_from_slice(&(2u64).to_le_bytes());
    buf.extend_from_slice(&[0xff, 0xfe]);
    match parse_gguf_reader(&buf) {
        Err(GgufError::Utf8(b)) => assert_eq!(b, vec![0xff, 0xfe]),
        other => panic!("unexpected {other:?}"),
    }
}

#[test]
fn arrays_and_bfloat16_values_parse() {
    let mut buf = Vec::new();
    buf.extend_from_slice(b"GGUF");
    buf.extend_from_slice(&3u32.to_le_bytes());
    buf.extend_from_slice(&0u64.to_le_bytes());
    buf.extend_from_slice(&3u64.to_le_bytes());
    // an array of two u16
    push_str_field(&mut buf, "a");
    buf.extend_from_slice(&11u32.to_le_bytes());
    buf.extend_from_slice(&2u32.to_le_bytes());
    buf.extend_from_slice(&2u64.to_le_bytes());
    buf.extend_from_slice(&7u16.to_le_bytes());
    buf.extend_from_slice(&9u16.to_le_bytes());
    // an array of three bytes, in the u8-array element form
    push_str_field(&mut buf, "b");
    buf.extend_from_slice(&11u32.to_le_bytes());
    buf.extend_from_slice(&14u32.to_le_bytes());
    buf.extend_from_slice(&3u64.to_le_bytes());
    buf.extend_from_slice(&[1, 2, 3]);
    // a bfloat16 1.0
    push_str_field(&mut buf, "c");
    buf.extend_from_slice(&15u32.to_le_bytes());
    buf.extend_from_slice(&0x3f80u16.to_le_bytes());
    let header = parse_gguf_reader(&buf).unwrap();
    match &header.kv_pairs[0].value {
        GgufKvValue::Array(vs) => {
            assert_eq!(vs.len(), 2);
            assert_eq!(vs[0].as_u64(), Some(7));
            assert_eq!(vs[1].as_u64(), Some(9));
        }
        other => panic!("unexpected {other:?}"),
    }
    match &header.kv_pairs[1].value {
        GgufKvValue::Uint8Array(b) => assert_eq!(b, &vec![1, 2, 3]),
        other => panic!("unexpected {other:?}"),
    }
    match &header.kv_pairs[2].value {
        GgufKvValue::Bfloat16(bits) => assert_eq!(f32::from_bits(*bits), 1.0),
        other => panic!("unexpected {other:?}"),
    }
    // metadata: 24 + (8+1+4+12+4) + (8+1+4+12+3) + (8+1+4+2) = 96, already aligned to 32
    assert_eq!(header.kv_pairs[0].raw_byte_size(), 29);
    assert_eq!(header.kv_pairs[1].raw_byte_size(), 28);
    assert_eq!(header.kv_pairs[2].raw_byte_size(), 15);
    assert_eq!(header.data_section_start, 96);
}

#[test]
fn extract_reports_short_reads() {
    let data = vec![1u8, 2, 3, 4, 5];
    assert_eq!(extract_tensor_bytes_from(&data, 1, 3).unwrap(), vec![2, 3, 4]);
    match extract_tensor_bytes_from(&data, 4, 2) {
        Err(GgufError::Io(m)) => {
            assert_eq!(m, "read 2 bytes at offset 4: failed to fill whole buffer")
        }
        other => panic!("unexpected {other:?}"),
    }
}

#[test]
fn extract_with_header_reads_at_data_section_plus_offset() {
    let mut bytes = make_minimal_gguf_v1_bytes();
    let header = parse_gguf_reader(&bytes).unwrap();
    let start = header.data_section_start as usize;
    bytes.resize(start + 8192, 0);
    bytes[start] = 0xab;
    let tensor = header.get_tensor("token_embd.weight").unwrap();
    let data = extract_tensor_bytes_with_header(&bytes, &header, tensor).unwrap();
    assert_eq!(data.len(), 8192);
    assert_eq!(data[0], 0xab);
}
