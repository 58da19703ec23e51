use std::str::FromStr;

use pesti::error::RunnerError;
use pesti::gguf_parser::{compute_data_section_start, parse_gguf_reader};
use pesti::gguf_types::{GgufKvPair, GgufKvValue, GgufTensorInfo, GgufValueType};
use pesti::tokenizer::{
    load_tokenizer_from_gguf, tokenizer_config_from_header, GgufTokenizerConfig, Tokenizer,
};

fn word_level() -> tokenizers::Tokenizer {
    let json = r#"{
        "version": "1.0",
        "truncation": null,
        "padding": null,
        "added_tokens": [],
        "normalizer": null,
        "pre_tokenizer": {"type": "Whitespace"},
        "post_processor": null,
        "decoder": null,
        "model": {
            "type": "WordLevel",
            "vocab": {"hello": 0, "world": 1, "[UNK]": 2},
            "unk_token": "[UNK]"
        }
    }"#;
    tokenizers::Tokenizer::from_str(json).unwrap()
}

#[test]
fn tokenizer_new_sets_model_name() {
    let tok = Tokenizer::new("gpt2");
    assert_eq!(tok.model, "gpt2");
    assert!(tok.tokenizer.is_none());
}

#[test]
fn tokenizer_encode_without_init_fails() {
    let tok = Tokenizer::new("gpt2");
    let result = tok.encode("hello world");
    assert!(result.is_err());
    match result.unwrap_err() {
        RunnerError::Tokenizer(msg) => assert!(msg.contains("not initialized")),
        other => panic!("expected Tokenizer error, got {:?}", other),
    }
}

#[test]
fn tokenizer_decode_without_init_fails() {
    let tok = Tokenizer::new("gpt2");
    let result = tok.decode(&[1, 2, 3]);
    assert!(result.is_err());
    match result.unwrap_err() {
        RunnerError::Tokenizer(msg) => assert!(msg.contains("not initialized")),
        other => panic!("expected Tokenizer error, got {:?}", other),
    }
}

#[test]
fn tokenizer_token_count_without_init_fails() {
    let tok = Tokenizer::new("gpt2");
    let result = tok.token_count("hello world");
    assert!(result.is_err());
    match result.unwrap_err() {
        RunnerError::Tokenizer(msg) => assert!(msg.contains("not initialized")),
        other => panic!("expected Tokenizer error, got {:?}", other),
    }
}

#[test]
fn tokenizer_init_bpe_gpt2_succeeds() {
    let mut tokenizer = Tokenizer::new("gpt2");
    let result = tokenizer.init_bpe();
    assert!(result.is_ok());
}

#[test]
fn tokenizer_init_bpe_unknown_model_fails() {
    let mut tokenizer = Tokenizer::new("unknown-model-xyz");
    let result = tokenizer.init_bpe();
    assert!(result.is_err());
}

#[test]
fn tokenizer_encode_decode_without_init_fails() {
    let tokenizer = Tokenizer::new("gpt2");
    assert!(tokenizer.encode("hello").is_err());
    assert!(tokenizer.decode(&[1, 2, 3]).is_err());
    assert!(tokenizer.token_count("hello").is_err());
}

#[test]
fn init_bpe_unknown_model_message_names_the_model() {
    let mut tokenizer = Tokenizer::new("unknown-model-xyz");
    match tokenizer.init_bpe() {
        Err(RunnerError::Tokenizer(msg)) => {
            assert_eq!(msg, "No tokenizer found for model unknown-model-xyz")
        }
        other => panic!("expected Tokenizer error, got {:?}", other),
    }
    assert!(tokenizer.tokenizer.is_none());
    assert_eq!(tokenizer.model, "unknown-model-xyz");
}

#[test]
fn loaded_tokenizer_encodes_decodes_and_counts() {
    let mut tok = Tokenizer::new("words");
    tok.tokenizer = Some(word_level());
    assert_eq!(tok.encode("hello world hello").unwrap(), vec![0, 1, 0]);
    assert_eq!(tok.token_count("world hello").unwrap(), 2);
    assert_eq!(tok.decode(&[1, 0]).unwrap(), "world hello");
}

fn kv_pair_str(key: &str, value: &str) -> GgufKvPair {
    GgufKvPair {
        key: key.to_string(),
        value_type: GgufValueType::String,
        value: GgufKvValue::String(value.to_string()),
    }
}

fn kv_pair_u32(key: &str, value: u32) -> GgufKvPair {
    GgufKvPair {
        key: key.to_string(),
        value_type: GgufValueType::Uint32,
        value: GgufKvValue::Uint32(value),
    }
}

fn kv_pair_bool(key: &str, value: bool) -> GgufKvPair {
    GgufKvPair { key: key.to_string(), value_type: GgufValueType::Bool, value: GgufKvValue::Bool(value) }
}

fn write_kv_value(buf: &mut Vec<u8>, value: &GgufKvValue) {
    match value {
        GgufKvValue::Uint32(v) => buf.extend_from_slice(&v.to_le_bytes()),
        GgufKvValue::Bool(v) => buf.push(*v as u8),
        GgufKvValue::String(s) => {
            buf.extend_from_slice(&(s.len() as u64).to_le_bytes());
            buf.extend_from_slice(s.as_bytes());
        }
        other => panic!("value not used in these files: {:?}", other),
    }
}

/// A version 3 GGUF file with the given metadata and one F32 tensor of four
/// elements.
fn gguf_bytes(kv_pairs: &[GgufKvPair]) -> Vec<u8> {
    let tensor_info = GgufTensorInfo { name: "test.weight".to_string(), shape: vec![4u64], offset: 0, dtype: 0u32 };
    let data_section_start = compute_data_section_start(3, kv_pairs, &[tensor_info.clone()], None);

    let mut buf = Vec::new();
    buf.extend_from_slice(b"GGUF");
    buf.extend_from_slice(&3u32.to_le_bytes());
    buf.extend_from_slice(&1u64.to_le_bytes());
    buf.extend_from_slice(&(kv_pairs.len() as u64).to_le_bytes());
    for kv in kv_pairs {
        let key_bytes = kv.key.as_bytes();
        buf.extend_from_slice(&(key_bytes.len() as u64).to_le_bytes());
        buf.extend_from_slice(key_bytes);
        buf.extend_from_slice(&kv.value_type.to_u32().to_le_bytes());
        write_kv_value(&mut buf, &kv.value);
    }
    let name_bytes = tensor_info.name.as_bytes();
    buf.extend_from_slice(&(name_bytes.len() as u64).to_le_bytes());
    buf.extend_from_slice(name_bytes);
    buf.extend_from_slice(&(tensor_info.shape.len() as u32).to_le_bytes());
    for dim in &tensor_info.shape {
        buf.extend_from_slice(&dim.to_le_bytes());
    }
    buf.extend_from_slice(&tensor_info.dtype.to_le_bytes());
    buf.extend_from_slice(&tensor_info.offset.to_le_bytes());
    buf.resize((data_section_start + 16) as usize, 0);
    buf
}

fn make_test_gguf_with_vocab() -> Vec<u8> {
    gguf_bytes(&[
        kv_pair_str("general.architecture", "llama"),
        kv_pair_str("tokenizer.ggml.model", "llama"),
        kv_pair_u32("tokenizer.ggml.tokens", 5),
        kv_pair_u32("tokenizer.ggml.bos_token_id", 1),
    ])
}

#[test]
fn tokenizer_config_from_gguf_header() {
    let bytes = make_test_gguf_with_vocab();
    let header = parse_gguf_reader(&bytes).unwrap();

    let config = GgufTokenizerConfig::from_gguf_header(&header);
    assert_eq!(config.model_type, "llama");
    assert_eq!(config.vocab_size, 5);
}

#[test]
fn tokenizer_config_from_header_no_vocab() {
    let bytes = make_test_gguf_with_vocab();
    let header = parse_gguf_reader(&bytes).unwrap();

    let config = tokenizer_config_from_header(&header);
    assert_eq!(config.model_type, "llama");
    assert!(config.pre_tokenizer_type.is_none());
}

#[test]
fn tokenizer_config_reads_tokens_and_flags() {
    let bytes = gguf_bytes(&[
        kv_pair_str("tokenizer.ggml.pre", "default"),
        kv_pair_u32("tokenizer.ggml.length", 3),
        kv_pair_str("tokenizer.ggml.tokens.0", "<unk>"),
        kv_pair_str("tokenizer.ggml.tokens.2", "</s>"),
        kv_pair_str("tokenizer.ggml.tokens.3", "beyond"),
        kv_pair_u32("tokenizer.ggml.bos_token_id", 1),
        kv_pair_u32("tokenizer.ggml.eos_token_id", 2),
        kv_pair_bool("tokenizer.ggml.add_bos_token", true),
    ]);
    let config = load_tokenizer_from_gguf(&bytes).unwrap();
    // no model type and no vocabulary recorded: the defaults
    assert_eq!(config.model_type, "llama");
    assert_eq!(config.vocab_size, 32000);
    assert_eq!(config.pre_tokenizer_type.as_deref(), Some("default"));
    assert_eq!(config.post_processor_type, None);
    assert_eq!(config.pattern, None);
    // ids below the count that have text; id 3 is past the count
    assert_eq!(config.added_tokens.len(), 2);
    assert_eq!(config.added_tokens.get(&0).map(String::as_str), Some("<unk>"));
    assert_eq!(config.added_tokens.get(&2).map(String::as_str), Some("</s>"));
    assert_eq!(config.bos_token_id, Some(1));
    assert_eq!(config.eos_token_id, Some(2));
    assert_eq!(config.unk_token_id, None);
    assert_eq!(config.add_bos_token, Some(true));
    assert_eq!(config.add_eos_token, None);
    // BOS names no token; EOS does
    assert_eq!(config.special_tokens(), vec!["</s>".to_string()]);
    assert!(config.is_plain_token_id(0));
    assert!(!config.is_plain_token_id(1));
    assert!(!config.is_plain_token_id(2));
    assert!(config.is_plain_token_id(3));
}

#[test]
fn tokenizer_config_vocab_size_from_token_list() {
    let header_bytes = gguf_bytes(&[kv_pair_str("tokenizer.ggml.model", "gpt2")]);
    let mut header = parse_gguf_reader(&header_bytes).unwrap();
    header.kv_pairs.push(GgufKvPair {
        key: "tokenizer.ggml.tokens".to_string(),
        value_type: GgufValueType::Array,
        value: GgufKvValue::Array(vec![
            GgufKvValue::String("a".to_string()),
            GgufKvValue::String("b".to_string()),
            GgufKvValue::String("c".to_string()),
        ]),
    });
    let config = GgufTokenizerConfig::from_gguf_header(&header);
    assert_eq!(config.model_type, "gpt2");
    assert_eq!(config.vocab_size, 3);
    // a token list is no count of ids to read
    assert!(config.added_tokens.is_empty());
}

#[test]
fn tokenizer_config_of_a_bad_file_is_a_tokenizer_error() {
    match load_tokenizer_from_gguf(b"NOPE\x03\x00\x00\x00") {
        Err(RunnerError::Tokenizer(msg)) => assert!(msg.starts_with("invalid magic number")),
        other => panic!("expected a tokenizer error, got {:?}", other.map(|c| c.model_type)),
    }
}
