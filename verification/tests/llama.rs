use pesti::llama::{AttentionType, KvCacheType, LlamaRunnerBuilder, PoolingType, RopeScalingType};
use pesti::pesti_llama::{KvCacheType as RunnerKvCacheType, ModelInfo};

#[test]
fn runner_builder_defaults() {
    let b = LlamaRunnerBuilder::new("/models/m.gguf");
    assert_eq!(b.model_path(), "/models/m.gguf");
    assert_eq!(b.context_size(), 4096);
    assert_eq!(b.batch_size(), 512);
    assert_eq!(b.ubatch_size(), 512);
    assert_eq!(b.thread_count(), 0);
    assert_eq!(b.seed_value(), 42);
    assert_eq!(b.cache_type(), KvCacheType::F32);
    assert_eq!(b.gpu_layers(), -1);
}

#[test]
fn runner_builder_setters() {
    let b = LlamaRunnerBuilder::new("m")
        .n_ctx(8192)
        .n_batch(256)
        .n_ubatch(128)
        .n_threads(8)
        .seed(7)
        .kv_cache_type(KvCacheType::F16)
        .n_gpu_layers(20);
    assert_eq!(b.context_size(), 8192);
    assert_eq!(b.batch_size(), 256);
    assert_eq!(b.ubatch_size(), 128);
    assert_eq!(b.thread_count(), 8);
    assert_eq!(b.seed_value(), 7);
    assert_eq!(b.cache_type(), KvCacheType::F16);
    assert_eq!(b.gpu_layers(), 20);
}

#[test]
fn context_option_defaults() {
    assert_eq!(AttentionType::default(), AttentionType::Auto);
    assert_eq!(PoolingType::default(), PoolingType::NoPooling);
    assert_eq!(RopeScalingType::default(), RopeScalingType::NoScaling);
    assert_eq!(RunnerKvCacheType::default(), RunnerKvCacheType::F32);
}

#[test]
fn model_info_gqa() {
    let mut info = ModelInfo {
        n_params: 8_000_000_000,
        n_embd: 4096,
        n_layer: 32,
        n_head: 32,
        n_head_kv: 8,
        n_ctx_train: 8192,
        n_vocab: 128256,
        rope_type: "norm".to_string(),
        is_hybrid: false,
        is_recurrent: false,
        vocab_type: "bpe".to_string(),
    };
    assert!(info.has_gqa());
    info.n_head_kv = 32;
    assert!(!info.has_gqa());
}
