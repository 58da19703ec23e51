//! Facts about a loaded model and the KV cache element type of the pure-Rust
//! runner.

use vstd::prelude::*;

verus! {

/// Facts about a loaded model.
#[derive(Debug, Clone)]
pub struct ModelInfo {
    /// Parameter count.
    pub n_params: u64,
    /// Embedding dimension.
    pub n_embd: i32,
    /// Transformer layers.
    pub n_layer: i32,
    /// Attention heads.
    pub n_head: i32,
    /// Key/value heads (fewer than `n_head` under grouped-query attention).
    pub n_head_kv: i32,
    /// Training context length.
    pub n_ctx_train: u32,
    /// Vocabulary size.
    pub n_vocab: i32,
    pub rope_type: String,
    /// Whether the model runs on several backends.
    pub is_hybrid: bool,
    /// Whether the model is recurrent.
    pub is_recurrent: bool,
    pub vocab_type: String,
}

impl ModelInfo {
    /// Grouped-query attention: fewer (or more) key/value heads than heads.
    pub fn has_gqa(&self) -> (r: bool)
        ensures
            r == (self.n_head != self.n_head_kv),
    {
        self.n_head != self.n_head_kv
    }
}

/// Element type of the KV cache.
#[derive(Debug, Clone, Copy, PartialEq, Eq, Structural)]
pub enum KvCacheType {
    F32,
    F16,
}

impl Default for KvCacheType {
    fn default() -> (r: Self)
        ensures
            r == KvCacheType::F32,
    {
        KvCacheType::F32
    }
}

} // verus!
