//! Settings of a llama.cpp-backed runner: the builder's parameters and the
//! context option enums.

use vstd::prelude::*;

verus! {

/// Element type of the KV cache.
#[derive(Debug, Clone, Copy, PartialEq, Eq, Structural)]
pub enum KvCacheType {
    F32,
    F16,
}

impl Default for KvCacheType {
    fn default() -> (r: Self)
        ensures
            r == KvCacheType::F32,
    {
        KvCacheType::F32
    }
}

/// Attention type of a context.
#[derive(Debug, Clone, Copy, PartialEq, Eq, Structural)]
pub enum AttentionType {
    Auto,
    Causal,
    NonCausal,
    Pool,
}

impl Default for AttentionType {
    fn default() -> (r: Self)
        ensures
            r == AttentionType::Auto,
    {
        AttentionType::Auto
    }
}

/// Pooling of embeddings.
#[derive(Debug, Clone, Copy, PartialEq, Eq, Structural)]
pub enum PoolingType {
    /// No pooling.
    NoPooling,
    Mean,
    Cls,
}

impl Default for PoolingType {
    fn default() -> (r: Self)
        ensures
            r == PoolingType::NoPooling,
    {
        PoolingType::NoPooling
    }
}

/// RoPE scaling type.
#[derive(Debug, Clone, Copy, PartialEq, Eq, Structural)]
pub enum RopeScalingType {
    /// No scaling.
    NoScaling,
    Linear,
    Yarn,
    LongContext,
    FlashAttn,
    Any,
}

impl Default for RopeScalingType {
    fn default() -> (r: Self)
        ensures
            r == RopeScalingType::NoScaling,
    {
        RopeScalingType::NoScaling
    }
}

/// Parameters of a runner to build.
#[derive(Debug)]
pub struct LlamaRunnerBuilder {
    model_path: String,
    n_ctx: u32,
    n_batch: u32,
    n_ubatch: u32,
    n_threads: i32,
    seed: u32,
    kv_cache_type: KvCacheType,
    n_gpu_layers: i32,
}

/// Mathematical model of a runner builder.
pub struct LlamaRunnerBuilderView {
    pub model_path: Seq<char>,
    pub n_ctx: u32,
    pub n_batch: u32,
    pub n_ubatch: u32,
    pub n_threads: i32,
    pub seed: u32,
    pub kv_cache_type: KvCacheType,
    pub n_gpu_layers: i32,
}

impl View for LlamaRunnerBuilder {
    type V = LlamaRunnerBuilderView;

    closed spec fn view(&self) -> LlamaRunnerBuilderView {
        LlamaRunnerBuilderView {
            model_path: self.model_path@,
            n_ctx: self.n_ctx,
            n_batch: self.n_batch,
            n_ubatch: self.n_ubatch,
            n_threads: self.n_threads,
            seed: self.seed,
            kv_cache_type: self.kv_cache_type,
            n_gpu_layers: self.n_gpu_layers,
        }
    }
}

impl LlamaRunnerBuilder {
    /// Defaults: a 4096-token context, batches and micro-batches of 512,
    /// automatic thread count (0), seed 42, an `F32` KV cache and automatic
    /// GPU offload (-1).
    pub fn new(model_path: &str) -> (r: Self)
        ensures
            r@ == (LlamaRunnerBuilderView {
                model_path: model_path@,
                n_ctx: 4096,
                n_batch: 512,
                n_ubatch: 512,
                n_threads: 0,
                seed: 42,
                kv_cache_type: KvCacheType::F32,
                n_gpu_layers: -1i32,
            }),
    {
        LlamaRunnerBuilder {
            model_path: model_path.to_string(),
            n_ctx: 4096,
            n_batch: 512,
            n_ubatch: 512,
            n_threads: 0,
            seed: 42,
            kv_cache_type: KvCacheType::F32,
            n_gpu_layers: -1,
        }
    }

    /// Context size in tokens.
    pub fn n_ctx(self, n_ctx: u32) -> (r: Self)
        ensures
            r@ == (LlamaRunnerBuilderView { n_ctx, ..self@ }),
    {
        LlamaRunnerBuilder { n_ctx, ..self }
    }

    /// Batch size of token processing.
    pub fn n_batch(self, n_batch: u32) -> (r: Self)
        ensures
            r@ == (LlamaRunnerBuilderView { n_batch, ..self@ }),
    {
        LlamaRunnerBuilder { n_batch, ..self }
    }

    /// Micro-batch size of compute.
    pub fn n_ubatch(self, n_ubatch: u32) -> (r: Self)
        ensures
            r@ == (LlamaRunnerBuilderView { n_ubatch, ..self@ }),
    {
        LlamaRunnerBuilder { n_ubatch, ..self }
    }

    /// Thread count; 0 is automatic.
    pub fn n_threads(self, n_threads: i32) -> (r: Self)
        ensures
            r@ == (LlamaRunnerBuilderView { n_threads, ..self@ }),
    {
        LlamaRunnerBuilder { n_threads, ..self }
    }

    pub fn seed(self, seed: u32) -> (r: Self)
        ensures
            r@ == (LlamaRunnerBuilderView { seed, ..self@ }),
    {
        LlamaRunnerBuilder { seed, ..self }
    }

    pub fn kv_cache_type(self, kv_cache_type: KvCacheType) -> (r: Self)
        ensures
            r@ == (LlamaRunnerBuilderView { kv_cache_type, ..self@ }),
    {
        LlamaRunnerBuilder { kv_cache_type, ..self }
    }

    /// Layers offloaded to the GPU: -1 automatic, 0 none, else that many.
    pub fn n_gpu_layers(self, n_gpu_layers: i32) -> (r: Self)
        ensures
            r@ == (LlamaRunnerBuilderView { n_gpu_layers, ..self@ }),
    {
        LlamaRunnerBuilder { n_gpu_layers, ..self }
    }

    pub fn model_path(&self) -> (r: &str)
        ensures
            r@ == self@.model_path,
    {
        self.model_path.as_str()
    }

    pub fn context_size(&self) -> (r: u32)
        ensures
            r == self@.n_ctx,
    {
        self.n_ctx
    }

    pub fn batch_size(&self) -> (r: u32)
        ensures
            r == self@.n_batch,
    {
        self.n_batch
    }

    pub fn ubatch_size(&self) -> (r: u32)
        ensures
            r == self@.n_ubatch,
    {
        self.n_ubatch
    }

    pub fn thread_count(&self) -> (r: i32)
        ensures
            r == self@.n_threads,
    {
        self.n_threads
    }

    pub fn seed_value(&self) -> (r: u32)
        ensures
            r == self@.seed,
    {
        self.seed
    }

    pub fn cache_type(&self) -> (r: KvCacheType)
        ensures
            r == self@.kv_cache_type,
    {
        self.kv_cache_type
    }

    pub fn gpu_layers(&self) -> (r: i32)
        ensures
            r == self@.n_gpu_layers,
    {
        self.n_gpu_layers
    }
}

} // verus!
