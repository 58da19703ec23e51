//! Verified core of a portable transformer-inference runtime: GGUF and
//! SafeTensors container reading, tensor-size arithmetic, kernel launch
//! configuration, device description and selection, the model registry, the
//! model loader's header queries, tokenizer front ends, conformance verdicts
//! and tiered execution bookkeeping.

pub mod le_bytes;
pub mod text;
pub mod error;
pub mod tier;
pub mod gguf_types;
pub mod gguf_parser;
pub mod dequant_plan;
pub mod lenient_gguf;
pub mod tma_descriptor;
pub mod gemm;
pub mod builder;
pub mod attention;
pub mod device_buf;
pub mod cuda_runtime;
pub mod device_discovery;
pub mod llama;
pub mod model_manager;
pub mod pesti_llama;
pub mod safetensors_weight_loader;
pub mod conformance;
pub mod dispatch;
pub mod manifest;
pub mod model_loader;
pub mod tokenizer;
