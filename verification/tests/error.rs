use pesti::cuda_runtime::CudaError;
use pesti::error::{PlugInError, RunnerError};
use pesti::gemm::GemmError;
use pesti::gguf_parser::GgufError;

#[test]
fn runner_error_sqlite_from_rusqlite() {
    let err = RunnerError::Sqlite(rusqlite::Error::QueryReturnedNoRows);
    let msg = err.message();
    assert!(
        msg.contains("sqlite")
            || msg.contains("SQLite")
            || msg.contains("query")
            || !msg.is_empty()
    );
}

#[test]
fn runner_error_json_from_serde() {
    let result: std::result::Result<serde_json::Value, RunnerError> =
        serde_json::from_str("not json").map_err(|e: serde_json::Error| RunnerError::from(e));
    assert!(result.is_err());
}

#[test]
fn runner_error_asset_io_error() {
    let err = RunnerError::Asset("file not found".to_string());
    let msg = err.message();
    assert!(msg.contains("file not found"));
}

#[test]
fn runner_error_internal() {
    let err = RunnerError::Internal("something broke".to_string());
    let msg = err.message();
    assert!(msg.contains("something broke"));
}

#[test]
fn runner_error_tensor_variant() {
    let err = RunnerError::Tensor("computation failed".to_string());
    let msg = err.message();
    assert!(msg.contains("computation failed"));
}

#[test]
fn runner_error_model_load_variant() {
    let err = RunnerError::ModelLoad("manifest missing".to_string());
    let msg = err.message();
    assert!(msg.contains("manifest missing"));
}

#[test]
fn runner_error_tokenizer_variant() {
    let err = RunnerError::Tokenizer("bpe init failed".to_string());
    let msg = err.message();
    assert!(msg.contains("bpe init failed"));
}

#[test]
fn runner_error_device_variant() {
    let err = RunnerError::Device("cuda unavailable".to_string());
    let msg = err.message();
    assert!(msg.contains("cuda unavailable"));
}

#[test]
fn runner_error_texts_are_exact() {
    assert_eq!(
        RunnerError::Dequant("w".to_string(), "short".to_string()).message(),
        "dequantization error for tensor 'w': short"
    );
    assert_eq!(
        RunnerError::MissingHeaderField("llama.block_count".to_string()).message(),
        "GGUF header missing required field: llama.block_count"
    );
    assert_eq!(
        RunnerError::Cuda(CudaError::NotAvailable).message(),
        "CUDA error: CUDA not available on this system"
    );
    assert_eq!(
        RunnerError::Gemm {
            arch: "cpu".to_string(),
            m: 2,
            n: 3,
            k: 4,
            detail: GemmError::NotAvailable,
        }
        .message(),
        "GEMM error (cpu, 2x3x4): kernel not available on this device"
    );
    assert_eq!(
        RunnerError::Gguf(GgufError::UnsupportedVersion(9)).message(),
        "GGUF parse error: unsupported GGUF version: 9"
    );
    assert_eq!(
        RunnerError::Protocol(PlugInError::NotFound("m".to_string())).message(),
        "plug-in protocol error: weight manifest not found: m"
    );
}

#[test]
fn runner_error_from_conversions() {
    assert!(matches!(RunnerError::from(CudaError::NotAvailable), RunnerError::Cuda(CudaError::NotAvailable)));
    assert!(matches!(
        RunnerError::from(GgufError::InvalidValueType(3)),
        RunnerError::Gguf(GgufError::InvalidValueType(3))
    ));
    let sqlite = RunnerError::from(rusqlite::Error::QueryReturnedNoRows);
    assert!(sqlite.message().starts_with("SQLite error: "));
    assert!(matches!(
        PlugInError::from(rusqlite::Error::QueryReturnedNoRows),
        PlugInError::Sqlite(_)
    ));
}

#[test]
fn gguf_error_texts() {
    assert_eq!(GgufError::Io("short".to_string()).message(), "IO error: short");
    assert_eq!(GgufError::InvalidMagic("GGUX".to_string()).message(), "invalid magic number: GGUX");
    assert_eq!(GgufError::InvalidValueType(42).message(), "invalid value type: 42");
    assert_eq!(
        GgufError::Binary("failed to fill whole buffer".to_string()).message(),
        "binary read error: failed to fill whole buffer"
    );
    let utf8 = GgufError::Utf8(vec![0xff, 0xfe]).message();
    assert!(utf8.starts_with("UTF-8 decode error: "));
    assert!(utf8.len() > "UTF-8 decode error: ".len());
}
