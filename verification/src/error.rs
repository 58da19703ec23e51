//! Errors of the runner and of the plug-in protocol, with their texts.

use vstd::prelude::*;

use crate::attention::{attention_error_text, AttentionError};
use crate::cuda_runtime::{cuda_error_text, CudaError};
use crate::gemm::{gemm_error_text, GemmError};
use crate::gguf_parser::{gguf_error_text, GgufError};
use crate::text::{decimal, push_decimal, push_str};

verus! {

#[verifier::external_type_specification]
#[verifier::external_body]
pub struct ExSqliteError(rusqlite::Error);

#[verifier::external_type_specification]
#[verifier::external_body]
pub struct ExJsonError(serde_json::Error);

/// The text of a SQLite error (`rusqlite::Error`'s `Display`). The wording is
/// the crate's and is not stated here.
#[verifier::external_body]
fn sqlite_error_text(e: &rusqlite::Error) -> (r: String) {
    e.to_string()
}

/// The text of a JSON error (`serde_json::Error`'s `Display`). The wording is
/// the crate's and is not stated here.
#[verifier::external_body]
fn json_error_text(e: &serde_json::Error) -> (r: String) {
    e.to_string()
}

/// Errors of the plug-in protocol.
#[derive(Debug)]
pub enum PlugInError {
    Sqlite(rusqlite::Error),
    Json(serde_json::Error),
    NotFound(String),
    ConfigInvalid(String),
    ProtocolMismatch(String),
    Internal(String),
}

/// Text of a plug-in error whose payload is plain text; a SQLite or JSON
/// error's text carries the outside error's own wording after its prefix.
pub open spec fn plug_in_error_text(e: &PlugInError) -> Option<Seq<char>> {
    match e {
        PlugInError::NotFound(s) => Some("weight manifest not found: "@ + s@),
        PlugInError::ConfigInvalid(s) => Some("runner config invalid: "@ + s@),
        PlugInError::ProtocolMismatch(s) => Some("inference protocol mismatch: "@ + s@),
        PlugInError::Internal(s) => Some("internal error: "@ + s@),
        _ => None,
    }
}

/// The fixed start of a plug-in error's text.
pub open spec fn plug_in_error_prefix(e: &PlugInError) -> Seq<char> {
    match e {
        PlugInError::Sqlite(_) => "SQLite error: "@,
        PlugInError::Json(_) => "JSON serialization error: "@,
        PlugInError::NotFound(_) => "weight manifest not found: "@,
        PlugInError::ConfigInvalid(_) => "runner config invalid: "@,
        PlugInError::ProtocolMismatch(_) => "inference protocol mismatch: "@,
        PlugInError::Internal(_) => "internal error: "@,
    }
}

impl PlugInError {
    /// The error's text.
    pub fn message(&self) -> (r: String)
        ensures
            plug_in_error_text(self) matches Some(t) ==> r@ == t,
            r@.len() >= plug_in_error_prefix(self).len(),
            r@.subrange(0, plug_in_error_prefix(self).len() as int) == plug_in_error_prefix(self),
    {
        let mut s = String::new();
        match self {
            PlugInError::Sqlite(e) => {
                push_str(&mut s, "SQLite error: ");
                let t = sqlite_error_text(e);
                push_str(&mut s, t.as_str());
            },
            PlugInError::Json(e) => {
                push_str(&mut s, "JSON serialization error: ");
                let t = json_error_text(e);
                push_str(&mut s, t.as_str());
            },
            PlugInError::NotFound(t) => {
                push_str(&mut s, "weight manifest not found: ");
                push_str(&mut s, t.as_str());
            },
            PlugInError::ConfigInvalid(t) => {
                push_str(&mut s, "runner config invalid: ");
                push_str(&mut s, t.as_str());
            },
            PlugInError::ProtocolMismatch(t) => {
                push_str(&mut s, "inference protocol mismatch: ");
                push_str(&mut s, t.as_str());
            },
            PlugInError::Internal(t) => {
                push_str(&mut s, "internal error: ");
                push_str(&mut s, t.as_str());
            },
        }
        proof {
            assert(s@.subrange(0, plug_in_error_prefix(self).len() as int) =~= plug_in_error_prefix(
                self,
            ));
        }
        s
    }
}

impl From<rusqlite::Error> for PlugInError {
    fn from(e: rusqlite::Error) -> (r: Self) {
        PlugInError::Sqlite(e)
    }
}

impl vstd::std_specs::convert::FromSpecImpl<rusqlite::Error> for PlugInError {
    open spec fn obeys_from_spec() -> bool {
        true
    }

    open spec fn from_spec(e: rusqlite::Error) -> PlugInError {
        PlugInError::Sqlite(e)
    }
}

impl From<serde_json::Error> for PlugInError {
    fn from(e: serde_json::Error) -> (r: Self) {
        PlugInError::Json(e)
    }
}

impl vstd::std_specs::convert::FromSpecImpl<serde_json::Error> for PlugInError {
    open spec fn obeys_from_spec() -> bool {
        true
    }

    open spec fn from_spec(e: serde_json::Error) -> PlugInError {
        PlugInError::Json(e)
    }
}

/// Errors of the runner.
#[derive(Debug)]
pub enum RunnerError {
    Gemm { arch: String, m: usize, n: usize, k: usize, detail: GemmError },
    Attention { num_heads: usize, head_dim: usize, seq: usize, detail: AttentionError },
    Tensor(String),
    Cuda(CudaError),
    ModelLoad(String),
    Tokenizer(String),
    Device(String),
    Protocol(PlugInError),
    Sqlite(rusqlite::Error),
    Json(serde_json::Error),
    Gguf(GgufError),
    Asset(String),
    Internal(String),
    /// Tensor name and what went wrong.
    Dequant(String, String),
    MissingHeaderField(String),
}

/// Text of a runner error, where every part of it is plain text or a
/// number; for errors wrapping an outside error, or a UTF-8 error, the text
/// after the fixed start is the wrapped error's own wording.
pub open spec fn runner_error_text(e: &RunnerError) -> Option<Seq<char>> {
    match e {
        RunnerError::Gemm { arch, m, n, k, detail } => Some(
            "GEMM error ("@ + arch@ + ", "@ + decimal(*m as nat) + "x"@ + decimal(*n as nat) + "x"@
                + decimal(*k as nat) + "): "@ + gemm_error_text(detail),
        ),
        RunnerError::Attention { num_heads, head_dim, seq, detail } => Some(
            "attention error (heads="@ + decimal(*num_heads as nat) + ", dim="@ + decimal(
                *head_dim as nat,
            ) + ", seq="@ + decimal(*seq as nat) + "): "@ + attention_error_text(detail),
        ),
        RunnerError::Tensor(s) => Some("tensor computation error: "@ + s@),
        RunnerError::Cuda(c) => Some("CUDA error: "@ + cuda_error_text(c)),
        RunnerError::ModelLoad(s) => Some("model loading error: "@ + s@),
        RunnerError::Tokenizer(s) => Some("tokenizer error: "@ + s@),
        RunnerError::Device(s) => Some("device backend error: "@ + s@),
        RunnerError::Protocol(p) => match plug_in_error_text(p) {
            Some(t) => Some("plug-in protocol error: "@ + t),
            None => None,
        },
        RunnerError::Sqlite(_) => None,
        RunnerError::Json(_) => None,
        RunnerError::Gguf(g) => match gguf_error_text(g@) {
            Some(t) => Some("GGUF parse error: "@ + t),
            None => None,
        },
        RunnerError::Asset(s) => Some("asset loading error: "@ + s@),
        RunnerError::Internal(s) => Some("unspecified internal error: "@ + s@),
        RunnerError::Dequant(t, d) => Some(
            "dequantization error for tensor '"@ + t@ + "': "@ + d@,
        ),
        RunnerError::MissingHeaderField(s) => Some("GGUF header missing required field: "@ + s@),
    }
}

/// The fixed start of a runner error's text.
pub open spec fn runner_error_prefix(e: &RunnerError) -> Seq<char> {
    match e {
        RunnerError::Gemm { .. } => "GEMM error ("@,
        RunnerError::Attention { .. } => "attention error (heads="@,
        RunnerError::Tensor(_) => "tensor computation error: "@,
        RunnerError::Cuda(_) => "CUDA error: "@,
        RunnerError::ModelLoad(_) => "model loading error: "@,
        RunnerError::Tokenizer(_) => "tokenizer error: "@,
        RunnerError::Device(_) => "device backend error: "@,
        RunnerError::Protocol(_) => "plug-in protocol error: "@,
        RunnerError::Sqlite(_) => "SQLite error: "@,
        RunnerError::Json(_) => "JSON error: "@,
        RunnerError::Gguf(_) => "GGUF parse error: "@,
        RunnerError::Asset(_) => "asset loading error: "@,
        RunnerError::Internal(_) => "unspecified internal error: "@,
        RunnerError::Dequant(_, _) => "dequantization error for tensor '"@,
        RunnerError::MissingHeaderField(_) => "GGUF header missing required field: "@,
    }
}

impl RunnerError {
    /// The error's text.
    pub fn message(&self) -> (r: String)
        ensures
            runner_error_text(self) matches Some(t) ==> r@ == t,
            r@.len() >= runner_error_prefix(self).len(),
            r@.subrange(0, runner_error_prefix(self).len() as int) == runner_error_prefix(self),
    {
        let mut s = String::new();
        match self {
            RunnerError::Gemm { arch, m, n, k, detail } => {
                push_str(&mut s, "GEMM error (");
                push_str(&mut s, arch.as_str());
                push_str(&mut s, ", ");
                push_decimal(&mut s, *m as u64);
                push_str(&mut s, "x");
                push_decimal(&mut s, *n as u64);
                push_str(&mut s, "x");
                push_decimal(&mut s, *k as u64);
                push_str(&mut s, "): ");
                let t = detail.message();
                push_str(&mut s, t.as_str());
            },
            RunnerError::Attention { num_heads, head_dim, seq, detail } => {
                push_str(&mut s, "attention error (heads=");
                push_decimal(&mut s, *num_heads as u64);
                push_str(&mut s, ", dim=");
                push_decimal(&mut s, *head_dim as u64);
                push_str(&mut s, ", seq=");
                push_decimal(&mut s, *seq as u64);
                push_str(&mut s, "): ");
                let t = detail.message();
                push_str(&mut s, t.as_str());
            },
            RunnerError::Tensor(t) => {
                push_str(&mut s, "tensor computation error: ");
                push_str(&mut s, t.as_str());
            },
            RunnerError::Cuda(c) => {
                push_str(&mut s, "CUDA error: ");
                let t = c.message();
                push_str(&mut s, t.as_str());
            },
            RunnerError::ModelLoad(t) => {
                push_str(&mut s, "model loading error: ");
                push_str(&mut s, t.as_str());
            },
            RunnerError::Tokenizer(t) => {
                push_str(&mut s, "tokenizer error: ");
                push_str(&mut s, t.as_str());
            },
            RunnerError::Device(t) => {
                push_str(&mut s, "device backend error: ");
                push_str(&mut s, t.as_str());
            },
            RunnerError::Protocol(p) => {
                push_str(&mut s, "plug-in protocol error: ");
                let t = p.message();
                push_str(&mut s, t.as_str());
            },
            RunnerError::Sqlite(e) => {
                push_str(&mut s, "SQLite error: ");
                let t = sqlite_error_text(e);
                push_str(&mut s, t.as_str());
            },
            RunnerError::Json(e) => {
                push_str(&mut s, "JSON error: ");
                let t = json_error_text(e);
                push_str(&mut s, t.as_str());
            },
            RunnerError::Gguf(g) => {
                push_str(&mut s, "GGUF parse error: ");
                let t = g.message();
                push_str(&mut s, t.as_str());
            },
            RunnerError::Asset(t) => {
                push_str(&mut s, "asset loading error: ");
                push_str(&mut s, t.as_str());
            },
            RunnerError::Internal(t) => {
                push_str(&mut s, "unspecified internal error: ");
                push_str(&mut s, t.as_str());
            },
            RunnerError::Dequant(t, d) => {
                push_str(&mut s, "dequantization error for tensor '");
                push_str(&mut s, t.as_str());
                push_str(&mut s, "': ");
                push_str(&mut s, d.as_str());
            },
            RunnerError::MissingHeaderField(t) => {
                push_str(&mut s, "GGUF header missing required field: ");
                push_str(&mut s, t.as_str());
            },
        }
        proof {
            assert(s@.subrange(0, runner_error_prefix(self).len() as int) =~= runner_error_prefix(
                self,
            ));
        }
        s
    }
}

impl From<CudaError> for RunnerError {
    fn from(e: CudaError) -> (r: Self) {
        RunnerError::Cuda(e)
    }
}

impl vstd::std_specs::convert::FromSpecImpl<CudaError> for RunnerError {
    open spec fn obeys_from_spec() -> bool {
        true
    }

    open spec fn from_spec(e: CudaError) -> RunnerError {
        RunnerError::Cuda(e)
    }
}

impl From<PlugInError> for RunnerError {
    fn from(e: PlugInError) -> (r: Self) {
        RunnerError::Protocol(e)
    }
}

impl vstd::std_specs::convert::FromSpecImpl<PlugInError> for RunnerError {
    open spec fn obeys_from_spec() -> bool {
        true
    }

    open spec fn from_spec(e: PlugInError) -> RunnerError {
        RunnerError::Protocol(e)
    }
}

impl From<rusqlite::Error> for RunnerError {
    fn from(e: rusqlite::Error) -> (r: Self) {
        RunnerError::Sqlite(e)
    }
}

impl vstd::std_specs::convert::FromSpecImpl<rusqlite::Error> for RunnerError {
    open spec fn obeys_from_spec() -> bool {
        true
    }

    open spec fn from_spec(e: rusqlite::Error) -> RunnerError {
        RunnerError::Sqlite(e)
    }
}

impl From<serde_json::Error> for RunnerError {
    fn from(e: serde_json::Error) -> (r: Self) {
        RunnerError::Json(e)
    }
}

impl vstd::std_specs::convert::FromSpecImpl<serde_json::Error> for RunnerError {
    open spec fn obeys_from_spec() -> bool {
        true
    }

    open spec fn from_spec(e: serde_json::Error) -> RunnerError {
        RunnerError::Json(e)
    }
}

impl From<GgufError> for RunnerError {
    fn from(e: GgufError) -> (r: Self) {
        RunnerError::Gguf(e)
    }
}

impl vstd::std_specs::convert::FromSpecImpl<GgufError> for RunnerError {
    open spec fn obeys_from_spec() -> bool {
        true
    }

    open spec fn from_spec(e: GgufError) -> RunnerError {
        RunnerError::Gguf(e)
    }
}

} // verus!
