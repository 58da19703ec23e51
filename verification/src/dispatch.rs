//! Errors of dispatching tensor operations to kernels.

use vstd::prelude::*;

use crate::attention::attention_error_text;
use crate::error::{runner_error_text, RunnerError};
use crate::gemm::gemm_error_text;
use crate::text::{decimal, push_decimal, push_str};

verus! {

/// Errors of the dispatch layer.
#[derive(Debug)]
pub enum DispatchError {
    CudaNotAvailable,
    Transfer(String),
    Kernel(String),
    ShapeMismatch { expected: usize, got: usize },
    Memory(String),
    GpuKernel(String),
}

/// Text of a dispatch error.
pub open spec fn dispatch_error_text(e: &DispatchError) -> Seq<char> {
    match e {
        DispatchError::CudaNotAvailable => "CUDA not available"@,
        DispatchError::Transfer(s) => "buffer transfer failed: "@ + s@,
        DispatchError::Kernel(s) => "kernel dispatch failed: "@ + s@,
        DispatchError::ShapeMismatch { expected, got } => "shape mismatch: expected "@ + decimal(
            *expected as nat,
        ) + ", got "@ + decimal(*got as nat),
        DispatchError::Memory(s) => "memory allocation failed: "@ + s@,
        DispatchError::GpuKernel(s) => "GPU kernel returned error: "@ + s@,
    }
}

impl DispatchError {
    /// The error's text.
    pub fn message(&self) -> (r: String)
        ensures
            r@ == dispatch_error_text(self),
    {
        let mut s = String::new();
        match self {
            DispatchError::CudaNotAvailable => {
                push_str(&mut s, "CUDA not available");
            },
            DispatchError::Transfer(t) => {
                push_str(&mut s, "buffer transfer failed: ");
                push_str(&mut s, t.as_str());
            },
            DispatchError::Kernel(t) => {
                push_str(&mut s, "kernel dispatch failed: ");
                push_str(&mut s, t.as_str());
            },
            DispatchError::ShapeMismatch { expected, got } => {
                push_str(&mut s, "shape mismatch: expected ");
                push_decimal(&mut s, *expected as u64);
                push_str(&mut s, ", got ");
                push_decimal(&mut s, *got as u64);
            },
            DispatchError::Memory(t) => {
                push_str(&mut s, "memory allocation failed: ");
                push_str(&mut s, t.as_str());
            },
            DispatchError::GpuKernel(t) => {
                push_str(&mut s, "GPU kernel returned error: ");
                push_str(&mut s, t.as_str());
            },
        }
        s
    }
}

/// The dispatch error a runner error becomes, as its variant and text: a
/// GEMM or attention error becomes a GPU kernel error naming the launch, a
/// tensor error's text becomes a kernel error, and any other error becomes a
/// kernel error with its own text.
pub open spec fn dispatch_of_runner(e: &RunnerError) -> Option<(bool, Seq<char>)> {
    match e {
        RunnerError::Gemm { arch, m, n, k, detail } => Some(
            (
                true,
                "GEMM(arch="@ + arch@ + ", m="@ + decimal(*m as nat) + ", n="@ + decimal(*n as nat)
                    + ", k="@ + decimal(*k as nat) + "): "@ + gemm_error_text(detail),
            ),
        ),
        RunnerError::Attention { num_heads, head_dim, seq, detail } => Some(
            (
                true,
                "Attention(heads="@ + decimal(*num_heads as nat) + ", dim="@ + decimal(
                    *head_dim as nat,
                ) + ", seq="@ + decimal(*seq as nat) + "): "@ + attention_error_text(detail),
            ),
        ),
        RunnerError::Tensor(msg) => Some((false, msg@)),
        _ => match runner_error_text(e) {
            Some(t) => Some((false, t)),
            None => None,
        },
    }
}

impl From<RunnerError> for DispatchError {
    /// A GEMM or attention failure is the GPU kernel's; anything else is a
    /// kernel dispatch failure carrying the runner error's text.
    fn from(e: RunnerError) -> (r: Self)
        ensures
            dispatch_of_runner(&e) matches Some((gpu, t)) ==> (if gpu {
                r matches DispatchError::GpuKernel(s) && s@ == t
            } else {
                r matches DispatchError::Kernel(s) && s@ == t
            }),
            !(e is Gemm || e is Attention) ==> r is Kernel,
    {
        match e {
            RunnerError::Gemm { arch, m, n, k, detail } => {
                let mut s = String::new();
                push_str(&mut s, "GEMM(arch=");
                push_str(&mut s, arch.as_str());
                push_str(&mut s, ", m=");
                push_decimal(&mut s, m as u64);
                push_str(&mut s, ", n=");
                push_decimal(&mut s, n as u64);
                push_str(&mut s, ", k=");
                push_decimal(&mut s, k as u64);
                push_str(&mut s, "): ");
                let t = detail.message();
                push_str(&mut s, t.as_str());
                DispatchError::GpuKernel(s)
            },
            RunnerError::Attention { num_heads, head_dim, seq, detail } => {
                let mut s = String::new();
                push_str(&mut s, "Attention(heads=");
                push_decimal(&mut s, num_heads as u64);
                push_str(&mut s, ", dim=");
                push_decimal(&mut s, head_dim as u64);
                push_str(&mut s, ", seq=");
                push_decimal(&mut s, seq as u64);
                push_str(&mut s, "): ");
                let t = detail.message();
                push_str(&mut s, t.as_str());
                DispatchError::GpuKernel(s)
            },
            RunnerError::Tensor(msg) => DispatchError::Kernel(msg),
            other => DispatchError::Kernel(other.message()),
        }
    }
}

impl vstd::std_specs::convert::FromSpecImpl<RunnerError> for DispatchError {
    /// The conversion writes new text, so it is described by the `ensures`
    /// of `from` rather than by a value.
    open spec fn obeys_from_spec() -> bool {
        false
    }

    open spec fn from_spec(e: RunnerError) -> DispatchError {
        DispatchError::CudaNotAvailable
    }
}

} // verus!
