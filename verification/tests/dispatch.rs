use pesti::attention::AttentionError;
use pesti::dispatch::DispatchError;
use pesti::error::RunnerError;
use pesti::gemm::GemmError;

#[test]
fn dispatch_error_messages() {
    assert_eq!(DispatchError::CudaNotAvailable.message(), "CUDA not available");
    assert_eq!(
        DispatchError::ShapeMismatch { expected: 4, got: 3 }.message(),
        "shape mismatch: expected 4, got 3"
    );
    assert_eq!(DispatchError::Kernel("x".to_string()).message(), "kernel dispatch failed: x");
    assert_eq!(
        DispatchError::GpuKernel("y".to_string()).message(),
        "GPU kernel returned error: y"
    );
}

#[test]
fn dispatch_error_from_runner_error() {
    let gemm = DispatchError::from(RunnerError::Gemm {
        arch: "tcgen05".to_string(),
        m: 2,
        n: 3,
        k: 4,
        detail: GemmError::NotAvailable,
    });
    assert_eq!(
        gemm.message(),
        "GPU kernel returned error: GEMM(arch=tcgen05, m=2, n=3, k=4): kernel not available on this device"
    );
    let attention = DispatchError::from(RunnerError::Attention {
        num_heads: 8,
        head_dim: 64,
        seq: 16,
        detail: AttentionError::NotAvailable,
    });
    assert!(matches!(attention, DispatchError::GpuKernel(ref s) if s.starts_with("Attention(heads=8, dim=64, seq=16): ")));
    match DispatchError::from(RunnerError::Tensor("bad shape".to_string())) {
        DispatchError::Kernel(s) => assert_eq!(s, "bad shape"),
        other => panic!("expected a kernel error, got {:?}", other),
    }
    match DispatchError::from(RunnerError::Device("no gpu".to_string())) {
        DispatchError::Kernel(s) => assert_eq!(s, "device backend error: no gpu"),
        other => panic!("expected a kernel error, got {:?}", other),
    }
}
