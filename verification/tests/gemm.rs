use pesti::cuda_runtime::CudaDeviceInfo;
use pesti::device_buf::DeviceBuffer;
use pesti::gemm::{
    plan_device_matmul, select_device_gemm_kernel, CpuGemmKernel, GemmArch, GemmConfig, GemmError,
    GemmLaunch,
};

#[test]
fn gemm_arch_name() {
    assert_eq!(GemmArch::Wgmma.name(), "wgmma");
    assert_eq!(GemmArch::Tcgen05.name(), "tcgen05");
}

#[test]
fn gemm_arch_tile_size() {
    assert_eq!(GemmArch::Wgmma.tile_size(), 64);
    assert_eq!(GemmArch::Tcgen05.tile_size(), 128);
}

#[test]
fn gemm_arch_supports_tma() {
    assert!(GemmArch::Wgmma.supports_tma());
    assert!(GemmArch::Tcgen05.supports_tma());
}

#[test]
fn gemm_config_default() {
    let config = GemmConfig::default();
    assert_eq!(config.arch, GemmArch::Tcgen05);
    assert!(config.use_tma);
    assert_eq!(config.block_size, 0);
    assert_eq!(config.effective_block_size(), 128);
}

#[test]
fn gemm_config_with_arch() {
    let config = GemmConfig::default().with_arch(GemmArch::Wgmma);
    assert_eq!(config.arch, GemmArch::Wgmma);
    assert_eq!(config.effective_block_size(), 64);
}

#[test]
fn gemm_config_with_block_size() {
    let config = GemmConfig::default().with_block_size(256);
    assert_eq!(config.effective_block_size(), 256);
}

#[test]
fn gemm_config_block_size_takes_precedence() {
    let config = GemmConfig::default()
        .with_arch(GemmArch::Wgmma)
        .with_block_size(128);
    assert_eq!(config.effective_block_size(), 128);
}

#[test]
fn cpu_gemm_kernel_new() {
    let kernel = CpuGemmKernel::new();
    assert!(kernel.is_available());
}

#[test]
fn gemm_error_display() {
    let err = GemmError::InvalidDimensions { m: 1, n: 2, k: 3 };
    let msg = err.message();
    assert!(msg.contains("1"));
    assert!(msg.contains("2"));
    assert!(msg.contains("3"));

    let err = GemmError::BufferSizeMismatch {
        expected: 10,
        got: 5,
    };
    assert!(err.message().contains("10"));
    assert!(err.message().contains("5"));
}

// ── further cases ──

#[test]
fn gemm_error_messages_are_exact() {
    assert_eq!(
        GemmError::InvalidDimensions { m: 1, n: 2, k: 3 }.message(),
        "invalid matrix dimensions: m=1, n=2, k=3"
    );
    assert_eq!(
        GemmError::BufferSizeMismatch { expected: 10, got: 5 }.message(),
        "buffer size mismatch: expected 10, got 5"
    );
    assert_eq!(GemmError::LaunchFailed("x".to_string()).message(), "kernel launch failed: x");
    assert_eq!(GemmError::UnsupportedArch("sm_80".to_string()).message(), "unsupported architecture: sm_80");
}

#[test]
fn cpu_gemm_buffer_checks() {
    let kernel = CpuGemmKernel::new();
    assert_eq!(kernel.arch(), GemmArch::Wgmma);
    assert!(kernel.check_buffers(Some(4), Some(4), Some(4), 2, 2, 2).is_ok());
    // C needs m*n = 2 elements but holds 1.
    match kernel.check_buffers(Some(2), Some(1), Some(1), 2, 1, 1) {
        Err(GemmError::BufferSizeMismatch { expected: 2, got: 1 }) => {}
        other => panic!("unexpected {other:?}"),
    }
    // A buffer not held on the host.
    match kernel.check_buffers(None, Some(4), Some(4), 2, 2, 2) {
        Err(GemmError::BufferSizeMismatch { expected: 4, got: 0 }) => {}
        other => panic!("unexpected {other:?}"),
    }
}

fn device_info(major: i32, minor: i32) -> CudaDeviceInfo {
    CudaDeviceInfo {
        ordinal: 0,
        name: "gpu".to_string(),
        compute_capability: (major, minor),
        total_memory: 1 << 34,
        free_memory: 1 << 33,
    }
}

#[test]
fn device_matmul_plan_wgmma_geometry() {
    let a: DeviceBuffer<u16> = DeviceBuffer::Device(0x1000, 100 * 70);
    let b: DeviceBuffer<u16> = DeviceBuffer::Device(0x2000, 70 * 130);
    let c: DeviceBuffer<u32> = DeviceBuffer::Device(0x3000, 100 * 130);
    let plan = plan_device_matmul(GemmArch::Wgmma, &a, &b, &c, 100, 130, 70).unwrap();
    assert_eq!(
        plan,
        GemmLaunch {
            grid: (3, 2, 1),
            block: (32, 4, 1),
            shared_mem_bytes: 8192,
            ptrs: (0x1000, 0x2000, 0x3000),
            dims: (100, 130, 70),
        }
    );
}

#[test]
fn device_matmul_plan_tcgen05_geometry() {
    let a: DeviceBuffer<u16> = DeviceBuffer::Device(1, 128 * 16);
    let b: DeviceBuffer<u16> = DeviceBuffer::Device(2, 16 * 129);
    let c: DeviceBuffer<u32> = DeviceBuffer::Device(3, 128 * 129);
    let plan = plan_device_matmul(GemmArch::Tcgen05, &a, &b, &c, 128, 129, 16).unwrap();
    assert_eq!(plan.grid, (2, 1, 1));
    assert_eq!(plan.block, (16, 16, 1));
    assert_eq!(plan.shared_mem_bytes, 0);
}

#[test]
fn device_matmul_refuses_zero_dimensions() {
    let a: DeviceBuffer<u16> = DeviceBuffer::Device(1, 4);
    let c: DeviceBuffer<u32> = DeviceBuffer::Device(3, 4);
    match plan_device_matmul(GemmArch::Wgmma, &a, &a, &c, 2, 0, 2) {
        Err(GemmError::InvalidDimensions { m: 2, n: 0, k: 2 }) => {}
        other => panic!("expected InvalidDimensions, got {other:?}"),
    }
}

#[test]
fn device_matmul_checks_addresses_before_lengths() {
    // A is too short and C lives on the host: the missing address is reported first.
    let a: DeviceBuffer<u16> = DeviceBuffer::Device(1, 1);
    let b: DeviceBuffer<u16> = DeviceBuffer::Device(2, 6);
    let c: DeviceBuffer<u32> = DeviceBuffer::from_host(vec![0u32; 4]);
    match plan_device_matmul(GemmArch::Wgmma, &a, &b, &c, 2, 2, 3) {
        Err(GemmError::BufferSizeMismatch { expected: 4, got: 0 }) => {}
        other => panic!("expected the host C to be refused, got {other:?}"),
    }
    let c: DeviceBuffer<u32> = DeviceBuffer::Device(3, 4);
    match plan_device_matmul(GemmArch::Wgmma, &a, &b, &c, 2, 2, 3) {
        Err(GemmError::BufferSizeMismatch { expected: 6, got: 1 }) => {}
        other => panic!("expected A to be too short, got {other:?}"),
    }
}

#[test]
fn device_gemm_kernel_follows_compute_capability() {
    assert_eq!(select_device_gemm_kernel(GemmArch::Wgmma, &device_info(12, 0)).unwrap(), "gemm_wgmma_kernel");
    assert_eq!(
        select_device_gemm_kernel(GemmArch::Tcgen05, &device_info(10, 0)).unwrap(),
        "gemm_tcgen05_kernel"
    );
    match select_device_gemm_kernel(GemmArch::Wgmma, &device_info(10, 0)) {
        Err(e @ GemmError::UnsupportedArch(_)) => assert_eq!(
            e.message(),
            "unsupported architecture: WGMMA requires sm_120+, but device is sm_10.0"
        ),
        other => panic!("expected UnsupportedArch, got {other:?}"),
    }
    match select_device_gemm_kernel(GemmArch::Tcgen05, &device_info(9, 0)) {
        Err(GemmError::UnsupportedArch(m)) => {
            assert_eq!(m, "tcgen05 requires sm_100+, but device is sm_9.0")
        }
        other => panic!("expected UnsupportedArch, got {other:?}"),
    }
}
