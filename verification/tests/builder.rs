use pesti::builder::{GemmBuilder, KernelFromPtx, PtxSource};
use pesti::gemm::{GemmArch, GemmConfig, GemmError};

#[test]
fn builder_defaults() {
    let builder = GemmBuilder::new();
    let kernel = builder.build();
    assert!(kernel.is_available());
}

#[test]
fn builder_with_arch() {
    let builder = GemmBuilder::new().with_arch(GemmArch::Wgmma);
    let kernel = builder.build();
    assert_eq!(kernel.arch(), GemmArch::Wgmma);
}

#[test]
fn builder_with_config() {
    let config = GemmConfig::default().with_block_size(256);
    let builder = GemmBuilder::new().with_config(config);
    let (gx, gy, bx, by) = builder.launch_config(512, 512);
    assert_eq!(gx, 2);
    assert_eq!(gy, 2);
    assert_eq!(bx, 256);
    assert_eq!(by, 256);
}

#[test]
fn builder_launch_config_tcgen05() {
    let builder = GemmBuilder::new().with_arch(GemmArch::Tcgen05);
    let (gx, gy, bx, by) = builder.launch_config(256, 256);
    assert_eq!(gx, 2);
    assert_eq!(gy, 2);
    assert_eq!(bx, 128);
    assert_eq!(by, 128);
}

#[test]
fn builder_launch_config_non_aligned() {
    let builder = GemmBuilder::new().with_arch(GemmArch::Tcgen05);
    let (gx, gy, _, _) = builder.launch_config(200, 300);
    assert_eq!(gx, 3);
    assert_eq!(gy, 2);
}

#[test]
fn builder_validate_dims_tcgen05_k_not_divisible() {
    let builder = GemmBuilder::new().with_arch(GemmArch::Tcgen05);
    assert!(builder.validate_dims(128, 128, 63).is_err());
    assert!(builder.validate_dims(128, 128, 64).is_ok());
    assert!(builder.validate_dims(128, 128, 128).is_ok());
}

#[test]
fn builder_validate_dims_wgmma_any_k() {
    let config = GemmConfig::default().with_arch(GemmArch::Wgmma).with_block_size(64);
    let builder = GemmBuilder::new().with_config(config);
    assert!(builder.validate_dims(64, 64, 1).is_ok());
    assert!(builder.validate_dims(64, 64, 17).is_ok());
    assert!(builder.validate_dims(64, 64, 64).is_ok());
}

#[test]
fn builder_validate_dims_invalid_tile() {
    let config = GemmConfig::default().with_block_size(0);
    let builder = GemmBuilder::new().with_config(config);
    assert!(builder.validate_dims(64, 64, 64).is_ok());

    let config = GemmConfig::default().with_block_size(512);
    let builder = GemmBuilder::new().with_config(config);
    assert!(builder.validate_dims(64, 64, 64).is_err());
}

#[test]
fn ptx_source_new() {
    let ptx = PtxSource::new("version 8.0".to_string(), GemmArch::Tcgen05, "tcgen05_gemm");
    assert_eq!(ptx.arch, GemmArch::Tcgen05);
    assert_eq!(ptx.kernel_name, "tcgen05_gemm");
    assert_eq!(ptx.ptx, "version 8.0");
}

#[test]
fn kernel_from_ptx_arch() {
    let ptx = PtxSource::new("ptx".into(), GemmArch::Wgmma, &String::from("wgmma"));
    let config = GemmConfig::default();
    let kernel = KernelFromPtx::new(ptx, config);
    assert_eq!(kernel.arch(), GemmArch::Wgmma);
}

// ── further cases ──

#[test]
fn build_prefers_the_default_architecture() {
    let a = PtxSource::new("a".to_string(), GemmArch::Wgmma, "wg");
    let b = PtxSource::new("b".to_string(), GemmArch::Tcgen05, "tc");
    let kernel = GemmBuilder::new().with_wgmma(a).with_tcgen05(b).build();
    assert_eq!(kernel.arch(), GemmArch::Tcgen05);

    let a = PtxSource::new("a".to_string(), GemmArch::Wgmma, "wg");
    let kernel = GemmBuilder::new().with_arch(GemmArch::Tcgen05).add_ptx(a).build();
    // No source for the default architecture: the first source is taken.
    assert_eq!(kernel.arch(), GemmArch::Wgmma);
}

#[test]
fn kernel_launch_checks() {
    let ptx = PtxSource::new("p".to_string(), GemmArch::Tcgen05, "k");
    let kernel = KernelFromPtx::new(ptx, GemmConfig::default());
    match kernel.check_launch(128 * 63, 63 * 128, 128 * 128, 128, 128, 63) {
        Err(GemmError::InvalidDimensions { m: 128, n: 128, k: 63 }) => {}
        other => panic!("unexpected {other:?}"),
    }
    match kernel.check_launch(10, 64 * 4, 16, 4, 4, 64) {
        Err(GemmError::BufferSizeMismatch { expected: 256, got: 10 }) => {}
        other => panic!("unexpected {other:?}"),
    }
    assert!(kernel.check_launch(256, 256, 16, 4, 4, 64).is_ok());
}
