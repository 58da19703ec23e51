use pesti::attention::{AttentionArch, AttentionConfig, AttentionError, CpuAttentionKernel};

#[test]
fn attention_arch_name() {
    assert_eq!(AttentionArch::Wgmma.name(), "wgmma");
    assert_eq!(AttentionArch::Tcgen05.name(), "tcgen05");
    assert_eq!(AttentionArch::Cpu.name(), "cpu");
}

#[test]
fn attention_arch_supports_tma() {
    assert!(AttentionArch::Wgmma.supports_tma());
    assert!(AttentionArch::Tcgen05.supports_tma());
    assert!(!AttentionArch::Cpu.supports_tma());
}

#[test]
fn attention_arch_block_size() {
    assert_eq!(AttentionArch::Wgmma.block_size(), 128);
    assert_eq!(AttentionArch::Tcgen05.block_size(), 128);
    assert_eq!(AttentionArch::Cpu.block_size(), 0);
}

#[test]
fn attention_arch_default_is_tcgen05() {
    assert_eq!(AttentionArch::default(), AttentionArch::Tcgen05);
}

#[test]
fn attention_config_default() {
    let config = AttentionConfig::default();
    assert_eq!(config.num_heads, 8);
    assert_eq!(config.head_dim, 64);
    assert_eq!(config.max_seq, 2048);
    assert_eq!(config.arch, AttentionArch::Tcgen05);
    assert!(config.use_tma);
    assert_eq!(config.block_size, 0);
}

#[test]
fn attention_config_effective_block_size_default() {
    let config = AttentionConfig::default();
    assert_eq!(config.effective_block_size(), 128);
}

#[test]
fn attention_config_effective_block_size_custom() {
    let config = AttentionConfig::default().with_block_size(256);
    assert_eq!(config.effective_block_size(), 256);
}

#[test]
fn attention_config_effective_block_size_zero_falls_back() {
    let config = AttentionConfig::default().with_arch(AttentionArch::Wgmma).with_block_size(0);
    assert_eq!(config.effective_block_size(), 128);
}

#[test]
fn attention_config_builder_chain() {
    let config = AttentionConfig::default()
        .with_num_heads(16)
        .with_head_dim(128)
        .with_max_seq(4096)
        .with_arch(AttentionArch::Wgmma)
        .with_tma(false);

    assert_eq!(config.num_heads, 16);
    assert_eq!(config.head_dim, 128);
    assert_eq!(config.max_seq, 4096);
    assert_eq!(config.arch, AttentionArch::Wgmma);
    assert!(!config.use_tma);
}

#[test]
fn cpu_attention_kernel_new() {
    let kernel = CpuAttentionKernel::new();
    assert_eq!(kernel.arch(), AttentionArch::Cpu);
    assert!(kernel.is_available());
}

#[test]
fn cpu_attention_kernel_with_arch() {
    let kernel = CpuAttentionKernel::with_arch(AttentionArch::Wgmma);
    assert_eq!(kernel.arch(), AttentionArch::Wgmma);
}

#[test]
fn attention_error_display() {
    let err = AttentionError::InvalidDimensions {
        num_heads: 8,
        head_dim: 64,
        seq_len: 0,
    };
    assert!(err.message().contains("8"));
    assert!(err.message().contains("64"));

    let err = AttentionError::Tcgen05Constraint(32);
    assert!(err.message().contains("32"));
}

#[test]
fn attention_config_clone() {
    let config = AttentionConfig::default()
        .with_num_heads(16)
        .with_head_dim(128);
    let cloned = config.clone();
    assert_eq!(config.num_heads, cloned.num_heads);
    assert_eq!(config.head_dim, cloned.head_dim);
    assert_eq!(config.arch, cloned.arch);
}

// ── further cases ──

#[test]
fn attention_error_messages_are_exact() {
    let err = AttentionError::InvalidDimensions { num_heads: 8, head_dim: 64, seq_len: 0 };
    assert_eq!(err.message(), "invalid dimensions: heads=8, head_dim=64, seq_len=0");
    assert_eq!(
        AttentionError::HeadIndexOutOfBounds { head_idx: 9, num_heads: 8 }.message(),
        "head index out of bounds: head_idx=9, num_heads=8"
    );
    assert_eq!(
        AttentionError::SeqLenExceeded { current: 5000, max: 4096 }.message(),
        "sequence length exceeded: current=5000, max=4096"
    );
    assert_eq!(
        AttentionError::Tcgen05Constraint(32).message(),
        "tcgen05 constraint: head_dim must be divisible by 64, got 32"
    );
    assert_eq!(AttentionError::NotAvailable.message(), "kernel not available on this device");
    assert_eq!(AttentionError::Cuda("oom".to_string()).message(), "CUDA error: oom");
}

#[test]
fn cpu_block_size_is_zero_without_override() {
    let config = AttentionConfig::default().with_arch(AttentionArch::Cpu);
    assert_eq!(config.effective_block_size(), 0);
    assert_eq!(CpuAttentionKernel::default().arch(), AttentionArch::Cpu);
}
