use pesti::tier::{LayerProfiler, Tier, TieredExecution};

#[test]
fn test_tier_encoding() {
    assert_eq!(Tier::from_id(0), Tier::CpuBaseline);
    assert_eq!(Tier::from_id(1), Tier::GpuFlashAttention);
    assert_eq!(Tier::from_id(2), Tier::GpuFullBackend);

    assert_eq!(Tier::CpuBaseline.as_u32(), 0);
    assert_eq!(Tier::GpuFlashAttention.as_u32(), 1);
}

#[test]
fn test_tier_up_threshold() {
    assert_eq!(Tier::threshold_by_id(0), 100);
    assert_eq!(Tier::threshold_by_id(1), 500);
    assert_eq!(Tier::threshold_by_id(2), usize::MAX);
}

#[test]
fn test_tiered_execution_invocation_tracking() {
    let mut execution = TieredExecution::new(Tier::CpuBaseline);

    for _ in 0..99 {
        assert_eq!(execution.current_tier(), Tier::CpuBaseline);
        assert!(execution.record_invocation().is_none());
    }

    let tier_up = execution.record_invocation().unwrap();
    assert_eq!(tier_up, Tier::GpuFlashAttention);
}

#[test]
fn test_layer_profiler() {
    let mut profiler = LayerProfiler::new("transformer.layer.0");

    assert_eq!(profiler.count(), 0);

    for i in 1..=51 {
        let count = profiler.record_forward();
        if i % 50 == 0 {
            assert_eq!(count, i);
        }
    }

    assert_eq!(profiler.count(), 51);
}

#[test]
fn test_tiered_execution_reset() {
    let mut execution = TieredExecution::new(Tier::CpuBaseline);

    for _ in 0..150 {
        execution.record_invocation();
    }

    assert!(execution.current_tier().is_gpu());

    execution.reset_profile();
    assert_eq!(execution.invocation_count(), 0);
}

#[test]
fn test_manual_tier_switch() {
    let mut execution = TieredExecution::new(Tier::CpuBaseline);

    for _ in 0..25 {
        execution.record_invocation();
    }

    assert_eq!(execution.current_tier(), Tier::CpuBaseline);

    execution.set_tier(Tier::GpuFullBackend);
    assert_eq!(execution.current_tier(), Tier::GpuFullBackend);
    assert_eq!(execution.invocation_count(), 0);
}

#[test]
fn test_gpu_detection() {
    let mut execution = TieredExecution::new(Tier::CpuBaseline);

    assert!(execution.has_gpu_available());

    for _ in 0..150 {
        execution.record_invocation();
    }

    assert!(execution.current_tier().is_gpu());
}

#[test]
fn test_tier_name() {
    assert_eq!(Tier::CpuBaseline.name(), "cpu_baseline");
    assert_eq!(Tier::GpuFlashAttention.name(), "gpu_flash_attention");
    assert_eq!(Tier::GpuFullBackend.name(), "gpu_full_backend");
}

#[test]
fn test_is_gpu() {
    assert!(!Tier::CpuBaseline.is_gpu());
    assert!(Tier::GpuFlashAttention.is_gpu());
    assert!(Tier::GpuFullBackend.is_gpu());
}

#[test]
fn tiered_execution_threshold() {
    let _execution = TieredExecution::new(Tier::CpuBaseline);

    match Tier::CpuBaseline.tier_up_threshold() {
        100 => {}
        _ => panic!("Expected 100"),
    }
}

#[test]
fn test_tier_from_id_unknown() {
    assert_eq!(Tier::from_id(99), Tier::GpuFullBackend);
    assert_eq!(Tier::from_id(u32::MAX), Tier::GpuFullBackend);
}

#[test]
fn test_single_tier_transition() {
    let mut execution = TieredExecution::new(Tier::CpuBaseline);

    for _ in 0..99 {
        assert!(execution.record_invocation().is_none());
    }

    let new_tier = execution.record_invocation().unwrap();
    assert_eq!(new_tier, Tier::GpuFlashAttention);

    for _ in 0..250 {
        assert!(execution.record_invocation().is_none());
    }

    assert_eq!(execution.current_tier(), Tier::GpuFlashAttention);
}

// ── further cases ──

#[test]
fn flash_tier_promotes_after_500() {
    let mut execution = TieredExecution::new(Tier::GpuFlashAttention);
    for _ in 0..499 {
        assert!(execution.record_invocation().is_none());
    }
    assert_eq!(execution.record_invocation(), Some(Tier::GpuFullBackend));
    assert_eq!(execution.invocation_count(), 0);
}

#[test]
fn reset_keeps_the_tier() {
    let mut execution = TieredExecution::new(Tier::CpuBaseline);
    for _ in 0..100 {
        execution.record_invocation();
    }
    execution.reset_profile();
    assert_eq!(execution.current_tier(), Tier::GpuFlashAttention);
}
