use pesti::device_discovery::{
    discover_local_devices, local_device_from_driver, select_best_gpu, LocalDevice,
};

#[test]
fn local_device_max_model_bytes() {
    let device = LocalDevice {
        ordinal: 0,
        name: "Test GPU".to_string(),
        total_vram: 16_000_000_000,
        free_vram: 10_000_000_000,
        compute_capability: "8.0".to_string(),
        available: true,
        used_vram: 6_000_000_000,
    };
    let expected = 10_000_000_000 - (2 * 1024 * 1024 * 1024);
    assert_eq!(device.max_model_bytes(), expected);
}

#[test]
fn local_device_max_model_bytes_zero_reserve() {
    let device = LocalDevice {
        ordinal: 0,
        name: "Test GPU".to_string(),
        total_vram: 4_000_000_000,
        free_vram: 1_000_000_000,
        compute_capability: "8.0".to_string(),
        available: true,
        used_vram: 3_000_000_000,
    };
    assert_eq!(device.max_model_bytes(), 0);
}

#[test]
fn local_device_can_hold_model() {
    let device = LocalDevice {
        ordinal: 0,
        name: "Test GPU".to_string(),
        total_vram: 16_000_000_000,
        free_vram: 10_000_000_000,
        compute_capability: "8.0".to_string(),
        available: true,
        used_vram: 6_000_000_000,
    };
    let small_model = 5_000_000_000u64;
    let large_model = 20_000_000_000u64;
    assert!(device.can_hold_model(small_model));
    assert!(!device.can_hold_model(large_model));
}

#[test]
fn discover_local_devices_includes_cpu_fallback() {
    let devices = discover_local_devices(None);
    assert!(devices.iter().any(|d| d.ordinal == u32::MAX));
}

// ── further cases ──

fn gpu(ordinal: u32, free: u64) -> LocalDevice {
    local_device_from_driver(ordinal, format!("gpu{ordinal}"), 8, 9, 24_000_000_000, free, true)
}

#[test]
fn discovery_keeps_probed_devices_in_order() {
    let answer = |name: &str, free: u64| (name.to_string(), 8, 9, 24_000_000_000u64, free, true);
    let devices = discover_local_devices(Some(vec![Some(answer("a", 1)), None, Some(answer("c", 2))]));
    let ordinals: Vec<u32> = devices.iter().map(|d| d.ordinal).collect();
    assert_eq!(ordinals, vec![0, 2, u32::MAX]);
    assert_eq!(devices[1].name, "c");
    assert_eq!(devices[1].compute_capability, "8.9");
    assert_eq!(devices[1].used_vram, 24_000_000_000 - 2);
    let cpu = devices.last().unwrap();
    assert_eq!(cpu.name, "CPU (fallback)");
    assert_eq!(cpu.compute_capability, "N/A");
    assert!(cpu.available);
}

#[test]
fn driver_description_is_rendered() {
    let d = local_device_from_driver(1, "RTX".to_string(), 12, 0, 16, 10, false);
    assert_eq!(d.compute_capability, "12.0");
    assert_eq!(d.used_vram, 6);
    assert!(!d.available);
    let d = local_device_from_driver(1, "odd".to_string(), 8, 6, 10, 16, true);
    assert_eq!(d.used_vram, 0);
}

#[test]
fn best_gpu_has_most_free_vram_last_among_equals() {
    let devices = vec![
        gpu(0, 10_000_000_000),
        gpu(1, 12_000_000_000),
        gpu(2, 12_000_000_000),
        gpu(3, 3_000_000_000),
    ];
    let best = select_best_gpu(&devices, 5_000_000_000).unwrap();
    assert_eq!(best.ordinal, 2);
    assert!(select_best_gpu(&devices, 20_000_000_000).is_none());
    let only_cpu = discover_local_devices(None);
    assert!(select_best_gpu(&only_cpu, 0).is_none());
}

#[test]
fn test_cpu_fallback_device() {
    let cpu = LocalDevice::cpu_fallback();

    assert_eq!(cpu.ordinal, u32::MAX);
    assert!(cpu.name.contains("CPU"));
    assert_eq!(cpu.total_vram, 0);
    assert_eq!(cpu.free_vram, 0);
    assert!(cpu.available);
}

#[test]
fn test_local_device_can_hold_model() {
    let device = LocalDevice {
        ordinal: 0,
        name: "Test GPU".to_string(),
        total_vram: 16_000_000_000,
        free_vram: 8_000_000_000,
        compute_capability: "8.6".to_string(),
        available: true,
        used_vram: 2_000_000_000,
    };

    // Model that fits
    assert!(device.can_hold_model(5_000_000_000));

    // Model too large
    assert!(!device.can_hold_model(10_000_000_000));
}

#[test]
fn test_local_device_zero_free_vram() {
    let device = LocalDevice {
        ordinal: 0,
        name: "Full GPU".to_string(),
        total_vram: 16_000_000_000,
        free_vram: 0,
        compute_capability: "8.6".to_string(),
        available: true,
        used_vram: 16_000_000_000,
    };

    // Even tiny model won't fit
    assert!(!device.can_hold_model(1));
}
