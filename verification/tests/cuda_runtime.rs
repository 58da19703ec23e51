use pesti::cuda_runtime::{
    device_name_from_c_chars, enumerate_devices_from, is_available, select_best_device,
    CudaDeviceInfo, CudaError,
};

#[test]
fn cuda_device_info_can_hold_model() {
    let info = CudaDeviceInfo {
        ordinal: 0,
        name: "Test GPU".to_string(),
        compute_capability: (12, 0),
        total_memory: 16 * 1024 * 1024 * 1024,
        free_memory: 14 * 1024 * 1024 * 1024,
    };

    assert!(info.can_hold_model(1024 * 1024 * 1024));
    assert!(!info.can_hold_model(15 * 1024 * 1024 * 1024));
}

#[test]
fn cuda_device_info_supports_tcgen05() {
    let sm100 = CudaDeviceInfo {
        ordinal: 0,
        name: "B200".to_string(),
        compute_capability: (10, 0),
        total_memory: 0,
        free_memory: 0,
    };
    assert!(sm100.supports_tcgen05());

    let sm90 = CudaDeviceInfo {
        ordinal: 0,
        name: "H100".to_string(),
        compute_capability: (9, 0),
        total_memory: 0,
        free_memory: 0,
    };
    assert!(!sm90.supports_tcgen05());
}

#[test]
fn cuda_device_info_supports_wgmma() {
    let sm120 = CudaDeviceInfo {
        ordinal: 0,
        name: "RTX 5090".to_string(),
        compute_capability: (12, 0),
        total_memory: 0,
        free_memory: 0,
    };
    assert!(sm120.supports_wgmma());

    let sm119 = CudaDeviceInfo {
        ordinal: 0,
        name: "Fake GPU".to_string(),
        compute_capability: (11, 9),
        total_memory: 0,
        free_memory: 0,
    };
    assert!(!sm119.supports_wgmma());
}

#[test]
fn cuda_error_display() {
    let err = CudaError::NotInitialized("driver".to_string());
    assert!(err.message().contains("driver"));

    let err = CudaError::ComputeCapabilityUnsupported { major: 9, minor: 0 };
    assert!(err.message().contains("sm_9.0"));

    let err = CudaError::NotAvailable;
    assert!(err.message().contains("not available"));
}

#[test]
fn is_available_returns_bool() {
    let _ = is_available(&Err(CudaError::NotAvailable));
}

// ── further cases ──

const GIB: u64 = 1024 * 1024 * 1024;

fn device(ordinal: usize, cc: (i32, i32), free_gib: u64) -> CudaDeviceInfo {
    CudaDeviceInfo {
        ordinal,
        name: format!("gpu{ordinal}"),
        compute_capability: cc,
        total_memory: 80 * GIB,
        free_memory: free_gib * GIB,
    }
}

#[test]
fn best_device_prefers_capability_then_memory() {
    let devices = vec![
        device(0, (9, 0), 40),  // no tensor-core support
        device(1, (12, 0), 20), // WGMMA and tcgen05, 20 GiB free
        device(2, (10, 0), 39), // tcgen05 only
        device(3, (12, 0), 20), // ties with device 1: the earlier one wins
        device(4, (12, 0), 1),  // does not fit
    ];
    let best = select_best_device(&devices, 4 * GIB).unwrap();
    assert_eq!(best.ordinal, 1);
    // a tcgen05 device with 20 GiB free beats an older one with 30 GiB free
    let pair = vec![device(0, (9, 0), 30), device(1, (10, 0), 20)];
    assert_eq!(select_best_device(&pair, GIB).unwrap().ordinal, 1);
    assert!(select_best_device(&devices, 60 * GIB).is_none());
    assert!(select_best_device(&[], GIB).is_none());
}

#[test]
fn availability_needs_a_device() {
    assert!(!is_available(&Ok(vec![])));
    assert!(is_available(&Ok(vec![device(0, (12, 0), 8)])));
    assert!(!is_available(&Err(CudaError::NotAvailable)));
}

#[test]
fn cuda_error_messages_are_exact() {
    assert_eq!(
        CudaError::ComputeCapabilityUnsupported { major: 9, minor: 0 }.message(),
        "CUDA compute capability unsupported: sm_9.0 < sm_100"
    );
    assert_eq!(CudaError::DeviceUnavailable { ordinal: 3 }.message(), "CUDA device unavailable: ordinal=3");
    assert_eq!(CudaError::DriverError(700).message(), "CUDA error code: 700");
    assert_eq!(CudaError::NotAvailable.message(), "CUDA not available on this system");
}

#[test]
fn device_name_stops_at_nul() {
    let mut buf = [0i8; 16];
    for (i, b) in b"RTX 4070".iter().enumerate() {
        buf[i] = *b as i8;
    }
    buf[9] = b'x' as i8;
    assert_eq!(device_name_from_c_chars(&buf), "RTX 4070");
    assert_eq!(device_name_from_c_chars(&[]), "");
    let unterminated = [b'A' as i8, b'B' as i8];
    assert_eq!(device_name_from_c_chars(&unterminated), "AB");
}

#[test]
fn enumerate_devices_without_driver_is_not_available() {
    assert!(enumerate_devices_from(None).unwrap().is_empty());
    let found = enumerate_devices_from(Some(vec![])).unwrap();
    assert!(found.is_empty());
}

#[test]
fn enumerate_devices_skips_failed_probes() {
    let name = |s: &str| {
        let mut v: Vec<i8> = s.bytes().map(|b| b as i8).collect();
        v.push(0);
        v
    };
    let probes = vec![
        Some((name("GPU0"), Some((12, 0)), Some((10, 16)))),
        None,
        Some((name("GPU2"), None, Some((1, 2)))),
        Some((name("GPU3"), Some((9, 0)), None)),
        Some((name("GPU4"), Some((8, 6)), Some((3, 8)))),
    ];
    let devices = enumerate_devices_from(Some(probes)).unwrap();
    assert_eq!(devices.len(), 2);
    assert_eq!(devices[0].ordinal, 0);
    assert_eq!(devices[0].name, "GPU0");
    assert_eq!(devices[0].compute_capability, (12, 0));
    assert_eq!(devices[0].free_memory, 10);
    assert_eq!(devices[0].total_memory, 16);
    assert_eq!(devices[1].ordinal, 4);
    assert_eq!(devices[1].name, "GPU4");
    assert_eq!(devices[1].free_memory, 3);
    assert_eq!(devices[1].total_memory, 8);
}
