use pesti::device_buf::{DeviceBuffer, DeviceBufferError, HostBuffer};
use pesti::tma_descriptor::TmaDescriptor;

#[test]
fn host_buffer_from_vec() {
    let buf = HostBuffer::from_host(vec![1, 2, 3]);
    assert_eq!(buf.len(), 3);
    assert!(!buf.is_empty());
    assert_eq!(buf.as_slice(), &[1, 2, 3]);
    assert_eq!(buf.to_host(), vec![1, 2, 3]);
}

#[test]
fn host_buffer_zeros() {
    let buf: HostBuffer<i32> = HostBuffer::zeros(5);
    assert_eq!(buf.len(), 5);
    assert_eq!(buf.to_host(), vec![0, 0, 0, 0, 0]);
}

#[test]
fn host_buffer_empty() {
    let buf: HostBuffer<i32> = HostBuffer::from_host(vec![]);
    assert!(buf.is_empty());
    assert_eq!(buf.len(), 0);
}

#[test]
fn host_buffer_as_mut_slice() {
    let mut buf = HostBuffer::from_host(vec![1, 2, 3]);
    buf.as_mut_slice()[0] = 10;
    assert_eq!(buf.to_host(), vec![10, 2, 3]);
}

#[test]
fn host_buffer_into_vec() {
    let buf = HostBuffer::from_host(vec![4, 5, 6]);
    let vec: Vec<i32> = buf.into_inner();
    assert_eq!(vec, vec![4, 5, 6]);
}

#[test]
fn host_buffer_from_vec_trait() {
    let buf: HostBuffer<i32> = vec![7, 8, 9].into();
    assert_eq!(buf.to_host(), vec![7, 8, 9]);
}

// ── further cases ──

#[test]
fn host_buffer_clone_round_trip() {
    let v = vec![1, 2, 3];
    let b = HostBuffer::from_host(v.clone());
    assert_eq!(b.clone().to_host(), v);
    assert_eq!(b.into_inner(), v);
}

#[test]
fn host_buffer_back_to_vec_trait() {
    let buf = HostBuffer::from_host(vec![1u8, 2]);
    let v: Vec<u8> = buf.into();
    assert_eq!(v, vec![1, 2]);
}

#[test]
fn device_buffer_error_messages() {
    assert_eq!(DeviceBufferError::NoContext.message(), "CUDA context not available");
    assert_eq!(
        DeviceBufferError::SizeMismatch { expected: 8, got: 4 }.message(),
        "buffer size mismatch: expected 8, got 4"
    );
    assert_eq!(
        DeviceBufferError::Allocation("oom".to_string()).message(),
        "CUDA allocation failed: oom"
    );
}

#[test]
fn device_buffer_ptr() {
    let device_buf: DeviceBuffer<i32> = DeviceBuffer::from_device(0x1000, 10);
    assert_eq!(device_buf.device_ptr(), Some(0x1000));
    assert_eq!(device_buf.len(), 10);
    assert!(device_buf.is_device());
    assert!(device_buf.as_slice().is_none());
}

#[test]
fn cpu_device_buffer_from_vec() {
    let buf = DeviceBuffer::from_cpu_device(vec![1, 2, 3]);
    assert!(buf.is_device());
    assert_eq!(buf.len(), 3);
    assert_eq!(buf.device_ptr(), Some(0xDEAD));
    let slice: &[i32] = buf.as_slice().unwrap();
    assert_eq!(slice, &[1, 2, 3]);
    assert_eq!(buf.to_host(), vec![1, 2, 3]);
}

#[test]
fn cpu_device_buffer_zeros() {
    let buf: DeviceBuffer<i32> = DeviceBuffer::zeros_cpu_device(5);
    assert!(buf.is_device());
    assert_eq!(buf.len(), 5);
    assert_eq!(buf.to_host(), vec![0, 0, 0, 0, 0]);
}

#[test]
fn cpu_device_buffer_as_mut_slice() {
    let mut buf = DeviceBuffer::from_cpu_device(vec![1, 2, 3]);
    buf.as_mut_slice().unwrap()[0] = 10;
    assert_eq!(buf.to_host(), vec![10, 2, 3]);
}

#[test]
fn device_buffer_host_kinds() {
    let host = DeviceBuffer::from_host(vec![7u8, 8]);
    assert!(!host.is_device());
    assert_eq!(host.device_ptr(), None);
    assert_eq!(host.to_host(), vec![7, 8]);
    let zeros: DeviceBuffer<u16> = DeviceBuffer::zeros(3);
    assert_eq!(zeros.to_host(), vec![0, 0, 0]);
    assert!(!zeros.is_empty());
    let raw: DeviceBuffer<f32> = DeviceBuffer::from_device(0x40, 0);
    assert!(raw.is_empty());
    assert!(raw.to_host().is_empty());
}

#[test]
fn device_buffer_tma_attachment() {
    let desc = TmaDescriptor::new().with_gmem_addr(0x1000);
    let raw: DeviceBuffer<u8> = DeviceBuffer::from_device(0x1000, 64);
    assert_eq!(raw.tma_descriptor(), None);
    let with = raw.with_tma_descriptor(desc).unwrap();
    assert_eq!(with.tma_descriptor(), Some(desc));
    assert_eq!(with.device_ptr(), Some(0x1000));
    assert_eq!(with.len(), 64);
    // Only a raw device buffer without a descriptor takes one.
    assert!(with.with_tma_descriptor(desc).is_none());
    assert!(DeviceBuffer::from_cpu_device(vec![1u8]).with_tma_descriptor(desc).is_none());
    let direct: DeviceBuffer<u8> = DeviceBuffer::from_device_with_tma(0x2000, 8, desc);
    assert_eq!(direct.tma_descriptor(), Some(desc));
}

#[test]
fn buffers_clone_their_contents() {
    let buf = HostBuffer::from_host(vec![1, 2, 3]);
    assert_eq!(buf.clone().to_host(), vec![1, 2, 3]);
    assert_eq!(buf.into_inner(), vec![1, 2, 3]);
    let cpu = DeviceBuffer::from_cpu_device(vec![4u8, 5]);
    let copy = cpu.clone();
    assert!(copy.is_device());
    assert_eq!(copy.to_host(), vec![4, 5]);
    let dev: DeviceBuffer<u16> = DeviceBuffer::Device(0x1000, 8);
    assert_eq!(dev.clone().device_ptr(), Some(0x1000));
    assert_eq!(dev.clone().len(), 8);
}
