//! Kernel operand buffers (on the host, at device addresses, or host data
//! standing in for device memory) and the errors of buffer transfers.

use vstd::prelude::*;

use crate::text::{decimal, push_decimal, push_str};
use crate::tma_descriptor::TmaDescriptor;

verus! {

/// Errors of device buffer operations.
#[derive(Debug)]
pub enum DeviceBufferError {
    NoContext,
    Allocation(String),
    Transfer(String),
    SizeMismatch { expected: usize, got: usize },
}

/// Text of a device buffer error.
pub open spec fn device_buffer_error_text(e: &DeviceBufferError) -> Seq<char> {
    match e {
        DeviceBufferError::NoContext => "CUDA context not available"@,
        DeviceBufferError::Allocation(s) => "CUDA allocation failed: "@ + s@,
        DeviceBufferError::Transfer(s) => "CUDA transfer failed: "@ + s@,
        DeviceBufferError::SizeMismatch { expected, got } => "buffer size mismatch: expected "@
            + decimal(*expected as nat) + ", got "@ + decimal(*got as nat),
    }
}

impl DeviceBufferError {
    /// The error's text.
    pub fn message(&self) -> (r: String)
        ensures
            r@ == device_buffer_error_text(self),
    {
        let mut s = String::new();
        match self {
            DeviceBufferError::NoContext => {
                push_str(&mut s, "CUDA context not available");
            },
            DeviceBufferError::Allocation(t) => {
                push_str(&mut s, "CUDA allocation failed: ");
                push_str(&mut s, t.as_str());
            },
            DeviceBufferError::Transfer(t) => {
                push_str(&mut s, "CUDA transfer failed: ");
                push_str(&mut s, t.as_str());
            },
            DeviceBufferError::SizeMismatch { expected, got } => {
                push_str(&mut s, "buffer size mismatch: expected ");
                push_decimal(&mut s, *expected as u64);
                push_str(&mut s, ", got ");
                push_decimal(&mut s, *got as u64);
            },
        }
        s
    }
}

/// A buffer whose data lives on the host.
#[derive(Debug)]
pub struct HostBuffer<T>(pub Vec<T>);

impl<T> View for HostBuffer<T> {
    type V = Seq<T>;

    open spec fn view(&self) -> Seq<T> {
        self.0@
    }
}

/// `d` is a value `T::default()` can return.
pub open spec fn is_default_value<T: Default>(d: T) -> bool {
    call_ensures(T::default, (), d)
}

impl<T: Default + Clone> HostBuffer<T> {
    /// Takes ownership of the data.
    pub fn from_host(data: Vec<T>) -> (r: Self)
        ensures
            r@ == data@,
    {
        HostBuffer(data)
    }

    /// `len` copies of the default value.
    pub fn zeros(len: usize) -> (r: Self)
        ensures
            r@.len() == len,
            exists|d: T| is_default_value(d) && forall|i: int| 0 <= i < len ==> cloned(d, #[trigger] r@[i]),
    {
        let d = T::default();
        let r = HostBuffer(vec![d; len]);
        proof {
            assert(is_default_value(d));
            assert(forall|i: int| 0 <= i < len ==> cloned(d, #[trigger] r@[i]));
        }
        r
    }

    pub fn len(&self) -> (r: usize)
        ensures
            r == self@.len(),
    {
        self.0.len()
    }

    pub fn is_empty(&self) -> (r: bool)
        ensures
            r <==> self@.len() == 0,
    {
        self.0.len() == 0
    }

    pub fn as_slice(&self) -> (r: &[T])
        ensures
            r@ == self@,
    {
        self.0.as_slice()
    }

    /// The data, writable in place.
    pub fn as_mut_slice(&mut self) -> (r: &mut [T])
        ensures
            r@ == old(self)@,
            final(r)@ == final(self)@,
    {
        self.0.as_mut_slice()
    }

    /// The data, handed back.
    pub fn to_host(self) -> (r: Vec<T>)
        ensures
            r@ == self@,
    {
        self.0
    }

    /// The data, handed back.
    pub fn into_inner(self) -> (r: Vec<T>)
        ensures
            r@ == self@,
    {
        self.0
    }
}

impl<T: Default + Clone> From<Vec<T>> for HostBuffer<T> {
    fn from(v: Vec<T>) -> (r: Self) {
        HostBuffer(v)
    }
}

impl<T: Default + Clone> vstd::std_specs::convert::FromSpecImpl<Vec<T>> for HostBuffer<T> {
    open spec fn obeys_from_spec() -> bool {
        true
    }

    open spec fn from_spec(v: Vec<T>) -> HostBuffer<T> {
        HostBuffer(v)
    }
}

impl<T: Default + Clone> From<HostBuffer<T>> for Vec<T> {
    fn from(buf: HostBuffer<T>) -> (r: Self) {
        buf.0
    }
}

impl<T: Default + Clone> vstd::std_specs::convert::FromSpecImpl<HostBuffer<T>> for Vec<T> {
    open spec fn obeys_from_spec() -> bool {
        true
    }

    open spec fn from_spec(b: HostBuffer<T>) -> Vec<T> {
        b.0
    }
}

/// A buffer on a device, or standing in for one: host data, a raw device
/// address with an element count (optionally with a TMA descriptor), or host
/// data standing in for device memory when there is no GPU.
#[derive(Debug)]
pub enum DeviceBuffer<T> {
    Host(Vec<T>),
    Device(u64, usize),
    DeviceTma(u64, usize, TmaDescriptor),
    CpuDevice(Vec<T>),
}

/// The address reported for host data standing in for device memory.
pub const CPU_DEVICE_PTR: u64 = 0xDEAD;

impl<T> DeviceBuffer<T> {
    /// Number of elements.
    pub open spec fn spec_len(&self) -> nat {
        match self {
            DeviceBuffer::Host(v) => v@.len(),
            DeviceBuffer::Device(_, len) => *len as nat,
            DeviceBuffer::DeviceTma(_, len, _) => *len as nat,
            DeviceBuffer::CpuDevice(v) => v@.len(),
        }
    }

    /// The data, when it is held on the host.
    pub open spec fn host_data(&self) -> Option<Seq<T>> {
        match self {
            DeviceBuffer::Host(v) => Some(v@),
            DeviceBuffer::CpuDevice(v) => Some(v@),
            _ => None,
        }
    }

    /// Host data.
    pub fn from_host(data: Vec<T>) -> (r: Self)
        ensures
            r matches DeviceBuffer::Host(v) && v@ == data@,
    {
        DeviceBuffer::Host(data)
    }

    /// `len` copies of the default value, on the host.
    pub fn zeros(len: usize) -> (r: Self)
        where
            T: Default + Clone,
        ensures
            r matches DeviceBuffer::Host(v) && v@.len() == len && exists|d: T|
                is_default_value(d) && forall|i: int| 0 <= i < len ==> cloned(d, #[trigger] v@[i]),
    {
        let h = HostBuffer::<T>::zeros(len);
        DeviceBuffer::Host(h.0)
    }

    pub fn len(&self) -> (r: usize)
        ensures
            r == self.spec_len(),
    {
        match self {
            DeviceBuffer::Host(v) => v.len(),
            DeviceBuffer::Device(_, len) => *len,
            DeviceBuffer::DeviceTma(_, len, _) => *len,
            DeviceBuffer::CpuDevice(v) => v.len(),
        }
    }

    pub fn is_empty(&self) -> (r: bool)
        ensures
            r == (self.spec_len() == 0),
    {
        self.len() == 0
    }

    /// The data, when it is held on the host.
    pub fn as_slice(&self) -> (r: Option<&[T]>)
        ensures
            match self.host_data() {
                Some(d) => r matches Some(s) && s@ == d,
                None => r is None,
            },
    {
        match self {
            DeviceBuffer::Host(v) => Some(v.as_slice()),
            DeviceBuffer::CpuDevice(v) => Some(v.as_slice()),
            _ => None,
        }
    }

    /// The data, writable in place, when it is held on the host; the buffer
    /// keeps its kind.
    pub fn as_mut_slice(&mut self) -> (r: Option<&mut [T]>)
        ensures
            match old(self).host_data() {
                Some(d) => r matches Some(s) && s@ == d && final(self).host_data() == Some(final(s)@)
                    && ((*old(self)) is Host <==> (*final(self)) is Host),
                None => r is None && *final(self) == *old(self),
            },
    {
        match self {
            DeviceBuffer::Host(v) => Some(v.as_mut_slice()),
            DeviceBuffer::CpuDevice(v) => Some(v.as_mut_slice()),
            _ => None,
        }
    }

    /// A copy of the data held on the host; nothing for device memory.
    pub fn to_host(&self) -> (r: Vec<T>)
        where
            T: Clone,
        ensures
            match self.host_data() {
                Some(d) => r@.len() == d.len() && forall|i: int| 0 <= i < d.len() ==> cloned(
                    d[i],
                    #[trigger] r@[i],
                ),
                None => r@.len() == 0,
            },
    {
        match self {
            DeviceBuffer::Host(v) => v.clone(),
            DeviceBuffer::CpuDevice(v) => v.clone(),
            _ => Vec::new(),
        }
    }

    /// The device address: the raw address, or the stand-in address for
    /// host data standing in for device memory; none for host data.
    pub open spec fn device_address(&self) -> Option<u64> {
        match self {
            DeviceBuffer::Host(_) => None,
            DeviceBuffer::Device(p, _) => Some(*p),
            DeviceBuffer::DeviceTma(p, _, _) => Some(*p),
            DeviceBuffer::CpuDevice(_) => Some(CPU_DEVICE_PTR),
        }
    }

    /// The device address: the raw address, or the stand-in address for
    /// host data standing in for device memory; none for host data.
    pub fn device_ptr(&self) -> (r: Option<u64>)
        ensures
            r == self.device_address(),
    {
        match self {
            DeviceBuffer::Host(_) => None,
            DeviceBuffer::Device(p, _) => Some(*p),
            DeviceBuffer::DeviceTma(p, _, _) => Some(*p),
            DeviceBuffer::CpuDevice(_) => Some(CPU_DEVICE_PTR),
        }
    }

    /// The attached TMA descriptor, if any.
    pub fn tma_descriptor(&self) -> (r: Option<TmaDescriptor>)
        ensures
            r == match self {
                DeviceBuffer::DeviceTma(_, _, d) => Some(*d),
                _ => None,
            },
    {
        match self {
            DeviceBuffer::DeviceTma(_, _, d) => Some(*d),
            _ => None,
        }
    }

    /// Whether the buffer is (or stands in for) device memory.
    pub fn is_device(&self) -> (r: bool)
        ensures
            r == !(self is Host),
    {
        match self {
            DeviceBuffer::Host(_) => false,
            _ => true,
        }
    }

    /// A buffer at a raw device address holding `len` elements.
    pub fn from_device(ptr_addr: u64, len: usize) -> (r: Self)
        ensures
            r == DeviceBuffer::<T>::Device(ptr_addr, len),
    {
        DeviceBuffer::Device(ptr_addr, len)
    }

    /// A buffer at a raw device address with a TMA descriptor attached.
    pub fn from_device_with_tma(ptr_addr: u64, len: usize, desc: TmaDescriptor) -> (r: Self)
        ensures
            r == DeviceBuffer::<T>::DeviceTma(ptr_addr, len, desc),
    {
        DeviceBuffer::DeviceTma(ptr_addr, len, desc)
    }

    /// The same device buffer with a TMA descriptor attached; only a raw
    /// device buffer without one takes it.
    pub fn with_tma_descriptor(&self, desc: TmaDescriptor) -> (r: Option<Self>)
        ensures
            r == match self {
                DeviceBuffer::Device(p, len) => Some(DeviceBuffer::<T>::DeviceTma(*p, *len, desc)),
                _ => None,
            },
    {
        match self {
            DeviceBuffer::Device(p, len) => Some(DeviceBuffer::DeviceTma(*p, *len, desc)),
            _ => None,
        }
    }

    /// Host data standing in for device memory.
    pub fn from_cpu_device(data: Vec<T>) -> (r: Self)
        ensures
            r matches DeviceBuffer::CpuDevice(v) && v@ == data@,
    {
        DeviceBuffer::CpuDevice(data)
    }

    /// `len` copies of the default value standing in for device memory.
    pub fn zeros_cpu_device(len: usize) -> (r: Self)
        where
            T: Default + Clone,
        ensures
            r matches DeviceBuffer::CpuDevice(v) && v@.len() == len && exists|d: T|
                is_default_value(d) && forall|i: int| 0 <= i < len ==> cloned(d, #[trigger] v@[i]),
    {
        let h = HostBuffer::<T>::zeros(len);
        DeviceBuffer::CpuDevice(h.0)
    }
}

impl<T: Clone> Clone for HostBuffer<T> {
    /// A copy holding a clone of each element; where cloning an element
    /// gives back an equal value, the copy holds the same contents.
    fn clone(&self) -> (r: Self)
        ensures
            r@.len() == self@.len(),
            forall|i: int| 0 <= i < self@.len() ==> cloned::<T>(self@[i], #[trigger] r@[i]),
            (forall|a: T, b: T| #[trigger] cloned::<T>(a, b) ==> a == b) ==> r@ == self@,
    {
        let r = HostBuffer(self.0.clone());
        proof {
            if forall|a: T, b: T| #[trigger] cloned::<T>(a, b) ==> a == b {
                assert(r@ =~= self@);
            }
        }
        r
    }
}

/// Law: a clone of a host buffer holds the same contents as the buffer,
/// for every element type whose own clone gives back an equal value.
pub proof fn lemma_host_clone_keeps_contents<T: Clone>(a: HostBuffer<T>, b: HostBuffer<T>)
    requires
        cloned::<HostBuffer<T>>(a, b),
        forall|x: T, y: T| #[trigger] cloned::<T>(x, y) ==> x == y,
    ensures
        b@ == a@,
{
}

/// Law: a buffer of 32-bit integers built from data, cloned and handed back,
/// gives back the data.
pub proof fn lemma_host_i32_round_trip(data: Seq<i32>, a: HostBuffer<i32>, b: HostBuffer<i32>)
    requires
        a@ == data,
        cloned::<HostBuffer<i32>>(a, b),
    ensures
        b@ == data,
{
    assert(b@ =~= data);
}

impl<T: Clone> Clone for DeviceBuffer<T> {
    /// A copy of the same kind: host data with each element cloned; the same
    /// address, length and descriptor for device memory.
    fn clone(&self) -> (r: Self)
        ensures
            r.spec_len() == self.spec_len(),
            r.device_address() == self.device_address(),
            (*self is Host <==> r is Host),
            (*self is CpuDevice <==> r is CpuDevice),
            !(*self is Host) && !(*self is CpuDevice) ==> r == *self,
            self.host_data() matches Some(d) ==> (r.host_data() matches Some(e) && e.len() == d.len()
                && forall|i: int| 0 <= i < d.len() ==> cloned::<T>(d[i], #[trigger] e[i])),
            (forall|a: T, b: T| #[trigger] cloned::<T>(a, b) ==> a == b) ==> r.host_data()
                == self.host_data(),
    {
        let r = match self {
            DeviceBuffer::Host(v) => DeviceBuffer::Host(v.clone()),
            DeviceBuffer::Device(p, n) => DeviceBuffer::Device(*p, *n),
            DeviceBuffer::DeviceTma(p, n, d) => DeviceBuffer::DeviceTma(*p, *n, *d),
            DeviceBuffer::CpuDevice(v) => DeviceBuffer::CpuDevice(v.clone()),
        };
        proof {
            if forall|a: T, b: T| #[trigger] cloned::<T>(a, b) ==> a == b {
                if let (Some(d), Some(e)) = (self.host_data(), r.host_data()) {
                    assert(e =~= d);
                }
            }
        }
        r
    }
}

} // verus!
