//! CUDA device descriptions, capability checks and device selection.
//! Enumerating the devices is the driver's business; what is decided from
//! the enumerated devices is here.

use vstd::prelude::*;

use crate::text::{decimal, push_char, push_decimal, push_signed_decimal, push_str, signed_decimal};

verus! {

/// Errors of the CUDA runtime.
#[derive(Debug)]
pub enum CudaError {
    NotInitialized(String),
    DeviceUnavailable { ordinal: usize },
    ContextCreation(String),
    ComputeCapabilityUnsupported { major: i32, minor: i32 },
    LibraryLoad(String),
    DriverError(u32),
    NotAvailable,
}

/// Text of a CUDA runtime error.
pub open spec fn cuda_error_text(e: &CudaError) -> Seq<char> {
    match e {
        CudaError::NotInitialized(s) => "CUDA driver not initialized: "@ + s@,
        CudaError::DeviceUnavailable { ordinal } => "CUDA device unavailable: ordinal="@ + decimal(
            *ordinal as nat,
        ),
        CudaError::ContextCreation(s) => "CUDA context creation failed: "@ + s@,
        CudaError::ComputeCapabilityUnsupported { major, minor } =>
            "CUDA compute capability unsupported: sm_"@ + signed_decimal(*major as int) + "."@
                + signed_decimal(*minor as int) + " < sm_100"@,
        CudaError::LibraryLoad(s) => "CUDA library load failed: "@ + s@,
        CudaError::DriverError(c) => "CUDA error code: "@ + decimal(*c as nat),
        CudaError::NotAvailable => "CUDA not available on this system"@,
    }
}

impl CudaError {
    /// The error's text.
    pub fn message(&self) -> (r: String)
        ensures
            r@ == cuda_error_text(self),
    {
        let mut s = String::new();
        match self {
            CudaError::NotInitialized(t) => {
                push_str(&mut s, "CUDA driver not initialized: ");
                push_str(&mut s, t.as_str());
            },
            CudaError::DeviceUnavailable { ordinal } => {
                push_str(&mut s, "CUDA device unavailable: ordinal=");
                push_decimal(&mut s, *ordinal as u64);
            },
            CudaError::ContextCreation(t) => {
                push_str(&mut s, "CUDA context creation failed: ");
                push_str(&mut s, t.as_str());
            },
            CudaError::ComputeCapabilityUnsupported { major, minor } => {
                push_str(&mut s, "CUDA compute capability unsupported: sm_");
                push_signed_decimal(&mut s, *major as i64);
                push_str(&mut s, ".");
                push_signed_decimal(&mut s, *minor as i64);
                push_str(&mut s, " < sm_100");
            },
            CudaError::LibraryLoad(t) => {
                push_str(&mut s, "CUDA library load failed: ");
                push_str(&mut s, t.as_str());
            },
            CudaError::DriverError(c) => {
                push_str(&mut s, "CUDA error code: ");
                push_decimal(&mut s, *c as u64);
            },
            CudaError::NotAvailable => {
                push_str(&mut s, "CUDA not available on this system");
            },
        }
        s
    }
}

/// A CUDA device as the driver describes it.
#[derive(Debug)]
pub struct CudaDeviceInfo {
    /// Zero-based device ordinal.
    pub ordinal: usize,
    pub name: String,
    /// Compute capability (major, minor).
    pub compute_capability: (i32, i32),
    /// Total device memory in bytes.
    pub total_memory: u64,
    /// Free device memory in bytes.
    pub free_memory: u64,
}

/// Mathematical model of a device description.
pub struct CudaDeviceInfoView {
    pub ordinal: usize,
    pub name: Seq<char>,
    pub compute_capability: (i32, i32),
    pub total_memory: u64,
    pub free_memory: u64,
}

impl View for CudaDeviceInfo {
    type V = CudaDeviceInfoView;

    open spec fn view(&self) -> CudaDeviceInfoView {
        CudaDeviceInfoView {
            ordinal: self.ordinal,
            name: self.name@,
            compute_capability: self.compute_capability,
            total_memory: self.total_memory,
            free_memory: self.free_memory,
        }
    }
}

impl Clone for CudaDeviceInfo {
    fn clone(&self) -> (r: Self)
        ensures
            r@ == self@,
    {
        CudaDeviceInfo {
            ordinal: self.ordinal,
            name: self.name.clone(),
            compute_capability: self.compute_capability,
            total_memory: self.total_memory,
            free_memory: self.free_memory,
        }
    }
}

/// Memory held back on a device for overhead (KV cache, buffers, JIT): 2 GiB.
pub const DEVICE_RESERVE_BYTES: u64 = 2147483648;

/// A device fits a model when its free memory exceeds the model plus the reserve.
pub open spec fn cuda_fits(d: CudaDeviceInfoView, model_bytes: u64) -> bool {
    d.free_memory > model_bytes + DEVICE_RESERVE_BYTES
}

/// Rank of a device for selection: compute capability first (tcgen05
/// support, then WGMMA support), free memory only to break ties. The rank is
/// the capability class times 2^64 plus the free bytes, so ranks compare
/// lexicographically.
pub open spec fn device_rank(d: CudaDeviceInfoView) -> int {
    ((if d.compute_capability.0 >= 10 {
        2int
    } else {
        0int
    }) + (if d.compute_capability.0 >= 12 {
        1int
    } else {
        0int
    })) * 0x1_0000_0000_0000_0000 + d.free_memory as int
}

/// Ranks order devices by tcgen05 support, then WGMMA support, then free
/// memory.
pub proof fn lemma_rank_is_lexicographic(a: CudaDeviceInfoView, b: CudaDeviceInfoView)
    ensures
        device_rank(a) < device_rank(b) <==> {
            let (ta, wa) = (a.compute_capability.0 >= 10, a.compute_capability.0 >= 12);
            let (tb, wb) = (b.compute_capability.0 >= 10, b.compute_capability.0 >= 12);
            ||| !ta && tb
            ||| ta == tb && !wa && wb
            ||| ta == tb && wa == wb && a.free_memory < b.free_memory
        },
{
}

/// `i` is the first device that fits the model with the highest rank among
/// those that fit.
pub open spec fn is_best_device(ds: Seq<CudaDeviceInfoView>, model_bytes: u64, i: int) -> bool {
    &&& 0 <= i < ds.len()
    &&& cuda_fits(ds[i], model_bytes)
    &&& forall|j: int|
        0 <= j < ds.len() && cuda_fits(ds[j], model_bytes) ==> device_rank(ds[j]) <= device_rank(
            ds[i],
        )
    &&& forall|j: int|
        0 <= j < i && cuda_fits(ds[j], model_bytes) ==> device_rank(ds[j]) < device_rank(ds[i])
}

impl CudaDeviceInfo {
    /// Whether the free memory exceeds the model plus a 2 GiB reserve.
    pub fn can_hold_model(&self, model_bytes: u64) -> (r: bool)
        requires
            model_bytes + DEVICE_RESERVE_BYTES <= u64::MAX,
        ensures
            r == cuda_fits(self@, model_bytes),
    {
        self.free_memory > model_bytes + DEVICE_RESERVE_BYTES
    }

    /// tcgen05 needs compute capability 10 or above.
    pub fn supports_tcgen05(&self) -> (r: bool)
        ensures
            r == (self.compute_capability.0 >= 10),
    {
        self.compute_capability.0 >= 10
    }

    /// WGMMA needs compute capability 12 or above.
    pub fn supports_wgmma(&self) -> (r: bool)
        ensures
            r == (self.compute_capability.0 >= 12),
    {
        self.compute_capability.0 >= 12
    }
}

fn score_of(d: &CudaDeviceInfo) -> (r: i128)
    ensures
        r == device_rank(d@),
{
    let tc: i128 = if d.supports_tcgen05() {
        2
    } else {
        0
    };
    let wg: i128 = if d.supports_wgmma() {
        1
    } else {
        0
    };
    (tc + wg) * 0x1_0000_0000_0000_0000i128 + d.free_memory as i128
}

/// The device to run a model of `model_bytes` on: among the devices that
/// fit it, the one of highest rank (tcgen05 support, then WGMMA support, then
/// free memory as the tiebreaker), the earliest listed among equals; `None`
/// when none fits.
pub fn select_best_device(devices: &[CudaDeviceInfo], model_bytes: u64) -> (r: Option<
    CudaDeviceInfo,
>)
    requires
        model_bytes + DEVICE_RESERVE_BYTES <= u64::MAX,
    ensures
        ({
            let ds = devices@.map_values(|d: CudaDeviceInfo| d@);
            match r {
                Some(d) => exists|i: int| is_best_device(ds, model_bytes, i) && d@ == ds[i],
                None => forall|i: int| 0 <= i < ds.len() ==> !cuda_fits(ds[i], model_bytes),
            }
        }),
{
    let ghost ds = devices@.map_values(|d: CudaDeviceInfo| d@);
    let mut best: Option<usize> = None;
    let mut best_score: i128 = 0;
    let mut i: usize = 0;
    while i < devices.len()
        invariant
            ds == devices@.map_values(|d: CudaDeviceInfo| d@),
            model_bytes + DEVICE_RESERVE_BYTES <= u64::MAX,
            i <= devices@.len(),
            match best {
                None => forall|j: int| 0 <= j < i ==> !cuda_fits(ds[j], model_bytes),
                Some(b) => {
                    &&& b < i
                    &&& cuda_fits(ds[b as int], model_bytes)
                    &&& best_score == device_rank(ds[b as int])
                    &&& forall|j: int|
                        0 <= j < i && cuda_fits(ds[j], model_bytes) ==> device_rank(ds[j])
                            <= best_score
                    &&& forall|j: int|
                        0 <= j < b && cuda_fits(ds[j], model_bytes) ==> device_rank(ds[j])
                            < best_score
                },
            },
        decreases devices@.len() - i,
    {
        let d = &devices[i];
        if d.can_hold_model(model_bytes) {
            let s = score_of(d);
            match best {
                None => {
                    best = Some(i);
                    best_score = s;
                },
                Some(_) => {
                    if s > best_score {
                        best = Some(i);
                        best_score = s;
                    }
                },
            }
        }
        i = i + 1;
    }
    match best {
        None => None,
        Some(b) => {
            proof {
                assert(is_best_device(ds, model_bytes, b as int));
            }
            Some(devices[b].clone())
        },
    }
}

/// The length of a NUL-terminated name in a driver buffer: the index of the
/// first zero, or the whole buffer when there is none.
pub open spec fn c_name_len(buf: Seq<i8>) -> nat
    decreases buf.len(),
{
    if buf.len() == 0 || buf[0] == 0 {
        0
    } else {
        1 + c_name_len(buf.drop_first())
    }
}

/// A driver character read as a byte and that byte as a character.
pub open spec fn byte_char(c: i8) -> char {
    ((c as u8) as u32) as char
}

/// The device name a driver buffer holds: its characters up to the first
/// NUL, each byte taken as one character.
pub open spec fn c_name(buf: Seq<i8>) -> Seq<char> {
    buf.take(c_name_len(buf) as int).map_values(|c: i8| byte_char(c))
}

proof fn lemma_c_name_len(buf: Seq<i8>)
    ensures
        c_name_len(buf) <= buf.len(),
        forall|i: int| 0 <= i < c_name_len(buf) ==> buf[i] != 0,
        c_name_len(buf) < buf.len() ==> buf[c_name_len(buf) as int] == 0,
    decreases buf.len(),
{
    if buf.len() > 0 && buf[0] != 0 {
        lemma_c_name_len(buf.drop_first());
        assert forall|i: int| 0 <= i < c_name_len(buf) implies buf[i] != 0 by {
            if i > 0 {
                assert(buf[i] == buf.drop_first()[i - 1]);
            }
        }
    }
}

/// The name a driver wrote into a character buffer.
pub fn device_name_from_c_chars(buf: &[i8]) -> (r: String)
    ensures
        r@ == c_name(buf@),
{
    let mut name = String::new();
    let mut i: usize = 0;
    proof {
        lemma_c_name_len(buf@);
    }
    while i < buf.len() && buf[i] != 0
        invariant
            i <= c_name_len(buf@),
            c_name_len(buf@) <= buf@.len(),
            forall|j: int| 0 <= j < c_name_len(buf@) ==> buf@[j] != 0,
            c_name_len(buf@) < buf@.len() ==> buf@[c_name_len(buf@) as int] == 0,
            name@ == buf@.take(i as int).map_values(|c: i8| byte_char(c)),
        decreases buf.len() - i,
    {
        let c: char = (buf[i] as u8) as char;
        proof {
            assert(c == byte_char(buf@[i as int]));
        }
        push_char(&mut name, c);
        proof {
            assert(buf@.take(i + 1).map_values(|c: i8| byte_char(c)) =~= buf@.take(i as int).map_values(
                |c: i8| byte_char(c),
            ).push(byte_char(buf@[i as int])));
        }
        i = i + 1;
    }
    name
}

/// What the driver answered for one device ordinal: the name buffer, the
/// compute capability (`None` when that query failed) and the
/// `(free, total)` memory in bytes (`None` when that query failed).
pub type CudaProbe = (Vec<i8>, Option<(i32, i32)>, Option<(u64, u64)>);

/// The devices enumeration reports from per-ordinal probes: an ordinal
/// whose handle (`None`), compute capability or memory query failed is
/// skipped; the others keep their ordinal, in order.
pub open spec fn probed_cuda_devices(probes: Seq<Option<CudaProbe>>) -> Seq<CudaDeviceInfoView>
    decreases probes.len(),
{
    if probes.len() == 0 {
        Seq::empty()
    } else {
        let before = probed_cuda_devices(probes.drop_last());
        match probes.last() {
            Some((buf, Some(cc), Some((free, total)))) => before.push(
                CudaDeviceInfoView {
                    ordinal: (probes.len() - 1) as usize,
                    name: c_name(buf@),
                    compute_capability: cc,
                    total_memory: total,
                    free_memory: free,
                },
            ),
            _ => before,
        }
    }
}

/// Device enumeration from what the driver answered: `None` when the driver
/// could not be initialised or counted, which gives the empty list (as when
/// no device is found), otherwise one probe per ordinal.
pub fn enumerate_devices_from(driver: Option<Vec<Option<CudaProbe>>>) -> (r: Result<
    Vec<CudaDeviceInfo>,
    CudaError,
>)
    ensures
        driver is None ==> (r matches Ok(v) && v@.len() == 0),
        driver matches Some(ps) ==> (r matches Ok(v) && v@.map_values(|d: CudaDeviceInfo| d@)
            == probed_cuda_devices(ps@)),
{
    match driver {
        None => Ok(Vec::new()),
        Some(ps) => {
            let ghost all = ps@;
            let mut devices: Vec<CudaDeviceInfo> = Vec::new();
            let mut i: usize = 0;
            proof {
                assert(devices@.map_values(|d: CudaDeviceInfo| d@) =~= probed_cuda_devices(
                    all.take(0),
                ));
            }
            while i < ps.len()
                invariant
                    ps@ == all,
                    i <= all.len(),
                    devices@.map_values(|d: CudaDeviceInfo| d@) == probed_cuda_devices(
                        all.take(i as int),
                    ),
                decreases all.len() - i,
            {
                proof {
                    assert(all.take(i + 1).drop_last() =~= all.take(i as int));
                }
                match &ps[i] {
                    Some((buf, Some(cc), Some((free, total)))) => {
                        let ghost before = devices@;
                        let name = device_name_from_c_chars(buf.as_slice());
                        let info = CudaDeviceInfo {
                            ordinal: i,
                            name,
                            compute_capability: *cc,
                            total_memory: *total,
                            free_memory: *free,
                        };
                        let ghost v = info@;
                        devices.push(info);
                        proof {
                            assert(devices@.map_values(|d: CudaDeviceInfo| d@) =~= before.map_values(
                                |d: CudaDeviceInfo| d@,
                            ).push(v));
                        }
                    },
                    _ => {},
                }
                i = i + 1;
            }
            proof {
                assert(all.take(all.len() as int) =~= all);
            }
            Ok(devices)
        },
    }
}

/// CUDA is available when enumeration succeeded and found a device.
pub fn is_available(enumerated: &Result<Vec<CudaDeviceInfo>, CudaError>) -> (r: bool)
    ensures
        r <==> (enumerated matches Ok(v) && v@.len() > 0),
{
    match enumerated {
        Ok(v) => v.len() > 0,
        Err(_) => false,
    }
}

} // verus!
