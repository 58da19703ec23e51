//! Local GPU devices: what a device can hold, the device list discovery
//! reports, and the choice of a GPU for a model.

use vstd::prelude::*;

use crate::text::{push_signed_decimal, push_str, signed_decimal};

verus! {

/// A local GPU (or the host, as the fallback entry).
#[derive(Debug)]
pub struct LocalDevice {
    /// CUDA ordinal; `u32::MAX` marks the host fallback.
    pub ordinal: u32,
    pub name: String,
    /// Total VRAM in bytes.
    pub total_vram: u64,
    /// Free VRAM in bytes.
    pub free_vram: u64,
    /// Compute capability as `major.minor`.
    pub compute_capability: String,
    pub available: bool,
    /// Used VRAM in bytes.
    pub used_vram: u64,
}

/// Mathematical model of a local device.
pub struct LocalDeviceView {
    pub ordinal: u32,
    pub name: Seq<char>,
    pub total_vram: u64,
    pub free_vram: u64,
    pub compute_capability: Seq<char>,
    pub available: bool,
    pub used_vram: u64,
}

impl View for LocalDevice {
    type V = LocalDeviceView;

    open spec fn view(&self) -> LocalDeviceView {
        LocalDeviceView {
            ordinal: self.ordinal,
            name: self.name@,
            total_vram: self.total_vram,
            free_vram: self.free_vram,
            compute_capability: self.compute_capability@,
            available: self.available,
            used_vram: self.used_vram,
        }
    }
}

impl Clone for LocalDevice {
    fn clone(&self) -> (r: Self)
        ensures
            r@ == self@,
    {
        LocalDevice {
            ordinal: self.ordinal,
            name: self.name.clone(),
            total_vram: self.total_vram,
            free_vram: self.free_vram,
            compute_capability: self.compute_capability.clone(),
            available: self.available,
            used_vram: self.used_vram,
        }
    }
}

/// VRAM held back for the CUDA context, kernels and KV cache: 2 GiB.
pub const VRAM_RESERVE_BYTES: u64 = 2147483648;

/// Largest model a device holds: its free VRAM above the reserve.
pub open spec fn max_model_bytes_of(d: LocalDeviceView) -> u64 {
    if d.free_vram > VRAM_RESERVE_BYTES {
        (d.free_vram - VRAM_RESERVE_BYTES) as u64
    } else {
        0
    }
}

impl LocalDevice {
    /// Free VRAM above the 2 GiB reserve (0 when there is none).
    pub fn max_model_bytes(&self) -> (r: u64)
        ensures
            r == max_model_bytes_of(self@),
    {
        let reserve: u64 = VRAM_RESERVE_BYTES;
        if self.free_vram > reserve {
            self.free_vram - reserve
        } else {
            0
        }
    }

    /// The host entry: no VRAM, always available, ordinal `u32::MAX`.
    pub fn cpu_fallback() -> (r: LocalDevice)
        ensures
            r@ == cpu_fallback(),
    {
        LocalDevice {
            ordinal: u32::MAX,
            name: "CPU (fallback)".to_string(),
            total_vram: 0,
            free_vram: 0,
            compute_capability: "N/A".to_string(),
            available: true,
            used_vram: 0,
        }
    }

    pub fn can_hold_model(&self, model_bytes: u64) -> (r: bool)
        ensures
            r == (max_model_bytes_of(self@) >= model_bytes),
    {
        self.max_model_bytes() >= model_bytes
    }
}

/// The host fallback entry every discovery ends with.
pub open spec fn cpu_fallback() -> LocalDeviceView {
    LocalDeviceView {
        ordinal: u32::MAX,
        name: "CPU (fallback)"@,
        total_vram: 0,
        free_vram: 0,
        compute_capability: "N/A"@,
        available: true,
        used_vram: 0,
    }
}

/// What the driver answered for one ordinal: name, compute capability
/// (major, minor), total and free VRAM, and whether it reported the
/// persistence mode.
pub type DriverDevice = (String, i32, i32, u64, u64, bool);

/// The entry built from the driver's answers for `ordinal`.
pub open spec fn driver_entry(ordinal: u32, a: DriverDevice) -> LocalDeviceView {
    LocalDeviceView {
        ordinal,
        name: a.0@,
        total_vram: a.3,
        free_vram: a.4,
        compute_capability: signed_decimal(a.1 as int) + "."@ + signed_decimal(a.2 as int),
        available: a.5,
        used_vram: if a.3 >= a.4 {
            (a.3 - a.4) as u64
        } else {
            0
        },
    }
}

/// The devices probed successfully, in ordinal order, each under the index
/// of its probe as ordinal.
pub open spec fn probed_devices(probes: Seq<Option<DriverDevice>>) -> Seq<LocalDeviceView>
    decreases probes.len(),
{
    if probes.len() == 0 {
        Seq::empty()
    } else {
        let rest = probed_devices(probes.drop_last());
        match probes.last() {
            Some(a) => rest.push(driver_entry((probes.len() - 1) as u32, a)),
            None => rest,
        }
    }
}

/// Probed devices carry strictly increasing ordinals below the number of
/// probes.
pub proof fn lemma_probed_ordinals(probes: Seq<Option<DriverDevice>>)
    requires
        probes.len() <= u32::MAX,
    ensures
        forall|i: int|
            0 <= i < probed_devices(probes).len() ==> (#[trigger] probed_devices(probes)[i]).ordinal
                < probes.len(),
        forall|i: int, j: int|
            0 <= i < j < probed_devices(probes).len() ==> (#[trigger] probed_devices(probes)[i]).ordinal
                < (#[trigger] probed_devices(probes)[j]).ordinal,
    decreases probes.len(),
{
    if probes.len() > 0 {
        let rest = probed_devices(probes.drop_last());
        let all = probed_devices(probes);
        lemma_probed_ordinals(probes.drop_last());
        match probes.last() {
            Some(a) => {
                assert(all == rest.push(driver_entry((probes.len() - 1) as u32, a)));
                assert forall|i: int| 0 <= i < all.len() implies (#[trigger] all[i]).ordinal < probes.len() by {
                    if i < rest.len() {
                        assert(all[i] == rest[i]);
                    }
                }
                assert forall|i: int, j: int| 0 <= i < j < all.len() implies (#[trigger] all[i]).ordinal
                    < (#[trigger] all[j]).ordinal by {
                    assert(all[i] == rest[i]);
                    if j < rest.len() {
                        assert(all[j] == rest[j]);
                    }
                }
            },
            None => {},
        }
    }
}

/// The device list: the devices whose probe succeeded, in ordinal order and
/// numbered by their probe's index, then the host fallback. `probes` is
/// `None` when the driver could not be initialized or could not count its
/// devices, else what it answered for each ordinal (`None` where a query
/// failed). The driver counts devices in a `u32`.
pub fn discover_local_devices(probes: Option<Vec<Option<DriverDevice>>>) -> (r: Vec<LocalDevice>)
    requires
        probes matches Some(ps) ==> ps@.len() <= u32::MAX,
    ensures
        ({
            let found = match probes {
                Some(ps) => probed_devices(ps@),
                None => Seq::empty(),
            };
            r@.map_values(|d: LocalDevice| d@) == found.push(cpu_fallback())
        }),
        r@.len() >= 1,
        r@.last()@ == cpu_fallback(),
        forall|i: int| 0 <= i < r@.len() - 1 ==> (#[trigger] r@[i]).ordinal < u32::MAX,
        forall|i: int, j: int| 0 <= i < j < r@.len() - 1 ==> (#[trigger] r@[i]).ordinal < (#[trigger] r@[j]).ordinal,
{
    let mut devices: Vec<LocalDevice> = Vec::new();
    let ghost found: Seq<LocalDeviceView> = if probes is Some {
        probed_devices(probes->Some_0@)
    } else {
        Seq::empty()
    };
    match &probes {
        Some(ps) => {
            let ghost all = ps@;
            let mut i: usize = 0;
            proof {
                assert(devices@.map_values(|d: LocalDevice| d@) =~= probed_devices(all.take(0)));
            }
            while i < ps.len()
                invariant
                    ps@ == all,
                    all.len() <= u32::MAX,
                    i <= all.len(),
                    devices@.map_values(|d: LocalDevice| d@) == probed_devices(all.take(i as int)),
                decreases all.len() - i,
            {
                proof {
                    assert(all.take(i + 1).drop_last() =~= all.take(i as int));
                }
                match &ps[i] {
                    Some(a) => {
                        let ghost before = devices@;
                        let d = local_device_from_driver(i as u32, a.0.clone(), a.1, a.2, a.3, a.4, a.5);
                        devices.push(d);
                        proof {
                            assert(devices@.map_values(|d: LocalDevice| d@) =~= before.map_values(
                                |d: LocalDevice| d@,
                            ).push(driver_entry(i as u32, *a)));
                        }
                    },
                    None => {},
                }
                i = i + 1;
            }
            proof {
                assert(all.take(i as int) =~= all);
            }
        },
        None => {},
    }
    let ghost before = devices@;
    devices.push(LocalDevice::cpu_fallback());
    proof {
        assert(devices@.map_values(|d: LocalDevice| d@) =~= before.map_values(|d: LocalDevice| d@).push(
            cpu_fallback(),
        ));
        if probes is Some {
            lemma_probed_ordinals(probes->Some_0@);
        }
        let views = devices@.map_values(|d: LocalDevice| d@);
        assert forall|i: int| 0 <= i < devices@.len() - 1 implies (#[trigger] devices@[i]).ordinal < u32::MAX by {
            assert(views[i] == found[i]);
        }
        assert forall|i: int, j: int| 0 <= i < j < devices@.len() - 1 implies (#[trigger] devices@[i]).ordinal
            < (#[trigger] devices@[j]).ordinal by {
            assert(views[i] == found[i]);
            assert(views[j] == found[j]);
        }
        assert(views[devices@.len() - 1] == cpu_fallback());
    }
    devices
}

/// The entry for a device the driver described: compute capability written
/// `major.minor`, used VRAM the total less the free (at least 0), available
/// when the driver reported its persistence mode.
pub fn local_device_from_driver(
    ordinal: u32,
    name: String,
    major: i32,
    minor: i32,
    total_vram: u64,
    free_vram: u64,
    persistence_reported: bool,
) -> (r: LocalDevice)
    ensures
        r@ == (LocalDeviceView {
            ordinal,
            name: name@,
            total_vram,
            free_vram,
            compute_capability: signed_decimal(major as int) + "."@ + signed_decimal(minor as int),
            available: persistence_reported,
            used_vram: if total_vram >= free_vram {
                (total_vram - free_vram) as u64
            } else {
                0
            },
        }),
{
    let mut cc = String::new();
    push_signed_decimal(&mut cc, major as i64);
    push_str(&mut cc, ".");
    push_signed_decimal(&mut cc, minor as i64);
    let used_vram = if total_vram >= free_vram {
        total_vram - free_vram
    } else {
        0
    };
    proof {
        assert(Seq::<char>::empty() + signed_decimal(major as int) + "."@ + signed_decimal(
            minor as int,
        ) =~= signed_decimal(major as int) + "."@ + signed_decimal(minor as int));
    }
    LocalDevice {
        ordinal,
        name,
        total_vram,
        free_vram,
        compute_capability: cc,
        available: persistence_reported,
        used_vram,
    }
}

/// A GPU (not the host fallback) that can hold the model.
pub open spec fn gpu_fits(d: LocalDeviceView, model_bytes: u64) -> bool {
    d.ordinal != u32::MAX && max_model_bytes_of(d) >= model_bytes
}

/// `i` is the last of the fitting GPUs with the most free VRAM.
pub open spec fn is_best_gpu(ds: Seq<LocalDeviceView>, model_bytes: u64, i: int) -> bool {
    &&& 0 <= i < ds.len()
    &&& gpu_fits(ds[i], model_bytes)
    &&& forall|j: int|
        0 <= j < ds.len() && gpu_fits(ds[j], model_bytes) ==> ds[j].free_vram <= ds[i].free_vram
    &&& forall|j: int|
        i < j < ds.len() && gpu_fits(ds[j], model_bytes) ==> ds[j].free_vram < ds[i].free_vram
}

/// The GPU to run a model on: among the listed GPUs (the host fallback
/// excluded) that can hold it, the one with the most free VRAM, the last
/// listed among equals; `None` when none can.
pub fn select_best_gpu(devices: &[LocalDevice], model_bytes: u64) -> (r: Option<LocalDevice>)
    ensures
        ({
            let ds = devices@.map_values(|d: LocalDevice| d@);
            match r {
                Some(d) => exists|i: int| is_best_gpu(ds, model_bytes, i) && d@ == ds[i],
                None => forall|i: int| 0 <= i < ds.len() ==> !gpu_fits(ds[i], model_bytes),
            }
        }),
{
    let ghost ds = devices@.map_values(|d: LocalDevice| d@);
    let mut best: Option<usize> = None;
    let mut i: usize = 0;
    while i < devices.len()
        invariant
            ds == devices@.map_values(|d: LocalDevice| d@),
            i <= devices@.len(),
            match best {
                None => forall|j: int| 0 <= j < i ==> !gpu_fits(ds[j], model_bytes),
                Some(b) => {
                    &&& b < i
                    &&& gpu_fits(ds[b as int], model_bytes)
                    &&& forall|j: int|
                        0 <= j < i && gpu_fits(ds[j], model_bytes) ==> ds[j].free_vram
                            <= ds[b as int].free_vram
                    &&& forall|j: int|
                        b < j < i && gpu_fits(ds[j], model_bytes) ==> ds[j].free_vram
                            < ds[b as int].free_vram
                },
            },
        decreases devices@.len() - i,
    {
        let d = &devices[i];
        if d.ordinal != u32::MAX && d.can_hold_model(model_bytes) {
            match best {
                None => {
                    best = Some(i);
                },
                Some(b) => {
                    if d.free_vram >= devices[b].free_vram {
                        best = Some(i);
                    }
                },
            }
        }
        i = i + 1;
    }
    match best {
        None => None,
        Some(b) => {
            proof {
                assert(is_best_gpu(ds, model_bytes, b as int));
            }
            Some(devices[b].clone())
        },
    }
}

} // verus!
