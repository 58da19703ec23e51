//! GEMM kernel configuration: tensor-core architecture selection, block
//! sizes, the errors a matrix multiply reports, the buffer-size checks that
//! precede one, and the kernel choice and launch plan of a device GEMM.

use vstd::prelude::*;

use crate::cuda_runtime::CudaDeviceInfo;
use crate::device_buf::DeviceBuffer;
use crate::text::{decimal, push_decimal, push_signed_decimal, push_str, signed_decimal};

verus! {

/// Tensor-core architecture of a GEMM kernel.
#[derive(Debug, Clone, Copy, PartialEq, Eq, Structural)]
pub enum GemmArch {
    /// Warp-group matrix multiply (sm_120, consumer Blackwell), 64x64x64 tiles.
    Wgmma,
    /// Tensor cores with tensor memory (sm_100, datacenter Blackwell), 128x128x16 tiles.
    Tcgen05,
}

impl Default for GemmArch {
    fn default() -> (r: Self)
        ensures
            r == GemmArch::Tcgen05,
    {
        GemmArch::Tcgen05
    }
}

/// Tile edge of an architecture.
pub open spec fn gemm_tile_size(a: GemmArch) -> usize {
    match a {
        GemmArch::Wgmma => 64,
        GemmArch::Tcgen05 => 128,
    }
}

impl GemmArch {
    pub fn name(&self) -> (r: &'static str)
        ensures
            *self == GemmArch::Wgmma ==> r@ == "wgmma"@,
            *self == GemmArch::Tcgen05 ==> r@ == "tcgen05"@,
    {
        match self {
            GemmArch::Wgmma => "wgmma",
            GemmArch::Tcgen05 => "tcgen05",
        }
    }

    /// Both architectures copy global to shared memory with TMA.
    pub fn supports_tma(&self) -> (r: bool)
        ensures
            r,
    {
        true
    }

    pub fn tile_size(&self) -> (r: usize)
        ensures
            r == gemm_tile_size(*self),
    {
        match self {
            GemmArch::Wgmma => 64,
            GemmArch::Tcgen05 => 128,
        }
    }
}

/// Configuration of a GEMM kernel launch.
#[derive(Debug, Clone, Copy, PartialEq, Eq, Structural)]
pub struct GemmConfig {
    pub arch: GemmArch,
    /// Whether to use TMA for asynchronous global-to-shared copies.
    pub use_tma: bool,
    /// Block size override; 0 selects the architecture's tile size.
    pub block_size: usize,
}

impl Default for GemmConfig {
    fn default() -> (r: Self)
        ensures
            r == (GemmConfig { arch: GemmArch::Tcgen05, use_tma: true, block_size: 0 }),
    {
        GemmConfig { arch: GemmArch::Tcgen05, use_tma: true, block_size: 0 }
    }
}

/// Block size a configuration launches with.
pub open spec fn gemm_block_size(c: GemmConfig) -> usize {
    if c.block_size > 0 {
        c.block_size
    } else {
        gemm_tile_size(c.arch)
    }
}

impl GemmConfig {
    /// The override when set, else the architecture's tile size.
    pub fn effective_block_size(&self) -> (r: usize)
        ensures
            r == gemm_block_size(*self),
    {
        if self.block_size > 0 {
            self.block_size
        } else {
            self.arch.tile_size()
        }
    }

    pub fn with_arch(self, arch: GemmArch) -> (r: Self)
        ensures
            r == (GemmConfig { arch, ..self }),
    {
        GemmConfig { arch, ..self }
    }

    pub fn with_tma(self, use_tma: bool) -> (r: Self)
        ensures
            r == (GemmConfig { use_tma, ..self }),
    {
        GemmConfig { use_tma, ..self }
    }

    pub fn with_block_size(self, block_size: usize) -> (r: Self)
        ensures
            r == (GemmConfig { block_size, ..self }),
    {
        GemmConfig { block_size, ..self }
    }
}

/// Errors of a GEMM launch.
#[derive(Debug)]
pub enum GemmError {
    InvalidDimensions { m: usize, n: usize, k: usize },
    BufferSizeMismatch { expected: usize, got: usize },
    NotAvailable,
    LaunchFailed(String),
    Cuda(String),
    UnsupportedArch(String),
}

/// Text of a GEMM error.
pub open spec fn gemm_error_text(e: &GemmError) -> Seq<char> {
    match e {
        GemmError::InvalidDimensions { m, n, k } => "invalid matrix dimensions: m="@ + decimal(
            *m as nat,
        ) + ", n="@ + decimal(*n as nat) + ", k="@ + decimal(*k as nat),
        GemmError::BufferSizeMismatch { expected, got } => "buffer size mismatch: expected "@
            + decimal(*expected as nat) + ", got "@ + decimal(*got as nat),
        GemmError::NotAvailable => "kernel not available on this device"@,
        GemmError::LaunchFailed(s) => "kernel launch failed: "@ + s@,
        GemmError::Cuda(s) => "CUDA error: "@ + s@,
        GemmError::UnsupportedArch(s) => "unsupported architecture: "@ + s@,
    }
}

impl GemmError {
    /// The error's text.
    pub fn message(&self) -> (r: String)
        ensures
            r@ == gemm_error_text(self),
    {
        let mut s = String::new();
        match self {
            GemmError::InvalidDimensions { m, n, k } => {
                push_str(&mut s, "invalid matrix dimensions: m=");
                push_decimal(&mut s, *m as u64);
                push_str(&mut s, ", n=");
                push_decimal(&mut s, *n as u64);
                push_str(&mut s, ", k=");
                push_decimal(&mut s, *k as u64);
            },
            GemmError::BufferSizeMismatch { expected, got } => {
                push_str(&mut s, "buffer size mismatch: expected ");
                push_decimal(&mut s, *expected as u64);
                push_str(&mut s, ", got ");
                push_decimal(&mut s, *got as u64);
            },
            GemmError::NotAvailable => {
                push_str(&mut s, "kernel not available on this device");
            },
            GemmError::LaunchFailed(t) => {
                push_str(&mut s, "kernel launch failed: ");
                push_str(&mut s, t.as_str());
            },
            GemmError::Cuda(t) => {
                push_str(&mut s, "CUDA error: ");
                push_str(&mut s, t.as_str());
            },
            GemmError::UnsupportedArch(t) => {
                push_str(&mut s, "unsupported architecture: ");
                push_str(&mut s, t.as_str());
            },
        }
        s
    }
}

/// The buffer check of a matrix multiply `C = alpha * A @ B + beta * C` with
/// A of `m x k`, B of `k x n` and C of `m x n` elements: the first buffer
/// (A, then B, then C) that is absent or too short is reported with the
/// element count it needs and its length (0 when absent).
pub open spec fn gemm_buffer_check(
    a_len: Option<usize>,
    b_len: Option<usize>,
    c_len: Option<usize>,
    m: usize,
    n: usize,
    k: usize,
) -> Option<(nat, nat)> {
    let la = match a_len {
        Some(l) => l as nat,
        None => 0,
    };
    let lb = match b_len {
        Some(l) => l as nat,
        None => 0,
    };
    let lc = match c_len {
        Some(l) => l as nat,
        None => 0,
    };
    if a_len is None || la < m * k {
        Some(((m * k) as nat, la))
    } else if b_len is None || lb < k * n {
        Some(((k * n) as nat, lb))
    } else if c_len is None || lc < m * n {
        Some(((m * n) as nat, lc))
    } else {
        None
    }
}

/// Law: host buffers of lengths `la`, `lb`, `lc` pass the check of a
/// matrix multiply exactly when A holds at least `m * k` elements, B at
/// least `k * n` and C at least `m * n`; otherwise the first short buffer is
/// reported with the count its own two dimensions give and its length. An
/// absent buffer is reported the same way, with length 0.
pub proof fn lemma_gemm_buffers_pass_when_large_enough(
    la: usize,
    lb: usize,
    lc: usize,
    m: usize,
    n: usize,
    k: usize,
)
    ensures
        gemm_buffer_check(Some(la), Some(lb), Some(lc), m, n, k) is None <==> (la >= m * k && lb
            >= k * n && lc >= m * n),
        la < m * k ==> gemm_buffer_check(Some(la), Some(lb), Some(lc), m, n, k) == Some(
            ((m * k) as nat, la as nat),
        ),
        la >= m * k && lb < k * n ==> gemm_buffer_check(Some(la), Some(lb), Some(lc), m, n, k)
            == Some(((k * n) as nat, lb as nat)),
        la >= m * k && lb >= k * n && lc < m * n ==> gemm_buffer_check(
            Some(la),
            Some(lb),
            Some(lc),
            m,
            n,
            k,
        ) == Some(((m * n) as nat, lc as nat)),
        gemm_buffer_check(None, Some(lb), Some(lc), m, n, k) == Some(((m * k) as nat, 0nat)),
        la >= m * k ==> gemm_buffer_check(Some(la), None, Some(lc), m, n, k) == Some(
            ((k * n) as nat, 0nat),
        ),
        la >= m * k && lb >= k * n ==> gemm_buffer_check(Some(la), Some(lb), None, m, n, k) == Some(
            ((m * n) as nat, 0nat),
        ),
{
}

/// Host fallback GEMM kernel.
#[derive(Debug, Clone, Copy)]
pub struct CpuGemmKernel;

impl CpuGemmKernel {
    pub fn new() -> (r: Self) {
        CpuGemmKernel
    }

    /// The host kernel reports the WGMMA architecture.
    pub fn arch(&self) -> (r: GemmArch)
        ensures
            r == GemmArch::Wgmma,
    {
        GemmArch::Wgmma
    }

    /// The host kernel is always available.
    pub fn is_available(&self) -> (r: bool)
        ensures
            r,
    {
        true
    }

    /// Checks the host buffers of a matrix multiply (their lengths, `None`
    /// for a buffer not held on the host) before it runs.
    pub fn check_buffers(
        &self,
        a_len: Option<usize>,
        b_len: Option<usize>,
        c_len: Option<usize>,
        m: usize,
        n: usize,
        k: usize,
    ) -> (r: Result<(), GemmError>)
        requires
            m * k <= usize::MAX,
            k * n <= usize::MAX,
            m * n <= usize::MAX,
        ensures
            match gemm_buffer_check(a_len, b_len, c_len, m, n, k) {
                None => r is Ok,
                Some((expected, got)) => r matches Err(GemmError::BufferSizeMismatch {
                    expected: e,
                    got: g,
                }) && e == expected && g == got,
            },
    {
        let a_expected = m * k;
        let b_expected = k * n;
        let c_expected = m * n;
        match a_len {
            None => return Err(GemmError::BufferSizeMismatch { expected: a_expected, got: 0 }),
            Some(l) => if l < a_expected {
                return Err(GemmError::BufferSizeMismatch { expected: a_expected, got: l });
            },
        }
        match b_len {
            None => return Err(GemmError::BufferSizeMismatch { expected: b_expected, got: 0 }),
            Some(l) => if l < b_expected {
                return Err(GemmError::BufferSizeMismatch { expected: b_expected, got: l });
            },
        }
        match c_len {
            None => return Err(GemmError::BufferSizeMismatch { expected: c_expected, got: 0 }),
            Some(l) => if l < c_expected {
                return Err(GemmError::BufferSizeMismatch { expected: c_expected, got: l });
            },
        }
        Ok(())
    }
}

impl Default for CpuGemmKernel {
    fn default() -> (r: Self) {
        CpuGemmKernel
    }
}

// ─────────────────────────── device launches ───────────────────────────

/// Launch geometry and arguments of a device matrix multiply.
#[derive(Debug, Clone, Copy, PartialEq, Eq)]
pub struct GemmLaunch {
    /// Grid dimensions: x over the column tiles of C, y over its row tiles.
    pub grid: (u32, u32, u32),
    /// Threads per block.
    pub block: (u32, u32, u32),
    /// Dynamic shared memory per block, in bytes.
    pub shared_mem_bytes: u32,
    /// Device addresses of A, B and C.
    pub ptrs: (u64, u64, u64),
    /// `m`, `n` and `k` as the kernel takes them.
    pub dims: (i32, i32, i32),
}

/// The buffer check of a device matrix multiply: first the buffers without a
/// device address (A, then B, then C), reported with the element count they
/// need and 0; then the buffers too short, with the count and their length.
pub open spec fn device_buffer_check(
    a_ptr: Option<u64>,
    a_len: nat,
    b_ptr: Option<u64>,
    b_len: nat,
    c_ptr: Option<u64>,
    c_len: nat,
    m: usize,
    n: usize,
    k: usize,
) -> Option<(nat, nat)> {
    if a_ptr is None {
        Some(((m * k) as nat, 0))
    } else if b_ptr is None {
        Some(((k * n) as nat, 0))
    } else if c_ptr is None {
        Some(((m * n) as nat, 0))
    } else if a_len < m * k {
        Some(((m * k) as nat, a_len))
    } else if b_len < k * n {
        Some(((k * n) as nat, b_len))
    } else if c_len < m * n {
        Some(((m * n) as nat, c_len))
    } else {
        None
    }
}

/// Grid, block and shared memory of a launch computing C of `m x n`: one
/// block per output tile; WGMMA runs 32 x 4 threads with 8 KiB of shared
/// memory on 64 x 64 tiles, tcgen05 16 x 16 threads on 128 x 128 tiles.
pub open spec fn device_launch_geometry(arch: GemmArch, m: usize, n: usize) -> ((u32, u32, u32), (u32, u32, u32), u32) {
    match arch {
        GemmArch::Wgmma => (
            ((((n + 63) / 64) as usize) as u32, (((m + 63) / 64) as usize) as u32, 1),
            (32, 4, 1),
            8192,
        ),
        GemmArch::Tcgen05 => (
            ((((n + 127) / 128) as usize) as u32, (((m + 127) / 128) as usize) as u32, 1),
            (16, 16, 1),
            0,
        ),
    }
}

/// Checks the operands of a device matrix multiply `C = alpha * A @ B + beta
/// * C` (A of `m x k`, B of `k x n`, C of `m x n` elements) and plans its
/// launch: zero dimensions are refused, then buffers without a device address
/// or too short (`device_buffer_check`); otherwise the launch holds the
/// architecture's geometry, the three device addresses and the dimensions.
pub fn plan_device_matmul<A, B, C>(
    arch: GemmArch,
    a: &DeviceBuffer<A>,
    b: &DeviceBuffer<B>,
    c: &DeviceBuffer<C>,
    m: usize,
    n: usize,
    k: usize,
) -> (r: Result<GemmLaunch, GemmError>)
    requires
        m != 0 && n != 0 && k != 0 ==> m * k <= usize::MAX,
        m != 0 && n != 0 && k != 0 && a.device_address() is Some ==> k * n <= usize::MAX,
        m != 0 && n != 0 && k != 0 && a.device_address() is Some && b.device_address() is Some
            ==> m * n <= usize::MAX,
        m != 0 && n != 0 && k != 0 && device_buffer_check(
            a.device_address(),
            a.spec_len(),
            b.device_address(),
            b.spec_len(),
            c.device_address(),
            c.spec_len(),
            m,
            n,
            k,
        ) is None ==> m + gemm_tile_size(arch) - 1 <= usize::MAX && n + gemm_tile_size(arch) - 1
            <= usize::MAX,
    ensures
        m == 0 || n == 0 || k == 0 ==> (r matches Err(GemmError::InvalidDimensions { m: m2, n: n2, k: k2 })
            && m2 == m && n2 == n && k2 == k),
        m != 0 && n != 0 && k != 0 ==> match device_buffer_check(
            a.device_address(),
            a.spec_len(),
            b.device_address(),
            b.spec_len(),
            c.device_address(),
            c.spec_len(),
            m,
            n,
            k,
        ) {
            Some((e, g)) => r matches Err(GemmError::BufferSizeMismatch { expected, got })
                && expected == e && got == g,
            None => r matches Ok(l) && (l.grid, l.block, l.shared_mem_bytes)
                == device_launch_geometry(arch, m, n) && l.ptrs == (
                a.device_address()->Some_0,
                b.device_address()->Some_0,
                c.device_address()->Some_0,
            ) && l.dims == (m as i32, n as i32, k as i32),
        },
{
    if m == 0 || n == 0 || k == 0 {
        return Err(GemmError::InvalidDimensions { m, n, k });
    }
    let a_ptr = match a.device_ptr() {
        Some(p) => p,
        None => return Err(GemmError::BufferSizeMismatch { expected: m * k, got: 0 }),
    };
    let b_ptr = match b.device_ptr() {
        Some(p) => p,
        None => return Err(GemmError::BufferSizeMismatch { expected: k * n, got: 0 }),
    };
    let c_ptr = match c.device_ptr() {
        Some(p) => p,
        None => return Err(GemmError::BufferSizeMismatch { expected: m * n, got: 0 }),
    };
    if a.len() < m * k {
        return Err(GemmError::BufferSizeMismatch { expected: m * k, got: a.len() });
    }
    if b.len() < k * n {
        return Err(GemmError::BufferSizeMismatch { expected: k * n, got: b.len() });
    }
    if c.len() < m * n {
        return Err(GemmError::BufferSizeMismatch { expected: m * n, got: c.len() });
    }
    let (grid, block, shared_mem_bytes) = match arch {
        GemmArch::Wgmma => {
            let grid_x = (n + 63) / 64;
            let grid_y = (m + 63) / 64;
            ((grid_x as u32, grid_y as u32, 1u32), (32u32, 4u32, 1u32), 8192u32)
        },
        GemmArch::Tcgen05 => {
            let grid_x = (n + 127) / 128;
            let grid_y = (m + 127) / 128;
            ((grid_x as u32, grid_y as u32, 1u32), (16u32, 16u32, 1u32), 0u32)
        },
    };
    Ok(GemmLaunch {
        grid,
        block,
        shared_mem_bytes,
        ptrs: (a_ptr, b_ptr, c_ptr),
        dims: (m as i32, n as i32, k as i32),
    })
}

/// A device of compute capability `cc` runs kernels of `arch`: WGMMA from
/// major version 12, tcgen05 from 10.
pub open spec fn arch_supported(arch: GemmArch, cc: (i32, i32)) -> bool {
    match arch {
        GemmArch::Wgmma => cc.0 >= 12,
        GemmArch::Tcgen05 => cc.0 >= 10,
    }
}

/// Message of an architecture the device does not run.
pub open spec fn unsupported_arch_msg(arch: GemmArch, cc: (i32, i32)) -> Seq<char> {
    let device = "but device is sm_"@ + signed_decimal(cc.0 as int) + "."@ + signed_decimal(cc.1 as int);
    match arch {
        GemmArch::Wgmma => "WGMMA requires sm_120+, "@ + device,
        GemmArch::Tcgen05 => "tcgen05 requires sm_100+, "@ + device,
    }
}

/// Entry point of the device GEMM kernel of an architecture.
pub open spec fn device_gemm_kernel_name(arch: GemmArch) -> Seq<char> {
    match arch {
        GemmArch::Wgmma => "gemm_wgmma_kernel"@,
        GemmArch::Tcgen05 => "gemm_tcgen05_kernel"@,
    }
}

/// The entry point of the device GEMM kernel for `arch` on `device`, once
/// the device is found to run that architecture.
pub fn select_device_gemm_kernel(arch: GemmArch, device: &CudaDeviceInfo) -> (r: Result<&'static str, GemmError>)
    ensures
        arch_supported(arch, device.compute_capability) ==> (r matches Ok(name) && name@
            == device_gemm_kernel_name(arch)),
        !arch_supported(arch, device.compute_capability) ==> (r matches Err(
            GemmError::UnsupportedArch(s),
        ) && s@ == unsupported_arch_msg(arch, device.compute_capability)),
{
    let (major, minor) = device.compute_capability;
    let supported = match arch {
        GemmArch::Wgmma => device.supports_wgmma(),
        GemmArch::Tcgen05 => device.supports_tcgen05(),
    };
    if !supported {
        let mut s = String::new();
        match arch {
            GemmArch::Wgmma => push_str(&mut s, "WGMMA requires sm_120+, "),
            GemmArch::Tcgen05 => push_str(&mut s, "tcgen05 requires sm_100+, "),
        }
        push_str(&mut s, "but device is sm_");
        push_signed_decimal(&mut s, major as i64);
        push_str(&mut s, ".");
        push_signed_decimal(&mut s, minor as i64);
        proof {
            let device_text = "but device is sm_"@ + signed_decimal(major as int) + "."@ + signed_decimal(
                minor as int,
            );
            assert(s@ =~= (match arch {
                GemmArch::Wgmma => "WGMMA requires sm_120+, "@,
                GemmArch::Tcgen05 => "tcgen05 requires sm_100+, "@,
            }) + device_text);
        }
        return Err(GemmError::UnsupportedArch(s));
    }
    let name = match arch {
        GemmArch::Wgmma => "gemm_wgmma_kernel",
        GemmArch::Tcgen05 => "gemm_tcgen05_kernel",
    };
    Ok(name)
}

/// Law: a device matrix multiply's buffers pass the check exactly when all
/// three have a device address and A holds at least `m * k` elements, B at
/// least `k * n` and C at least `m * n`.
pub proof fn lemma_device_buffers_pass_when_large_enough(
    a_ptr: Option<u64>,
    a_len: nat,
    b_ptr: Option<u64>,
    b_len: nat,
    c_ptr: Option<u64>,
    c_len: nat,
    m: usize,
    n: usize,
    k: usize,
)
    ensures
        device_buffer_check(a_ptr, a_len, b_ptr, b_len, c_ptr, c_len, m, n, k) is None <==> (
        a_ptr is Some && b_ptr is Some && c_ptr is Some && a_len >= m * k && b_len >= k * n && c_len
            >= m * n),
        a_ptr is Some && b_ptr is Some && c_ptr is Some && a_len >= m * k && b_len < k * n
            ==> device_buffer_check(a_ptr, a_len, b_ptr, b_len, c_ptr, c_len, m, n, k) == Some(
            ((k * n) as nat, b_len),
        ),
{
}

/// Law: a launch covers C with as few tiles as will do: the grid's x
/// extent times the tile edge reaches `n` and falls short of `n` by less
/// than a tile, and likewise its y extent for `m`; the grid is one deep.
pub proof fn lemma_launch_grid_covers_output(arch: GemmArch, m: usize, n: usize)
    requires
        (n + gemm_tile_size(arch) - 1) / (gemm_tile_size(arch) as int) <= u32::MAX,
        (m + gemm_tile_size(arch) - 1) / (gemm_tile_size(arch) as int) <= u32::MAX,
    ensures
        ({
            let (grid, _, _) = device_launch_geometry(arch, m, n);
            let t = gemm_tile_size(arch) as int;
            &&& grid.0 * t >= n && grid.0 * t < n + t
            &&& grid.1 * t >= m && grid.1 * t < m + t
            &&& grid.2 == 1
        }),
{
    let t = gemm_tile_size(arch) as int;
    let gx = (n + t - 1) / t;
    let gy = (m + t - 1) / t;
    assert(gx * t >= n && gx * t < n + t) by (nonlinear_arith)
        requires
            t == 64 || t == 128,
            gx == (n + t - 1) / t,
            n >= 0,
    ;
    assert(gy * t >= m && gy * t < m + t) by (nonlinear_arith)
        requires
            t == 64 || t == 128,
            gy == (m + t - 1) / t,
            m >= 0,
    ;
}

} // verus!
