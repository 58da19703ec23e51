//! Assembly of GEMM kernels from pre-compiled PTX sources: kernel selection,
//! launch grid computation and dimension validation.

use vstd::prelude::*;

use crate::gemm::{gemm_block_size, CpuGemmKernel, GemmArch, GemmConfig, GemmError};

verus! {

/// A pre-compiled PTX kernel.
#[derive(Debug)]
pub struct PtxSource {
    /// PTX assembly text.
    pub ptx: String,
    /// Architecture the PTX targets.
    pub arch: GemmArch,
    /// Entry point name.
    pub kernel_name: String,
}

/// Mathematical model of a PTX source.
pub struct PtxSourceView {
    pub ptx: Seq<char>,
    pub arch: GemmArch,
    pub kernel_name: Seq<char>,
}

impl View for PtxSource {
    type V = PtxSourceView;

    open spec fn view(&self) -> PtxSourceView {
        PtxSourceView { ptx: self.ptx@, arch: self.arch, kernel_name: self.kernel_name@ }
    }
}

impl Clone for PtxSource {
    fn clone(&self) -> (r: Self)
        ensures
            r@ == self@,
    {
        PtxSource { ptx: self.ptx.clone(), arch: self.arch, kernel_name: self.kernel_name.clone() }
    }
}

impl PtxSource {
    pub fn new(ptx: String, arch: GemmArch, kernel_name: &str) -> (r: Self)
        ensures
            r@ == (PtxSourceView { ptx: ptx@, arch, kernel_name: kernel_name@ }),
    {
        PtxSource { ptx, arch, kernel_name: kernel_name.to_string() }
    }
}

/// Collects PTX sources and a configuration, and builds a GEMM kernel.
pub struct GemmBuilder {
    ptx_sources: Vec<PtxSource>,
    default_arch: GemmArch,
    config: GemmConfig,
}

/// Mathematical model of a builder.
pub struct GemmBuilderView {
    pub sources: Seq<PtxSourceView>,
    pub default_arch: GemmArch,
    pub config: GemmConfig,
}

impl View for GemmBuilder {
    type V = GemmBuilderView;

    closed spec fn view(&self) -> GemmBuilderView {
        GemmBuilderView {
            sources: self.ptx_sources@.map_values(|p: PtxSource| p@),
            default_arch: self.default_arch,
            config: self.config,
        }
    }
}

/// `i` is the first source targeting `a`.
pub open spec fn is_first_for_arch(s: Seq<PtxSourceView>, a: GemmArch, i: int) -> bool {
    &&& 0 <= i < s.len()
    &&& s[i].arch == a
    &&& forall|j: int| 0 <= j < i ==> s[j].arch != a
}

/// Index of the source a build picks: the first targeting the default
/// architecture, else the first.
pub open spec fn chosen_source(s: Seq<PtxSourceView>, a: GemmArch) -> int {
    if exists|i: int| is_first_for_arch(s, a, i) {
        choose|i: int| is_first_for_arch(s, a, i)
    } else {
        0
    }
}

/// Launch grid of a configuration for an `m x n` output: blocks along X
/// cover `n`, along Y cover `m`, each block the effective block size square.
pub open spec fn launch_grid(c: GemmConfig, m: usize, n: usize) -> (u32, u32, u32, u32) {
    let t = gemm_block_size(c) as u32;
    (ceil_div(n as u32, t), ceil_div(m as u32, t), t, t)
}

/// The dimension check of a configuration: `k` divisible by 64 on tcgen05
/// and a block size within `8..=256`.
pub open spec fn dims_check_ok(c: GemmConfig, k: usize) -> bool {
    !(c.arch == GemmArch::Tcgen05 && k % 64 != 0) && 8 <= gemm_block_size(c) <= 256
}

/// `x / t` rounded up.
pub open spec fn ceil_div(x: u32, t: u32) -> u32 {
    if x % t == 0 {
        x / t
    } else {
        (x / t + 1) as u32
    }
}

impl GemmBuilder {
    /// No sources, Tcgen05 default architecture, default configuration.
    pub fn new() -> (r: Self)
        ensures
            r@.sources.len() == 0,
            r@.default_arch == GemmArch::Tcgen05,
            r@.config == (GemmConfig { arch: GemmArch::Tcgen05, use_tma: true, block_size: 0 }),
    {
        let r = GemmBuilder {
            ptx_sources: Vec::new(),
            default_arch: GemmArch::Tcgen05,
            config: GemmConfig { arch: GemmArch::Tcgen05, use_tma: true, block_size: 0 },
        };
        proof {
            assert(r@.sources =~= Seq::<PtxSourceView>::empty());
        }
        r
    }

    pub fn with_arch(self, arch: GemmArch) -> (r: Self)
        ensures
            r@ == (GemmBuilderView { default_arch: arch, ..self@ }),
    {
        GemmBuilder { default_arch: arch, ..self }
    }

    pub fn with_config(self, config: GemmConfig) -> (r: Self)
        ensures
            r@ == (GemmBuilderView { config, ..self@ }),
    {
        GemmBuilder { config, ..self }
    }

    /// Appends a source.
    pub fn add_ptx(self, ptx: PtxSource) -> (r: Self)
        ensures
            r@ == (GemmBuilderView { sources: self@.sources.push(ptx@), ..self@ }),
    {
        let mut b = self;
        let ghost old_sources = b.ptx_sources@;
        b.ptx_sources.push(ptx);
        proof {
            assert(b.ptx_sources@.map_values(|p: PtxSource| p@) =~= old_sources.map_values(
                |p: PtxSource| p@,
            ).push(ptx@));
        }
        b
    }

    /// Registers a tcgen05 kernel (appends the source).
    pub fn with_tcgen05(self, ptx: PtxSource) -> (r: Self)
        ensures
            r@ == (GemmBuilderView { sources: self@.sources.push(ptx@), ..self@ }),
    {
        self.add_ptx(ptx)
    }

    /// Registers a WGMMA kernel (appends the source).
    pub fn with_wgmma(self, ptx: PtxSource) -> (r: Self)
        ensures
            r@ == (GemmBuilderView { sources: self@.sources.push(ptx@), ..self@ }),
    {
        self.add_ptx(ptx)
    }

    /// The host kernel when no source is registered; otherwise a kernel from
    /// the first source targeting the default architecture, or the first
    /// source when none does.
    pub fn build(self) -> (r: BuiltGemmKernel)
        ensures
            self@.sources.len() == 0 ==> r is Cpu,
            self@.sources.len() > 0 ==> (r matches BuiltGemmKernel::Ptx(k) && k@.source
                == self@.sources[chosen_source(self@.sources, self@.default_arch)] && k@.config
                == self@.config),
    {
        if self.ptx_sources.len() == 0 {
            return BuiltGemmKernel::Cpu(CpuGemmKernel::new());
        }
        let ghost s = self@.sources;
        let mut i: usize = 0;
        while i < self.ptx_sources.len()
            invariant
                s == self@.sources,
                s.len() == self.ptx_sources@.len(),
                i <= s.len(),
                forall|j: int| 0 <= j < i ==> s[j].arch != self.default_arch,
            decreases s.len() - i,
        {
            proof {
                assert(s[i as int] == self.ptx_sources@[i as int]@);
            }
            if self.ptx_sources[i].arch == self.default_arch {
                proof {
                    lemma_first_for_arch_unique(s, self.default_arch, i as int);
                }
                let source = self.ptx_sources[i].clone();
                return BuiltGemmKernel::Ptx(KernelFromPtx { source, config: self.config });
            }
            i = i + 1;
        }
        proof {
            assert(!exists|j: int| is_first_for_arch(s, self.default_arch, j));
            assert(s[0] == self.ptx_sources@[0]@);
        }
        let source = self.ptx_sources[0].clone();
        BuiltGemmKernel::Ptx(KernelFromPtx { source, config: self.config })
    }

    /// Launch grid for an `m x n` output: blocks along X cover `n`, along Y
    /// cover `m`, each block the effective block size square.
    pub fn launch_config(&self, m: usize, n: usize) -> (r: (u32, u32, u32, u32))
        requires
            (gemm_block_size(self@.config) as u32) > 0,
        ensures
            r == launch_grid(self@.config, m, n),
    {
        let block_size = self.config.effective_block_size();
        let tile = block_size as u32;
        let grid_x = div_ceil_u32(n as u32, tile);
        let grid_y = div_ceil_u32(m as u32, tile);
        (grid_x, grid_y, tile, tile)
    }

    /// Rejects a `k` not divisible by 64 on tcgen05, and a block size outside
    /// `8..=256`.
    pub fn validate_dims(&self, m: usize, n: usize, k: usize) -> (r: Result<(), GemmError>)
        ensures
            r is Ok <==> dims_check_ok(self@.config, k),
            r matches Err(e) ==> e == (GemmError::InvalidDimensions { m, n, k }),
    {
        let tile = self.config.effective_block_size();
        if self.config.arch == GemmArch::Tcgen05 && k % 64 != 0 {
            return Err(GemmError::InvalidDimensions { m, n, k });
        }
        if tile == 0 || !(8 <= tile && tile <= 256) {
            return Err(GemmError::InvalidDimensions { m, n, k });
        }
        Ok(())
    }
}

/// `x / t` rounded up (`u32::div_ceil`).
fn div_ceil_u32(x: u32, t: u32) -> (r: u32)
    requires
        t > 0,
    ensures
        r == ceil_div(x, t),
{
    let q = x / t;
    if x % t == 0 {
        q
    } else {
        proof {
            assert(t >= 2);
            assert(q <= x / 2) by (nonlinear_arith)
                requires
                    t >= 2,
                    q == x / t,
            ;
        }
        q + 1
    }
}

/// The first source targeting an architecture is the one the build picks.
proof fn lemma_first_for_arch_unique(s: Seq<PtxSourceView>, a: GemmArch, i: int)
    requires
        is_first_for_arch(s, a, i),
    ensures
        chosen_source(s, a) == i,
{
    let c = choose|c: int| is_first_for_arch(s, a, c);
    assert(is_first_for_arch(s, a, c));
    if c < i {
        assert(s[c].arch != a);
    } else if c > i {
        assert(s[i].arch != a);
    }
}

/// A GEMM kernel built from a PTX source.
pub struct KernelFromPtx {
    source: PtxSource,
    config: GemmConfig,
}

/// Mathematical model of a kernel built from PTX.
pub struct KernelFromPtxView {
    pub source: PtxSourceView,
    pub config: GemmConfig,
}

impl View for KernelFromPtx {
    type V = KernelFromPtxView;

    closed spec fn view(&self) -> KernelFromPtxView {
        KernelFromPtxView { source: self.source@, config: self.config }
    }
}

impl KernelFromPtx {
    pub fn new(source: PtxSource, config: GemmConfig) -> (r: Self)
        ensures
            r@ == (KernelFromPtxView { source: source@, config }),
    {
        KernelFromPtx { source, config }
    }

    /// The architecture of its source.
    pub fn arch(&self) -> (r: GemmArch)
        ensures
            r == self@.source.arch,
    {
        self.source.arch
    }

    /// Kernels built from PTX report themselves available.
    pub fn is_available(&self) -> (r: bool)
        ensures
            r,
    {
        true
    }

    /// The checks a launch makes before it runs: `k` divisible by 64 on
    /// tcgen05, then A, B and C long enough for `m x k`, `k x n` and `m x n`
    /// elements, in that order.
    pub fn check_launch(
        &self,
        a_len: usize,
        b_len: usize,
        c_len: usize,
        m: usize,
        n: usize,
        k: usize,
    ) -> (r: Result<(), GemmError>)
        requires
            m * k <= usize::MAX,
            k * n <= usize::MAX,
            m * n <= usize::MAX,
        ensures
            self@.config.arch == GemmArch::Tcgen05 && k % 64 != 0 ==> r == Err::<(), GemmError>(
                GemmError::InvalidDimensions { m, n, k },
            ),
            !(self@.config.arch == GemmArch::Tcgen05 && k % 64 != 0) ==> {
                if a_len < m * k {
                    r matches Err(GemmError::BufferSizeMismatch { expected, got }) && expected == m
                        * k && got == a_len
                } else if b_len < k * n {
                    r matches Err(GemmError::BufferSizeMismatch { expected, got }) && expected == k
                        * n && got == b_len
                } else if c_len < m * n {
                    r matches Err(GemmError::BufferSizeMismatch { expected, got }) && expected == m
                        * n && got == c_len
                } else {
                    r is Ok
                }
            },
    {
        if self.config.arch == GemmArch::Tcgen05 && k % 64 != 0 {
            return Err(GemmError::InvalidDimensions { m, n, k });
        }
        let a_expected = m * k;
        let b_expected = k * n;
        let c_expected = m * n;
        if a_len < a_expected {
            return Err(GemmError::BufferSizeMismatch { expected: a_expected, got: a_len });
        }
        if b_len < b_expected {
            return Err(GemmError::BufferSizeMismatch { expected: b_expected, got: b_len });
        }
        if c_len < c_expected {
            return Err(GemmError::BufferSizeMismatch { expected: c_expected, got: c_len });
        }
        Ok(())
    }
}

/// The kernel a builder produces.
pub enum BuiltGemmKernel {
    /// The host fallback, when no PTX source is registered.
    Cpu(CpuGemmKernel),
    /// A kernel from a registered PTX source.
    Ptx(KernelFromPtx),
}

impl BuiltGemmKernel {
    pub fn arch(&self) -> (r: GemmArch)
        ensures
            match self {
                BuiltGemmKernel::Cpu(_) => r == GemmArch::Wgmma,
                BuiltGemmKernel::Ptx(k) => r == k@.source.arch,
            },
    {
        match self {
            BuiltGemmKernel::Cpu(k) => k.arch(),
            BuiltGemmKernel::Ptx(k) => k.arch(),
        }
    }

    pub fn is_available(&self) -> (r: bool)
        ensures
            r,
    {
        match self {
            BuiltGemmKernel::Cpu(k) => k.is_available(),
            BuiltGemmKernel::Ptx(k) => k.is_available(),
        }
    }
}

/// Adding a PTX source keeps the earlier sources in order, puts the new
/// one last, and keeps the default architecture and the configuration; so
/// the launch grid (for a nonzero block size) and the dimension check of the
/// builder are those it had before.
pub proof fn lemma_add_ptx_keeps_launch(b: GemmBuilderView, p: PtxSourceView, r: GemmBuilderView)
    requires
        r == (GemmBuilderView { sources: b.sources.push(p), ..b }),
    ensures
        r.sources.len() == b.sources.len() + 1,
        r.sources.subrange(0, b.sources.len() as int) == b.sources,
        r.sources.last() == p,
        r.default_arch == b.default_arch,
        r.config == b.config,
        forall|m: usize, n: usize| #[trigger] launch_grid(r.config, m, n) == launch_grid(b.config, m, n),
        forall|k: usize| #[trigger] dims_check_ok(r.config, k) == dims_check_ok(b.config, k),
{
    assert(r.sources.subrange(0, b.sources.len() as int) =~= b.sources);
}

} // verus!
