//! Attention kernel configuration: architecture selection, block sizes and
//! the errors an attention launch reports.

use vstd::prelude::*;

use crate::text::{decimal, push_decimal, push_str};

verus! {

/// Architecture of an attention kernel.
#[derive(Debug, Clone, Copy, PartialEq, Eq, Structural)]
pub enum AttentionArch {
    /// Warp-group matrix multiply (sm_120, consumer Blackwell).
    Wgmma,
    /// Tensor cores with tensor memory (sm_100, datacenter Blackwell).
    Tcgen05,
    /// Host fallback.
    Cpu,
}

impl Default for AttentionArch {
    fn default() -> (r: Self)
        ensures
            r == AttentionArch::Tcgen05,
    {
        AttentionArch::Tcgen05
    }
}

/// Block size of an architecture (0 on the host).
pub open spec fn attention_arch_block_size(a: AttentionArch) -> usize {
    match a {
        AttentionArch::Wgmma => 128,
        AttentionArch::Tcgen05 => 128,
        AttentionArch::Cpu => 0,
    }
}

impl AttentionArch {
    pub fn name(&self) -> (r: &'static str)
        ensures
            *self == AttentionArch::Wgmma ==> r@ == "wgmma"@,
            *self == AttentionArch::Tcgen05 ==> r@ == "tcgen05"@,
            *self == AttentionArch::Cpu ==> r@ == "cpu"@,
    {
        match self {
            AttentionArch::Wgmma => "wgmma",
            AttentionArch::Tcgen05 => "tcgen05",
            AttentionArch::Cpu => "cpu",
        }
    }

    /// The tensor-core architectures copy with TMA; the host does not.
    pub fn supports_tma(&self) -> (r: bool)
        ensures
            r <==> *self != AttentionArch::Cpu,
    {
        match self {
            AttentionArch::Wgmma => true,
            AttentionArch::Tcgen05 => true,
            AttentionArch::Cpu => false,
        }
    }

    pub fn block_size(&self) -> (r: usize)
        ensures
            r == attention_arch_block_size(*self),
    {
        match self {
            AttentionArch::Wgmma => 128,
            AttentionArch::Tcgen05 => 128,
            AttentionArch::Cpu => 0,
        }
    }
}

/// Configuration of an attention launch.
#[derive(Debug, Clone, Copy, PartialEq, Eq, Structural)]
pub struct AttentionConfig {
    pub num_heads: usize,
    /// Dimension of each head.
    pub head_dim: usize,
    /// Longest sequence the cache holds.
    pub max_seq: usize,
    pub arch: AttentionArch,
    /// Whether to use TMA for asynchronous global-to-shared copies.
    pub use_tma: bool,
    /// Block size override; 0 selects the architecture's block size.
    pub block_size: usize,
}

impl Default for AttentionConfig {
    /// 8 heads of dimension 64, sequences up to 2048, tcgen05 with TMA.
    fn default() -> (r: Self)
        ensures
            r == (AttentionConfig {
                num_heads: 8,
                head_dim: 64,
                max_seq: 2048,
                arch: AttentionArch::Tcgen05,
                use_tma: true,
                block_size: 0,
            }),
    {
        AttentionConfig {
            num_heads: 8,
            head_dim: 64,
            max_seq: 2048,
            arch: AttentionArch::Tcgen05,
            use_tma: true,
            block_size: 0,
        }
    }
}

/// Block size a configuration launches with.
pub open spec fn attention_block_size(c: AttentionConfig) -> usize {
    if c.block_size > 0 {
        c.block_size
    } else {
        attention_arch_block_size(c.arch)
    }
}

impl AttentionConfig {
    /// The override when set, else the architecture's block size.
    pub fn effective_block_size(&self) -> (r: usize)
        ensures
            r == attention_block_size(*self),
    {
        if self.block_size > 0 {
            self.block_size
        } else {
            self.arch.block_size()
        }
    }

    pub fn with_num_heads(self, num_heads: usize) -> (r: Self)
        ensures
            r == (AttentionConfig { num_heads, ..self }),
    {
        AttentionConfig { num_heads, ..self }
    }

    pub fn with_head_dim(self, head_dim: usize) -> (r: Self)
        ensures
            r == (AttentionConfig { head_dim, ..self }),
    {
        AttentionConfig { head_dim, ..self }
    }

    pub fn with_max_seq(self, max_seq: usize) -> (r: Self)
        ensures
            r == (AttentionConfig { max_seq, ..self }),
    {
        AttentionConfig { max_seq, ..self }
    }

    pub fn with_arch(self, arch: AttentionArch) -> (r: Self)
        ensures
            r == (AttentionConfig { arch, ..self }),
    {
        AttentionConfig { arch, ..self }
    }

    pub fn with_tma(self, use_tma: bool) -> (r: Self)
        ensures
            r == (AttentionConfig { use_tma, ..self }),
    {
        AttentionConfig { use_tma, ..self }
    }

    pub fn with_block_size(self, block_size: usize) -> (r: Self)
        ensures
            r == (AttentionConfig { block_size, ..self }),
    {
        AttentionConfig { block_size, ..self }
    }
}

/// Errors of an attention launch.
#[derive(Debug)]
pub enum AttentionError {
    InvalidDimensions { num_heads: usize, head_dim: usize, seq_len: usize },
    HeadIndexOutOfBounds { head_idx: usize, num_heads: usize },
    SeqLenExceeded { current: usize, max: usize },
    BufferSizeMismatch { expected: usize, got: usize },
    NotAvailable,
    LaunchFailed(String),
    Cuda(String),
    UnsupportedArch(String),
    /// tcgen05 needs a head dimension divisible by 64.
    Tcgen05Constraint(usize),
}

/// Text of an attention error.
pub open spec fn attention_error_text(e: &AttentionError) -> Seq<char> {
    match e {
        AttentionError::InvalidDimensions { num_heads, head_dim, seq_len } =>
            "invalid dimensions: heads="@ + decimal(*num_heads as nat) + ", head_dim="@ + decimal(
            *head_dim as nat,
        ) + ", seq_len="@ + decimal(*seq_len as nat),
        AttentionError::HeadIndexOutOfBounds { head_idx, num_heads } =>
            "head index out of bounds: head_idx="@ + decimal(*head_idx as nat) + ", num_heads="@
                + decimal(*num_heads as nat),
        AttentionError::SeqLenExceeded { current, max } => "sequence length exceeded: current="@
            + decimal(*current as nat) + ", max="@ + decimal(*max as nat),
        AttentionError::BufferSizeMismatch { expected, got } => "buffer size mismatch: expected "@
            + decimal(*expected as nat) + ", got "@ + decimal(*got as nat),
        AttentionError::NotAvailable => "kernel not available on this device"@,
        AttentionError::LaunchFailed(s) => "kernel launch failed: "@ + s@,
        AttentionError::Cuda(s) => "CUDA error: "@ + s@,
        AttentionError::UnsupportedArch(s) => "unsupported architecture: "@ + s@,
        AttentionError::Tcgen05Constraint(d) =>
            "tcgen05 constraint: head_dim must be divisible by 64, got "@ + decimal(*d as nat),
    }
}

impl AttentionError {
    /// The error's text.
    pub fn message(&self) -> (r: String)
        ensures
            r@ == attention_error_text(self),
    {
        let mut s = String::new();
        match self {
            AttentionError::InvalidDimensions { num_heads, head_dim, seq_len } => {
                push_str(&mut s, "invalid dimensions: heads=");
                push_decimal(&mut s, *num_heads as u64);
                push_str(&mut s, ", head_dim=");
                push_decimal(&mut s, *head_dim as u64);
                push_str(&mut s, ", seq_len=");
                push_decimal(&mut s, *seq_len as u64);
            },
            AttentionError::HeadIndexOutOfBounds { head_idx, num_heads } => {
                push_str(&mut s, "head index out of bounds: head_idx=");
                push_decimal(&mut s, *head_idx as u64);
                push_str(&mut s, ", num_heads=");
                push_decimal(&mut s, *num_heads as u64);
            },
            AttentionError::SeqLenExceeded { current, max } => {
                push_str(&mut s, "sequence length exceeded: current=");
                push_decimal(&mut s, *current as u64);
                push_str(&mut s, ", max=");
                push_decimal(&mut s, *max as u64);
            },
            AttentionError::BufferSizeMismatch { expected, got } => {
                push_str(&mut s, "buffer size mismatch: expected ");
                push_decimal(&mut s, *expected as u64);
                push_str(&mut s, ", got ");
                push_decimal(&mut s, *got as u64);
            },
            AttentionError::NotAvailable => {
                push_str(&mut s, "kernel not available on this device");
            },
            AttentionError::LaunchFailed(t) => {
                push_str(&mut s, "kernel launch failed: ");
                push_str(&mut s, t.as_str());
            },
            AttentionError::Cuda(t) => {
                push_str(&mut s, "CUDA error: ");
                push_str(&mut s, t.as_str());
            },
            AttentionError::UnsupportedArch(t) => {
                push_str(&mut s, "unsupported architecture: ");
                push_str(&mut s, t.as_str());
            },
            AttentionError::Tcgen05Constraint(d) => {
                push_str(&mut s, "tcgen05 constraint: head_dim must be divisible by 64, got ");
                push_decimal(&mut s, *d as u64);
            },
        }
        s
    }
}

/// Host attention kernel.
#[derive(Debug, Clone, Copy)]
pub struct CpuAttentionKernel {
    arch: AttentionArch,
}

impl CpuAttentionKernel {
    /// A host kernel reporting the host architecture.
    pub fn new() -> (r: Self)
        ensures
            r.arch_spec() == AttentionArch::Cpu,
    {
        CpuAttentionKernel { arch: AttentionArch::Cpu }
    }

    /// A host kernel reporting the given architecture.
    pub fn with_arch(arch: AttentionArch) -> (r: Self)
        ensures
            r.arch_spec() == arch,
    {
        CpuAttentionKernel { arch }
    }

    /// The architecture the kernel reports.
    pub fn arch(&self) -> (r: AttentionArch)
        ensures
            r == self.arch_spec(),
    {
        self.arch
    }

    pub closed spec fn arch_spec(&self) -> AttentionArch {
        self.arch
    }

    /// The host kernel is always available.
    pub fn is_available(&self) -> (r: bool)
        ensures
            r,
    {
        true
    }
}

impl Default for CpuAttentionKernel {
    fn default() -> (r: Self)
        ensures
            r.arch_spec() == AttentionArch::Cpu,
    {
        CpuAttentionKernel::new()
    }
}

} // verus!
