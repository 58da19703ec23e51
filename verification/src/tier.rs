//! Tiered execution: profile-driven promotion from the CPU baseline to GPU tiers.
//!
//! A `TieredExecution` counts invocations at the current tier and promotes to
//! the next tier once the count reaches that tier's threshold.

use vstd::prelude::*;

verus! {

/// Execution tier with profile-driven tier-up thresholds.
#[derive(Debug, Clone, Copy, PartialEq, Eq, Structural)]
pub enum Tier {
    /// CPU baseline: generic kernels, always available.
    CpuBaseline,
    /// GPU flash attention.
    GpuFlashAttention,
    /// Full CUDA backend.
    GpuFullBackend,
}

/// Numeric identifier of a tier.
pub open spec fn tier_id(t: Tier) -> u32 {
    match t {
        Tier::CpuBaseline => 0,
        Tier::GpuFlashAttention => 1,
        Tier::GpuFullBackend => 2,
    }
}

/// The tier named by a numeric identifier; every unknown identifier names the top tier.
pub open spec fn tier_of_id(id: u32) -> Tier {
    if id == 0 {
        Tier::CpuBaseline
    } else if id == 1 {
        Tier::GpuFlashAttention
    } else {
        Tier::GpuFullBackend
    }
}

/// Number of invocations after which the tier with the given identifier tiers up.
pub open spec fn threshold_of_id(id: u32) -> usize {
    if id == 0 {
        100
    } else if id == 1 {
        500
    } else {
        usize::MAX
    }
}

impl Tier {
    pub fn name(&self) -> (r: &'static str)
        ensures
            *self == Tier::CpuBaseline ==> r@ == "cpu_baseline"@,
            *self == Tier::GpuFlashAttention ==> r@ == "gpu_flash_attention"@,
            *self == Tier::GpuFullBackend ==> r@ == "gpu_full_backend"@,
    {
        match self {
            Tier::CpuBaseline => "cpu_baseline",
            Tier::GpuFlashAttention => "gpu_flash_attention",
            Tier::GpuFullBackend => "gpu_full_backend",
        }
    }

    /// Is this tier GPU-accelerated?
    pub fn is_gpu(&self) -> (r: bool)
        ensures
            r == (*self != Tier::CpuBaseline),
    {
        match self {
            Tier::CpuBaseline => false,
            _ => true,
        }
    }

    /// Default tier-up threshold (invocations before tiering up).
    pub fn tier_up_threshold(&self) -> (r: usize)
        ensures
            r == threshold_of_id(tier_id(*self)),
    {
        match self {
            Tier::CpuBaseline => 100,
            Tier::GpuFlashAttention => 500,
            Tier::GpuFullBackend => usize::MAX,
        }
    }

    /// Convert from numeric ID; unknown IDs map to the top tier.
    pub fn from_id(id: u32) -> (r: Tier)
        ensures
            r == tier_of_id(id),
    {
        match id {
            0 => Tier::CpuBaseline,
            1 => Tier::GpuFlashAttention,
            _ => Tier::GpuFullBackend,
        }
    }

    /// Numeric ID.
    pub fn as_u32(&self) -> (r: u32)
        ensures
            r == tier_id(*self),
    {
        match self {
            Tier::CpuBaseline => 0,
            Tier::GpuFlashAttention => 1,
            Tier::GpuFullBackend => 2,
        }
    }

    /// Tier-up threshold by numeric ID.
    pub fn threshold_by_id(id: u32) -> (r: usize)
        ensures
            r == threshold_of_id(id),
    {
        match id {
            0 => 100,
            1 => 500,
            _ => usize::MAX,
        }
    }
}

/// Profile-driven execution state with call-count tracking.
pub struct TieredExecution {
    current_tier: usize,
    call_count: usize,
    tier_up_threshold: usize,
}

impl TieredExecution {
    /// Numeric identifier of the current tier, as stored.
    pub closed spec fn tier_id(&self) -> usize {
        self.current_tier
    }

    /// Invocations recorded at the current tier.
    pub closed spec fn count(&self) -> usize {
        self.call_count
    }

    /// Threshold fixed at construction from the initial tier.
    pub closed spec fn initial_threshold(&self) -> usize {
        self.tier_up_threshold
    }

    /// The recorded count never reaches the threshold of the current tier.
    pub closed spec fn wf(&self) -> bool {
        self.call_count < threshold_of_id(self.current_tier as u32)
    }

    pub fn new(initial_tier: Tier) -> (r: Self)
        ensures
            r.wf(),
            r.tier_id() == tier_id(initial_tier),
            r.count() == 0,
            r.initial_threshold() == threshold_of_id(tier_id(initial_tier)),
    {
        TieredExecution {
            current_tier: initial_tier.as_u32() as usize,
            call_count: 0,
            tier_up_threshold: initial_tier.tier_up_threshold(),
        }
    }

    /// The current execution tier.
    pub fn current_tier(&self) -> (r: Tier)
        ensures
            r == tier_of_id(self.tier_id() as u32),
    {
        Tier::from_id(self.current_tier as u32)
    }

    /// Record an invocation; returns the new tier when the count reaches the
    /// threshold of the current tier (the count then restarts at zero).
    pub fn record_invocation(&mut self) -> (r: Option<Tier>)
        requires
            old(self).wf(),
            old(self).tier_id() < usize::MAX,
        ensures
            final(self).wf(),
            final(self).initial_threshold() == old(self).initial_threshold(),
            old(self).count() + 1 >= threshold_of_id(old(self).tier_id() as u32) ==> {
                &&& final(self).count() == 0
                &&& final(self).tier_id() == old(self).tier_id() + 1
                &&& r == Some(tier_of_id((old(self).tier_id() + 1) as u32))
            },
            old(self).count() + 1 < threshold_of_id(old(self).tier_id() as u32) ==> {
                &&& final(self).count() == old(self).count() + 1
                &&& final(self).tier_id() == old(self).tier_id()
                &&& r == None::<Tier>
            },
            invocation_recorded(*old(self), *final(self), r),
    {
        let count = self.call_count + 1;
        let current_tier_id = self.current_tier;
        let threshold = Tier::threshold_by_id(current_tier_id as u32);
        if count >= threshold {
            let new_tier_id = current_tier_id + 1;
            self.call_count = 0;
            self.current_tier = new_tier_id;
            Some(Tier::from_id(new_tier_id as u32))
        } else {
            self.call_count = count;
            None
        }
    }

    /// Manually set the current tier; the counter restarts at zero.
    pub fn set_tier(&mut self, tier: Tier)
        ensures
            final(self).wf(),
            final(self).tier_id() == tier_id(tier),
            final(self).count() == 0,
            final(self).initial_threshold() == old(self).initial_threshold(),
    {
        self.current_tier = tier.as_u32() as usize;
        self.call_count = 0;
    }

    /// Invocations recorded at the current tier.
    pub fn invocation_count(&self) -> (r: usize)
        ensures
            r == self.count(),
    {
        self.call_count
    }

    /// Whether GPU execution is available for a tier-up decision (always assumed).
    pub fn has_gpu_available(&self) -> (r: bool)
        ensures
            r,
    {
        true
    }

    /// Reset the profile counter.
    pub fn reset_profile(&mut self)
        ensures
            final(self).wf(),
            final(self).count() == 0,
            final(self).tier_id() == old(self).tier_id(),
            final(self).initial_threshold() == old(self).initial_threshold(),
    {
        self.call_count = 0;
    }
}

/// Layer-level profiling hook counting forward passes.
pub struct LayerProfiler {
    layer_id: String,
    call_count: usize,
}

impl LayerProfiler {
    /// Name of the profiled layer.
    pub closed spec fn layer_name(&self) -> Seq<char> {
        self.layer_id@
    }

    /// Forward passes recorded so far.
    pub closed spec fn forwards(&self) -> usize {
        self.call_count
    }

    pub fn new(layer_name: &str) -> (r: Self)
        ensures
            r.layer_name() == layer_name@,
            r.forwards() == 0,
    {
        LayerProfiler { layer_id: layer_name.to_string(), call_count: 0 }
    }

    /// Record a forward pass; returns the new count.
    pub fn record_forward(&mut self) -> (r: usize)
        requires
            old(self).forwards() < usize::MAX,
        ensures
            r == old(self).forwards() + 1,
            final(self).forwards() == r,
            final(self).layer_name() == old(self).layer_name(),
            forward_recorded(*old(self), *final(self), r),
    {
        self.call_count = self.call_count + 1;
        self.call_count
    }

    /// Current invocation count.
    pub fn count(&self) -> (r: usize)
        ensures
            r == self.forwards(),
    {
        self.call_count
    }
}

/// What one `record_invocation` call does to the stored state: reaching the
/// threshold of the current tier steps the tier id up by one, returns the
/// tier of the new id and restarts the count; otherwise the count goes up by
/// one and nothing is returned.
pub open spec fn invocation_recorded(before: TieredExecution, after: TieredExecution, r: Option<Tier>) -> bool {
    &&& after.wf()
    &&& after.initial_threshold() == before.initial_threshold()
    &&& if before.count() + 1 >= threshold_of_id(before.tier_id() as u32) {
        &&& after.count() == 0
        &&& after.tier_id() == before.tier_id() + 1
        &&& r == Some(tier_of_id((before.tier_id() + 1) as u32))
    } else {
        &&& after.count() == before.count() + 1
        &&& after.tier_id() == before.tier_id()
        &&& r == None::<Tier>
    }
}

/// Law: one recorded invocation, seen through the tier values. With `t` the
/// current tier and `c` the count, reaching `t`'s threshold returns the tier
/// numbered one above `t`, which becomes current with the count at zero;
/// otherwise nothing is returned, `t` stays current and the count is `c + 1`.
/// Stated for stored tier ids below `u32::MAX`, the ids the `u32` numbering
/// keeps apart.
pub proof fn lemma_record_invocation(before: TieredExecution, after: TieredExecution, r: Option<Tier>)
    requires
        before.wf(),
        before.tier_id() < u32::MAX,
        invocation_recorded(before, after, r),
    ensures
        ({
            let t = tier_of_id(before.tier_id() as u32);
            let c = before.count();
            if c + 1 >= threshold_of_id(tier_id(t)) {
                &&& r == Some(tier_of_id((tier_id(t) + 1) as u32))
                &&& tier_of_id(after.tier_id() as u32) == r->0
                &&& after.count() == 0
            } else {
                &&& r is None
                &&& tier_of_id(after.tier_id() as u32) == t
                &&& after.count() == c + 1
            }
        }),
{
    lemma_tier_step(before.tier_id() as int);
}

/// What one `record_forward` call does: the count goes up by one and is
/// returned, and the layer name stays.
pub open spec fn forward_recorded(before: LayerProfiler, after: LayerProfiler, r: usize) -> bool {
    &&& r == before.forwards() + 1
    &&& after.forwards() == r
    &&& after.layer_name() == before.layer_name()
}

proof fn lemma_forward_prefix(states: Seq<LayerProfiler>, results: Seq<usize>, k: int)
    requires
        states.len() == results.len() + 1,
        states[0].forwards() == 0,
        forall|i: int| #![trigger results[i]] 0 <= i < results.len() ==> forward_recorded(states[i], states[i + 1], results[i]),
        0 <= k <= results.len(),
    ensures
        states[k].forwards() == k,
    decreases k,
{
    if k > 0 {
        lemma_forward_prefix(states, results, k - 1);
        assert(forward_recorded(states[k - 1], states[k], results[k - 1]));
    }
}

/// Law: from a profiler with no forward passes recorded, the `i`-th
/// `record_forward` call (counting from one) returns `i`, and the count ends
/// at the number of calls.
pub proof fn lemma_forward_counts(states: Seq<LayerProfiler>, results: Seq<usize>)
    requires
        states.len() == results.len() + 1,
        states[0].forwards() == 0,
        forall|i: int| #![trigger results[i]] 0 <= i < results.len() ==> forward_recorded(states[i], states[i + 1], results[i]),
    ensures
        forall|i: int| 0 <= i < results.len() ==> #[trigger] results[i] == i + 1,
        states.last().forwards() == results.len(),
{
    assert forall|i: int| 0 <= i < results.len() implies #[trigger] results[i] == i + 1 by {
        lemma_forward_prefix(states, results, i);
    }
    lemma_forward_prefix(states, results, results.len() as int);
}

/// Tiering seen through the tier values: from a stored tier id below
/// `u32::MAX` (the ids the `u32` conversions keep apart), the threshold of the
/// current tier is that of its id, and the tier reached by one step up is
/// `Tier::from_id` of the current tier's number plus one. With the contract of
/// `record_invocation`, an invocation that reaches the current tier's
/// `tier_up_threshold` yields `Some(Tier::from_id(current.as_u32() + 1))`,
/// which becomes the current tier with the count back at zero; any other
/// invocation yields `None`, keeps the tier and adds one to the count.
pub proof fn lemma_tier_step(id: int)
    requires
        0 <= id < u32::MAX,
    ensures
        threshold_of_id(tier_id(tier_of_id(id as u32))) == threshold_of_id(id as u32),
        tier_of_id((id + 1) as u32) == tier_of_id((tier_id(tier_of_id(id as u32)) + 1) as u32),
{
}

} // verus!
