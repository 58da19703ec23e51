//! The model manager's registry: which models are loaded, from what, and how
//! they have been used; the clean-up of stale models over the limit; the
//! queue of models waiting to be preloaded.
//!
//! Times are nanoseconds since the UNIX epoch, as read from the system clock
//! by the caller.

use std::collections::VecDeque;

use vstd::prelude::*;

verus! {

/// What a model is loaded from.
#[derive(Debug, PartialEq, Eq)]
pub struct ModelSpec {
    pub name: String,
    /// Path of the base weights.
    pub base_path: String,
    /// Path of a LoRA adapter, if any.
    pub lora_path: Option<String>,
    /// Prompt template, if any.
    pub template: Option<String>,
    /// Context length in tokens.
    pub ctx_len: usize,
    /// Thread count, if fixed.
    pub n_threads: Option<i32>,
}

/// Mathematical model of a model specification.
pub struct ModelSpecView {
    pub name: Seq<char>,
    pub base_path: Seq<char>,
    pub lora_path: Option<Seq<char>>,
    pub template: Option<Seq<char>>,
    pub ctx_len: usize,
    pub n_threads: Option<i32>,
}

pub open spec fn opt_text(o: Option<String>) -> Option<Seq<char>> {
    match o {
        Some(s) => Some(s@),
        None => None,
    }
}

impl View for ModelSpec {
    type V = ModelSpecView;

    open spec fn view(&self) -> ModelSpecView {
        ModelSpecView {
            name: self.name@,
            base_path: self.base_path@,
            lora_path: opt_text(self.lora_path),
            template: opt_text(self.template),
            ctx_len: self.ctx_len,
            n_threads: self.n_threads,
        }
    }
}

fn clone_opt_text(o: &Option<String>) -> (r: Option<String>)
    ensures
        opt_text(r) == opt_text(*o),
{
    match o {
        Some(s) => Some(s.clone()),
        None => None,
    }
}

impl Clone for ModelSpec {
    fn clone(&self) -> (r: Self)
        ensures
            r@ == self@,
    {
        ModelSpec {
            name: self.name.clone(),
            base_path: self.base_path.clone(),
            lora_path: clone_opt_text(&self.lora_path),
            template: clone_opt_text(&self.template),
            ctx_len: self.ctx_len,
            n_threads: self.n_threads,
        }
    }
}

/// A loaded model and its use so far.
#[derive(Debug)]
pub struct ModelLoadInfo {
    pub name: String,
    pub spec: ModelSpec,
    /// When the model was loaded.
    pub loaded_at: u128,
    /// When the model was last used.
    pub last_accessed: u128,
    /// Loads and accesses so far.
    pub access_count: u64,
}

/// Mathematical model of a loaded model's record.
pub struct ModelLoadInfoView {
    pub name: Seq<char>,
    pub spec: ModelSpecView,
    pub loaded_at: u128,
    pub last_accessed: u128,
    pub access_count: u64,
}

impl View for ModelLoadInfo {
    type V = ModelLoadInfoView;

    open spec fn view(&self) -> ModelLoadInfoView {
        ModelLoadInfoView {
            name: self.name@,
            spec: self.spec@,
            loaded_at: self.loaded_at,
            last_accessed: self.last_accessed,
            access_count: self.access_count,
        }
    }
}

impl Clone for ModelLoadInfo {
    fn clone(&self) -> (r: Self)
        ensures
            r@ == self@,
    {
        ModelLoadInfo {
            name: self.name.clone(),
            spec: self.spec.clone(),
            loaded_at: self.loaded_at,
            last_accessed: self.last_accessed,
            access_count: self.access_count,
        }
    }
}

/// Preloading statistics for monitoring.
#[derive(Debug, Clone, Copy, PartialEq, Eq, Structural)]
pub struct PreloadStats {
    pub loaded_models: usize,
    pub max_models: usize,
    pub queue_length: usize,
    pub total_tracked_models: usize,
    pub memory_limit_mb: usize,
    pub preloading_enabled: bool,
}

/// A registry entry: a model's name and its record.
pub type Entry = (Seq<char>, ModelLoadInfoView);

/// Whether the registry holds a model of that name.
pub open spec fn holds(s: Seq<Entry>, name: Seq<char>) -> bool {
    exists|i: int| 0 <= i < s.len() && #[trigger] s[i].0 == name
}

/// No two entries share a name.
pub open spec fn names_distinct(s: Seq<Entry>) -> bool {
    forall|i: int, j: int| 0 <= i < j < s.len() ==> #[trigger] s[i].0 != #[trigger] s[j].0
}

/// The record of the named model, if it is loaded.
pub open spec fn lookup(s: Seq<Entry>, name: Seq<char>) -> Option<ModelLoadInfoView>
    decreases s.len(),
{
    if s.len() == 0 {
        None
    } else if s.last().0 == name {
        Some(s.last().1)
    } else {
        lookup(s.drop_last(), name)
    }
}

/// The registry without the named model, the others in order.
pub open spec fn without(s: Seq<Entry>, name: Seq<char>) -> Seq<Entry>
    decreases s.len(),
{
    if s.len() == 0 {
        s
    } else if s.last().0 == name {
        without(s.drop_last(), name)
    } else {
        without(s.drop_last(), name).push(s.last())
    }
}

/// The record of a model loaded at `now` from `spec`: loaded and last used
/// at `now`, one access.
pub open spec fn fresh_record(name: Seq<char>, spec: ModelSpecView, now: u128) -> ModelLoadInfoView {
    ModelLoadInfoView { name, spec, loaded_at: now, last_accessed: now, access_count: 1 }
}

/// The registry after an access to the named model at `now`: its record is
/// last used at `now` with one more access; the others are unchanged.
pub open spec fn touched(s: Seq<Entry>, name: Seq<char>, now: u128) -> Seq<Entry> {
    s.map_values(
        |e: Entry|
            if e.0 == name {
                (
                    e.0,
                    ModelLoadInfoView {
                        last_accessed: now,
                        access_count: (e.1.access_count + 1) as u64,
                        ..e.1
                    },
                )
            } else {
                e
            },
    )
}

proof fn lemma_holds_lookup(s: Seq<Entry>, x: Seq<char>)
    ensures
        holds(s, x) == (lookup(s, x) is Some),
    decreases s.len(),
{
    if s.len() > 0 {
        let p = s.drop_last();
        lemma_holds_lookup(p, x);
        if holds(s, x) && s.last().0 != x {
            let i = choose|i: int| 0 <= i < s.len() && #[trigger] s[i].0 == x;
            assert(p[i].0 == x);
        }
        if holds(p, x) {
            let i = choose|i: int| 0 <= i < p.len() && #[trigger] p[i].0 == x;
            assert(s[i].0 == x);
        }
        if s.last().0 == x {
            assert(s[s.len() - 1].0 == x);
        }
    }
}

proof fn lemma_distinct_prefix(s: Seq<Entry>)
    requires
        s.len() > 0,
        names_distinct(s),
    ensures
        names_distinct(s.drop_last()),
        lookup(s.drop_last(), s.last().0) is None,
{
    let p = s.drop_last();
    assert(names_distinct(p)) by {
        assert forall|i: int, j: int| 0 <= i < j < p.len() implies #[trigger] p[i].0 != #[trigger] p[j].0 by {
            assert(s[i].0 != s[j].0);
        }
    }
    lemma_holds_lookup(p, s.last().0);
    if holds(p, s.last().0) {
        let i = choose|i: int| 0 <= i < p.len() && #[trigger] p[i].0 == s.last().0;
        assert(s[i].0 != s[s.len() - 1].0);
    }
}

proof fn lemma_without(s: Seq<Entry>, name: Seq<char>)
    ensures
        lookup(without(s, name), name) is None,
        forall|x: Seq<char>| x != name ==> #[trigger] lookup(without(s, name), x) == lookup(s, x),
        names_distinct(s) ==> names_distinct(without(s, name)),
        names_distinct(s) ==> without(s, name).len() == s.len() - (if lookup(s, name) is Some {
            1int
        } else {
            0
        }),
        without(s, name).len() <= s.len(),
    decreases s.len(),
{
    if s.len() > 0 {
        let p = s.drop_last();
        let l = s.last();
        lemma_without(p, name);
        if l.0 != name {
            assert(without(s, name).drop_last() =~= without(p, name));
        }
        assert forall|x: Seq<char>| x != name implies #[trigger] lookup(without(s, name), x) == lookup(s, x) by {
            assert(lookup(without(p, name), x) == lookup(p, x));
        }
        if names_distinct(s) {
            lemma_distinct_prefix(s);
            if l.0 != name {
                let w = without(s, name);
                let wp = without(p, name);
                assert(lookup(wp, l.0) is None);
                lemma_holds_lookup(wp, l.0);
                assert forall|i: int, j: int| 0 <= i < j < w.len() implies #[trigger] w[i].0 != #[trigger] w[j].0 by {
                    assert(w[i] == wp[i]);
                    if j == w.len() - 1 {
                        assert(wp[i].0 != l.0);
                    } else {
                        assert(w[j] == wp[j]);
                    }
                }
            }
        }
    }
}

/// The view of the stored entries.
pub open spec fn entries_view(v: Seq<(String, ModelLoadInfo)>) -> Seq<Entry> {
    v.map_values(|e: (String, ModelLoadInfo)| (e.0@, e.1@))
}

proof fn lemma_lookup_at(s: Seq<Entry>, name: Seq<char>, i: int)
    requires
        names_distinct(s),
        0 <= i < s.len(),
        s[i].0 == name,
    ensures
        lookup(s, name) == Some(s[i].1),
    decreases s.len(),
{
    if i < s.len() - 1 {
        lemma_distinct_prefix(s);
        assert(s.drop_last()[i] == s[i]);
        assert(s.last().0 != name) by {
            assert(s[i].0 != s[s.len() - 1].0);
        }
        lemma_lookup_at(s.drop_last(), name, i);
    }
}

proof fn lemma_absent(s: Seq<Entry>, name: Seq<char>)
    requires
        forall|i: int| 0 <= i < s.len() ==> s[i].0 != name,
    ensures
        lookup(s, name) is None,
        without(s, name) == s,
        forall|now: u128| #[trigger] touched(s, name, now) == s,
    decreases s.len(),
{
    if s.len() > 0 {
        let p = s.drop_last();
        assert forall|i: int| 0 <= i < p.len() implies p[i].0 != name by {
            assert(p[i] == s[i]);
        }
        lemma_absent(p, name);
        assert(without(s, name) =~= s);
    }
    assert forall|now: u128| #[trigger] touched(s, name, now) == s by {
        assert(touched(s, name, now) =~= s);
    }
}

/// The record of a model after an access at `now`.
pub open spec fn accessed(r: ModelLoadInfoView, now: u128) -> ModelLoadInfoView {
    ModelLoadInfoView { last_accessed: now, access_count: (r.access_count + 1) as u64, ..r }
}

proof fn lemma_touched_at(s: Seq<Entry>, name: Seq<char>, i: int, now: u128)
    requires
        names_distinct(s),
        0 <= i < s.len(),
        s[i].0 == name,
    ensures
        touched(s, name, now) == s.update(i, (name, accessed(s[i].1, now))),
{
    assert forall|j: int| 0 <= j < s.len() && j != i implies s[j].0 != name by {
        if j < i {
            assert(s[j].0 != s[i].0);
        } else {
            assert(s[i].0 != s[j].0);
        }
    }
    assert(touched(s, name, now) =~= s.update(i, (name, accessed(s[i].1, now))));
}

proof fn lemma_without_at(s: Seq<Entry>, name: Seq<char>, i: int)
    requires
        names_distinct(s),
        0 <= i < s.len(),
        s[i].0 == name,
    ensures
        without(s, name) == s.remove(i),
    decreases s.len(),
{
    let p = s.drop_last();
    lemma_distinct_prefix(s);
    if i == s.len() - 1 {
        assert forall|j: int| 0 <= j < p.len() implies p[j].0 != name by {
            assert(s[j].0 != s[i].0);
        }
        lemma_absent(p, name);
        assert(s.remove(i) =~= p);
    } else {
        assert(p[i] == s[i]);
        assert(s.last().0 != name) by {
            assert(s[i].0 != s[s.len() - 1].0);
        }
        lemma_without_at(p, name, i);
        assert(s.remove(i) =~= p.remove(i).push(s.last()));
    }
}

/// How long a model must have gone unused before it may be cleaned up: one
/// hour, in nanoseconds.
pub const STALE_AFTER_NANOS: u128 = 3600000000000;

/// The time before which a model counts as unused at `now`.
pub open spec fn stale_cutoff(now: u128) -> u128 {
    if now >= STALE_AFTER_NANOS {
        (now - STALE_AFTER_NANOS) as u128
    } else {
        0
    }
}

/// Whether an entry may be cleaned up: last used before the cutoff and used
/// fewer than five times.
pub open spec fn stale(e: Entry, cutoff: u128) -> bool {
    e.1.last_accessed < cutoff && e.1.access_count < 5
}

/// Whether entry `j` goes before entry `i` in clean-up order: earlier last
/// use first, then fewer accesses, then registry order.
pub open spec fn cleaned_before(s: Seq<Entry>, j: int, i: int) -> bool {
    let a = s[j].1;
    let b = s[i].1;
    ||| a.last_accessed < b.last_accessed
    ||| (a.last_accessed == b.last_accessed && a.access_count < b.access_count)
    ||| (a.last_accessed == b.last_accessed && a.access_count == b.access_count && j < i)
}

/// How many stale entries among the first `k` go before entry `i`.
pub open spec fn rank_upto(s: Seq<Entry>, cutoff: u128, i: int, k: int) -> nat
    decreases k,
{
    if k <= 0 {
        0
    } else {
        rank_upto(s, cutoff, i, k - 1) + (if stale(s[k - 1], cutoff) && cleaned_before(s, k - 1, i) {
            1nat
        } else {
            0nat
        })
    }
}

/// Whether entry `i` is cleaned up: it is stale and fewer than `to_remove`
/// stale entries go before it.
pub open spec fn cleaned(s: Seq<Entry>, cutoff: u128, to_remove: int, i: int) -> bool {
    stale(s[i], cutoff) && rank_upto(s, cutoff, i, s.len() as int) < to_remove
}

/// The entries among the first `k` that are not cleaned up, in order.
pub open spec fn survivors(s: Seq<Entry>, cutoff: u128, to_remove: int, k: int) -> Seq<Entry>
    decreases k,
{
    if k <= 0 {
        Seq::empty()
    } else if cleaned(s, cutoff, to_remove, k - 1) {
        survivors(s, cutoff, to_remove, k - 1)
    } else {
        survivors(s, cutoff, to_remove, k - 1).push(s[k - 1])
    }
}

/// The registry after a clean-up at `now` with room for `max_models`: when
/// it holds more, up to as many stale entries as it is over the limit are
/// removed, the longest unused first; the rest keep their order.
pub open spec fn cleaned_up(s: Seq<Entry>, max_models: nat, now: u128) -> Seq<Entry> {
    if s.len() <= max_models {
        s
    } else {
        survivors(s, stale_cutoff(now), s.len() - max_models, s.len() as int)
    }
}

/// How many of the first `k` entries are cleaned up.
pub open spec fn cleaned_count(s: Seq<Entry>, cutoff: u128, to_remove: int, k: int) -> nat
    decreases k,
{
    if k <= 0 {
        0
    } else {
        cleaned_count(s, cutoff, to_remove, k - 1) + (if cleaned(s, cutoff, to_remove, k - 1) {
            1nat
        } else {
            0nat
        })
    }
}

/// How many of the first `k` entries other than `m` are cleaned up.
spec fn cleaned_count_except(s: Seq<Entry>, cutoff: u128, to_remove: int, m: int, k: int) -> nat
    decreases k,
{
    if k <= 0 {
        0
    } else {
        cleaned_count_except(s, cutoff, to_remove, m, k - 1) + (if cleaned(s, cutoff, to_remove, k - 1)
            && k - 1 != m {
            1nat
        } else {
            0nat
        })
    }
}

/// The cleaned-up entry among the first `k` that goes last in clean-up order.
spec fn last_cleaned(s: Seq<Entry>, cutoff: u128, to_remove: int, k: int) -> Option<int>
    decreases k,
{
    if k <= 0 {
        None
    } else {
        let p = last_cleaned(s, cutoff, to_remove, k - 1);
        if cleaned(s, cutoff, to_remove, k - 1) {
            match p {
                None => Some(k - 1),
                Some(j) => if cleaned_before(s, j, k - 1) {
                    Some(k - 1)
                } else {
                    Some(j)
                },
            }
        } else {
            p
        }
    }
}

proof fn lemma_last_cleaned(s: Seq<Entry>, cutoff: u128, to_remove: int, k: int)
    requires
        0 <= k <= s.len(),
    ensures
        last_cleaned(s, cutoff, to_remove, k) is None ==> cleaned_count(s, cutoff, to_remove, k) == 0,
        last_cleaned(s, cutoff, to_remove, k) is None ==> forall|j: int|
            0 <= j < k ==> !#[trigger] cleaned(s, cutoff, to_remove, j),
        last_cleaned(s, cutoff, to_remove, k) matches Some(m) ==> {
            &&& 0 <= m < k
            &&& cleaned(s, cutoff, to_remove, m)
            &&& forall|j: int|
                0 <= j < k && j != m && #[trigger] cleaned(s, cutoff, to_remove, j) ==> cleaned_before(s, j, m)
        },
    decreases k,
{
    if k > 0 {
        lemma_last_cleaned(s, cutoff, to_remove, k - 1);
        let p = last_cleaned(s, cutoff, to_remove, k - 1);
        if cleaned(s, cutoff, to_remove, k - 1) {
            if let Some(j) = p {
                if cleaned_before(s, j, k - 1) {
                    assert forall|i: int|
                        0 <= i < k && i != k - 1 && #[trigger] cleaned(s, cutoff, to_remove, i) implies cleaned_before(
                        s,
                        i,
                        k - 1,
                    ) by {
                        if i != j {
                            assert(cleaned_before(s, i, j));
                        }
                    }
                } else {
                    assert(cleaned_before(s, k - 1, j));
                    assert forall|i: int|
                        0 <= i < k && i != j && #[trigger] cleaned(s, cutoff, to_remove, i) implies cleaned_before(
                        s,
                        i,
                        j,
                    ) by {
                        if i < k - 1 {
                            assert(cleaned_before(s, i, j));
                        }
                    }
                }
            }
        }
    }
}

proof fn lemma_count_except(s: Seq<Entry>, cutoff: u128, to_remove: int, m: int, k: int)
    requires
        0 <= k <= s.len(),
        0 <= m < s.len(),
        cleaned(s, cutoff, to_remove, m),
        forall|j: int| 0 <= j < k && j != m && #[trigger] cleaned(s, cutoff, to_remove, j) ==> cleaned_before(s, j, m),
    ensures
        cleaned_count_except(s, cutoff, to_remove, m, k) + (if m < k {
            1int
        } else {
            0
        }) == cleaned_count(s, cutoff, to_remove, k),
        cleaned_count_except(s, cutoff, to_remove, m, k) <= rank_upto(s, cutoff, m, k),
    decreases k,
{
    if k > 0 {
        lemma_count_except(s, cutoff, to_remove, m, k - 1);
    }
}

proof fn lemma_survivors_len(s: Seq<Entry>, cutoff: u128, to_remove: int, k: int)
    requires
        0 <= k <= s.len(),
    ensures
        survivors(s, cutoff, to_remove, k).len() + cleaned_count(s, cutoff, to_remove, k) == k,
        forall|i: int| 0 <= i < k && !cleaned(s, cutoff, to_remove, i) ==> #[trigger] survivors(
            s,
            cutoff,
            to_remove,
            k,
        ).contains(s[i]),
    decreases k,
{
    if k > 0 {
        lemma_survivors_len(s, cutoff, to_remove, k - 1);
        let p = survivors(s, cutoff, to_remove, k - 1);
        let w = survivors(s, cutoff, to_remove, k);
        assert forall|i: int| 0 <= i < k && !cleaned(s, cutoff, to_remove, i) implies #[trigger] survivors(
            s,
            cutoff,
            to_remove,
            k,
        ).contains(s[i]) by {
            if i < k - 1 {
                assert(p.contains(s[i]));
                let j = choose|j: int| 0 <= j < p.len() && p[j] == s[i];
                assert(w[j] == s[i]);
            } else {
                assert(w[w.len() - 1] == s[i]);
            }
        }
    }
}

/// Clean-up never takes the registry below its limit, never grows it, and
/// removes only stale models: a model used within the hour, or five times or
/// more, stays.
pub proof fn lemma_cleanup_bounds(s: Seq<Entry>, max_models: nat, now: u128)
    ensures
        cleaned_up(s, max_models, now).len() <= s.len(),
        s.len() > max_models ==> cleaned_up(s, max_models, now).len() >= max_models,
        forall|i: int|
            0 <= i < s.len() && !stale(s[i], stale_cutoff(now)) ==> #[trigger] cleaned_up(
                s,
                max_models,
                now,
            ).contains(s[i]),
{
    if s.len() > max_models {
        let c = stale_cutoff(now);
        let t = s.len() - max_models;
        let n = s.len() as int;
        lemma_survivors_len(s, c, t, n);
        lemma_last_cleaned(s, c, t, n);
        match last_cleaned(s, c, t, n) {
            None => {},
            Some(m) => {
                lemma_count_except(s, c, t, m, n);
            },
        }
        assert forall|i: int| 0 <= i < s.len() && !stale(s[i], c) implies #[trigger] cleaned_up(
            s,
            max_models,
            now,
        ).contains(s[i]) by {
            assert(!cleaned(s, c, t, i));
        }
    } else {
        assert forall|i: int| 0 <= i < s.len() && !stale(s[i], stale_cutoff(now)) implies #[trigger] cleaned_up(
            s,
            max_models,
            now,
        ).contains(s[i]) by {
            assert(s[i] == s[i]);
        }
    }
}

proof fn lemma_survivors(s: Seq<Entry>, cutoff: u128, to_remove: int, k: int)
    requires
        names_distinct(s),
        0 <= k <= s.len(),
    ensures
        names_distinct(survivors(s, cutoff, to_remove, k)),
        forall|x: Seq<char>| #[trigger] holds(survivors(s, cutoff, to_remove, k), x) ==> holds(s.take(k), x),
        survivors(s, cutoff, to_remove, k).len() <= k,
    decreases k,
{
    if k > 0 {
        lemma_survivors(s, cutoff, to_remove, k - 1);
        let p = survivors(s, cutoff, to_remove, k - 1);
        let w = survivors(s, cutoff, to_remove, k);
        assert forall|x: Seq<char>| #[trigger] holds(w, x) implies holds(s.take(k), x) by {
            let m = choose|m: int| 0 <= m < w.len() && #[trigger] w[m].0 == x;
            if m < p.len() {
                assert(w[m] == p[m]);
                assert(holds(p, x));
                assert(holds(s.take(k - 1), x));
                let j = choose|j: int| 0 <= j < s.take(k - 1).len() && #[trigger] s.take(k - 1)[j].0 == x;
                assert(s.take(k)[j].0 == x);
            } else {
                assert(s.take(k)[k - 1].0 == x);
            }
        }
        if !cleaned(s, cutoff, to_remove, k - 1) {
            assert(!holds(p, s[k - 1].0)) by {
                if holds(p, s[k - 1].0) {
                    assert(holds(s.take(k - 1), s[k - 1].0));
                    let j = choose|j: int| 0 <= j < s.take(k - 1).len() && #[trigger] s.take(k - 1)[j].0
                        == s[k - 1].0;
                    assert(s[j].0 != s[k - 1].0);
                }
            }
            assert forall|a: int, b: int| 0 <= a < b < w.len() implies #[trigger] w[a].0 != #[trigger] w[b].0 by {
                assert(w[a] == p[a]);
                if b == w.len() - 1 {
                    if p[a].0 == s[k - 1].0 {
                        assert(holds(p, s[k - 1].0));
                    }
                } else {
                    assert(w[b] == p[b]);
                }
            }
        }
    }
}

/// Loading a model makes it loaded with a fresh record (loaded and last used
/// at the time of loading, one access), leaves every other model's record as
/// it was, and adds one model unless one of that name was replaced.
pub proof fn lemma_load_then_lookup(s: Seq<Entry>, name: Seq<char>, spec: ModelSpecView, now: u128)
    requires
        names_distinct(s),
    ensures
        ({
            let t = without(s, name).push((name, fresh_record(name, spec, now)));
            &&& lookup(t, name) == Some(fresh_record(name, spec, now))
            &&& forall|x: Seq<char>| x != name ==> #[trigger] lookup(t, x) == lookup(s, x)
            &&& t.len() == s.len() + (if lookup(s, name) is Some {
                0int
            } else {
                1
            })
        }),
{
    lemma_without(s, name);
    let t = without(s, name).push((name, fresh_record(name, spec, now)));
    assert(t.drop_last() =~= without(s, name));
    assert forall|x: Seq<char>| x != name implies #[trigger] lookup(t, x) == lookup(s, x) by {
        assert(lookup(without(s, name), x) == lookup(s, x));
    }
}

/// Unloading a model leaves it not loaded and every other model's record as
/// it was; the count drops by one exactly when the model was loaded.
pub proof fn lemma_unload_then_lookup(s: Seq<Entry>, name: Seq<char>)
    requires
        names_distinct(s),
    ensures
        lookup(without(s, name), name) is None,
        forall|x: Seq<char>| x != name ==> #[trigger] lookup(without(s, name), x) == lookup(s, x),
        without(s, name).len() == s.len() - (if lookup(s, name) is Some {
            1int
        } else {
            0
        }),
{
    lemma_without(s, name);
}

/// An access changes only the accessed model's record: its last use becomes
/// the access time and its count grows by one; the number of models stays.
pub proof fn lemma_access_then_lookup(s: Seq<Entry>, name: Seq<char>, now: u128)
    requires
        names_distinct(s),
    ensures
        touched(s, name, now).len() == s.len(),
        lookup(touched(s, name, now), name) == (match lookup(s, name) {
            Some(r) => Some(accessed(r, now)),
            None => None,
        }),
        forall|x: Seq<char>| x != name ==> #[trigger] lookup(touched(s, name, now), x) == lookup(s, x),
{
    let t = touched(s, name, now);
    if exists|i: int| 0 <= i < s.len() && s[i].0 == name {
        let i = choose|i: int| 0 <= i < s.len() && s[i].0 == name;
        lemma_touched_at(s, name, i, now);
        lemma_lookup_at(s, name, i);
        let u = s.update(i, (name, accessed(s[i].1, now)));
        assert(names_distinct(u)) by {
            assert forall|a: int, b: int| 0 <= a < b < u.len() implies #[trigger] u[a].0 != #[trigger] u[b].0 by {
                assert(u[a].0 == s[a].0);
                assert(u[b].0 == s[b].0);
            }
        }
        lemma_lookup_at(u, name, i);
        assert forall|x: Seq<char>| x != name implies #[trigger] lookup(t, x) == lookup(s, x) by {
            if exists|j: int| 0 <= j < s.len() && s[j].0 == x {
                let j = choose|j: int| 0 <= j < s.len() && s[j].0 == x;
                lemma_lookup_at(s, x, j);
                assert(u[j] == s[j]);
                lemma_lookup_at(u, x, j);
            } else {
                lemma_absent(s, x);
                assert forall|j: int| 0 <= j < u.len() implies u[j].0 != x by {
                    assert(u[j].0 == s[j].0);
                }
                lemma_absent(u, x);
            }
        }
    } else {
        lemma_absent(s, name);
        assert(t == s);
    }
}

/// The models a manager has loaded, at most one entry per name, in the
/// order they were (last) loaded.
pub struct LoadedModels {
    entries: Vec<(String, ModelLoadInfo)>,
}

impl View for LoadedModels {
    type V = Seq<Entry>;

    closed spec fn view(&self) -> Seq<Entry> {
        entries_view(self.entries@)
    }
}

impl LoadedModels {
    #[verifier::type_invariant]
    closed spec fn distinct(self) -> bool {
        names_distinct(self@)
    }

    /// No model loaded.
    pub fn new() -> (r: LoadedModels)
        ensures
            r@ == Seq::<Entry>::empty(),
    {
        let r = LoadedModels { entries: Vec::new() };
        proof {
            assert(r@ =~= Seq::<Entry>::empty());
        }
        r
    }

    /// Index of the entry with the given name.
    fn find(&self, name: &str) -> (r: Option<usize>)
        ensures
            names_distinct(self@),
            r matches Some(i) ==> i < self@.len() && self@[i as int].0 == name@,
            r is None ==> forall|i: int| 0 <= i < self@.len() ==> self@[i].0 != name@,
    {
        proof {
            use_type_invariant(self);
        }
        let k = name.to_string();
        let mut i: usize = 0;
        while i < self.entries.len()
            invariant
                i <= self.entries@.len(),
                k@ == name@,
                self@ == entries_view(self.entries@),
                names_distinct(self@),
                forall|j: int| 0 <= j < i ==> self@[j].0 != name@,
            decreases self.entries@.len() - i,
        {
            if self.entries[i].0 == k {
                return Some(i);
            }
            i = i + 1;
        }
        None
    }

    /// Number of loaded models.
    pub fn model_count(&self) -> (r: usize)
        ensures
            r == self@.len(),
    {
        self.entries.len()
    }

    /// Whether a model of that name is loaded.
    pub fn is_loaded(&self, name: &str) -> (r: bool)
        ensures
            r == holds(self@, name@),
            r == (lookup(self@, name@) is Some),
    {
        let r = self.find(name);
        proof {
            lemma_holds_lookup(self@, name@);
            if let Some(i) = r {
                assert(self@[i as int].0 == name@);
            }
        }
        r.is_some()
    }

    /// The record of the named model, if it is loaded.
    pub fn model_info(&self, name: &str) -> (r: Option<ModelLoadInfo>)
        ensures
            match r {
                Some(info) => lookup(self@, name@) == Some(info@),
                None => lookup(self@, name@) is None,
            },
    {
        match self.find(name) {
            Some(i) => {
                proof {
                    lemma_lookup_at(self@, name@, i as int);
                }
                Some(self.entries[i].1.clone())
            },
            None => {
                proof {
                    lemma_absent(self@, name@);
                }
                None
            },
        }
    }

    /// Names of the loaded models, in registry order.
    pub fn list_loaded_models(&self) -> (r: Vec<String>)
        ensures
            r@.map_values(|n: String| n@) == self@.map_values(|e: Entry| e.0),
    {
        let mut names: Vec<String> = Vec::new();
        let mut i: usize = 0;
        while i < self.entries.len()
            invariant
                i <= self.entries@.len(),
                self@ == entries_view(self.entries@),
                names@.map_values(|n: String| n@) == self@.map_values(|e: Entry| e.0).take(i as int),
            decreases self.entries@.len() - i,
        {
            let n = self.entries[i].0.clone();
            proof {
                assert(n@ == self@[i as int].0);
            }
            let ghost before = names@;
            let ghost nv = n@;
            names.push(n);
            proof {
                assert(names@.map_values(|n: String| n@) =~= before.map_values(|n: String| n@).push(nv));
                assert(self@.map_values(|e: Entry| e.0).take(i + 1) =~= self@.map_values(|e: Entry| e.0).take(
                    i as int,
                ).push(nv));
            }
            i = i + 1;
        }
        proof {
            assert(self@.map_values(|e: Entry| e.0).take(self@.len() as int) =~= self@.map_values(
                |e: Entry| e.0,
            ));
        }
        names
    }

    /// Registers a model loaded at `now`, replacing any model of that name;
    /// the new entry comes last.
    pub fn load_model(&mut self, name: String, spec: ModelSpec, now: u128)
        ensures
            final(self)@ == without(old(self)@, name@).push(
                (name@, fresh_record(name@, spec@, now)),
            ),
            names_distinct(final(self)@),
    {
        proof {
            use_type_invariant(&*self);
        }
        let found = self.find(name.as_str());
        let mut v: Vec<(String, ModelLoadInfo)> = Vec::new();
        std::mem::swap(&mut v, &mut self.entries);
        let ghost s = entries_view(v@);
        match found {
            Some(i) => {
                let _ = v.remove(i);
                proof {
                    lemma_without_at(s, name@, i as int);
                    assert(entries_view(v@) =~= s.remove(i as int));
                }
            },
            None => {
                proof {
                    lemma_absent(s, name@);
                }
            },
        }
        let ghost rest = entries_view(v@);
        let ghost spec_view = spec@;
        let info = ModelLoadInfo {
            name: name.clone(),
            spec,
            loaded_at: now,
            last_accessed: now,
            access_count: 1,
        };
        let ghost e: Entry = (name@, info@);
        v.push((name, info));
        proof {
            lemma_without(s, name@);
            lemma_holds_lookup(rest, e.0);
            assert(entries_view(v@) =~= rest.push(e));
            let w = entries_view(v@);
            assert forall|i: int, j: int| 0 <= i < j < w.len() implies #[trigger] w[i].0 != #[trigger] w[j].0 by {
                if j == w.len() - 1 {
                    assert(rest[i] == w[i]);
                    if rest[i].0 == e.0 {
                        assert(holds(rest, e.0));
                    }
                } else {
                    assert(rest[i] == w[i]);
                    assert(rest[j] == w[j]);
                }
            }
            assert(e.1 == fresh_record(name@, spec_view, now));
        }
        self.entries = v;
    }

    /// Removes the named model; whether it was loaded.
    pub fn unload_model(&mut self, name: &str) -> (had: bool)
        ensures
            had == (lookup(old(self)@, name@) is Some),
            final(self)@ == without(old(self)@, name@),
            names_distinct(final(self)@),
    {
        proof {
            use_type_invariant(&*self);
        }
        match self.find(name) {
            Some(i) => {
                let mut v: Vec<(String, ModelLoadInfo)> = Vec::new();
                std::mem::swap(&mut v, &mut self.entries);
                let ghost s = entries_view(v@);
                let _ = v.remove(i);
                proof {
                    lemma_lookup_at(s, name@, i as int);
                    lemma_without_at(s, name@, i as int);
                    lemma_without(s, name@);
                    assert(entries_view(v@) =~= s.remove(i as int));
                }
                self.entries = v;
                true
            },
            None => {
                proof {
                    lemma_absent(self@, name@);
                }
                false
            },
        }
    }

    /// Records an access to the named model at `now`: its last access
    /// becomes `now` and its access count grows by one. Nothing changes when
    /// no such model is loaded.
    pub fn record_access(&mut self, name: &str, now: u128)
        requires
            lookup(old(self)@, name@) matches Some(r) ==> r.access_count < u64::MAX,
        ensures
            final(self)@ == touched(old(self)@, name@, now),
            names_distinct(final(self)@),
    {
        proof {
            use_type_invariant(&*self);
        }
        match self.find(name) {
            Some(i) => {
                let mut v: Vec<(String, ModelLoadInfo)> = Vec::new();
                std::mem::swap(&mut v, &mut self.entries);
                let ghost s = entries_view(v@);
                proof {
                    lemma_lookup_at(s, name@, i as int);
                    lemma_touched_at(s, name@, i as int, now);
                }
                let (n, mut info) = v.remove(i);
                info.last_accessed = now;
                info.access_count = info.access_count + 1;
                v.insert(i, (n, info));
                proof {
                    assert(entries_view(v@) =~= s.update(i as int, (name@, accessed(s[i as int].1, now))));
                    let w = entries_view(v@);
                    assert forall|a: int, b: int| 0 <= a < b < w.len() implies #[trigger] w[a].0 != #[trigger] w[b].0 by {
                        assert(w[a].0 == s[a].0);
                        assert(w[b].0 == s[b].0);
                    }
                }
                self.entries = v;
            },
            None => {
                proof {
                    lemma_absent(self@, name@);
                    assert(touched(self@, name@, now) == self@);
                }
            },
        }
    }

    /// How many stale entries go before entry `i` in clean-up order.
    fn rank(v: &Vec<(String, ModelLoadInfo)>, cutoff: u128, i: usize) -> (r: usize)
        requires
            i < v@.len(),
        ensures
            r == rank_upto(entries_view(v@), cutoff, i as int, v@.len() as int),
    {
        let ghost s = entries_view(v@);
        let mut count: usize = 0;
        let mut k: usize = 0;
        while k < v.len()
            invariant
                i < v@.len(),
                k <= v@.len(),
                s == entries_view(v@),
                count == rank_upto(s, cutoff, i as int, k as int),
                count <= k,
            decreases v@.len() - k,
        {
            let a = &v[k].1;
            let b = &v[i].1;
            let is_stale = a.last_accessed < cutoff && a.access_count < 5;
            let before = a.last_accessed < b.last_accessed || (a.last_accessed == b.last_accessed
                && a.access_count < b.access_count) || (a.last_accessed == b.last_accessed
                && a.access_count == b.access_count && k < i);
            proof {
                assert(s[k as int].1 == v@[k as int].1@);
                assert(s[i as int].1 == v@[i as int].1@);
            }
            if is_stale && before {
                count = count + 1;
            }
            k = k + 1;
        }
        count
    }

    /// Frees room when more than `max_models` models are loaded: removes up
    /// to as many models as there are over the limit, among those unused for
    /// an hour at `now` and used fewer than five times, the longest unused
    /// (then the least used) first. The others keep their order.
    pub fn cleanup_old_models(&mut self, max_models: usize, now: u128)
        ensures
            final(self)@ == cleaned_up(old(self)@, max_models as nat, now),
            names_distinct(final(self)@),
    {
        proof {
            use_type_invariant(&*self);
        }
        let n = self.entries.len();
        if n <= max_models {
            return;
        }
        let stale_after: u128 = STALE_AFTER_NANOS;
        let cutoff: u128 = if now >= stale_after {
            now - stale_after
        } else {
            0
        };
        let to_remove = n - max_models;
        let mut v: Vec<(String, ModelLoadInfo)> = Vec::new();
        std::mem::swap(&mut v, &mut self.entries);
        let ghost s = entries_view(v@);
        let mut kept: Vec<(String, ModelLoadInfo)> = Vec::new();
        let mut i: usize = 0;
        while i < n
            invariant
                n == v@.len(),
                i <= n,
                s == entries_view(v@),
                entries_view(kept@) == survivors(s, cutoff, to_remove as int, i as int),
            decreases n - i,
        {
            let a = &v[i].1;
            let is_stale = a.last_accessed < cutoff && a.access_count < 5;
            let r = Self::rank(&v, cutoff, i);
            proof {
                assert(s[i as int].1 == v@[i as int].1@);
            }
            if !(is_stale && r < to_remove) {
                let name = v[i].0.clone();
                let info = v[i].1.clone();
                let ghost e: Entry = (name@, info@);
                let ghost before = kept@;
                kept.push((name, info));
                proof {
                    assert(e == s[i as int]);
                    assert(entries_view(kept@) =~= entries_view(before).push(e));
                }
            }
            i = i + 1;
        }
        proof {
            lemma_survivors(s, cutoff, to_remove as int, n as int);
        }
        self.entries = kept;
    }
}


/// The texts of a sequence of strings.
pub open spec fn texts(q: Seq<String>) -> Seq<Seq<char>> {
    q.map_values(|n: String| n@)
}

/// The queue after offering candidates in order: each goes to the back
/// unless it is already queued.
pub open spec fn enqueued(q: Seq<Seq<char>>, candidates: Seq<Seq<char>>) -> Seq<Seq<char>>
    decreases candidates.len(),
{
    if candidates.len() == 0 {
        q
    } else {
        let before = enqueued(q, candidates.drop_last());
        if before.contains(candidates.last()) {
            before
        } else {
            before.push(candidates.last())
        }
    }
}

/// Room for preloading: the models that may be loaded beyond those loaded.
pub open spec fn preload_slots(max_models: usize, loaded: usize) -> int {
    if max_models >= loaded {
        max_models - loaded
    } else {
        0
    }
}

/// Queues models for preloading. `ranked` holds the candidates best first;
/// as many as there are free slots (`max_models` less the `loaded` count)
/// are offered, and each goes to the back of the queue unless it is already
/// queued.
pub fn enqueue_preloads(
    queue: &mut VecDeque<String>,
    ranked: &Vec<String>,
    max_models: usize,
    loaded: usize,
)
    ensures
        texts(final(queue)@) == enqueued(
            texts(old(queue)@),
            texts(ranked@).take(
                if preload_slots(max_models, loaded) <= ranked@.len() {
                    preload_slots(max_models, loaded)
                } else {
                    ranked@.len() as int
                },
            ),
        ),
{
    let slots = max_models.saturating_sub(loaded);
    let take = if slots <= ranked.len() {
        slots
    } else {
        ranked.len()
    };
    let ghost q0 = texts(queue@);
    let mut i: usize = 0;
    while i < take
        invariant
            take <= ranked@.len(),
            i <= take,
            texts(queue@) == enqueued(q0, texts(ranked@).take(i as int)),
        decreases take - i,
    {
        let name = &ranked[i];
        let mut present = false;
        let mut j: usize = 0;
        while j < queue.len()
            invariant
                j <= queue@.len(),
                present == texts(queue@).take(j as int).contains(name@),
            decreases queue@.len() - j,
        {
            let ghost t0 = texts(queue@).take(j as int);
            let ghost t1 = texts(queue@).take(j + 1);
            proof {
                assert(t1 =~= t0.push(queue@[j as int]@));
                if t1.contains(name@) {
                    let k = choose|k: int| 0 <= k < t1.len() && t1[k] == name@;
                    if k < t0.len() {
                        assert(t0[k] == name@);
                    }
                }
                if t0.contains(name@) {
                    let k = choose|k: int| 0 <= k < t0.len() && t0[k] == name@;
                    assert(t1[k] == name@);
                }
                if queue@[j as int]@ == name@ {
                    assert(t1[j as int] == name@);
                }
            }
            if queue[j] == *name {
                present = true;
            }
            j = j + 1;
        }
        proof {
            assert(texts(queue@).take(queue@.len() as int) =~= texts(queue@));
            assert(texts(ranked@).take(i + 1).drop_last() =~= texts(ranked@).take(i as int));
            assert(texts(ranked@).take(i + 1).last() == name@);
        }
        if !present {
            let ghost before = queue@;
            queue.push_back(name.clone());
            proof {
                assert(texts(queue@) =~= texts(before).push(name@));
            }
        }
        i = i + 1;
    }
}

/// One round of the preloading task: when fewer than `max_models` models
/// are loaded, the model at the front of the queue is taken off it and
/// returned for loading; otherwise the queue is left as it is.
pub fn next_preload(queue: &mut VecDeque<String>, loaded: usize, max_models: usize) -> (r: Option<
    String,
>)
    ensures
        old(queue)@.len() > 0 && loaded < max_models ==> (r matches Some(m) && m@ == old(queue)@[0]@
            && final(queue)@ == old(queue)@.drop_first()),
        old(queue)@.len() == 0 || loaded >= max_models ==> (r is None && final(queue)@ == old(
            queue,
        )@),
{
    match queue.pop_front() {
        None => None,
        Some(m) => {
            if loaded < max_models {
                proof {
                    assert(queue@ =~= old(queue)@.drop_first());
                }
                Some(m)
            } else {
                queue.push_front(m);
                proof {
                    assert(queue@ =~= old(queue)@);
                }
                None
            }
        },
    }
}
} // verus!
