//! Recognition detection: a stateful classifier that watches the stream of
//! contraction ratios of one source and decides, per observation, whether a
//! recognition event occurred.
//!
//! The detector is a two-mode state machine: armed (outside the cooldown
//! window) and cooling down (within it). An observation triggers exactly
//! when the detector is armed, the ratio is below the threshold, and the
//! separation from the baseline reaches the configured minimum.

use vstd::prelude::*;

use crate::arith::{bounded_push, seq_sum, lemma_seq_sum_lt};
use crate::{FP_SCALE, PERCENT_SCALE, PratyabhijnaError, RVMetric, spec_separation};

verus! {

/// Default recognition threshold, scaled by [`FP_SCALE`] (0.87).
pub const DEFAULT_THRESHOLD: u64 = 870_000;

/// Default baseline ratio, scaled by [`FP_SCALE`] (1.0).
pub const DEFAULT_BASELINE: u64 = 1_000_000;

/// Default minimum separation, in percent points scaled by [`FP_SCALE`] (5%).
pub const DEFAULT_MIN_SEPARATION: u64 = 5_000_000;

/// Default cooldown between triggers of one source, in milliseconds.
pub const DEFAULT_COOLDOWN_MS: u64 = 100;

/// Default capacity of the per-source ratio history.
pub const DEFAULT_HISTORY_CAPACITY: usize = 100;

/// Upper bound on the history capacity; it keeps the trend sums within
/// `u128`.
pub const MAX_HISTORY_CAPACITY: usize = 0x1000_0000;

/// A detected recognition event: the observation that triggered it together
/// with the threshold and baseline in force and the separation reached.
///
/// Created only by a detector, and only when `metric.r_v < threshold` and
/// the separation is at least the configured minimum.
#[derive(Debug, Clone)]
pub struct RecognitionEvent {
    pub metric: RVMetric,
    pub threshold: u64,
    pub baseline: u64,
    /// Separation from the baseline in percent points scaled by
    /// [`FP_SCALE`]; non-negative by construction.
    pub separation_percent: u64,
    pub timestamp: u64,
}

impl RecognitionEvent {
    /// Wrap an observation that crossed the threshold into an event,
    /// computing its separation from the baseline.
    pub fn from_metric(metric: RVMetric, threshold: u64, baseline: u64) -> (r: RecognitionEvent)
        requires
            baseline > 0,
            metric.r_v < threshold,
            metric.r_v <= baseline,
        ensures
            r.metric == metric,
            r.threshold == threshold,
            r.baseline == baseline,
            r.timestamp == metric.timestamp,
            r.separation_percent == spec_separation(metric.r_v, baseline),
    {
        let diff = (baseline - metric.r_v) as u128;
        proof {
            assert(diff * (PERCENT_SCALE as u128) <= (baseline as u128) * (PERCENT_SCALE as u128))
                by (nonlinear_arith)
                requires 0 <= diff <= baseline as u128;
            vstd::arithmetic::div_mod::lemma_div_is_ordered(
                diff * (PERCENT_SCALE as u128),
                (baseline as u128) * (PERCENT_SCALE as u128),
                baseline as int,
            );
            vstd::arithmetic::div_mod::lemma_div_by_multiple(
                PERCENT_SCALE as int,
                baseline as int,
            );
            assert((baseline as int) * (PERCENT_SCALE as int)
                == (PERCENT_SCALE as int) * (baseline as int)) by (nonlinear_arith);
        }
        let separation = (diff * (PERCENT_SCALE as u128) / (baseline as u128)) as u64;
        let timestamp = metric.timestamp;
        RecognitionEvent { metric, threshold, baseline, separation_percent: separation, timestamp }
    }

    /// Whether this is a strong recognition: the separation reaches the
    /// given percent level (scaled by [`FP_SCALE`]).
    pub fn is_strong(&self, strong_threshold_percent: u64) -> (r: bool)
        ensures
            r == (self.separation_percent >= strong_threshold_percent),
    {
        self.separation_percent >= strong_threshold_percent
    }
}

/// Saturating difference of two timestamps.
pub open spec fn sat_sub(a: u64, b: u64) -> int {
    if a >= b {
        a - b
    } else {
        0
    }
}

/// Whether an observation at `ts` falls inside the cooldown window that
/// started at `last`.
pub open spec fn spec_in_cooldown(last: u64, ts: u64, cooldown_ms: u64) -> bool {
    sat_sub(ts, last) < cooldown_ms
}

/// Whether the separation of `r_v` from `baseline` reaches `min_separation`
/// percent points (scaled by [`FP_SCALE`]). Stated by cross-multiplication,
/// which is exact: no division is involved.
pub open spec fn spec_separation_ok(r_v: u64, baseline: u64, min_separation: u64) -> bool {
    r_v <= baseline && (baseline - r_v) * PERCENT_SCALE >= min_separation * baseline
}

/// Trend of a ratio history over a window: the relative change between the
/// mean of the most recent `w` samples and the mean of the `w` samples
/// before them, in percent points scaled by [`FP_SCALE`] and truncated
/// toward zero. Zero when fewer than `2 * w` samples exist or the earlier
/// mean is zero. The window counts cancel, so the sums are compared
/// directly.
pub open spec fn spec_trend(h: Seq<u64>, w: nat) -> int {
    if h.len() < 2 * w {
        0
    } else {
        let sr = seq_sum(h.subrange(h.len() - w, h.len() as int));
        let sp = seq_sum(h.subrange(h.len() - 2 * w, h.len() - w));
        if sp == 0 {
            0
        } else if sr >= sp {
            ((sr - sp) * PERCENT_SCALE) / sp
        } else {
            -(((sp - sr) * PERCENT_SCALE) / sp)
        }
    }
}

/// Whether the last `w` samples of a history all lie below the threshold
/// (and at least `w` samples exist).
pub open spec fn spec_sustained(h: Seq<u64>, w: nat, threshold: u64) -> bool {
    &&& h.len() >= w
    &&& forall|i: int| h.len() - w <= i < h.len() ==> h[i] < threshold
}

/// Sum of the ratios in `v[from..to]`, exact in `u128`.
fn sum_range(v: &Vec<u64>, from: usize, to: usize) -> (s: u128)
    requires
        from <= to,
        to <= v@.len(),
        to - from <= MAX_HISTORY_CAPACITY,
    ensures
        s == seq_sum(v@.subrange(from as int, to as int)),
        s <= (to - from) * 0xffff_ffff_ffff_ffff,
{
    let mut s: u128 = 0;
    let mut i: usize = from;
    while i < to
        invariant
            from <= i <= to,
            to <= v@.len(),
            to - from <= MAX_HISTORY_CAPACITY,
            s == seq_sum(v@.subrange(from as int, i as int)),
            s <= (i - from) * 0xffff_ffff_ffff_ffff,
        decreases to - i,
    {
        proof {
            let prefix = v@.subrange(from as int, i as int);
            assert(prefix.push(v@[i as int]) =~= v@.subrange(from as int, i + 1));
            crate::arith::lemma_sum_push(prefix, v@[i as int]);
        }
        s = s + v[i] as u128;
        i = i + 1;
    }
    s
}

/// Per-source recognition detector state: configuration, the timestamp of
/// the last trigger, and a bounded FIFO history of recent ratios.
#[derive(Debug)]
pub struct RecognitionDetector {
    pub threshold: u64,
    pub baseline: u64,
    pub min_separation: u64,
    pub cooldown_ms: u64,
    pub last_trigger: u64,
    pub recent_rv: Vec<u64>,
    pub max_history: usize,
}

/// The transition relation of one `process` call: `post` and `r` are what a
/// detector in state `pre` becomes and returns on observation `m`.
pub open spec fn detector_step(
    pre: RecognitionDetector,
    m: RVMetric,
    post: RecognitionDetector,
    r: Option<RecognitionEvent>,
) -> bool {
    &&& post.threshold == pre.threshold
    &&& post.baseline == pre.baseline
    &&& post.min_separation == pre.min_separation
    &&& post.cooldown_ms == pre.cooldown_ms
    &&& post.max_history == pre.max_history
    &&& post.recent_rv@ == bounded_push(pre.recent_rv@, m.r_v, pre.max_history as nat)
    &&& if pre.spec_triggers(m) {
        &&& post.last_trigger == m.timestamp
        &&& r matches Some(ev)
            && ev.metric == m
            && ev.threshold == pre.threshold
            && ev.baseline == pre.baseline
            && ev.timestamp == m.timestamp
            && ev.separation_percent == spec_separation(m.r_v, pre.baseline)
    } else {
        &&& post.last_trigger == pre.last_trigger
        &&& r is None
    }
}

impl RecognitionDetector {
    /// Well-formedness: positive threshold and baseline, and a history
    /// within its (bounded) capacity.
    pub open spec fn wf(&self) -> bool {
        &&& self.threshold > 0
        &&& self.baseline > 0
        &&& self.max_history >= 1
        &&& self.max_history <= MAX_HISTORY_CAPACITY
        &&& self.recent_rv@.len() <= self.max_history
    }

    /// Whether observation `m` triggers a recognition in this state: the
    /// detector is armed, the ratio is below the threshold, and the
    /// separation reaches the minimum.
    pub open spec fn spec_triggers(self, m: RVMetric) -> bool {
        &&& !spec_in_cooldown(self.last_trigger, m.timestamp, self.cooldown_ms)
        &&& m.r_v < self.threshold
        &&& spec_separation_ok(m.r_v, self.baseline, self.min_separation)
    }

    /// Whether this detector carries exactly the default configuration with
    /// no history and no past trigger.
    pub open spec fn is_default(&self) -> bool {
        &&& self.threshold == DEFAULT_THRESHOLD
        &&& self.baseline == DEFAULT_BASELINE
        &&& self.min_separation == DEFAULT_MIN_SEPARATION
        &&& self.cooldown_ms == DEFAULT_COOLDOWN_MS
        &&& self.last_trigger == 0
        &&& self.recent_rv@ =~= Seq::<u64>::empty()
        &&& self.max_history == DEFAULT_HISTORY_CAPACITY
    }

    /// A new detector with the default configuration.
    pub fn new() -> (r: RecognitionDetector)
        ensures
            r.is_default(),
            r.wf(),
    {
        RecognitionDetector {
            threshold: DEFAULT_THRESHOLD,
            baseline: DEFAULT_BASELINE,
            min_separation: DEFAULT_MIN_SEPARATION,
            cooldown_ms: DEFAULT_COOLDOWN_MS,
            last_trigger: 0,
            recent_rv: Vec::new(),
            max_history: DEFAULT_HISTORY_CAPACITY,
        }
    }

    /// A new detector with a custom threshold and otherwise default
    /// configuration. Fails with `ConfigurationError` exactly when the
    /// threshold is not positive.
    pub fn with_threshold(threshold: u64) -> (r: Result<RecognitionDetector, PratyabhijnaError>)
        ensures
            match r {
                Ok(d) => {
                    &&& threshold > 0
                    &&& d.threshold == threshold
                    &&& d.baseline == DEFAULT_BASELINE
                    &&& d.min_separation == DEFAULT_MIN_SEPARATION
                    &&& d.cooldown_ms == DEFAULT_COOLDOWN_MS
                    &&& d.last_trigger == 0
                    &&& d.recent_rv@ =~= Seq::<u64>::empty()
                    &&& d.max_history == DEFAULT_HISTORY_CAPACITY
                    &&& d.wf()
                },
                Err(e) => {
                    &&& e == PratyabhijnaError::ConfigurationError
                    &&& threshold == 0
                },
            },
    {
        if threshold == 0 {
            return Err(PratyabhijnaError::ConfigurationError);
        }
        let mut d = RecognitionDetector::new();
        d.threshold = threshold;
        Ok(d)
    }

    /// Replace the baseline. Fails with `ConfigurationError` exactly when
    /// the baseline is not positive.
    pub fn with_baseline(self, baseline: u64) -> (r: Result<
        RecognitionDetector,
        PratyabhijnaError,
    >)
        ensures
            match r {
                Ok(d) => {
                    &&& baseline > 0
                    &&& d == (RecognitionDetector { baseline, ..self })
                },
                Err(e) => {
                    &&& e == PratyabhijnaError::ConfigurationError
                    &&& baseline == 0
                },
            },
    {
        if baseline == 0 {
            return Err(PratyabhijnaError::ConfigurationError);
        }
        let mut d = self;
        d.baseline = baseline;
        Ok(d)
    }

    /// Replace the minimum separation (percent points scaled by
    /// [`FP_SCALE`]).
    pub fn with_min_separation(self, percent: u64) -> (r: RecognitionDetector)
        ensures
            r == (RecognitionDetector { min_separation: percent, ..self }),
    {
        let mut d = self;
        d.min_separation = percent;
        d
    }

    /// Replace the cooldown duration in milliseconds.
    pub fn with_cooldown(self, ms: u64) -> (r: RecognitionDetector)
        ensures
            r == (RecognitionDetector { cooldown_ms: ms, ..self }),
    {
        let mut d = self;
        d.cooldown_ms = ms;
        d
    }

    /// Process one observation: append its ratio to the bounded history and
    /// decide whether it triggers a recognition event.
    ///
    /// The whole step (history append, cooldown check, trigger decision and
    /// trigger-timestamp update) happens under the exclusive borrow of
    /// `self`, so two interleaving calls on one detector are impossible.
    ///
    /// Timestamps are caller-supplied and trusted to be non-decreasing per
    /// source; an out-of-order timestamp is accepted silently (the elapsed
    /// time saturates at zero), it is not rejected.
    pub fn process(&mut self, metric: &RVMetric) -> (r: Option<RecognitionEvent>)
        requires
            old(self).wf(),
        ensures
            final(self).wf(),
            detector_step(*old(self), *metric, *final(self), r),
    {
        // Update the bounded history first: it records every observation,
        // triggering or not.
        self.recent_rv.push(metric.r_v);
        if self.recent_rv.len() > self.max_history {
            self.recent_rv.remove(0);
            proof {
                assert(old(self).recent_rv@.push(metric.r_v).remove(0)
                    =~= old(self).recent_rv@.push(metric.r_v).drop_first());
            }
        }

        // Cooldown: within the window nothing triggers, though the history
        // above was still updated.
        let elapsed = if metric.timestamp >= self.last_trigger {
            metric.timestamp - self.last_trigger
        } else {
            0
        };
        if elapsed < self.cooldown_ms {
            return None;
        }

        // Threshold: only a contraction below it can trigger.
        if metric.r_v >= self.threshold {
            return None;
        }

        // Separation: compared by cross-multiplication, which is exact.
        if metric.r_v > self.baseline {
            return None;
        }
        proof {
            let df = (self.baseline - metric.r_v) as u128;
            assert(df * (PERCENT_SCALE as u128) < 0xffff_ffff_ffff_ffff_ffff_ffff_ffff_ffff)
                by (nonlinear_arith)
                requires
                    df < 0x1_0000_0000_0000_0000,
                    PERCENT_SCALE == 100_000_000u64;
        }
        let lhs = ((self.baseline - metric.r_v) as u128) * (PERCENT_SCALE as u128);
        proof {
            let msp = self.min_separation as u128;
            let bl = self.baseline as u128;
            assert(msp * bl < 0xffff_ffff_ffff_ffff_ffff_ffff_ffff_ffff) by (nonlinear_arith)
                requires
                    msp < 0x1_0000_0000_0000_0000,
                    bl < 0x1_0000_0000_0000_0000;
        }
        let rhs = (self.min_separation as u128) * (self.baseline as u128);
        if lhs < rhs {
            return None;
        }

        // Recognition: build the event and arm the cooldown window.
        let event = RecognitionEvent::from_metric(
            metric.duplicate(),
            self.threshold,
            self.baseline,
        );
        self.last_trigger = metric.timestamp;
        Some(event)
    }

    /// The recorded ratio history, oldest first.
    pub fn get_recent_history(&self) -> (r: Vec<u64>)
        ensures
            r@ == self.recent_rv@,
    {
        let mut out: Vec<u64> = Vec::new();
        let mut i: usize = 0;
        while i < self.recent_rv.len()
            invariant
                i <= self.recent_rv@.len(),
                out@ =~= self.recent_rv@.take(i as int),
            decreases self.recent_rv@.len() - i,
        {
            out.push(self.recent_rv[i]);
            i = i + 1;
        }
        proof {
            assert(self.recent_rv@.take(self.recent_rv@.len() as int) =~= self.recent_rv@);
        }
        out
    }

    /// Relative change, in percent points scaled by [`FP_SCALE`], between
    /// the mean of the most recent `window_size` ratios and the mean of the
    /// `window_size` ratios before them. Negative means contracting. Zero
    /// when the history holds fewer than `2 * window_size` samples or the
    /// earlier mean is zero.
    pub fn calculate_trend(&self, window_size: usize) -> (t: i128)
        requires
            self.wf(),
        ensures
            t == spec_trend(self.recent_rv@, window_size as nat),
    {
        let len = self.recent_rv.len();
        if window_size > len {
            return 0;
        }
        if len - window_size < window_size {
            return 0;
        }
        let sr = sum_range(&self.recent_rv, len - window_size, len);
        let sp = sum_range(&self.recent_rv, len - 2 * window_size, len - window_size);
        if sp == 0 {
            return 0;
        }
        if sr >= sp {
            let num = (sr - sp) * 100_000_000u128;
            proof {
                vstd::arithmetic::div_mod::lemma_div_nonincreasing(num as int, sp as int);
            }
            (num / sp) as i128
        } else {
            let num = (sp - sr) * 100_000_000u128;
            proof {
                vstd::arithmetic::div_mod::lemma_div_nonincreasing(num as int, sp as int);
            }
            -((num / sp) as i128)
        }
    }

    /// Whether the last `window_size` ratios were all below the threshold
    /// (and at least that many have been observed).
    pub fn is_sustained_contraction(&self, window_size: usize) -> (r: bool)
        ensures
            r == spec_sustained(self.recent_rv@, window_size as nat, self.threshold),
    {
        let len = self.recent_rv.len();
        if window_size > len {
            return false;
        }
        let mut i: usize = len - window_size;
        while i < len
            invariant
                len - window_size <= i <= len,
                len == self.recent_rv@.len(),
                window_size <= len,
                forall|j: int| len - window_size <= j < i ==> self.recent_rv@[j] < self.threshold,
            decreases len - i,
        {
            if self.recent_rv[i] >= self.threshold {
                return false;
            }
            i = i + 1;
        }
        true
    }

    /// The configured threshold.
    pub fn threshold(&self) -> (r: u64)
        ensures
            r == self.threshold,
    {
        self.threshold
    }

    /// The configured baseline.
    pub fn baseline(&self) -> (r: u64)
        ensures
            r == self.baseline,
    {
        self.baseline
    }
}

/// In a strictly decreasing history every earlier sample exceeds every
/// later one.
proof fn lemma_decreasing_pair(h: Seq<u64>, i: int, j: int)
    requires
        forall|k: int| 0 <= k < h.len() - 1 ==> (#[trigger] h[k]) > h[k + 1],
        0 <= i < j < h.len(),
    ensures
        h[i] > h[j],
    decreases j - i,
{
    if i + 1 < j {
        lemma_decreasing_pair(h, i + 1, j);
    }
}

/// Law: over a monotonically (strictly) decreasing ratio history that the
/// window covers twice, the trend is negative — provided the drop between
/// the two windows amounts to at least one fixed-point unit of the result,
/// below which the truncated division rounds the trend to zero.
pub proof fn lemma_trend_negative(h: Seq<u64>, w: nat)
    requires
        w >= 1,
        h.len() >= 2 * w,
        forall|k: int| 0 <= k < h.len() - 1 ==> (#[trigger] h[k]) > h[k + 1],
        (seq_sum(h.subrange(h.len() - 2 * w, h.len() - w)) - seq_sum(
            h.subrange(h.len() - w, h.len() as int),
        )) * PERCENT_SCALE >= seq_sum(h.subrange(h.len() - 2 * w, h.len() - w)),
    ensures
        spec_trend(h, w) < 0,
{
    let len = h.len() as int;
    let recent = h.subrange(len - w, len);
    let prev = h.subrange(len - 2 * w, len - w);
    assert forall|k: int| 0 <= k < recent.len() implies recent[k] < prev[k] by {
        lemma_decreasing_pair(h, len - 2 * w + k, len - w + k);
    }
    lemma_seq_sum_lt(recent, prev);
    crate::arith::lemma_sums_nonneg(recent);
    let sr = seq_sum(recent);
    let sp = seq_sum(prev);
    // The quotient is at least one: the scaled drop reaches the divisor.
    vstd::arithmetic::div_mod::lemma_div_is_ordered(sp, (sp - sr) * PERCENT_SCALE, sp);
    vstd::arithmetic::div_mod::lemma_div_by_self(sp);
}

/// Law: over a constant ratio history the trend is exactly zero.
pub proof fn lemma_trend_constant_zero(h: Seq<u64>, w: nat, v: u64)
    requires
        forall|k: int| 0 <= k < h.len() ==> h[k] == v,
    ensures
        spec_trend(h, w) == 0,
{
    if h.len() >= 2 * w {
        let len = h.len() as int;
        let recent = h.subrange(len - w, len);
        let prev = h.subrange(len - 2 * w, len - w);
        assert(forall|k: int| 0 <= k < recent.len() ==> recent[k] == v);
        assert(forall|k: int| 0 <= k < prev.len() ==> prev[k] == v);
        crate::arith::lemma_seq_sum_constant(recent, v);
        crate::arith::lemma_seq_sum_constant(prev, v);
        let sp = seq_sum(prev);
        if sp != 0 {
            assert(seq_sum(recent) == sp);
            vstd::arithmetic::div_mod::lemma_div_of0(sp);
        }
    }
}

/// First index whose name has the given characters, or `-1` if none has.
pub open spec fn find_model(s: Seq<(String, RecognitionDetector)>, name: Seq<char>) -> int
    decreases s.len(),
{
    if s.len() == 0 {
        -1
    } else if s[0].0@ == name {
        0
    } else {
        let rest = find_model(s.drop_first(), name);
        if rest == -1 {
            -1
        } else {
            rest + 1
        }
    }
}

/// `find_model` returns the index of the first match.
proof fn lemma_find_model_at(s: Seq<(String, RecognitionDetector)>, name: Seq<char>, i: int)
    requires
        0 <= i < s.len(),
        s[i].0@ == name,
        forall|j: int| 0 <= j < i ==> s[j].0@ != name,
    ensures
        find_model(s, name) == i,
    decreases i,
{
    if i > 0 {
        lemma_find_model_at(s.drop_first(), name, i - 1);
    }
}

/// `find_model` returns `-1` exactly when no name matches.
proof fn lemma_find_model_none(s: Seq<(String, RecognitionDetector)>, name: Seq<char>)
    requires
        forall|j: int| 0 <= j < s.len() ==> s[j].0@ != name,
    ensures
        find_model(s, name) == -1,
    decreases s.len(),
{
    if s.len() > 0 {
        lemma_find_model_none(s.drop_first(), name);
    }
}

/// Recognition across several sources: one isolated detector per source
/// name, created with the default configuration on the source's first
/// observation. No cooldown or history is shared between sources.
#[derive(Debug)]
pub struct MultiModelDetector {
    pub detectors: Vec<(String, RecognitionDetector)>,
}

impl MultiModelDetector {
    /// Well-formedness: every per-source detector is well-formed and no two
    /// entries share a name.
    pub open spec fn wf(&self) -> bool {
        &&& forall|i: int| 0 <= i < self.detectors@.len() ==> (#[trigger] self.detectors@[i]).1.wf()
        &&& forall|i: int, j: int|
            0 <= i < j < self.detectors@.len() ==> self.detectors@[i].0@ != self.detectors@[j].0@
    }

    /// A new multi-source detector with no per-source state yet.
    pub fn new() -> (r: MultiModelDetector)
        ensures
            r.wf(),
            r.detectors@.len() == 0,
    {
        MultiModelDetector { detectors: Vec::new() }
    }

    /// Process one observation of the named source.
    ///
    /// The lookup and the lazy creation of a missing per-source detector
    /// happen in one call under the exclusive borrow of `self`: find and
    /// create cannot interleave, so a source can never end up with two
    /// diverging states.
    pub fn process(&mut self, model_name: String, metric: &RVMetric) -> (r: Option<
        RecognitionEvent,
    >)
        requires
            old(self).wf(),
        ensures
            final(self).wf(),
            ({
                let pre = old(self).detectors@;
                let post = final(self).detectors@;
                let idx = find_model(pre, model_name@);
                if idx >= 0 {
                    &&& post.len() == pre.len()
                    &&& forall|j: int| 0 <= j < pre.len() && j != idx ==> post[j] == pre[j]
                    &&& post[idx].0 == pre[idx].0
                    &&& detector_step(pre[idx].1, *metric, post[idx].1, r)
                } else {
                    &&& post.len() == pre.len() + 1
                    &&& forall|j: int| 0 <= j < pre.len() ==> post[j] == pre[j]
                    &&& post[pre.len() as int].0@ == model_name@
                    &&& exists|fresh: RecognitionDetector|
                        (#[trigger] fresh.is_default()) && detector_step(
                            fresh,
                            *metric,
                            post[pre.len() as int].1,
                            r,
                        )
                }
            }),
    {
        let n = self.detectors.len();
        let mut i: usize = 0;
        while i < n
            invariant
                i <= n,
                n == self.detectors@.len(),
                self.detectors@ == old(self).detectors@,
                old(self).wf(),
                forall|j: int| 0 <= j < i ==> self.detectors@[j].0@ != model_name@,
            decreases n - i,
        {
            if self.detectors[i].0 == model_name {
                proof {
                    lemma_find_model_at(self.detectors@, model_name@, i as int);
                    assert(old(self).detectors@[i as int].1.wf());
                }
                let entry = &mut self.detectors[i];
                let r = entry.1.process(metric);
                return r;
            }
            i = i + 1;
        }
        proof {
            lemma_find_model_none(self.detectors@, model_name@);
        }
        let mut fresh = RecognitionDetector::new();
        let ghost pre_fresh = fresh;
        let r = fresh.process(metric);
        self.detectors.push((model_name, fresh));
        proof {
            assert(pre_fresh.is_default());
        }
        r
    }
}

} // verus!
