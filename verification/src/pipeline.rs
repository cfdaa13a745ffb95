//! The orchestrator's decision core: turn an ingestion record into an
//! observation, classify it, and fan it out.
//!
//! The host runs the surrounding loop (waiting for records, time-stamping,
//! dispatching persistence, logging); every decision on the hot path is
//! made here, synchronously, so that detection and broadcast stay within
//! the latency budget.

use vstd::prelude::*;

use crate::broadcast::Broadcaster;
use crate::recognition::{detector_step, RecognitionDetector, RecognitionEvent,
    DEFAULT_THRESHOLD, DEFAULT_BASELINE, DEFAULT_MIN_SEPARATION, DEFAULT_COOLDOWN_MS,
    DEFAULT_HISTORY_CAPACITY, MAX_HISTORY_CAPACITY};
use crate::svd::{compute_rv_from_singular_values, spec_rv};
use crate::{PratyabhijnaError, RVMetric, spec_participation_ratio, valid_singular_values};

verus! {

/// Default per-subscriber buffer capacity of the two broadcast streams.
pub const DEFAULT_BUFFER_CAPACITY: usize = 1024;

/// Default soft latency budget of the ingestion-to-broadcast path, in
/// milliseconds. Exceeding it is worth a warning, never an error.
pub const DEFAULT_LATENCY_BUDGET_MS: u64 = 100;

/// The configuration surface of the pipeline.
#[derive(Debug, Clone, Copy, PartialEq, Eq, Structural)]
pub struct PipelineConfig {
    pub threshold: u64,
    pub baseline: u64,
    pub min_separation: u64,
    pub cooldown_ms: u64,
    pub history_capacity: usize,
    pub buffer_capacity: usize,
    pub latency_budget_ms: u64,
}

impl PipelineConfig {
    /// A configuration the pipeline can start with: positive threshold and
    /// baseline, and non-degenerate capacities.
    pub open spec fn wf(&self) -> bool {
        &&& self.threshold > 0
        &&& self.baseline > 0
        &&& 1 <= self.history_capacity <= MAX_HISTORY_CAPACITY
        &&& self.buffer_capacity >= 1
    }

    /// Whether the ingestion-to-broadcast path took longer than the soft
    /// latency budget. The caller logs this as a warning only.
    pub fn over_latency_budget(&self, elapsed_ms: u64) -> (r: bool)
        ensures
            r == (elapsed_ms > self.latency_budget_ms),
    {
        elapsed_ms > self.latency_budget_ms
    }
}

impl Default for PipelineConfig {
    /// The default configuration: threshold 0.87, baseline 1.0, minimum
    /// separation 5%, cooldown 100 ms, history of 100 samples, buffers of
    /// 1024 items, latency budget 100 ms.
    fn default() -> (r: PipelineConfig)
        ensures
            r.threshold == DEFAULT_THRESHOLD,
            r.baseline == DEFAULT_BASELINE,
            r.min_separation == DEFAULT_MIN_SEPARATION,
            r.cooldown_ms == DEFAULT_COOLDOWN_MS,
            r.history_capacity == DEFAULT_HISTORY_CAPACITY,
            r.buffer_capacity == DEFAULT_BUFFER_CAPACITY,
            r.latency_budget_ms == DEFAULT_LATENCY_BUDGET_MS,
            r.wf(),
    {
        PipelineConfig {
            threshold: DEFAULT_THRESHOLD,
            baseline: DEFAULT_BASELINE,
            min_separation: DEFAULT_MIN_SEPARATION,
            cooldown_ms: DEFAULT_COOLDOWN_MS,
            history_capacity: DEFAULT_HISTORY_CAPACITY,
            buffer_capacity: DEFAULT_BUFFER_CAPACITY,
            latency_budget_ms: DEFAULT_LATENCY_BUDGET_MS,
        }
    }
}

/// Build a detector from a configuration. Fails with `ConfigurationError`
/// exactly when the configuration is malformed; this is the only
/// startup-fatal condition of the pipeline.
pub fn detector_from_config(cfg: &PipelineConfig) -> (r: Result<
    RecognitionDetector,
    PratyabhijnaError,
>)
    ensures
        match r {
            Ok(d) => {
                &&& cfg.wf()
                &&& d.wf()
                &&& d.threshold == cfg.threshold
                &&& d.baseline == cfg.baseline
                &&& d.min_separation == cfg.min_separation
                &&& d.cooldown_ms == cfg.cooldown_ms
                &&& d.max_history == cfg.history_capacity
                &&& d.last_trigger == 0
                &&& d.recent_rv@ =~= Seq::<u64>::empty()
            },
            Err(e) => {
                &&& e == PratyabhijnaError::ConfigurationError
                &&& !cfg.wf()
            },
        },
{
    if cfg.threshold == 0 || cfg.baseline == 0 || cfg.history_capacity == 0
        || cfg.history_capacity > MAX_HISTORY_CAPACITY || cfg.buffer_capacity == 0 {
        return Err(PratyabhijnaError::ConfigurationError);
    }
    Ok(RecognitionDetector {
        threshold: cfg.threshold,
        baseline: cfg.baseline,
        min_separation: cfg.min_separation,
        cooldown_ms: cfg.cooldown_ms,
        last_trigger: 0,
        recent_rv: Vec::new(),
        max_history: cfg.history_capacity,
    })
}

/// A precomputed `(ratio, dim_early, dim_late)` triple carried by an
/// ingestion record, all scaled by [`crate::FP_SCALE`].
#[derive(Debug, Clone, Copy, PartialEq, Eq, Structural)]
pub struct PrecomputedMetrics {
    pub r_v: u64,
    pub pr_early: u64,
    pub pr_late: u64,
}

/// One ingestion record: a source name, two layer indices, and either a
/// precomputed triple or the singular-value spectra of two raw matrices
/// (the host decomposes the matrices before handing the record in).
#[derive(Debug)]
pub struct IncomingMessage {
    pub model_name: String,
    pub layer_early: usize,
    pub layer_late: usize,
    pub singular_early: Option<Vec<u64>>,
    pub singular_late: Option<Vec<u64>>,
    pub precomputed: Option<PrecomputedMetrics>,
}

impl IncomingMessage {
    /// Any spectra carried by the record are within the admissible bounds.
    pub open spec fn spectra_ok(&self) -> bool {
        &&& (self.singular_early matches Some(v) ==> valid_singular_values(v@))
        &&& (self.singular_late matches Some(v) ==> valid_singular_values(v@))
    }

    /// Whether the record carries both raw spectra.
    pub open spec fn has_spectra(&self) -> bool {
        self.singular_early is Some && self.singular_late is Some
    }
}

/// Turn an ingestion record into an observation stamped with the given
/// timestamp.
///
/// A precomputed triple is taken as-is; otherwise, if both spectra are
/// present, the ratio is computed from them (failing with
/// `ComputationError` exactly when the early dimensionality is zero). A
/// record with neither is a boundary-level caller error: it yields
/// `Ok(None)`, to be dropped with a warning, never a fatal error.
pub fn create_metric(msg: &IncomingMessage, timestamp: u64) -> (r: Result<
    Option<RVMetric>,
    PratyabhijnaError,
>)
    requires
        msg.spectra_ok(),
    ensures
        match r {
            Ok(Some(m)) => {
                &&& m.model_name@ == msg.model_name@
                &&& m.layer_early == msg.layer_early
                &&& m.layer_late == msg.layer_late
                &&& m.timestamp == timestamp
                &&& match msg.precomputed {
                    Some(p) => m.r_v == p.r_v && m.pr_early == p.pr_early && m.pr_late
                        == p.pr_late,
                    None => {
                        &&& msg.singular_early matches Some(se)
                            && msg.singular_late matches Some(sl)
                            && m.pr_early == spec_participation_ratio(se@)
                            && m.pr_late == spec_participation_ratio(sl@)
                            && m.pr_early > 0
                            && m.r_v == spec_rv(m.pr_early as int, m.pr_late as int)
                    },
                }
            },
            Ok(None) => msg.precomputed is None && !msg.has_spectra(),
            Err(e) => {
                &&& e == PratyabhijnaError::ComputationError
                &&& msg.precomputed is None
                &&& msg.has_spectra()
                &&& (msg.singular_early matches Some(se) && spec_participation_ratio(se@) == 0)
            },
        },
{
    if let Some(p) = &msg.precomputed {
        return Ok(Some(RVMetric {
            r_v: p.r_v,
            pr_early: p.pr_early,
            pr_late: p.pr_late,
            layer_early: msg.layer_early,
            layer_late: msg.layer_late,
            timestamp,
            model_name: msg.model_name.clone(),
        }));
    }
    match (&msg.singular_early, &msg.singular_late) {
        (Some(se), Some(sl)) => {
            match compute_rv_from_singular_values(se.as_slice(), sl.as_slice()) {
                Ok((r_v, pr_early, pr_late)) => Ok(Some(RVMetric {
                    r_v,
                    pr_early,
                    pr_late,
                    layer_early: msg.layer_early,
                    layer_late: msg.layer_late,
                    timestamp,
                    model_name: msg.model_name.clone(),
                })),
                Err(e) => Err(e),
            }
        },
        _ => Ok(None),
    }
}

/// Classify one observation and fan it out: the metrics stream always gets
/// it, the events stream gets it exactly when it triggered a recognition,
/// and the triggering event (if any) is returned for persistence. Both
/// publishes are best-effort: a stream without subscribers loses the item,
/// never the observation.
pub fn process_metric(
    detector: &mut RecognitionDetector,
    metrics_stream: &mut Broadcaster,
    events_stream: &mut Broadcaster,
    metric: &RVMetric,
) -> (r: Option<RecognitionEvent>)
    requires
        old(detector).wf(),
        old(metrics_stream).wf(),
        old(events_stream).wf(),
    ensures
        final(detector).wf(),
        final(metrics_stream).wf(),
        final(events_stream).wf(),
        detector_step(*old(detector), *metric, *final(detector), r),
        crate::broadcast::published(*old(metrics_stream), *final(metrics_stream), *metric),
        if old(detector).spec_triggers(*metric) {
            crate::broadcast::published(*old(events_stream), *final(events_stream), *metric)
        } else {
            *final(events_stream) == *old(events_stream)
        },
{
    let _ = metrics_stream.publish(metric);
    let r = detector.process(metric);
    if r.is_some() {
        let _ = events_stream.publish(metric);
    }
    r
}

/// What one ingestion record became.
#[derive(Debug)]
pub enum IngestOutcome {
    /// The record carried neither a precomputed triple nor two spectra: it
    /// is dropped at the boundary with a warning.
    Dropped,
    /// The record became an observation; `recognition` carries the event it
    /// triggered, if any, for best-effort persistence by the host.
    Processed { metric: RVMetric, recognition: Option<RecognitionEvent> },
}

/// The whole hot path for one ingestion record: build the observation,
/// classify it, and fan it out. Per-record failures leave the detector and
/// both streams untouched and never unwind the pipeline.
pub fn process_record(
    detector: &mut RecognitionDetector,
    metrics_stream: &mut Broadcaster,
    events_stream: &mut Broadcaster,
    msg: &IncomingMessage,
    timestamp: u64,
) -> (r: Result<IngestOutcome, PratyabhijnaError>)
    requires
        msg.spectra_ok(),
        old(detector).wf(),
        old(metrics_stream).wf(),
        old(events_stream).wf(),
    ensures
        final(detector).wf(),
        final(metrics_stream).wf(),
        final(events_stream).wf(),
        match r {
            Ok(IngestOutcome::Processed { metric, recognition }) => {
                &&& metric.model_name@ == msg.model_name@
                &&& metric.layer_early == msg.layer_early
                &&& metric.layer_late == msg.layer_late
                &&& metric.timestamp == timestamp
                &&& match msg.precomputed {
                    Some(p) => metric.r_v == p.r_v && metric.pr_early == p.pr_early
                        && metric.pr_late == p.pr_late,
                    None => {
                        &&& msg.singular_early matches Some(se)
                            && msg.singular_late matches Some(sl)
                            && metric.pr_early == spec_participation_ratio(se@)
                            && metric.pr_late == spec_participation_ratio(sl@)
                            && metric.pr_early > 0
                            && metric.r_v == spec_rv(metric.pr_early as int, metric.pr_late as int)
                    },
                }
                &&& detector_step(*old(detector), metric, *final(detector), recognition)
                &&& crate::broadcast::published(
                    *old(metrics_stream),
                    *final(metrics_stream),
                    metric,
                )
                &&& if old(detector).spec_triggers(metric) {
                    crate::broadcast::published(*old(events_stream), *final(events_stream), metric)
                } else {
                    *final(events_stream) == *old(events_stream)
                }
            },
            Ok(IngestOutcome::Dropped) => {
                &&& msg.precomputed is None
                &&& !msg.has_spectra()
                &&& *final(detector) == *old(detector)
                &&& *final(metrics_stream) == *old(metrics_stream)
                &&& *final(events_stream) == *old(events_stream)
            },
            Err(e) => {
                &&& e == PratyabhijnaError::ComputationError
                &&& msg.precomputed is None
                &&& msg.has_spectra()
                &&& (msg.singular_early matches Some(se) && spec_participation_ratio(se@) == 0)
                &&& *final(detector) == *old(detector)
                &&& *final(metrics_stream) == *old(metrics_stream)
                &&& *final(events_stream) == *old(events_stream)
            },
        },
{
    let metric = match create_metric(msg, timestamp) {
        Ok(Some(m)) => m,
        Ok(None) => {
            return Ok(IngestOutcome::Dropped);
        },
        Err(e) => {
            return Err(e);
        },
    };
    let recognition = process_metric(detector, metrics_stream, events_stream, &metric);
    Ok(IngestOutcome::Processed { metric, recognition })
}

} // verus!
