use pratyabhijna::broadcast::Broadcaster;
use pratyabhijna::pipeline::{detector_from_config, process_metric, process_record,
    IncomingMessage, IngestOutcome, PipelineConfig, PrecomputedMetrics};
use pratyabhijna::{PratyabhijnaError, RVMetric, FP_SCALE};

fn precomputed_msg(r_v: u64) -> IncomingMessage {
    IncomingMessage {
        model_name: "test-model".to_string(),
        layer_early: 5,
        layer_late: 27,
        singular_early: None,
        singular_late: None,
        precomputed: Some(PrecomputedMetrics {
            r_v,
            pr_early: 1_000_000,
            pr_late: r_v,
        }),
    }
}

#[test]
fn test_default_configuration() {
    let cfg = PipelineConfig::default();
    assert_eq!(cfg.threshold, 870_000);
    assert_eq!(cfg.baseline, 1_000_000);
    assert_eq!(cfg.min_separation, 5_000_000);
    assert_eq!(cfg.cooldown_ms, 100);
    assert_eq!(cfg.history_capacity, 100);
    assert_eq!(cfg.buffer_capacity, 1024);
    assert_eq!(cfg.latency_budget_ms, 100);
}

#[test]
fn test_latency_budget() {
    let cfg = PipelineConfig::default();
    assert!(!cfg.over_latency_budget(100));
    assert!(cfg.over_latency_budget(101));
}

#[test]
fn test_detector_from_config() {
    let cfg = PipelineConfig::default();
    let d = detector_from_config(&cfg).unwrap();
    assert_eq!(d.threshold(), 870_000);

    let mut bad = cfg;
    bad.baseline = 0;
    assert!(matches!(
        detector_from_config(&bad),
        Err(PratyabhijnaError::ConfigurationError)
    ));
}

#[test]
fn test_process_record_recognition_path() {
    let cfg = PipelineConfig::default();
    let mut detector = detector_from_config(&cfg).unwrap();
    let mut metrics_stream = Broadcaster::new(cfg.buffer_capacity).unwrap();
    let mut events_stream = Broadcaster::new(cfg.buffer_capacity).unwrap();
    let metrics_sub = metrics_stream.subscribe();
    let events_sub = events_stream.subscribe();

    // A contracting observation: broadcast on both streams, event returned.
    let outcome = process_record(
        &mut detector,
        &mut metrics_stream,
        &mut events_stream,
        &precomputed_msg(850_000),
        1000,
    )
    .unwrap();
    match outcome {
        IngestOutcome::Processed { metric, recognition } => {
            assert_eq!(metric.r_v, 850_000);
            assert_eq!(metric.timestamp, 1000);
            let event = recognition.expect("below threshold with separation");
            assert_eq!(event.separation_percent, 15_000_000);
        }
        IngestOutcome::Dropped => panic!("the record carried data"),
    }
    assert_eq!(metrics_stream.recv(metrics_sub).unwrap().r_v, 850_000);
    assert_eq!(events_stream.recv(events_sub).unwrap().r_v, 850_000);
}

#[test]
fn test_process_record_quiet_path() {
    let mut detector = detector_from_config(&PipelineConfig::default()).unwrap();
    let mut metrics_stream = Broadcaster::new(4).unwrap();
    let mut events_stream = Broadcaster::new(4).unwrap();
    let metrics_sub = metrics_stream.subscribe();
    let events_sub = events_stream.subscribe();

    // Above the threshold: the metric is broadcast, no event.
    let outcome = process_record(
        &mut detector,
        &mut metrics_stream,
        &mut events_stream,
        &precomputed_msg(950_000),
        1000,
    )
    .unwrap();
    match outcome {
        IngestOutcome::Processed { recognition, .. } => assert!(recognition.is_none()),
        IngestOutcome::Dropped => panic!("the record carried data"),
    }
    assert!(metrics_stream.recv(metrics_sub).is_some());
    assert!(events_stream.recv(events_sub).is_none());
}

#[test]
fn test_process_record_dropped() {
    let mut detector = detector_from_config(&PipelineConfig::default()).unwrap();
    let mut metrics_stream = Broadcaster::new(4).unwrap();
    let mut events_stream = Broadcaster::new(4).unwrap();
    let sub = metrics_stream.subscribe();

    let msg = IncomingMessage {
        model_name: "empty".to_string(),
        layer_early: 0,
        layer_late: 0,
        singular_early: None,
        singular_late: None,
        precomputed: None,
    };
    let outcome =
        process_record(&mut detector, &mut metrics_stream, &mut events_stream, &msg, 0).unwrap();
    assert!(matches!(outcome, IngestOutcome::Dropped));
    assert!(metrics_stream.recv(sub).is_none());
}

#[test]
fn test_process_record_from_spectra() {
    let mut detector = detector_from_config(&PipelineConfig::default()).unwrap();
    let mut metrics_stream = Broadcaster::new(4).unwrap();
    let mut events_stream = Broadcaster::new(4).unwrap();

    let msg = IncomingMessage {
        model_name: "spectral".to_string(),
        layer_early: 5,
        layer_late: 27,
        singular_early: Some(vec![FP_SCALE, FP_SCALE]),
        singular_late: Some(vec![FP_SCALE, 0]),
        precomputed: None,
    };
    let outcome =
        process_record(&mut detector, &mut metrics_stream, &mut events_stream, &msg, 1000).unwrap();
    match outcome {
        IngestOutcome::Processed { metric, recognition } => {
            assert_eq!(metric.pr_early, 2 * FP_SCALE);
            assert_eq!(metric.pr_late, FP_SCALE);
            assert_eq!(metric.r_v, 500_000);
            assert!(recognition.is_some());
        }
        IngestOutcome::Dropped => panic!("the record carried spectra"),
    }
}

#[test]
fn test_process_metric_streams() {
    let mut detector = detector_from_config(&PipelineConfig::default()).unwrap();
    let mut metrics_stream = Broadcaster::new(4).unwrap();
    let mut events_stream = Broadcaster::new(4).unwrap();
    let m_sub = metrics_stream.subscribe();
    let e_sub = events_stream.subscribe();

    let quiet = RVMetric {
        r_v: 990_000,
        pr_early: 1_000_000,
        pr_late: 990_000,
        layer_early: 5,
        layer_late: 27,
        timestamp: 500,
        model_name: "test".to_string(),
    };
    assert!(process_metric(&mut detector, &mut metrics_stream, &mut events_stream, &quiet)
        .is_none());
    assert_eq!(metrics_stream.recv(m_sub).unwrap().r_v, 990_000);
    assert!(events_stream.recv(e_sub).is_none());
}
