use pratyabhijna::recognition::{MultiModelDetector, RecognitionDetector};
use pratyabhijna::{PratyabhijnaError, RVMetric};

fn metric(r_v: u64, timestamp: u64) -> RVMetric {
    RVMetric {
        r_v,
        pr_early: 1_000_000,
        pr_late: r_v,
        layer_early: 5,
        layer_late: 27,
        timestamp,
        model_name: "test".to_string(),
    }
}

#[test]
fn test_recognition_detection() {
    let mut detector = RecognitionDetector::new();

    // Below the threshold with ample separation: triggers.
    let event = detector.process(&metric(850_000, 1000)).unwrap();
    assert!(event.separation_percent > 0);
    assert_eq!(event.timestamp, 1000);
}

#[test]
fn test_no_recognition_above_threshold() {
    let mut detector = RecognitionDetector::new();

    // Above the threshold: no trigger.
    assert!(detector.process(&metric(950_000, 1000)).is_none());
}

#[test]
fn test_cooldown() {
    let mut detector = RecognitionDetector::with_threshold(870_000)
        .unwrap()
        .with_cooldown(1000);

    // First trigger.
    assert!(detector.process(&metric(800_000, 1000)).is_some());

    // Only 500 ms later: within the cooldown, no trigger.
    assert!(detector.process(&metric(800_000, 1500)).is_none());

    // 1500 ms after the trigger: armed again, triggers.
    assert!(detector.process(&metric(800_000, 2500)).is_some());
}

#[test]
fn test_trend_calculation() {
    let mut detector = RecognitionDetector::new();

    // Add declining ratio values.
    for i in 0..10u64 {
        let m = metric(1_000_000 - i * 20_000, i * 100);
        detector.process(&m);
    }

    assert!(detector.calculate_trend(3) < 0);
}

#[test]
fn test_trend_constant_is_zero() {
    let mut detector = RecognitionDetector::new();
    for i in 0..10u64 {
        detector.process(&metric(900_000, i * 1000));
    }
    assert_eq!(detector.calculate_trend(3), 0);
}

#[test]
fn test_trend_short_history_is_zero() {
    let mut detector = RecognitionDetector::new();
    detector.process(&metric(900_000, 0));
    detector.process(&metric(800_000, 1000));
    detector.process(&metric(700_000, 2000));
    // Three samples cannot fill two windows of three.
    assert_eq!(detector.calculate_trend(3), 0);
}

#[test]
fn test_separation_filter() {
    // Threshold 0.87, baseline 1.0, minimum separation 5%: a ratio of 0.85
    // separates by 15% and triggers; 0.96 separates by only 4%.
    let mut detector = RecognitionDetector::with_threshold(870_000).unwrap();
    assert!(detector.process(&metric(850_000, 1000)).is_some());

    let mut detector = RecognitionDetector::with_threshold(970_000).unwrap();
    assert!(detector.process(&metric(960_000, 1000)).is_none());
}

#[test]
fn test_sustained_contraction() {
    let mut detector = RecognitionDetector::new().with_cooldown(0);
    for i in 0..5u64 {
        detector.process(&metric(800_000, i * 1000));
    }
    assert!(detector.is_sustained_contraction(5));
    assert!(!detector.is_sustained_contraction(6));

    detector.process(&metric(900_000, 6000));
    assert!(!detector.is_sustained_contraction(5));
}

#[test]
fn test_history_is_bounded() {
    let mut detector = RecognitionDetector::new();
    for i in 0..250u64 {
        detector.process(&metric(900_000, i * 1000));
    }
    // The default history keeps the most recent 100 samples.
    assert_eq!(detector.get_recent_history().len(), 100);
}

#[test]
fn test_event_fields() {
    let mut detector = RecognitionDetector::new();
    let event = detector.process(&metric(850_000, 4200)).unwrap();
    assert_eq!(event.threshold, 870_000);
    assert_eq!(event.baseline, 1_000_000);
    assert_eq!(event.separation_percent, 15_000_000);
    assert_eq!(event.metric.r_v, 850_000);
    assert_eq!(event.timestamp, 4200);
    assert!(event.is_strong(10_000_000));
    assert!(!event.is_strong(20_000_000));
}

#[test]
fn test_configuration_errors() {
    assert!(matches!(
        RecognitionDetector::with_threshold(0),
        Err(PratyabhijnaError::ConfigurationError)
    ));
    let d = RecognitionDetector::new();
    assert!(matches!(
        d.with_baseline(0),
        Err(PratyabhijnaError::ConfigurationError)
    ));
    let d = RecognitionDetector::new();
    assert_eq!(d.with_baseline(2_000_000).unwrap().baseline(), 2_000_000);
}

#[test]
fn test_min_separation_builder() {
    // Raising the minimum separation above 15% suppresses a trigger that
    // the default configuration would fire.
    let mut detector = RecognitionDetector::new().with_min_separation(20_000_000);
    assert!(detector.process(&metric(850_000, 1000)).is_none());

    let mut detector = RecognitionDetector::new().with_min_separation(15_000_000);
    assert!(detector.process(&metric(850_000, 1000)).is_some());
}

#[test]
fn test_getters() {
    let detector = RecognitionDetector::with_threshold(900_000).unwrap();
    assert_eq!(detector.threshold(), 900_000);
    assert_eq!(detector.baseline(), 1_000_000);
}

#[test]
fn test_multi_model_isolation() {
    let mut multi = MultiModelDetector::new();

    // A trigger for one source must not put another source in cooldown.
    assert!(multi
        .process("alpha".to_string(), &metric(850_000, 1000))
        .is_some());
    assert!(multi
        .process("beta".to_string(), &metric(850_000, 1000))
        .is_some());

    // The same source, still cooling down at +50 ms, does not trigger.
    assert!(multi
        .process("alpha".to_string(), &metric(850_000, 1050))
        .is_none());
    assert_eq!(multi.detectors.len(), 2);
}
