use pratyabhijna::pipeline::{create_metric, IncomingMessage, PrecomputedMetrics};
use pratyabhijna::svd::compute_rv_from_singular_values;
use pratyabhijna::{participation_ratio, PratyabhijnaError, RVMetric, FP_SCALE};

#[test]
fn test_participation_ratio() {
    // Uniform distribution: the effective dimensionality is the count.
    let uniform = vec![FP_SCALE, FP_SCALE, FP_SCALE, FP_SCALE];
    assert_eq!(participation_ratio(&uniform), 4 * FP_SCALE);

    // Single component: the effective dimensionality is one.
    let single = vec![FP_SCALE, 0, 0, 0];
    assert_eq!(participation_ratio(&single), FP_SCALE);
}

#[test]
fn test_rv_metric() {
    let metric = RVMetric {
        r_v: 850_000,
        pr_early: 1_000_000,
        pr_late: 850_000,
        layer_early: 5,
        layer_late: 27,
        timestamp: 0,
        model_name: "test".to_string(),
    };

    assert!(metric.is_recognition(870_000));
    assert!(!metric.is_recognition(800_000));
    assert_eq!(metric.separation_percent(1_000_000), 15_000_000);
}

#[test]
fn test_create_metric() {
    let msg = IncomingMessage {
        model_name: "test-model".to_string(),
        layer_early: 5,
        layer_late: 27,
        singular_early: None,
        singular_late: None,
        precomputed: Some(PrecomputedMetrics {
            r_v: 850_000,
            pr_early: 1_000_000,
            pr_late: 850_000,
        }),
    };

    let metric = create_metric(&msg, 0).unwrap().unwrap();
    assert_eq!(metric.r_v, 850_000);
    assert_eq!(metric.model_name, "test-model");
}

#[test]
fn test_participation_ratio_all_zero() {
    // An all-zero spectrum is a valid input with zero dimensionality.
    let zeros = vec![0u64, 0, 0];
    assert_eq!(participation_ratio(&zeros), 0);
    let empty: Vec<u64> = Vec::new();
    assert_eq!(participation_ratio(&empty), 0);
}

#[test]
fn test_compute_rv_from_singular_values() {
    // Early layer spread over two directions, late layer over one: the
    // ratio contracts to one half.
    let early = vec![FP_SCALE, FP_SCALE];
    let late = vec![FP_SCALE, 0];
    let (r_v, pr_early, pr_late) = compute_rv_from_singular_values(&early, &late).unwrap();
    assert_eq!(pr_early, 2 * FP_SCALE);
    assert_eq!(pr_late, FP_SCALE);
    assert_eq!(r_v, 500_000);
}

#[test]
fn test_compute_rv_zero_early_dimensionality() {
    // A zero early dimensionality must fail, never silently divide.
    let early = vec![0u64, 0];
    let late = vec![FP_SCALE, 0];
    let err = compute_rv_from_singular_values(&early, &late).unwrap_err();
    assert!(matches!(err, PratyabhijnaError::ComputationError));
}

#[test]
fn test_create_metric_from_spectra_error() {
    let msg = IncomingMessage {
        model_name: "m".to_string(),
        layer_early: 1,
        layer_late: 2,
        singular_early: Some(vec![0, 0]),
        singular_late: Some(vec![FP_SCALE]),
        precomputed: None,
    };
    let err = create_metric(&msg, 7).unwrap_err();
    assert!(matches!(err, PratyabhijnaError::ComputationError));
}

#[test]
fn test_create_metric_dropped_record() {
    let msg = IncomingMessage {
        model_name: "m".to_string(),
        layer_early: 1,
        layer_late: 2,
        singular_early: None,
        singular_late: None,
        precomputed: None,
    };
    assert!(create_metric(&msg, 7).unwrap().is_none());
}

#[test]
fn test_error_messages_exist() {
    assert!(!PratyabhijnaError::ComputationError.message().is_empty());
    assert!(!PratyabhijnaError::ConfigurationError.message().is_empty());
    assert!(!PratyabhijnaError::ChannelClosed.message().is_empty());
    assert!(!PratyabhijnaError::TransportError.message().is_empty());
}
