use pratyabhijna::wire::{control_response, encode_metric, parse_metric, ControlAction,
    ControlFrame};
use pratyabhijna::{PratyabhijnaError, RVMetric};

fn metric() -> RVMetric {
    RVMetric {
        r_v: 850_000,
        pr_early: 1_000_000,
        pr_late: 850_000,
        layer_early: 5,
        layer_late: 27,
        timestamp: 12345,
        model_name: "test".to_string(),
    }
}

#[test]
fn test_wire_round_trip() {
    let m = metric();
    let s = encode_metric(&m).unwrap();
    let back = parse_metric(&s).unwrap();
    assert_eq!(back.r_v, m.r_v);
    assert_eq!(back.pr_early, m.pr_early);
    assert_eq!(back.pr_late, m.pr_late);
    assert_eq!(back.layer_early, m.layer_early);
    assert_eq!(back.layer_late, m.layer_late);
    assert_eq!(back.timestamp, m.timestamp);
    assert_eq!(back.model_name, m.model_name);
}

#[test]
fn test_wire_round_trip_extremes() {
    let m = RVMetric {
        r_v: 0,
        pr_early: u64::MAX,
        pr_late: 1,
        layer_early: 0,
        layer_late: usize::MAX,
        timestamp: u64::MAX,
        model_name: String::new(),
    };
    let s = encode_metric(&m).unwrap();
    let back = parse_metric(&s).unwrap();
    assert_eq!(back.r_v, 0);
    assert_eq!(back.pr_early, u64::MAX);
    assert_eq!(back.pr_late, 1);
    assert_eq!(back.layer_early, 0);
    assert_eq!(back.layer_late, usize::MAX);
    assert_eq!(back.timestamp, u64::MAX);
    assert_eq!(back.model_name, "");
}

#[test]
fn test_wire_format_text() {
    let s = encode_metric(&metric()).unwrap();
    assert_eq!(
        s,
        "{\"ratio\":850000,\"dim_early\":1000000,\"dim_late\":850000,\
         \"layer_early\":5,\"layer_late\":27,\"timestamp\":12345,\
         \"source_name\":\"test\"}"
    );
}

#[test]
fn test_encode_rejects_unsafe_name() {
    let mut m = metric();
    m.model_name = "bad\"name".to_string();
    assert!(matches!(
        encode_metric(&m),
        Err(PratyabhijnaError::TransportError)
    ));
    m.model_name = "bad\\name".to_string();
    assert!(matches!(
        encode_metric(&m),
        Err(PratyabhijnaError::TransportError)
    ));
}

#[test]
fn test_parse_rejects_malformed() {
    assert!(parse_metric("").is_none());
    assert!(parse_metric("{\"ratio\":85").is_none());
    // A leading zero is not canonical.
    assert!(parse_metric(
        "{\"ratio\":0850000,\"dim_early\":1000000,\"dim_late\":850000,\
         \"layer_early\":5,\"layer_late\":27,\"timestamp\":12345,\
         \"source_name\":\"test\"}"
    )
    .is_none());
    // Trailing garbage is rejected.
    assert!(parse_metric(
        "{\"ratio\":850000,\"dim_early\":1000000,\"dim_late\":850000,\
         \"layer_early\":5,\"layer_late\":27,\"timestamp\":12345,\
         \"source_name\":\"test\"}x"
    )
    .is_none());
}

#[test]
fn test_control_frames() {
    match control_response(ControlFrame::Ping(vec![1, 2, 3])) {
        ControlAction::ReplyPong(d) => assert_eq!(d, vec![1, 2, 3]),
        _ => panic!("a ping must be answered with a pong"),
    }
    assert!(matches!(
        control_response(ControlFrame::Close),
        ControlAction::Disconnect
    ));
    assert!(matches!(
        control_response(ControlFrame::Pong(vec![])),
        ControlAction::Ignore
    ));
    assert!(matches!(
        control_response(ControlFrame::Other),
        ControlAction::Ignore
    ));
}
