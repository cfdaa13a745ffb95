use pratyabhijna::broadcast::Broadcaster;
use pratyabhijna::{PratyabhijnaError, RVMetric};

fn metric(r_v: u64, timestamp: u64) -> RVMetric {
    RVMetric {
        r_v,
        pr_early: 1_000_000,
        pr_late: r_v,
        layer_early: 5,
        layer_late: 27,
        timestamp,
        model_name: "test".to_string(),
    }
}

#[test]
fn test_broadcast() {
    let mut bus = Broadcaster::new(1024).unwrap();
    let id = bus.subscribe();

    bus.publish(&metric(850_000, 12345)).unwrap();

    let received = bus.recv(id).unwrap();
    assert_eq!(received.r_v, 850_000);
    assert_eq!(received.timestamp, 12345);
    assert!(bus.recv(id).is_none());
}

#[test]
fn test_slow_subscriber_keeps_latest() {
    // Five observations into a buffer of three that is never read: exactly
    // the three most recent remain, oldest first.
    let mut bus = Broadcaster::new(3).unwrap();
    let id = bus.subscribe();
    for i in 0..5u64 {
        bus.publish(&metric(900_000 + i, i)).unwrap();
    }
    assert_eq!(bus.recv(id).unwrap().timestamp, 2);
    assert_eq!(bus.recv(id).unwrap().timestamp, 3);
    assert_eq!(bus.recv(id).unwrap().timestamp, 4);
    assert!(bus.recv(id).is_none());
}

#[test]
fn test_subscriber_gets_no_history() {
    // A subscriber attached after publishing receives nothing retroactively.
    let mut bus = Broadcaster::new(8).unwrap();
    let early = bus.subscribe();
    bus.publish(&metric(900_000, 1)).unwrap();
    let late = bus.subscribe();
    assert_eq!(bus.recv(early).unwrap().timestamp, 1);
    assert!(bus.recv(late).is_none());
}

#[test]
fn test_publish_without_subscribers() {
    let mut bus = Broadcaster::new(8).unwrap();
    assert!(matches!(
        bus.publish(&metric(900_000, 1)),
        Err(PratyabhijnaError::ChannelClosed)
    ));
}

#[test]
fn test_unsubscribe_only_affects_one() {
    let mut bus = Broadcaster::new(8).unwrap();
    let a = bus.subscribe();
    let b = bus.subscribe();
    assert_eq!(bus.subscriber_count(), 2);

    bus.unsubscribe(a);
    assert_eq!(bus.subscriber_count(), 1);

    bus.publish(&metric(900_000, 9)).unwrap();
    assert!(bus.recv(a).is_none());
    assert_eq!(bus.recv(b).unwrap().timestamp, 9);
}

#[test]
fn test_zero_capacity_is_rejected() {
    assert!(matches!(
        Broadcaster::new(0),
        Err(PratyabhijnaError::ConfigurationError)
    ));
}
