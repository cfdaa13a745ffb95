use pratyabhijna::kaizen::{Agent, SimpleAgent, SimpleTask, Task, TaskError, WasteLog};

#[test]
fn test_waste_log_total() {
    let mut log = WasteLog::new();
    assert_eq!(log.total(), 0);
    log.waiting = 10;
    log.defects = 5;
    log.motion = 3;
    assert_eq!(log.total(), 18);
}

#[test]
fn test_waste_log_default_is_empty() {
    let log = WasteLog::default();
    assert_eq!(log.total(), 0);
    assert_eq!(log, WasteLog::new());
}

#[test]
fn test_waste_log_constructors() {
    let w = WasteLog::waiting(40);
    assert_eq!(w.waiting, 40);
    assert_eq!(w.total(), 40);

    let d = WasteLog::defects(25);
    assert_eq!(d.defects, 25);
    assert_eq!(d.total(), 25);

    let sum = w.plus(&d);
    assert_eq!(sum.waiting, 40);
    assert_eq!(sum.defects, 25);
    assert_eq!(sum.total(), 65);
}

#[test]
fn test_simple_task() {
    let task = SimpleTask::new(7, "write docs".to_string(), 3);
    assert_eq!(task.id(), 7);
    assert_eq!(task.description(), "write docs");
    assert_eq!(task.complexity(), 3);
    assert!(task.execute().is_ok());

    let failing = SimpleTask::new(8, "flaky".to_string(), 2).with_failure();
    assert!(matches!(failing.execute(), Err(TaskError::Defect(_))));
}

#[test]
fn test_task_error_messages() {
    assert_eq!(
        TaskError::Defect("oops".to_string()).message(),
        "Defect: oops"
    );
    assert_eq!(
        TaskError::Invalid("nope".to_string()).message(),
        "Invalid: nope"
    );
    assert_eq!(TaskError::Interrupted.message(), "Interrupted");
}

#[test]
fn test_simple_agent() {
    let agent = SimpleAgent::new("worker-1".to_string(), 5);
    assert_eq!(agent.id(), "worker-1");
    assert_eq!(agent.max_complexity(), 5);

    // Within capability: motion overhead plus simulated value time.
    let task = SimpleTask::new(1, "small".to_string(), 2);
    let (elapsed, waste) = agent.process_task(&task);
    assert_eq!(elapsed, 50 + 20);
    assert_eq!(waste.motion, 50);
    assert_eq!(waste.defects, 0);

    // Over capability: refused after a short wait.
    let big = SimpleTask::new(2, "big".to_string(), 9);
    let (elapsed, waste) = agent.process_task(&big);
    assert_eq!(elapsed, 70);
    assert_eq!(waste.waiting, 20);

    // A defect adds rework waste.
    let flaky = SimpleTask::new(3, "flaky".to_string(), 4).with_failure();
    let (_, waste) = agent.process_task(&flaky);
    assert_eq!(waste.defects, 20);
}
