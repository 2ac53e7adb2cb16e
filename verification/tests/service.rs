use amdu::service::{worker_poll, ShutdownSignal, WorkerPhase};

#[test]
fn shutdown_request_is_idempotent() {
    // Requesting shutdown twice must be as safe as requesting it once.
    let mut signal = ShutdownSignal::new();
    assert!(!signal.is_requested());
    signal.request_shutdown();
    assert!(signal.is_requested());
    signal.request_shutdown();
    assert!(signal.is_requested());
}

#[test]
fn worker_pumps_until_cancelled() {
    let (phase, pump) = worker_poll(WorkerPhase::Running, false);
    assert_eq!(phase, WorkerPhase::Running);
    assert!(pump);
}

#[test]
fn worker_stops_within_one_interval_of_cancellation() {
    // The first interval that observes the request exits without pumping.
    let (phase, pump) = worker_poll(WorkerPhase::Running, true);
    assert_eq!(phase, WorkerPhase::Stopped);
    assert!(!pump);
}

#[test]
fn stopped_worker_never_runs_again() {
    let (phase, pump) = worker_poll(WorkerPhase::Stopped, false);
    assert_eq!(phase, WorkerPhase::Stopped);
    assert!(!pump);
    let (phase, pump) = worker_poll(WorkerPhase::Stopped, true);
    assert_eq!(phase, WorkerPhase::Stopped);
    assert!(!pump);
}

#[test]
fn worker_loop_drains_after_shutdown() {
    // Driving the loop as the owner would: a few pumping intervals, then a
    // shutdown request, then the loop ends by itself.
    let mut signal = ShutdownSignal::new();
    let mut phase = WorkerPhase::Running;
    let mut pumps: u32 = 0;
    for step in 0..10 {
        if step == 3 {
            signal.request_shutdown();
        }
        let (next, pump) = worker_poll(phase, signal.is_requested());
        if pump {
            pumps += 1;
        }
        phase = next;
    }
    assert_eq!(phase, WorkerPhase::Stopped);
    // Pumped on the intervals before the request was observed, never after.
    assert_eq!(pumps, 3);
}
