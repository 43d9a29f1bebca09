use goesdown::fetch::{
    build_tasks, image_file_path, outcome_of, should_save, FetchEvent, FetchOutcome, FetchTask,
    Scheduler,
};
use goesdown::digits::u64_to_string;
use goesdown::time::TimePoint;

fn minute_times(n: i64) -> Vec<TimePoint> {
    (0..n).map(|i| TimePoint { secs: 600 * i }).collect()
}

/// The simulated collaborators: every task's outcome is a function of
/// its own timestamp alone — the third snapshot hits a transport
/// error, the rest are written.
fn simulated_event(t: &TimePoint) -> FetchEvent {
    if t.secs == 1200 {
        FetchEvent::Transport {
            cause: "connection reset".to_string(),
        }
    } else {
        FetchEvent::Written
    }
}

fn outcome_key(o: &FetchOutcome) -> String {
    match o {
        FetchOutcome::Saved { path } => format!("saved {}", path),
        FetchOutcome::Failed { timestamp, reason } => {
            format!("failed {} {}", timestamp.secs, reason)
        }
    }
}

/// Drives a whole run: keeps every admission slot busy, completes in-flight tasks
/// in batches, reversing each batch so completion order differs from
/// dispatch order whenever more than one task is in flight.
fn run_with_cap(tasks: Vec<FetchTask>, cap: usize) -> Vec<FetchOutcome> {
    let mut sched = Scheduler::new(tasks, cap);
    let mut in_flight: Vec<FetchTask> = Vec::new();
    while !sched.is_done() {
        while let Some(task) = sched.try_dispatch() {
            in_flight.push(task);
        }
        in_flight.reverse();
        for task in in_flight.drain(..) {
            let outcome = outcome_of(&task, simulated_event(&task.timestamp));
            sched.complete(outcome);
        }
    }
    sched.into_outcomes()
}

#[test]
fn concurrency_cap_does_not_change_outcomes() {
    let times = minute_times(6);
    let sequential = run_with_cap(build_tasks(&times, "out"), 1);
    let concurrent = run_with_cap(build_tasks(&times, "out"), 8);
    assert_eq!(sequential.len(), 6);
    assert_eq!(concurrent.len(), 6);
    let mut seq_keys: Vec<String> = sequential.iter().map(outcome_key).collect();
    let mut con_keys: Vec<String> = concurrent.iter().map(outcome_key).collect();
    seq_keys.sort();
    con_keys.sort();
    assert_eq!(seq_keys, con_keys);
}

#[test]
fn one_failure_leaves_siblings_untouched() {
    let times = minute_times(5);
    let outcomes = run_with_cap(build_tasks(&times, "out"), 2);
    assert_eq!(outcomes.len(), 5);
    let failed: Vec<&FetchOutcome> = outcomes
        .iter()
        .filter(|o| matches!(o, FetchOutcome::Failed { .. }))
        .collect();
    assert_eq!(failed.len(), 1);
    match failed[0] {
        FetchOutcome::Failed { timestamp, reason } => {
            assert_eq!(timestamp.secs, 1200);
            assert_eq!(reason, "fetch failed: connection reset");
        }
        _ => unreachable!(),
    }
    let saved = outcomes
        .iter()
        .filter(|o| matches!(o, FetchOutcome::Saved { .. }))
        .count();
    assert_eq!(saved, 4);
}

#[test]
fn gate_never_over_admits() {
    let times = minute_times(5);
    let mut sched = Scheduler::new(build_tasks(&times, "out"), 2);
    let first = sched.try_dispatch();
    let second = sched.try_dispatch();
    let third = sched.try_dispatch();
    assert!(first.is_some());
    assert!(second.is_some());
    assert!(third.is_none());
    // Releasing one slot (here for a failing task) frees an admission slot.
    sched.complete(FetchOutcome::Failed {
        timestamp: first.unwrap().timestamp,
        reason: "fetch failed: timeout".to_string(),
    });
    assert!(sched.try_dispatch().is_some());
}

#[test]
fn tasks_dispatch_in_sequence_order() {
    let times = minute_times(3);
    let mut sched = Scheduler::new(build_tasks(&times, "out"), 3);
    let a = sched.try_dispatch().unwrap();
    let b = sched.try_dispatch().unwrap();
    let c = sched.try_dispatch().unwrap();
    assert_eq!(a.timestamp.secs, 0);
    assert_eq!(b.timestamp.secs, 600);
    assert_eq!(c.timestamp.secs, 1200);
    assert!(sched.try_dispatch().is_none());
}

#[test]
fn outcome_reasons_follow_events() {
    let task = FetchTask {
        timestamp: TimePoint { secs: 1732955400 },
        dest_dir: "out".to_string(),
    };
    match outcome_of(&task, FetchEvent::Written) {
        FetchOutcome::Saved { path } => assert_eq!(path, "out/20241130T083000.jpg"),
        _ => unreachable!(),
    }
    match outcome_of(
        &task,
        FetchEvent::UrlInvalid {
            cause: "empty host".to_string(),
        },
    ) {
        FetchOutcome::Failed { reason, .. } => {
            assert_eq!(reason, "url construction failed: empty host")
        }
        _ => unreachable!(),
    }
    match outcome_of(&task, FetchEvent::BadStatus { status: 404 }) {
        FetchOutcome::Failed { reason, .. } => {
            assert_eq!(reason, "fetch failed: HTTP status 404")
        }
        _ => unreachable!(),
    }
    match outcome_of(
        &task,
        FetchEvent::WriteFailed {
            cause: "disk full".to_string(),
        },
    ) {
        FetchOutcome::Failed { reason, .. } => assert_eq!(reason, "write failed: disk full"),
        _ => unreachable!(),
    }
}

#[test]
fn success_statuses() {
    assert!(should_save(200));
    assert!(should_save(204));
    assert!(should_save(299));
    assert!(!should_save(199));
    assert!(!should_save(300));
    assert!(!should_save(404));
    assert!(!should_save(500));
}

#[test]
fn file_path_shape() {
    let t = TimePoint { secs: 1732955400 };
    assert_eq!(image_file_path("dir", &t), "dir/20241130T083000.jpg");
}

#[test]
fn decimal_rendering() {
    assert_eq!(u64_to_string(0), "0");
    assert_eq!(u64_to_string(7), "7");
    assert_eq!(u64_to_string(10), "10");
    assert_eq!(u64_to_string(65535), "65535");
}
