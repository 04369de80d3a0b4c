use ferris_bot::controller::{DispatchError, RunnerController, RunnerControllerService};
use ferris_bot::health::HeartbeatMonitor;
use ferris_bot::protocol::{Empty, ExecuteStatus};
use ferris_bot::service::{ExecuteError, PodmanRunnerService, SandboxOutcome};

fn controller_with_runners(count: u32) -> RunnerController {
    let mut c = RunnerController::default();
    for i in 0..count {
        c.add_client(format!("host-{}", i), format!("{}", 50000 + i));
    }
    c
}

#[test]
fn registration_ids_are_distinct_and_contiguous() {
    let mut c = RunnerController::default();
    let mut ids = Vec::new();
    for i in 0..5u32 {
        ids.push(c.add_client(format!("h{}", i), "5000".to_string()));
    }
    assert_eq!(ids, vec![0, 1, 2, 3, 4]);
    for i in 0..ids.len() {
        for j in 0..ids.len() {
            if i != j {
                assert_ne!(ids[i], ids[j]);
            }
        }
    }
}

#[test]
fn register_failed_connect_consumes_no_id() {
    let mut s = RunnerControllerService { controller: RunnerController::default() };
    let r = s.register("h".to_string(), "1".to_string(), false);
    assert!(r.is_err());
    // the failed attempt consumed nothing: the next registration gets id 0
    let r = s.register("h".to_string(), "1".to_string(), true);
    assert_eq!(r.unwrap().nodeid, 0);
}

#[test]
fn register_success_grows_pool_and_dispatches() {
    let mut s = RunnerControllerService { controller: RunnerController::default() };
    assert_eq!(s.register("a".to_string(), "1".to_string(), true).unwrap().nodeid, 0);
    assert_eq!(s.register("b".to_string(), "2".to_string(), true).unwrap().nodeid, 1);
    let n = s.controller.rr_next_client().unwrap();
    assert_eq!(n.id, 1);
    assert_eq!(n.host, "b");
    assert_eq!(n.port, "2");
}

#[test]
fn round_robin_fair_distribution() {
    // pool of 3, 7 consecutive dispatches: each runner 7 div 3 or 7 div 3 + 1 times
    let mut c = controller_with_runners(3);
    let mut counts = [0u32; 3];
    for _ in 0..7 {
        let n = c.rr_next_client().unwrap();
        counts[n.id as usize] += 1;
    }
    assert_eq!(counts[0], 2);
    assert_eq!(counts[1], 3);
    assert_eq!(counts[2], 2);
}

#[test]
fn round_robin_wraps_in_order() {
    let mut c = controller_with_runners(2);
    let picked: Vec<i32> = (0..4).map(|_| c.rr_next_client().unwrap().id).collect();
    // the cursor starts at slot 0, so the first dispatch serves slot 1
    assert_eq!(picked, vec![1, 0, 1, 0]);
}

#[test]
fn single_runner_always_selected() {
    let mut c = controller_with_runners(1);
    for _ in 0..5 {
        assert_eq!(c.rr_next_client().unwrap().id, 0);
    }
}

#[test]
fn empty_pool_dispatch_fails() {
    let mut c = RunnerController::default();
    assert_eq!(c.rr_next_client().unwrap_err(), DispatchError::EmptyPool);
    // still empty, still the same retryable failure, no panic and no hang
    assert_eq!(c.rr_next_client().unwrap_err(), DispatchError::EmptyPool);
}

#[test]
fn growth_mid_rotation_stays_in_range() {
    let mut c = RunnerController::default();
    let mut registered: i32 = 0;
    for round in 0..10 {
        c.add_client(format!("h{}", round), "1".to_string());
        registered += 1;
        let n = c.rr_next_client().unwrap();
        assert!(n.id >= 0 && n.id < registered);
        if round % 2 == 0 {
            let n = c.rr_next_client().unwrap();
            assert!(n.id >= 0 && n.id < registered);
        }
    }
}

#[test]
fn execute_round_trip_hello() {
    let svc = PodmanRunnerService::new("box".to_string());
    let outcome = SandboxOutcome::Finished {
        exit_code: 0,
        stdout: b"hello\n".to_vec(),
        stderr: Vec::new(),
    };
    let resp = svc.execute(outcome, 12).unwrap();
    assert_eq!(resp.status, ExecuteStatus::Success);
    assert!(resp.stdout.contains("hello"));
    assert!(resp.stderr.is_empty());
    assert_eq!(resp.retcode, 0);
    assert_eq!(resp.duration, 12);
}

#[test]
fn execute_reports_real_exit_code() {
    let svc = PodmanRunnerService::new("box".to_string());
    let outcome = SandboxOutcome::Finished {
        exit_code: 3,
        stdout: Vec::new(),
        stderr: b"boom".to_vec(),
    };
    let resp = svc.execute(outcome, 1).unwrap();
    assert_eq!(resp.retcode, 3);
    assert_eq!(resp.stderr, "boom");
}

#[test]
fn execute_timeout_reported() {
    let svc = PodmanRunnerService::new("box".to_string());
    let resp = svc.execute(SandboxOutcome::TimedOut, 30000).unwrap();
    assert_eq!(resp.status, ExecuteStatus::Timeout);
    assert_eq!(resp.retcode, -1);
    assert!(resp.stdout.is_empty());
    assert!(resp.stderr.is_empty());
    assert_eq!(resp.duration, 30000);
}

#[test]
fn execute_start_failure_is_error() {
    let svc = PodmanRunnerService::new("box".to_string());
    let r = svc.execute(SandboxOutcome::StartFailed, 0);
    assert_eq!(r.unwrap_err(), ExecuteError::SandboxStart);
}

#[test]
fn execute_invalid_utf8_is_error() {
    let svc = PodmanRunnerService::new("box".to_string());
    let outcome = SandboxOutcome::Finished {
        exit_code: 0,
        stdout: vec![0xff, 0xfe],
        stderr: Vec::new(),
    };
    assert_eq!(svc.execute(outcome, 1).unwrap_err(), ExecuteError::OutputNotText);
}

#[test]
fn describe_is_idempotent() {
    let svc = PodmanRunnerService::new("node-a".to_string());
    let first = svc.describe();
    let second = svc.describe();
    assert_eq!(first.host, "node-a");
    assert_eq!(first.host, second.host);
}

#[test]
fn default_runner_service_reports_localhost() {
    let svc = PodmanRunnerService::default();
    assert_eq!(svc.describe().host, "localhost");
}

#[test]
fn heartbeat_monitor_flags_after_threshold() {
    let mut monitor = HeartbeatMonitor::new();
    monitor.track_node();
    monitor.track_node();
    assert_eq!(monitor.node_count(), 2);
    // two misses flag nobody
    monitor.record(0, false);
    monitor.record(0, false);
    assert!(!monitor.is_suspect(0));
    // the third consecutive miss does
    monitor.record(0, false);
    assert!(monitor.is_suspect(0));
    // the untouched node is unaffected
    assert!(!monitor.is_suspect(1));
}

#[test]
fn heartbeat_monitor_clears_on_answer() {
    let mut monitor = HeartbeatMonitor::new();
    monitor.track_node();
    for _ in 0..5 {
        monitor.record(0, false);
    }
    assert!(monitor.is_suspect(0));
    monitor.record(0, true);
    assert!(!monitor.is_suspect(0));
}

#[test]
fn heartbeat_returns_empty() {
    let svc = PodmanRunnerService::new("box".to_string());
    assert_eq!(svc.heartbeat(), Empty {});
}
