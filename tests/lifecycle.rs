use frame_manager::health::{
    probe_set, CheckType, HealthCheck, HealthCheckResult, HealthMonitor, HttpExchange, Observation,
};
use frame_manager::instance::process::{
    ProcessManager, SignalOutcome, StopAction, StopEvent, StopPhase, STOP_POLLS,
};
use frame_manager::instance::resource::ResourceLimits;
use frame_manager::instance::{InstanceManager, InstanceStatus, StopPlan};
use frame_manager::port::allocator::PortAllocator;
use frame_manager::port::registry::PortRegistry;
use frame_manager::ManagerError;

fn manager() -> InstanceManager {
    InstanceManager::new(
        "/var/frame/instances".to_string(),
        "/usr/bin/frame-server".to_string(),
        ResourceLimits::default(),
    )
}

fn result(passed: bool) -> HealthCheckResult {
    HealthCheckResult {
        check_name: "port".to_string(),
        passed,
        message: String::new(),
        duration_ms: 1,
        timestamp: 0,
    }
}

#[test]
fn created_instance_is_stopped_without_port() {
    let mut m = manager();
    m.create("alice", None);
    let i = m.status("alice").unwrap();
    assert_eq!(i.status, InstanceStatus::Stopped);
    assert_eq!(i.port, 0);
    assert_eq!(i.pid, None);
    assert_eq!(i.limits, ResourceLimits::default());
    assert_eq!(m.total_count(), 1);
    assert!(matches!(m.status("bob"), Err(ManagerError::NotFound)));
}

#[test]
fn start_then_stop() {
    let mut m = manager();
    m.create("alice", None);
    let cmd = m.start_plan("alice", 30001).unwrap().unwrap();
    assert_eq!(cmd.program, "sudo");
    assert_eq!(
        cmd.args,
        vec![
            "-u",
            "alice",
            "/usr/bin/frame-server",
            "--port",
            "30001",
            "--app-dir",
            "/var/frame/instances/alice/apps",
            "--data-dir",
            "/var/frame/instances/alice/data",
            "--memory-limit",
            "512"
        ]
    );
    assert_eq!(cmd.env[1], ("FRAME_CPU_LIMIT_PERCENT".to_string(), "25".to_string()));
    assert_eq!(m.start("alice", 30001, Some(4242), 1000), Ok(()));
    let i = m.status("alice").unwrap();
    assert_eq!(i.status, InstanceStatus::Running);
    assert_eq!(i.pid, Some(4242));
    assert_eq!(i.started_at, Some(1000));
    assert_eq!(m.running_count(), 1);
    assert_eq!(m.stop_plan("alice"), Ok(StopPlan::Terminate(4242)));
    assert_eq!(m.stop("alice", Ok(())), Ok(()));
    let i = m.status("alice").unwrap();
    assert_eq!(i.status, InstanceStatus::Stopped);
    assert_eq!(i.pid, None);
    assert_eq!(i.port, 30001);
}

#[test]
fn start_is_idempotent_when_running() {
    let mut m = manager();
    m.create("alice", None);
    m.start("alice", 30001, Some(10), 1).unwrap();
    assert!(m.start_plan("alice", 30001).unwrap().is_none());
    assert_eq!(m.start("alice", 30002, Some(11), 2), Ok(()));
    let i = m.status("alice").unwrap();
    assert_eq!(i.pid, Some(10));
    assert_eq!(i.port, 30001);
}

#[test]
fn stop_is_idempotent_when_stopped() {
    let mut m = manager();
    m.create("alice", None);
    assert_eq!(m.stop_plan("alice"), Ok(StopPlan::AlreadyStopped));
    assert_eq!(m.stop("alice", Err(ManagerError::SignalFailed)), Ok(()));
    assert_eq!(m.status("alice").unwrap().status, InstanceStatus::Stopped);
}

#[test]
fn spawn_failure_marks_failed_and_keeps_port() {
    let mut alloc = PortAllocator::new(30001, 30003, PortRegistry::new()).unwrap();
    let mut m = manager();
    m.create("alice", None);
    assert_eq!(m.status("alice").unwrap().status, InstanceStatus::Stopped);
    let port = alloc.allocate("alice", |_p: u16| false).unwrap();
    assert_eq!(port, 30001);
    assert_eq!(m.start("alice", port, None, 5), Err(ManagerError::SpawnFailed));
    let i = m.status("alice").unwrap();
    assert_eq!(i.status, InstanceStatus::Failed);
    assert_eq!(i.pid, None);
    assert_eq!(alloc.get_port("alice"), Some(30001));
    assert_eq!(m.start("alice", port, Some(77), 6), Ok(()));
    assert_eq!(m.status("alice").unwrap().status, InstanceStatus::Running);
}

#[test]
fn failed_stop_keeps_process() {
    let mut m = manager();
    m.create("alice", None);
    m.start("alice", 30001, Some(10), 1).unwrap();
    assert_eq!(m.stop("alice", Err(ManagerError::SignalFailed)), Err(ManagerError::SignalFailed));
    let i = m.status("alice").unwrap();
    assert_eq!(i.status, InstanceStatus::Stopping);
    assert_eq!(i.pid, Some(10));
}

#[test]
fn restart_is_stop_then_start() {
    let mut m = manager();
    m.create("alice", None);
    m.start("alice", 30001, Some(10), 1).unwrap();
    assert_eq!(m.restart("alice", 30001, Ok(()), Some(20), 2), Ok(()));
    let i = m.status("alice").unwrap();
    assert_eq!(i.status, InstanceStatus::Running);
    assert_eq!(i.pid, Some(20));
    assert_eq!(i.port, 30001);

    let mut n = manager();
    n.create("alice", None);
    n.start("alice", 30001, Some(10), 1).unwrap();
    n.stop("alice", Ok(())).unwrap();
    n.start("alice", 30001, Some(20), 2).unwrap();
    let j = n.status("alice").unwrap();
    assert_eq!((j.status, j.pid, j.port, j.started_at), (i.status, i.pid, i.port, i.started_at));
}

#[test]
fn start_unknown_user_fails() {
    let mut m = manager();
    assert_eq!(m.start("nobody", 30001, Some(1), 0), Err(ManagerError::NotFound));
    assert_eq!(m.stop("nobody", Ok(())), Err(ManagerError::NotFound));
    assert!(!m.remove("nobody"));
}

#[test]
fn usage_sample_caps_cpu() {
    let mut m = manager();
    m.create("alice", None);
    m.start("alice", 30001, Some(10), 1).unwrap();
    m.update_usage("alice", 4096, 25000, 9);
    let i = m.status("alice").unwrap();
    assert_eq!(i.memory_usage, 4096);
    assert_eq!(i.cpu_usage, 10000);
    assert_eq!(i.last_health_check, Some(9));
    m.update_usage("alice", 8192, 250, 10);
    assert_eq!(m.status("alice").unwrap().cpu_usage, 250);
    assert!(m.is_healthy("alice", |_pid: u32| true));
    assert!(!m.is_healthy("alice", |_pid: u32| false));
}

#[test]
fn shutdown_steps() {
    let pm = ProcessManager::new();
    assert_eq!(pm.stop_step(StopPhase::Signalling, StopEvent::Begin).1, StopAction::SendTerm);
    assert_eq!(
        pm.stop_step(StopPhase::Signalling, StopEvent::Terminated(SignalOutcome::NoSuchProcess)),
        (StopPhase::Finished, StopAction::Succeeded)
    );
    assert_eq!(
        pm.stop_step(StopPhase::Signalling, StopEvent::Terminated(SignalOutcome::Delivered)),
        (StopPhase::Polling(0), StopAction::WaitThenPoll)
    );
    assert_eq!(
        pm.stop_step(StopPhase::Polling(3), StopEvent::Polled(false)),
        (StopPhase::Finished, StopAction::Succeeded)
    );
    assert_eq!(
        pm.stop_step(StopPhase::Polling(STOP_POLLS - 1), StopEvent::Polled(true)),
        (StopPhase::Killing, StopAction::SendKill)
    );
    assert_eq!(
        pm.stop_step(StopPhase::Killing, StopEvent::Killed(SignalOutcome::Refused)),
        (StopPhase::Finished, StopAction::Failed(ManagerError::SignalFailed))
    );
}

#[test]
fn shutdown_of_stubborn_process_polls_fifty_times() {
    let pm = ProcessManager::new();
    let mut phase = StopPhase::Signalling;
    let (p, _a) = pm.stop_step(phase, StopEvent::Terminated(SignalOutcome::Delivered));
    phase = p;
    let mut polls = 0;
    loop {
        let (p, a) = pm.stop_step(phase, StopEvent::Polled(true));
        polls += 1;
        phase = p;
        if a == StopAction::SendKill {
            break;
        }
    }
    assert_eq!(polls, 50);
}

#[test]
fn healthy_instance_after_three_ticks() {
    let mut h = HealthMonitor::new(30);
    for t in 0..3 {
        let restart = h.record_probe("alice", vec![result(true), result(true), result(true)], t);
        assert!(!restart);
    }
    let s = h.get_status("alice").unwrap();
    assert!(s.healthy);
    assert_eq!(s.consecutive_failures, 0);
    assert!(h.is_healthy("alice"));
}

#[test]
fn third_failure_calls_for_restart() {
    let mut h = HealthMonitor::new(30);
    assert!(!h.record_probe("alice", vec![result(false)], 1));
    assert_eq!(h.get_status("alice").unwrap().consecutive_failures, 1);
    assert!(!h.record_probe("alice", vec![result(true), result(false)], 2));
    assert_eq!(h.get_status("alice").unwrap().consecutive_failures, 2);
    assert!(h.record_probe("alice", vec![result(false)], 3));
    assert_eq!(h.get_status("alice").unwrap().consecutive_failures, 0);
    assert!(!h.is_healthy("alice"));

    let mut m = manager();
    m.create("alice", None);
    m.start("alice", 30001, Some(100), 0).unwrap();
    let before = m.status("alice").unwrap().pid;
    m.restart("alice", 30001, Ok(()), Some(200), 4).unwrap();
    assert_ne!(m.status("alice").unwrap().pid, before);
}

#[test]
fn pass_resets_failures() {
    let mut h = HealthMonitor::new(30);
    h.record_probe("alice", vec![result(false)], 1);
    h.record_probe("alice", vec![result(true)], 2);
    assert_eq!(h.get_status("alice").unwrap().consecutive_failures, 0);
    assert!(h.record_manual("alice", vec![result(true)], 3));
    assert!(!h.record_manual("bob", vec![result(false)], 3));
    assert_eq!(h.get_all_statuses().len(), 2);
}

#[test]
fn monitor_start_stop() {
    let mut h = HealthMonitor::new(15);
    assert!(h.start());
    assert!(!h.start());
    assert!(h.is_running());
    h.stop();
    assert!(!h.is_running());
    assert_eq!(h.interval_secs(), 15);
}

#[test]
fn probe_set_of_running_instance() {
    let mut m = manager();
    m.create("alice", None);
    m.start("alice", 30001, Some(9), 0).unwrap();
    let checks = probe_set(&m.status("alice").unwrap());
    assert_eq!(checks.len(), 3);
    assert_eq!(checks[0].check_type, CheckType::Process(9));
    assert_eq!(checks[1].check_type, CheckType::Port(30001));
    assert_eq!(checks[2].check_type, CheckType::Http(30001, "/health".to_string()));
    m.stop("alice", Ok(())).unwrap();
    assert!(probe_set(&m.status("alice").unwrap()).is_empty());
}

#[test]
fn check_messages() {
    let r = HealthCheck::process(7).evaluate(Observation::Alive(true), 0, 5).unwrap();
    assert_eq!(r.check_name, "process");
    assert_eq!(r.message, "Process 7 is running");
    let r = HealthCheck::port(30001)
        .evaluate(Observation::Connected(Err("refused".to_string())), 2, 5)
        .unwrap();
    assert!(!r.passed);
    assert_eq!(r.message, "Port 30001 is not accessible: refused");
    let r = HealthCheck::http(30001, "/health")
        .evaluate(Observation::Http(HttpExchange::Response("HTTP/1.1 200 OK\r\n\r\nok".to_string())), 3, 5)
        .unwrap();
    assert!(r.passed);
    assert_eq!(r.message, "HTTP endpoint http://127.0.0.1:30001/health responded with success");
    let r = HealthCheck::http(30001, "/health")
        .evaluate(Observation::Http(HttpExchange::Response("HTTP/1.1 503 Busy\r\nx".to_string())), 3, 5)
        .unwrap();
    assert!(!r.passed);
    assert_eq!(r.message, "HTTP endpoint http://127.0.0.1:30001/health responded with: HTTP/1.1 503 Busy");
    let r = HealthCheck::memory(1, 100 * 1048576)
        .evaluate(Observation::Resident(Ok(200 * 1048576)), 0, 0)
        .unwrap();
    assert!(!r.passed);
    assert_eq!(r.message, "Memory usage 200 MB exceeds limit 100 MB");
    assert!(HealthCheck::process(1).evaluate(Observation::Resident(Ok(1)), 0, 0).is_none());
}

#[test]
fn kill_is_confirmed_by_polling() {
    let pm = ProcessManager::new();
    assert_eq!(
        pm.stop_step(StopPhase::Killing, StopEvent::Killed(SignalOutcome::Delivered)),
        (StopPhase::Confirming(0), StopAction::WaitThenPoll)
    );
    assert_eq!(
        pm.stop_step(StopPhase::Confirming(0), StopEvent::Polled(false)),
        (StopPhase::Finished, StopAction::Succeeded)
    );
    assert_eq!(
        pm.stop_step(StopPhase::Confirming(STOP_POLLS - 1), StopEvent::Polled(true)),
        (StopPhase::Finished, StopAction::Failed(ManagerError::SignalFailed))
    );
    assert_eq!(
        pm.stop_step(StopPhase::Killing, StopEvent::Killed(SignalOutcome::NoSuchProcess)),
        (StopPhase::Finished, StopAction::Succeeded)
    );
}
