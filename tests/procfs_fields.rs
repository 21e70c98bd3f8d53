use frame_manager::instance::resource::ResourceLimits;
use frame_manager::instance::{InstanceManager, StopPlan};
use frame_manager::procfs::{cpu_ticks, proc_field, resident_bytes};
use frame_manager::ManagerError;

#[test]
fn statm_resident_pages() {
    let statm = "2048 300 120 10 0 200 0\n";
    assert_eq!(proc_field(statm, 0), 2048);
    assert_eq!(proc_field(statm, 1), 300);
    assert_eq!(resident_bytes(statm), 300 * 4096);
}

#[test]
fn missing_or_malformed_fields_read_as_zero() {
    assert_eq!(proc_field("", 0), 0);
    assert_eq!(proc_field("  12  ", 1), 0);
    assert_eq!(proc_field("  12  ", 0), 12);
    assert_eq!(proc_field("1 x2 3", 1), 0);
    assert_eq!(proc_field("1 18446744073709551615 3", 1), u64::MAX);
    assert_eq!(proc_field("1 18446744073709551616 3", 1), 0);
    assert_eq!(proc_field("a\tb\n77", 2), 77);
}

#[test]
fn stat_cpu_ticks() {
    let stat = "42 (frame-server) S 1 42 42 0 -1 4194560 500 0 0 0 150 25 0 0 20 0 1 0";
    assert_eq!(proc_field(stat, 13), 150);
    assert_eq!(proc_field(stat, 14), 25);
    assert_eq!(cpu_ticks(stat), 175);
}

#[test]
fn restart_plan_names_stop_and_spawn() {
    let mut m = InstanceManager::new("/i".to_string(), "/b".to_string(), ResourceLimits::default());
    assert!(matches!(m.restart_plan("alice", 30001), Err(ManagerError::NotFound)));
    m.create("alice", None);
    m.start("alice", 30001, Some(12), 0).unwrap();
    let (stop, spawn) = m.restart_plan("alice", 30001).unwrap();
    assert_eq!(stop, StopPlan::Terminate(12));
    assert_eq!(spawn.unwrap().args[4], "30001");
    let (_, none) = m.restart_plan("alice", 0).unwrap();
    assert!(none.is_none());
    assert_eq!(m.restart("alice", 30001, Err(ManagerError::SignalFailed), Some(13), 1), Err(ManagerError::SignalFailed));
    assert_eq!(m.status("alice").unwrap().pid, Some(12));
}
