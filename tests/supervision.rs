use frame_manager::instance::resource::ResourceLimits;
use frame_manager::instance::{InstanceManager, InstanceStatus, StopPlan};
use frame_manager::port::allocator::PortAllocator;
use frame_manager::port::registry::PortRegistry;
use frame_manager::supervisor::Supervisor;
use frame_manager::ManagerError;

fn supervisor(start: u16, end: u16) -> Supervisor {
    let ports = PortAllocator::new(start, end, PortRegistry::new()).unwrap();
    let instances = InstanceManager::new("/i".to_string(), "/bin/server".to_string(), ResourceLimits::default());
    Supervisor::new(ports, instances).ok().unwrap()
}

fn free(_p: u16) -> bool {
    false
}

#[test]
fn start_allocates_and_binds_port() {
    let mut sv = supervisor(30001, 30003);
    sv.create("alice", None);
    let (port, cmd) = sv.start_plan("alice", free).unwrap();
    assert_eq!(port, 30001);
    assert!(cmd.is_some());
    assert_eq!(sv.start("alice", Some(42), 1), Ok(()));
    let rec = sv.instances().status("alice").unwrap();
    assert_eq!(rec.status, InstanceStatus::Running);
    assert_eq!(rec.port, 30001);
    assert_eq!(sv.ports().get_port("alice"), Some(30001));
    let (again, none) = sv.start_plan("alice", free).unwrap();
    assert_eq!(again, 30001);
    assert!(none.is_none());
}

#[test]
fn failed_spawn_keeps_allocation() {
    let mut sv = supervisor(30001, 30003);
    sv.create("alice", None);
    sv.start_plan("alice", free).unwrap();
    assert_eq!(sv.start("alice", None, 1), Err(ManagerError::SpawnFailed));
    assert_eq!(sv.instances().status("alice").unwrap().status, InstanceStatus::Failed);
    assert_eq!(sv.ports().get_port("alice"), Some(30001));
}

#[test]
fn start_without_port_is_refused() {
    let mut sv = supervisor(30001, 30003);
    sv.create("alice", None);
    assert_eq!(sv.start("alice", Some(1), 1), Err(ManagerError::NotAllocated));
    assert_eq!(sv.instances().status("alice").unwrap().status, InstanceStatus::Stopped);
}

#[test]
fn running_port_cannot_be_released() {
    let mut sv = supervisor(30001, 30003);
    sv.create("alice", None);
    sv.start_plan("alice", free).unwrap();
    sv.start("alice", Some(5), 1).unwrap();
    assert_eq!(sv.release_port("alice"), Err(ManagerError::PortConflict));
    assert_eq!(sv.stop("alice", Ok(())), Ok(()));
    assert_eq!(sv.instances().status("alice").unwrap().port, 30001);
    assert_eq!(sv.release_port("alice"), Ok(()));
    assert_eq!(sv.instances().status("alice").unwrap().port, 0);
    assert_eq!(sv.ports().get_port("alice"), None);
    assert_eq!(sv.release_port("alice"), Err(ManagerError::NotAllocated));
}

#[test]
fn restart_uses_bound_port() {
    let mut sv = supervisor(30001, 30003);
    sv.create("alice", None);
    sv.start_plan("alice", free).unwrap();
    sv.start("alice", Some(5), 1).unwrap();
    let (port, stop, spawn) = sv.restart_plan("alice").unwrap();
    assert_eq!(port, 30001);
    assert_eq!(stop, StopPlan::Terminate(5));
    assert!(spawn.is_some());
    assert_eq!(sv.restart("alice", Ok(()), Some(6), 2), Ok(()));
    let rec = sv.instances().status("alice").unwrap();
    assert_eq!((rec.status, rec.pid, rec.port), (InstanceStatus::Running, Some(6), 30001));
    assert_eq!(sv.running_usernames(), vec!["alice".to_string()]);
}

#[test]
fn remove_frees_port_for_next_user() {
    let mut sv = supervisor(30001, 30003);
    sv.create("alice", None);
    sv.create("bob", None);
    sv.start_plan("alice", free).unwrap();
    sv.start_plan("bob", free).unwrap();
    assert!(sv.remove("alice"));
    assert_eq!(sv.ports().get_port("alice"), None);
    sv.create("carol", None);
    assert_eq!(sv.start_plan("carol", free).unwrap().0, 30001);
    assert!(!sv.remove("nobody"));
}

#[test]
fn unbound_records_are_refused() {
    let ports = PortAllocator::new(30001, 30003, PortRegistry::new()).unwrap();
    let mut instances = InstanceManager::new("/i".to_string(), "/b".to_string(), ResourceLimits::default());
    instances.create("alice", None);
    instances.start("alice", 30002, Some(3), 0).unwrap();
    assert!(matches!(Supervisor::new(ports, instances), Err(ManagerError::PortConflict)));
}

#[test]
fn start_plan_without_record_is_not_found() {
    let mut sv = supervisor(30001, 30003);
    assert!(matches!(sv.start_plan("ghost", free), Err(ManagerError::NotFound)));
    assert_eq!(sv.ports().get_port("ghost"), Some(30001));
}

#[test]
fn start_plan_with_every_port_bound() {
    let mut sv = supervisor(30001, 30003);
    sv.create("alice", None);
    assert!(matches!(sv.start_plan("alice", |_p: u16| true), Err(ManagerError::NoPortsAvailable)));
    assert_eq!(sv.ports().get_port("alice"), None);
}

#[test]
fn remove_puts_port_in_released_pool() {
    let mut sv = supervisor(30001, 30003);
    sv.create("alice", None);
    sv.create("bob", None);
    sv.start_plan("alice", free).unwrap();
    sv.start_plan("bob", free).unwrap();
    assert!(sv.remove("alice"));
    assert_eq!(sv.ports().registry().released, vec![30001]);
    assert_eq!(sv.ports().get_port("bob"), Some(30002));
    assert!(sv.instances().status("bob").is_ok());
}

#[test]
fn first_start_with_empty_pool_gives_spawn_command() {
    let mut sv = supervisor(30001, 30003);
    sv.create("alice", None);
    let (port, cmd) = sv.start_plan("alice", free).unwrap();
    assert_eq!(port, 30001);
    assert_eq!(cmd.unwrap().args[4], "30001");
    assert_eq!(sv.start("alice", None, 1), Err(ManagerError::SpawnFailed));
    let rec = sv.instances().status("alice").unwrap();
    assert_eq!((rec.status, rec.pid, rec.port), (InstanceStatus::Failed, None, 30001));
    assert_eq!(sv.ports().get_port("alice"), Some(30001));
}
