use frame_manager::port::allocator::PortAllocator;
use frame_manager::port::registry::{PortRange, PortRegistry};
use frame_manager::ManagerError;

fn free(_port: u16) -> bool {
    false
}

#[test]
fn test_port_allocation() {
    let mut allocator = PortAllocator::new(30001, 30100, PortRegistry::new()).unwrap();

    let port1 = allocator.allocate("user1", free).unwrap();
    assert!(port1 >= 30001 && port1 <= 30100);

    let port1_again = allocator.allocate("user1", free).unwrap();
    assert_eq!(port1, port1_again);

    let port2 = allocator.allocate("user2", free).unwrap();
    assert_ne!(port1, port2);

    allocator.release("user1").unwrap();
    assert!(allocator.get_port("user1").is_none());
}

#[test]
fn test_registry_persistence() {
    let saved = {
        let mut registry = PortRegistry::new();
        registry.allocate("user1", 30001).unwrap();
        registry.allocate("user2", 30002).unwrap();
        registry
    };

    let registry =
        PortRegistry::from_parts(saved.range, saved.allocated.clone(), saved.released.clone()).unwrap();
    assert_eq!(registry.get_port("user1"), Some(30001));
    assert_eq!(registry.get_port("user2"), Some(30002));
    assert_eq!(registry.allocated_count(), 2);
}

#[test]
fn test_port_release_and_reuse() {
    let mut registry = PortRegistry::new();

    registry.allocate("user1", 30001).unwrap();
    registry.release("user1").unwrap();

    assert!(registry.get_port("user1").is_none());
    assert_eq!(registry.pop_released(), Some(30001));
}

#[test]
fn three_ports_then_exhausted() {
    let mut a = PortAllocator::new(30001, 30003, PortRegistry::new()).unwrap();
    assert_eq!(a.allocate("alice", free), Ok(30001));
    assert_eq!(a.allocate("bob", free), Ok(30002));
    assert_eq!(a.allocate("carol", free), Ok(30003));
    assert_eq!(a.allocate("dave", free), Err(ManagerError::NoPortsAvailable));
    assert_eq!(a.get_port("dave"), None);
}

#[test]
fn released_port_goes_to_next_user() {
    let mut a = PortAllocator::new(30001, 30003, PortRegistry::new()).unwrap();
    a.allocate("alice", free).unwrap();
    a.allocate("bob", free).unwrap();
    a.allocate("carol", free).unwrap();
    assert_eq!(a.allocate("dave", free), Err(ManagerError::NoPortsAvailable));
    a.release("bob").unwrap();
    assert_eq!(a.allocate("dave", free), Ok(30002));
    assert_eq!(a.registry().released_count(), 0);
}

#[test]
fn single_port_range_holds_one_user() {
    let mut a = PortAllocator::new(30005, 30005, PortRegistry::new()).unwrap();
    assert_eq!(a.allocate("alice", free), Ok(30005));
    assert_eq!(a.allocate("bob", free), Err(ManagerError::NoPortsAvailable));
}

#[test]
fn every_port_bound_means_no_ports() {
    let mut a = PortAllocator::new(30001, 30010, PortRegistry::new()).unwrap();
    assert_eq!(a.allocate("alice", |_p: u16| true), Err(ManagerError::NoPortsAvailable));
    assert_eq!(a.registry().allocated_count(), 0);
}

#[test]
fn bound_ports_are_skipped_in_ascending_scan() {
    let mut a = PortAllocator::new(30001, 30010, PortRegistry::new()).unwrap();
    assert_eq!(a.allocate("alice", |p: u16| p < 30004), Ok(30004));
    assert_eq!(a.allocate("bob", |p: u16| p < 30004), Ok(30005));
}

#[test]
fn released_pool_is_reused_before_scan() {
    let mut reg = PortRegistry::new();
    reg.allocate("alice", 30001).unwrap();
    let reg = PortRegistry::from_parts(PortRange { start: 30001, end: 32000 }, reg.allocated.clone(), vec![30002])
        .unwrap();
    let mut a = PortAllocator::new(30001, 30003, reg).unwrap();
    assert_eq!(a.allocate("bob", free), Ok(30002));
}

#[test]
fn released_ports_come_back_last_first() {
    let mut a = PortAllocator::new(30001, 30010, PortRegistry::new()).unwrap();
    a.allocate("a", free).unwrap();
    a.allocate("b", free).unwrap();
    a.allocate("c", free).unwrap();
    a.release("a").unwrap();
    a.release("c").unwrap();
    assert_eq!(a.allocate("d", free), Ok(30003));
    assert_eq!(a.allocate("e", free), Ok(30001));
    assert_eq!(a.allocate("f", free), Ok(30004));
}

#[test]
fn allocate_then_release_moves_port_to_pool() {
    let mut a = PortAllocator::new(30001, 30010, PortRegistry::new()).unwrap();
    let p = a.allocate("alice", free).unwrap();
    a.release("alice").unwrap();
    assert_eq!(a.get_port("alice"), None);
    assert_eq!(a.registry().released, vec![p]);
    assert!(a.is_available(p));
}

#[test]
fn release_without_port_fails() {
    let mut a = PortAllocator::new(30001, 30010, PortRegistry::new()).unwrap();
    assert_eq!(a.release("ghost"), Err(ManagerError::NotAllocated));
}

#[test]
fn registry_refuses_port_held_by_another() {
    let mut reg = PortRegistry::new();
    reg.allocate("alice", 30001).unwrap();
    assert_eq!(reg.allocate("bob", 30001), Err(ManagerError::PortConflict));
}

#[test]
fn inconsistent_documents_are_refused() {
    let dup_users = vec![("a".to_string(), 30001u16), ("a".to_string(), 30002u16)];
    assert_eq!(
        PortRegistry::from_parts(PortRange::default(), dup_users, vec![]).err(),
        Some(ManagerError::IoFailure)
    );
    let dup_ports = vec![("a".to_string(), 30001u16), ("b".to_string(), 30001u16)];
    assert!(PortRegistry::from_parts(PortRange::default(), dup_ports, vec![]).is_err());
    let overlap = vec![("a".to_string(), 30001u16)];
    assert!(PortRegistry::from_parts(PortRange::default(), overlap, vec![30001]).is_err());
    assert!(PortRegistry::from_parts(PortRange::default(), vec![], vec![30002, 30002]).is_err());
}

#[test]
fn allocator_refuses_ports_outside_range() {
    let mut reg = PortRegistry::new();
    reg.allocate("alice", 40000).unwrap();
    assert_eq!(PortAllocator::new(30001, 30010, reg).err().map(|_| ()), Some(()));
    assert!(PortAllocator::new(30010, 30001, PortRegistry::new()).is_err());
}

#[test]
fn stats_count_the_range() {
    let mut a = PortAllocator::new(30001, 30010, PortRegistry::new()).unwrap();
    a.allocate("a", free).unwrap();
    a.allocate("b", free).unwrap();
    a.release("a").unwrap();
    let s = a.stats();
    assert_eq!(s.total, 10);
    assert_eq!(s.allocated, 1);
    assert_eq!(s.available, 9);
    assert_eq!(s.released_pool, 1);
    assert_eq!(a.list_allocations(), vec![("b".to_string(), 30002u16)]);
}
