use frame_manager::config::ConfigParser;
use frame_manager::port::allocator::PortAllocator;
use frame_manager::port::registry::PortRegistry;
use frame_manager::ManagerError;

fn ini(text: &str) -> String {
    text.to_string()
}

#[test]
fn cpu_limit_of_one_hundred_loads() {
    let c = ConfigParser::new().parse(ini("[defaults]\ncpu_limit = 100\n")).unwrap();
    assert_eq!(c.defaults.cpu_limit, 100);
}

#[test]
fn cpu_limit_above_one_hundred_is_rejected_at_load() {
    let r = ConfigParser::new().parse(ini("[defaults]\ncpu_limit = 101\n"));
    assert_eq!(r.err().map(|e| e), Some(ManagerError::ConfigInvalid));
}

#[test]
fn manager_port_in_user_range_is_rejected_at_load() {
    let r = ConfigParser::new().parse(ini(
        "[service]\nport_range_start = 30001\nport_range_end = 30003\nmanager_port = 30002\n",
    ));
    assert!(matches!(r, Err(ManagerError::ConfigInvalid)));
}

#[test]
fn configured_range_drives_allocation() {
    let c = ConfigParser::new()
        .parse(ini(
            "[service]\nport_range_start=30001\nport_range_end=30003\nmanager_port=30000\n[logging]\nlevel = debug\n",
        ))
        .unwrap();
    assert_eq!(c.service.port_range_start, 30001);
    assert_eq!(c.service.port_range_end, 30003);
    assert_eq!(c.service.manager_port, 30000);
    assert_eq!(c.logging.level, "debug");
    assert_eq!(c.proxy.backend, "apache");
    assert_eq!(c.defaults.memory_limit, 512);
    let mut a = PortAllocator::new(c.service.port_range_start, c.service.port_range_end, PortRegistry::new()).unwrap();
    let free = |_p: u16| false;
    assert_eq!(a.allocate("alice", free), Ok(30001));
    assert_eq!(a.allocate("bob", free), Ok(30002));
    assert_eq!(a.allocate("carol", free), Ok(30003));
    assert_eq!(a.allocate("dave", free), Err(ManagerError::NoPortsAvailable));
}

#[test]
fn unparsable_values_keep_defaults() {
    let c = ConfigParser::new()
        .parse(ini("[service]\nhealth_check_interval = soon\nauto_start = maybe\nenabled = FALSE\n"))
        .unwrap();
    assert_eq!(c.service.health_check_interval, 30);
    assert!(c.service.auto_start);
    assert!(!c.service.enabled);
}

#[test]
fn package_file_values() {
    let p = ConfigParser::new().parse_package(
        "gold".to_string(),
        ini("[limits]\nmemory_limit = 2048\n[features]\nfs_access = true\nssl_support = false\n"),
    ).unwrap();
    assert_eq!(p.name, "gold");
    assert_eq!(p.limits.memory_limit, 2048);
    assert_eq!(p.limits.cpu_limit, 25);
    assert!(p.features.fs_access);
    assert!(!p.features.sys_access);
    assert!(p.features.custom_domains);
    assert!(!p.features.ssl_support);
}

#[test]
fn cpu_limit_beyond_eight_bits_is_rejected_at_load() {
    let r = ConfigParser::new().parse(ini("[defaults]\ncpu_limit = 300\n"));
    assert!(matches!(r, Err(ManagerError::ConfigInvalid)));
}

#[test]
fn port_beyond_sixteen_bits_is_rejected_at_load() {
    let r = ConfigParser::new().parse(ini("[service]\nport_range_start = 65541\n"));
    assert!(matches!(r, Err(ManagerError::ConfigInvalid)));
}

#[test]
fn malformed_document_is_rejected() {
    let r = ConfigParser::new().parse(ini("[service\nenabled = true\n"));
    assert!(matches!(r, Err(ManagerError::ConfigInvalid)));
}

#[test]
fn empty_package_file_gives_defaults() {
    let p = ConfigParser::new().parse_package("basic".to_string(), ini("[limits]\n[features]\n")).unwrap();
    assert_eq!(p.name, "basic");
    assert_eq!((p.limits.memory_limit, p.limits.cpu_limit, p.limits.max_apps, p.limits.disk_quota), (512, 25, 5, 1024));
    assert!(!p.features.fs_access && !p.features.sys_access && p.features.custom_domains && p.features.ssl_support);
}
