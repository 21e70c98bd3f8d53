use frame_manager::api::{last_lines, service_status, ApiResponse, InstanceStatusResponse};
use frame_manager::config::{
    package_file_text, settings_file_text, Config, PackageUpdate, ServiceConfig, SettingsUpdate,
};
use frame_manager::events::{event_name, Event, EventEnvelope, HookExecutor};
use frame_manager::health::{http_request, http_status_ok, status_line};
use frame_manager::instance::resource::{CgroupController, ResourceLimits};
use frame_manager::instance::InstanceManager;
use frame_manager::manager::{instance_counts, stat_kind, update_metrics, StatKind};
use frame_manager::metrics::{labels_unique, Metric, MetricType, MetricValue, MetricsCollector, PrometheusExporter};
use frame_manager::port::allocator::PortAllocator;
use frame_manager::port::registry::PortRegistry;
use frame_manager::text::{to_decimal, to_signed_decimal};
use frame_manager::ManagerError;

#[test]
fn test_prometheus_export() {
    let mut metrics = Vec::new();

    let mut gauge = Metric {
        name: "test_gauge".to_string(),
        help: "A test gauge".to_string(),
        metric_type: MetricType::Gauge,
        values: Vec::new(),
    };

    gauge.values.push(MetricValue { value: 42, labels: Vec::new() });

    let labels = vec![("user".to_string(), "test_user".to_string())];
    gauge.values.push(MetricValue { value: 100, labels });

    metrics.push(gauge);

    let output = PrometheusExporter::export(&metrics);

    assert!(output.contains("# HELP test_gauge A test gauge"));
    assert!(output.contains("# TYPE test_gauge gauge"));
    assert!(output.contains("test_gauge 42"));
    assert!(output.contains("test_gauge{user=\"test_user\"} 100"));
}

#[test]
fn empty_table_exports_headers_only() {
    let m = MetricsCollector::default();
    let out = m.export_prometheus();
    assert_eq!(out.lines().filter(|l| l.starts_with("# HELP ")).count(), 11);
    assert_eq!(out.lines().filter(|l| l.starts_with("# TYPE ")).count(), 11);
    assert_eq!(out.lines().filter(|l| !l.is_empty() && !l.starts_with('#')).count(), 0);
    assert!(out.starts_with(
        "# HELP frame_instances_total Total number of Frame instances\n# TYPE frame_instances_total gauge\n\n"
    ));
}

#[test]
fn gauges_replace_and_counters_add() {
    let mut m = MetricsCollector::new();
    m.register("g", "a gauge", MetricType::Gauge);
    m.register("c", "a counter", MetricType::Counter);
    m.set_gauge("g", 5, Vec::new());
    m.set_gauge("g", 7, Vec::new());
    m.inc_counter("c", vec![("k".to_string(), "v".to_string())]);
    m.add_counter("c", 4, vec![("k".to_string(), "v".to_string())]);
    m.add_counter("c", u64::MAX, vec![("k".to_string(), "v".to_string())]);
    m.set_gauge("missing", 1, Vec::new());
    assert_eq!(
        m.export_prometheus(),
        "# HELP g a gauge\n# TYPE g gauge\ng 7\n\n# HELP c a counter\n# TYPE c counter\nc{k=\"v\"} 18446744073709551615\n\n"
    );
    m.clear();
    assert_eq!(m.get_all().len(), 2);
    assert!(m.get_all().iter().all(|x| x.values.is_empty()));
}

#[test]
fn label_values_are_escaped() {
    assert_eq!(PrometheusExporter::escape_label_value("a\\b\"c\nd"), "a\\\\b\\\"c\\nd");
    assert_eq!(PrometheusExporter::escape_label_value("plain"), "plain");
}

#[test]
fn metrics_refresh_from_snapshot() {
    let mut im = InstanceManager::new("/i".to_string(), "/b".to_string(), ResourceLimits::default());
    im.create("alice", None);
    im.create("bob", None);
    im.start("alice", 30001, Some(5), 0).unwrap();
    let mut alloc = PortAllocator::new(30001, 30010, PortRegistry::new()).unwrap();
    alloc.allocate("alice", |_p: u16| false).unwrap();
    let mut m = MetricsCollector::default();
    let list = im.list();
    let counts = instance_counts(&list);
    assert_eq!((counts.running, counts.stopped, counts.total), (1, 1, 2));
    update_metrics(&mut m, &list, &alloc.stats());
    let out = m.export_prometheus();
    assert!(out.contains("frame_instances_total 2\n"));
    assert!(out.contains("frame_instances_running 1\n"));
    assert!(out.contains("frame_apps_total{user=\"bob\"} 0\n"));
    assert!(out.contains("frame_ports_available 9\n"));
}

#[test]
fn cpu_limit_boundaries() {
    let mut c = Config::default();
    c.defaults.cpu_limit = 100;
    assert_eq!(c.validate(), Ok(()));
    c.defaults.cpu_limit = 101;
    assert_eq!(c.validate(), Err(ManagerError::ConfigInvalid));
}

#[test]
fn manager_port_inside_range_rejected() {
    let mut c = Config::default();
    c.service.port_range_start = 30001;
    c.service.port_range_end = 30003;
    c.service.manager_port = 30002;
    assert_eq!(c.validate(), Err(ManagerError::ConfigInvalid));
    c.service.manager_port = 30000;
    assert_eq!(c.validate(), Ok(()));
    c.service.port_range_end = 30001;
    assert_eq!(c.validate(), Err(ManagerError::ConfigInvalid));
}

#[test]
fn overrides_replace_defaults() {
    let s = ServiceConfig::with_overrides(None, Some(30001), Some(30003), Some(30000), Some(false), None).unwrap();
    assert_eq!(s.port_range_start, 30001);
    assert_eq!(s.port_range_end, 30003);
    assert!(!s.auto_start);
    assert!(s.enabled);
    assert_eq!(s.health_check_interval, 30);
    let t = ServiceConfig::with_overrides(None, Some(65536 + 5), None, None, None, None);
    assert_eq!(t, Err(ManagerError::ConfigInvalid));
}

#[test]
fn settings_and_package_files() {
    let mut c = Config::default();
    c.apply_settings(&SettingsUpdate { enabled: Some(false), auto_start: None, health_check_interval: Some(10) });
    assert!(!c.service.enabled);
    assert!(c.service.auto_start);
    assert_eq!(
        settings_file_text(&c.service),
        "[service]\nenabled = false\nauto_start = true\nhealth_check_interval = 10\n"
    );
    let u = PackageUpdate { memory_limit: Some(256), cpu_limit: None, max_apps: Some(3), disk_quota: None };
    assert_eq!(package_file_text(&u), "[limits]\nmemory_limit = 256\nmax_apps = 3\n");
}

#[test]
fn resource_limits_rules() {
    let l = ResourceLimits::from_defaults(256, 50, 3, 2048);
    assert_eq!(l.memory_bytes(), 256 * 1048576);
    assert_eq!(l.disk_quota_bytes(), 2048 * 1048576);
    assert_eq!(l.max_connections, 100);
    assert_eq!(l.validate(), Ok(()));
    assert_eq!(
        ResourceLimits::from_defaults(0, 50, 3, 1).validate(),
        Err("Memory limit must be greater than 0".to_string())
    );
    assert_eq!(
        ResourceLimits::from_defaults(1, 101, 3, 1).validate(),
        Err("CPU limit must be between 0 and 100".to_string())
    );
    assert_eq!(
        ResourceLimits::from_defaults(1, 1, 0, 1).validate(),
        Err("Max apps must be greater than 0".to_string())
    );
}

#[test]
fn cgroup_writes() {
    let c = CgroupController::create_for_user("alice");
    assert_eq!(c.cgroup_path(), "/sys/fs/cgroup/frame/alice");
    let w = c.set_cpu_limit(25);
    assert_eq!(w.path, "/sys/fs/cgroup/frame/alice/cpu.max");
    assert_eq!(w.content, "25000 100000");
    let w = c.set_memory_limit(536870912);
    assert_eq!(w.path, "/sys/fs/cgroup/frame/alice/memory.max");
    assert_eq!(w.content, "536870912");
    assert_eq!(c.add_process(1234).content, "1234");
}

#[test]
fn hook_environment() {
    let h = HookExecutor::new("/hooks".to_string());
    let e = Event::InstanceStarted {
        username: "alice".to_string(),
        port: 30001,
        apps: vec!["blog".to_string(), "shop".to_string()],
    };
    assert_eq!(h.hook_path(&e), "/hooks/on_instance_started");
    assert_eq!(event_name(&e), "instance.started");
    assert_eq!(
        h.event_to_env(&e),
        vec![
            ("FRAME_USERNAME".to_string(), "alice".to_string()),
            ("FRAME_PORT".to_string(), "30001".to_string()),
            ("FRAME_APPS".to_string(), "blog,shop".to_string()),
        ]
    );
    let crash = Event::InstanceCrashed { username: "bob".to_string(), exit_code: Some(-9), reason: "oom".to_string() };
    assert_eq!(
        h.event_to_env(&crash),
        vec![
            ("FRAME_USERNAME".to_string(), "bob".to_string()),
            ("FRAME_EXIT_CODE".to_string(), "-9".to_string()),
            ("FRAME_REASON".to_string(), "oom".to_string()),
        ]
    );
    assert!(h.event_to_env(&Event::ServiceStarted).is_empty());
    assert_eq!(HookExecutor::hook_name(&Event::ResourceLimitReached {
        username: "a".to_string(),
        resource: "memory".to_string(),
        current: 2,
        limit: 1,
    }), "on_resource_limit");
}

#[test]
fn envelope_metadata_replaces_key() {
    let env = EventEnvelope::new(Event::ConfigReloaded, 7)
        .with_metadata("source", "cli")
        .with_metadata("source", "api")
        .with_metadata("user", "root");
    assert_eq!(env.timestamp, 7);
    assert_eq!(
        env.metadata,
        vec![("source".to_string(), "api".to_string()), ("user".to_string(), "root".to_string())]
    );
}

#[test]
fn http_probe_text() {
    assert!(http_status_ok("HTTP/1.1 204 No Content"));
    assert!(http_status_ok("HTTP/1.0 200 OK"));
    assert!(!http_status_ok("HTTP/1.1 500 Oops"));
    assert!(!http_status_ok(""));
    assert_eq!(http_request("/health"), "GET /health HTTP/1.1\r\nHost: localhost\r\nConnection: close\r\n\r\n");
    assert_eq!(status_line("HTTP/1.1 404 Not Found\r\nrest"), "HTTP/1.1 404 Not Found");
    assert_eq!(status_line(""), "unknown");
    assert_eq!(status_line("one line"), "one line");
}

#[test]
fn decimal_text() {
    assert_eq!(to_decimal(0), "0");
    assert_eq!(to_decimal(30001), "30001");
    assert_eq!(to_decimal(u64::MAX), "18446744073709551615");
    assert_eq!(to_signed_decimal(i32::MIN), "-2147483648");
    assert_eq!(to_signed_decimal(42), "42");
}

#[test]
fn responses_and_summaries() {
    let ok = ApiResponse::success(5u32);
    assert_eq!(ok.status, 1);
    assert_eq!(ok.data, Some(5));
    let err = ApiResponse::<u32>::error("boom");
    assert_eq!(err.status, 0);
    assert_eq!(err.errors, vec!["boom".to_string()]);

    let mut im = InstanceManager::new("/i".to_string(), "/b".to_string(), ResourceLimits::default());
    im.create("alice", None);
    im.start("alice", 30001, Some(5), 0).unwrap();
    im.update_usage("alice", 3 * 1048576, 1, 1);
    let list = im.list();
    let st = service_status(true, &list, &Config::default().service);
    assert_eq!(st.service_status, "running");
    assert_eq!(st.instances_running, 1);
    assert_eq!(st.memory_usage_mb, 3);
    assert_eq!(st.port_range, "30001-32000");
    let r = InstanceStatusResponse::from_instance(&list[0]);
    assert_eq!(r.status, "running");
    assert_eq!(r.memory_usage_mb, 3);

    let lines = vec!["a".to_string(), "b".to_string(), "c".to_string()];
    assert_eq!(last_lines(lines.clone(), 2), vec!["b".to_string(), "c".to_string()]);
    assert_eq!(last_lines(lines.clone(), 5), lines);
}

#[test]
fn stat_kinds() {
    assert_eq!(stat_kind(None), Some(StatKind::Instances));
    assert_eq!(stat_kind(Some("memory")), Some(StatKind::Memory));
    assert_eq!(stat_kind(Some("cpu")), Some(StatKind::Cpu));
    assert_eq!(stat_kind(Some("instances")), Some(StatKind::Instances));
    assert_eq!(stat_kind(Some("disk")), None);
}

#[test]
fn same_labels_in_another_order_replace_the_sample() {
    let mut m = MetricsCollector::new();
    m.register("g", "a gauge", MetricType::Gauge);
    let ab = vec![("a".to_string(), "x".to_string()), ("b".to_string(), "y".to_string())];
    let ba = vec![("b".to_string(), "y".to_string()), ("a".to_string(), "x".to_string())];
    m.set_gauge("g", 1, ab);
    m.set_gauge("g", 2, ba);
    assert_eq!(m.get_all()[0].values.len(), 1);
    assert_eq!(m.get_all()[0].values[0].value, 2);
    m.add_counter("g", 3, vec![("b".to_string(), "y".to_string()), ("a".to_string(), "x".to_string())]);
    assert_eq!(m.get_all()[0].values[0].value, 5);
    m.set_gauge("g", 9, vec![("a".to_string(), "z".to_string()), ("b".to_string(), "y".to_string())]);
    assert_eq!(m.get_all()[0].values.len(), 2);
}

#[test]
fn label_lists_with_repeated_names_are_detected() {
    assert!(labels_unique(&vec![("a".to_string(), "x".to_string()), ("b".to_string(), "x".to_string())]));
    assert!(!labels_unique(&vec![("a".to_string(), "x".to_string()), ("a".to_string(), "y".to_string())]));
}
