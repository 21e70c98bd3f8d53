//! Service-wide bookkeeping that spans components.

use vstd::prelude::*;
use crate::instance::{Instance, InstanceStatus, names_unique};
use crate::metrics::{MetricsCollector, find_key, find_metric, keys_unique, labels_view, lemma_find_metric_same_names, sample_value};
use crate::port::allocator::PortStats;
use crate::text::same_text;

verus! {

/// Counts of instances by state.
#[derive(Debug, Clone, Copy, PartialEq, Eq, Structural)]
pub struct InstanceCounts {
    pub running: usize,
    pub stopped: usize,
    pub total: usize,
}

/// How many of `instances` run, how many do not, and how many there are.
pub fn instance_counts(instances: &Vec<Instance>) -> (r: InstanceCounts)
    ensures
        r.running == crate::instance::count_running(instances@),
        r.total == instances@.len(),
        r.stopped == r.total - r.running,
{
    let mut running: usize = 0;
    let mut i: usize = 0;
    while i < instances.len()
        invariant
            i <= instances@.len(),
            running == crate::instance::count_running(instances@.subrange(0, i as int)),
            running <= i,
        decreases instances@.len() - i,
    {
        proof {
            assert(instances@.subrange(0, i + 1).drop_last() =~= instances@.subrange(0, i as int));
        }
        if instances[i].status == InstanceStatus::Running {
            running = running + 1;
        }
        i = i + 1;
    }
    assert(instances@.subrange(0, i as int) =~= instances@);
    InstanceCounts { running, stopped: instances.len() - running, total: instances.len() }
}

/// The label set that names user `u`.
pub open spec fn user_view(u: Seq<char>) -> Map<Seq<char>, Seq<char>> {
    Map::<Seq<char>, Seq<char>>::empty().insert("user"@, u)
}

/// The per-user gauges read the user's memory, CPU (whole percent) and app
/// count, for each registered gauge.
pub open spec fn user_gauges_set(s: Seq<crate::metrics::Metric>, t: Seq<crate::metrics::Metric>, inst: Instance) -> bool {
    &&& find_metric(s, MEMORY@) >= 0 ==> sample_value(t, MEMORY@, user_view(inst.username@)) == Some(
        inst.memory_usage,
    )
    &&& find_metric(s, CPU@) >= 0 ==> sample_value(t, CPU@, user_view(inst.username@)) == Some(
        (inst.cpu_usage / 100) as u64,
    )
    &&& find_metric(s, APPS@) >= 0 ==> sample_value(t, APPS@, user_view(inst.username@)) == Some(
        inst.app_count as u64,
    )
}

/// The label set that names a user.
fn user_labels(username: &String) -> (r: Vec<(String, String)>)
    ensures
        r@.len() == 1,
        r@[0].0@ == "user"@,
        r@[0].1@ == username@,
        labels_view(r@) == user_view(username@),
        keys_unique(r@),
{
    proof {
        reveal_strlit("user");
    }
    let mut v: Vec<(String, String)> = Vec::new();
    v.push(("user".to_owned(), username.clone()));
    proof {
        reveal_strlit("user");
        assert(v@.drop_last() =~= Seq::<(String, String)>::empty());
        assert forall|k: Seq<char>| #[trigger] find_key(v@, k) == if k == "user"@ {
            0int
        } else {
            -1int
        } by {
            assert(find_key(v@.drop_last(), k) == -1);
        }
        assert(labels_view(v@) =~= user_view(username@));
    }
    v
}

/// The names of the gauges that the refresh sets are pairwise distinct.
proof fn lemma_gauge_names_distinct()
    ensures
        TOTAL@ != RUNNING@ && TOTAL@ != STOPPED@ && RUNNING@ != STOPPED@,
        MEMORY@ != TOTAL@ && MEMORY@ != RUNNING@ && MEMORY@ != STOPPED@,
        CPU@ != TOTAL@ && CPU@ != RUNNING@ && CPU@ != STOPPED@,
        APPS@ != TOTAL@ && APPS@ != RUNNING@ && APPS@ != STOPPED@,
        MEMORY@ != CPU@ && MEMORY@ != APPS@ && CPU@ != APPS@,
        ALLOCATED@ != MEMORY@ && ALLOCATED@ != CPU@ && ALLOCATED@ != APPS@,
        AVAILABLE@ != MEMORY@ && AVAILABLE@ != CPU@ && AVAILABLE@ != APPS@,
        ALLOCATED@ != TOTAL@ && ALLOCATED@ != RUNNING@ && ALLOCATED@ != STOPPED@,
        AVAILABLE@ != TOTAL@ && AVAILABLE@ != RUNNING@ && AVAILABLE@ != STOPPED@ && AVAILABLE@
            != ALLOCATED@,
{
    reveal_strlit("frame_instances_total");
    reveal_strlit("frame_instances_running");
    reveal_strlit("frame_instances_stopped");
    reveal_strlit("frame_memory_usage_bytes");
    reveal_strlit("frame_cpu_usage_percent");
    reveal_strlit("frame_apps_total");
    reveal_strlit("frame_ports_allocated");
    reveal_strlit("frame_ports_available");
    assert(TOTAL@[6] != ALLOCATED@[6]);
    assert(TOTAL@[6] != AVAILABLE@[6]);
    assert(RUNNING@[16] != STOPPED@[16]);
    assert(CPU@[6] != RUNNING@[6]);
    assert(CPU@[6] != STOPPED@[6]);
    assert(ALLOCATED@[13] != AVAILABLE@[13]);
    assert(MEMORY@.len() != CPU@.len());
    assert(MEMORY@.len() != APPS@.len());
    assert(CPU@.len() != APPS@.len());
    assert(ALLOCATED@.len() != MEMORY@.len() && ALLOCATED@.len() != CPU@.len() && ALLOCATED@.len() != APPS@.len());
    assert(AVAILABLE@.len() != MEMORY@.len() && AVAILABLE@.len() != CPU@.len() && AVAILABLE@.len() != APPS@.len());
}

/// Tables with the same names at each position find every name at the
/// same position.
proof fn lemma_same_names_find(s: Seq<crate::metrics::Metric>, t: Seq<crate::metrics::Metric>)
    requires
        s.len() == t.len(),
        forall|k: int| 0 <= k < s.len() ==> (#[trigger] t[k]).name == s[k].name,
    ensures
        forall|n: Seq<char>| #[trigger] find_metric(t, n) == find_metric(s, n),
{
    assert forall|n: Seq<char>| #[trigger] find_metric(t, n) == find_metric(s, n) by {
        assert forall|k: int| 0 <= k < s.len() implies (#[trigger] t[k]).name@ == s[k].name@ by {
            assert(t[k].name == s[k].name);
        }
        lemma_find_metric_same_names(s, t, n);
    }
}

pub const TOTAL: &'static str = "frame_instances_total";
pub const RUNNING: &'static str = "frame_instances_running";
pub const STOPPED: &'static str = "frame_instances_stopped";
pub const MEMORY: &'static str = "frame_memory_usage_bytes";
pub const CPU: &'static str = "frame_cpu_usage_percent";
pub const APPS: &'static str = "frame_apps_total";
pub const ALLOCATED: &'static str = "frame_ports_allocated";
pub const AVAILABLE: &'static str = "frame_ports_available";

/// Refreshes the gauges of the metrics table from a snapshot of the
/// instances and the port statistics: instance counts, per-user memory, CPU
/// (whole percent) and app count, and port counts. Registrations are kept;
/// each registered count gauge then reads its count in its unlabelled sample.
pub fn update_metrics(metrics: &mut MetricsCollector, instances: &Vec<Instance>, ports: &PortStats)
    requires
        old(metrics).wf(),
    ensures
        final(metrics).wf(),
        final(metrics).spec_metrics().len() == old(metrics).spec_metrics().len(),
        forall|i: int|
            0 <= i < old(metrics).spec_metrics().len() ==> (#[trigger] final(metrics).spec_metrics()[i]).name
                == old(metrics).spec_metrics()[i].name,
        ({
            let s = old(metrics).spec_metrics();
            let t = final(metrics).spec_metrics();
            let none = Map::<Seq<char>, Seq<char>>::empty();
            let running = crate::instance::count_running(instances@);
            &&& find_metric(s, TOTAL@) >= 0 ==> sample_value(t, TOTAL@, none) == Some(
                instances@.len() as u64,
            )
            &&& find_metric(s, RUNNING@) >= 0 ==> sample_value(t, RUNNING@, none) == Some(running as u64)
            &&& find_metric(s, STOPPED@) >= 0 ==> sample_value(t, STOPPED@, none) == Some(
                (instances@.len() - running) as u64,
            )
            &&& find_metric(s, ALLOCATED@) >= 0 ==> sample_value(t, ALLOCATED@, none) == Some(
                ports.allocated as u64,
            )
            &&& find_metric(s, AVAILABLE@) >= 0 ==> sample_value(t, AVAILABLE@, none) == Some(
                ports.available as u64,
            )
        }),
        names_unique(instances@) ==> forall|k: int|
            0 <= k < instances@.len() ==> user_gauges_set(
                old(metrics).spec_metrics(),
                final(metrics).spec_metrics(),
                #[trigger] instances@[k],
            ),
{
    let ghost s = metrics.spec_metrics();
    let ghost none = Map::<Seq<char>, Seq<char>>::empty();
    proof {
        lemma_gauge_names_distinct();
        assert(labels_view(Seq::<(String, String)>::empty()) =~= none);
    }
    let counts = instance_counts(instances);
    metrics.set_gauge(TOTAL, counts.total as u64, Vec::new());
    proof {
        lemma_find_metric_same_names(s, metrics.spec_metrics(), RUNNING@);
        lemma_find_metric_same_names(s, metrics.spec_metrics(), STOPPED@);
    }
    metrics.set_gauge(RUNNING, counts.running as u64, Vec::new());
    proof {
        lemma_find_metric_same_names(s, metrics.spec_metrics(), STOPPED@);
    }
    metrics.set_gauge(STOPPED, counts.stopped as u64, Vec::new());
    let ghost after_counts = metrics.spec_metrics();
    let mut i: usize = 0;
    while i < instances.len()
        invariant
            i <= instances@.len(),
            metrics.wf(),
            metrics.spec_metrics().len() == s.len(),
            forall|k: int| 0 <= k < s.len() ==> (#[trigger] metrics.spec_metrics()[k]).name == s[k].name,
            sample_value(metrics.spec_metrics(), TOTAL@, none) == sample_value(after_counts, TOTAL@, none),
            sample_value(metrics.spec_metrics(), RUNNING@, none) == sample_value(after_counts, RUNNING@, none),
            sample_value(metrics.spec_metrics(), STOPPED@, none) == sample_value(after_counts, STOPPED@, none),
            TOTAL@ != RUNNING@ && TOTAL@ != STOPPED@ && RUNNING@ != STOPPED@,
            MEMORY@ != TOTAL@ && MEMORY@ != RUNNING@ && MEMORY@ != STOPPED@,
            CPU@ != TOTAL@ && CPU@ != RUNNING@ && CPU@ != STOPPED@,
            APPS@ != TOTAL@ && APPS@ != RUNNING@ && APPS@ != STOPPED@,
            MEMORY@ != CPU@ && MEMORY@ != APPS@ && CPU@ != APPS@,
            names_unique(instances@) ==> forall|k: int|
                0 <= k < i ==> user_gauges_set(s, metrics.spec_metrics(), #[trigger] instances@[k]),
        decreases instances@.len() - i,
    {
        let inst = &instances[i];
        let ghost m0 = metrics.spec_metrics();
        proof {
            lemma_same_names_find(s, m0);
        }
        metrics.set_gauge(MEMORY, inst.memory_usage, user_labels(&inst.username));
        let ghost m1 = metrics.spec_metrics();
        proof {
            lemma_same_names_find(s, m1);
        }
        metrics.set_gauge(CPU, (inst.cpu_usage / 100) as u64, user_labels(&inst.username));
        let ghost m2 = metrics.spec_metrics();
        proof {
            lemma_same_names_find(s, m2);
        }
        metrics.set_gauge(APPS, inst.app_count as u64, user_labels(&inst.username));
        proof {
            let m3 = metrics.spec_metrics();
            if names_unique(instances@) {
                assert forall|k: int| 0 <= k < i + 1 implies user_gauges_set(s, m3, #[trigger] instances@[k]) by {
                    let uk = user_view(instances@[k].username@);
                    let ui = user_view(instances@[i as int].username@);
                    if k < i {
                        assert(instances@[k].username@ != instances@[i as int].username@);
                        assert(uk["user"@] != ui["user"@]);
                        assert(uk != ui);
                        assert(user_gauges_set(s, m0, instances@[k]));
                    }
                }
            }
        }
        i = i + 1;
    }
    let ghost before_ports = metrics.spec_metrics();
    proof {
        assert forall|k: int| 0 <= k < s.len() implies (#[trigger] before_ports[k]).name@ == s[k].name@ by {
            assert(before_ports[k].name == s[k].name);
        }
        lemma_find_metric_same_names(s, before_ports, ALLOCATED@);
        lemma_find_metric_same_names(s, before_ports, AVAILABLE@);
    }
    proof {
        lemma_same_names_find(s, before_ports);
    }
    metrics.set_gauge(ALLOCATED, ports.allocated as u64, Vec::new());
    proof {
        lemma_find_metric_same_names(s, metrics.spec_metrics(), AVAILABLE@);
    }
    let ghost after_allocated = metrics.spec_metrics();
    metrics.set_gauge(AVAILABLE, ports.available as u64, Vec::new());
    proof {
        if names_unique(instances@) {
            assert forall|k: int| 0 <= k < instances@.len() implies user_gauges_set(
                s,
                metrics.spec_metrics(),
                #[trigger] instances@[k],
            ) by {
                assert(user_gauges_set(s, before_ports, instances@[k]));
                let u = user_view(instances@[k].username@);
                assert(sample_value(after_allocated, MEMORY@, u) == sample_value(before_ports, MEMORY@, u));
                assert(sample_value(after_allocated, CPU@, u) == sample_value(before_ports, CPU@, u));
                assert(sample_value(after_allocated, APPS@, u) == sample_value(before_ports, APPS@, u));
            }
        }
    }
}

/// Which statistics a request asks for.
#[derive(Debug, Clone, Copy, PartialEq, Eq, Structural)]
pub enum StatKind {
    Memory,
    Cpu,
    Instances,
}

/// The statistics named by a request: instance counts when none is named,
/// `None` for an unknown name.
pub open spec fn stat_kind_of(name: Option<Seq<char>>) -> Option<StatKind> {
    match name {
        None => Some(StatKind::Instances),
        Some(t) => if t == "memory"@ {
            Some(StatKind::Memory)
        } else if t == "cpu"@ {
            Some(StatKind::Cpu)
        } else if t == "instances"@ {
            Some(StatKind::Instances)
        } else {
            None
        },
    }
}

/// The statistics that `name` asks for.
pub fn stat_kind(name: Option<&str>) -> (r: Option<StatKind>)
    ensures
        r == stat_kind_of(match name {
            Some(t) => Some(t@),
            None => None,
        }),
{
    match name {
        None => Some(StatKind::Instances),
        Some(t) => {
            if same_text(t, "memory") {
                Some(StatKind::Memory)
            } else if same_text(t, "cpu") {
                Some(StatKind::Cpu)
            } else if same_text(t, "instances") {
                Some(StatKind::Instances)
            } else {
                None
            }
        },
    }
}

} // verus!
