//! Instance records and the lifecycle state machine that drives them.
//!
//! Spawning and signalling processes happens outside this module: a caller
//! asks what an operation needs (`start_plan`, `stop_plan`), does that work,
//! and hands its outcome to the operation (`start`, `stop`, `restart`),
//! which applies the transition.

pub mod process;
pub mod resource;

use vstd::prelude::*;
use vstd::string::StringExecFns;
use crate::error::ManagerError;
use crate::instance::resource::ResourceLimits;
use crate::text::{decimal, join2, to_decimal};

verus! {

/// Lifecycle state of an instance.
#[derive(Debug, Clone, Copy, PartialEq, Eq, Structural)]
pub enum InstanceStatus {
    Running,
    Stopped,
    Starting,
    Stopping,
    Failed,
    Unknown,
}

pub open spec fn status_name(s: InstanceStatus) -> Seq<char> {
    match s {
        InstanceStatus::Running => "running"@,
        InstanceStatus::Stopped => "stopped"@,
        InstanceStatus::Starting => "starting"@,
        InstanceStatus::Stopping => "stopping"@,
        InstanceStatus::Failed => "failed"@,
        InstanceStatus::Unknown => "unknown"@,
    }
}

impl InstanceStatus {
    /// The lower-case name of the state.
    pub fn as_str(&self) -> (r: &'static str)
        ensures
            r@ == status_name(*self),
    {
        proof {
            reveal_strlit("running");
            reveal_strlit("stopped");
            reveal_strlit("starting");
            reveal_strlit("stopping");
            reveal_strlit("failed");
            reveal_strlit("unknown");
        }
        match self {
            InstanceStatus::Running => "running",
            InstanceStatus::Stopped => "stopped",
            InstanceStatus::Starting => "starting",
            InstanceStatus::Stopping => "stopping",
            InstanceStatus::Failed => "failed",
            InstanceStatus::Unknown => "unknown",
        }
    }
}

/// The record of one user's instance.
#[derive(Debug)]
pub struct Instance {
    pub username: String,
    /// Port bound to the instance; 0 until the first start.
    pub port: u16,
    pub status: InstanceStatus,
    /// Process id while a process backs the instance.
    pub pid: Option<u32>,
    /// Resident memory in bytes, as last sampled.
    pub memory_usage: u64,
    /// CPU use in hundredths of a percent, as last sampled.
    pub cpu_usage: u32,
    /// Number of deployed apps.
    pub app_count: u32,
    pub limits: ResourceLimits,
    /// Start time in seconds since the Unix epoch, while running.
    pub started_at: Option<i64>,
    /// Time of the last usage sample, in seconds since the Unix epoch.
    pub last_health_check: Option<i64>,
}

/// Per-user settings kept in the user's instance directory.
#[derive(Debug)]
pub struct InstanceConfig {
    pub auto_start: bool,
    pub memory_limit: u64,
    pub max_apps: u32,
    pub env_vars: Vec<(String, String)>,
}

impl Default for InstanceConfig {
    fn default() -> (r: Self)
        ensures
            r.auto_start,
            r.memory_limit == 512,
            r.max_apps == 5,
            r.env_vars@.len() == 0,
    {
        InstanceConfig { auto_start: true, memory_limit: 512, max_apps: 5, env_vars: Vec::new() }
    }
}

/// `r` with its lifecycle fields replaced.
pub open spec fn with_lifecycle(
    r: Instance,
    status: InstanceStatus,
    port: u16,
    pid: Option<u32>,
    started_at: Option<i64>,
) -> Instance {
    Instance {
        username: r.username,
        port,
        status,
        pid,
        memory_usage: r.memory_usage,
        cpu_usage: r.cpu_usage,
        app_count: r.app_count,
        limits: r.limits,
        started_at,
        last_health_check: r.last_health_check,
    }
}

/// A freshly created record: stopped, with no port.
pub open spec fn fresh_record(u: String, limits: ResourceLimits, app_count: u32) -> Instance {
    Instance {
        username: u,
        port: 0,
        status: InstanceStatus::Stopped,
        pid: None,
        memory_usage: 0,
        cpu_usage: 0,
        app_count,
        limits,
        started_at: None,
        last_health_check: None,
    }
}

/// Position of the last record of user `u` in `s`, or -1.
pub open spec fn find_instance(s: Seq<Instance>, u: Seq<char>) -> int
    decreases s.len(),
{
    if s.len() == 0 {
        -1
    } else if s.last().username@ == u {
        s.len() - 1
    } else {
        find_instance(s.drop_last(), u)
    }
}

pub open spec fn names_unique(s: Seq<Instance>) -> bool {
    forall|i: int, j: int|
        0 <= i < j < s.len() ==> #[trigger] s[i].username@ != #[trigger] s[j].username@
}

/// A record has a process exactly while it is starting, running or
/// stopping, and a start time and a port whenever it has a process.
pub open spec fn record_ok(r: Instance) -> bool {
    &&& (r.pid is Some) == (r.status == InstanceStatus::Starting || r.status == InstanceStatus::Running
        || r.status == InstanceStatus::Stopping)
    &&& (r.started_at is Some) == (r.pid is Some)
    &&& r.pid is Some ==> r.port != 0
}

pub open spec fn table_ok(s: Seq<Instance>) -> bool {
    &&& names_unique(s)
    &&& forall|i: int| 0 <= i < s.len() ==> record_ok(#[trigger] s[i])
}

/// Records and result after `start(u, port, spawned, now)`; `spawned` is the
/// new process id, or `None` when the process could not be started or died
/// within the settling window.
pub open spec fn spec_start(
    s: Seq<Instance>,
    u: Seq<char>,
    port: u16,
    spawned: Option<u32>,
    now: i64,
) -> (Seq<Instance>, Result<(), ManagerError>) {
    let i = find_instance(s, u);
    if i < 0 {
        (s, Err(ManagerError::NotFound))
    } else if s[i].status == InstanceStatus::Running {
        (s, Ok(()))
    } else if port == 0 {
        (s, Err(ManagerError::Internal))
    } else {
        match spawned {
            Some(pid) => (
                s.update(i, with_lifecycle(s[i], InstanceStatus::Running, port, Some(pid), Some(now))),
                Ok(()),
            ),
            None => (
                s.update(i, with_lifecycle(s[i], InstanceStatus::Failed, port, None, None)),
                Err(ManagerError::SpawnFailed),
            ),
        }
    }
}

/// Records and result after `stop(u, signalled)`; `signalled` is the outcome
/// of shutting down the record's process, ignored when there is none.
pub open spec fn spec_stop(s: Seq<Instance>, u: Seq<char>, signalled: Result<(), ManagerError>) -> (
    Seq<Instance>,
    Result<(), ManagerError>,
) {
    let i = find_instance(s, u);
    if i < 0 {
        (s, Err(ManagerError::NotFound))
    } else if s[i].status == InstanceStatus::Stopped {
        (s, Ok(()))
    } else if s[i].pid is None || signalled is Ok {
        (s.update(i, with_lifecycle(s[i], InstanceStatus::Stopped, s[i].port, None, None)), Ok(()))
    } else {
        (
            s.update(
                i,
                with_lifecycle(s[i], InstanceStatus::Stopping, s[i].port, s[i].pid, s[i].started_at),
            ),
            signalled,
        )
    }
}

/// Records and result of a stop followed, if it succeeded, by a start.
pub open spec fn spec_restart(
    s: Seq<Instance>,
    u: Seq<char>,
    port: u16,
    signalled: Result<(), ManagerError>,
    spawned: Option<u32>,
    now: i64,
) -> (Seq<Instance>, Result<(), ManagerError>) {
    let (s1, r1) = spec_stop(s, u, signalled);
    if r1 is Err {
        (s1, r1)
    } else {
        spec_start(s1, u, port, spawned, now)
    }
}

/// Number of running records.
pub open spec fn count_running(s: Seq<Instance>) -> nat
    decreases s.len(),
{
    if s.len() == 0 {
        0
    } else {
        count_running(s.drop_last()) + if s.last().status == InstanceStatus::Running {
            1nat
        } else {
            0nat
        }
    }
}

pub proof fn lemma_find_instance(s: Seq<Instance>, u: Seq<char>)
    ensures
        -1 <= find_instance(s, u) < s.len(),
        find_instance(s, u) >= 0 ==> s[find_instance(s, u)].username@ == u,
        forall|i: int| 0 <= i < s.len() && (#[trigger] s[i]).username@ == u ==> find_instance(s, u) >= 0,
        names_unique(s) ==> forall|i: int|
            0 <= i < s.len() && (#[trigger] s[i]).username@ == u ==> find_instance(s, u) == i,
    decreases s.len(),
{
    if s.len() > 0 {
        let d = s.drop_last();
        lemma_find_instance(d, u);
        assert forall|i: int| 0 <= i < s.len() - 1 implies s[i] == d[i] by {}
        if names_unique(s) {
            assert(names_unique(d)) by {
                assert forall|i: int, j: int| 0 <= i < j < d.len() implies d[i].username@
                    != d[j].username@ by {
                    assert(s[i].username@ != s[j].username@);
                }
            }
            assert forall|i: int| 0 <= i < s.len() && (#[trigger] s[i]).username@ == u implies find_instance(
                s,
                u,
            ) == i by {
                if s.last().username@ == u && i < s.len() - 1 {
                    assert(s[i].username@ != s[s.len() - 1].username@);
                }
            }
        }
    }
}

/// Replacing one record by one of the same user keeps the table consistent.
pub proof fn lemma_update_keeps_ok(s: Seq<Instance>, i: int, r: Instance)
    requires
        table_ok(s),
        0 <= i < s.len(),
        r.username@ == s[i].username@,
        record_ok(r),
    ensures
        table_ok(s.update(i, r)),
{
    let t = s.update(i, r);
    assert forall|a: int, b: int| 0 <= a < b < t.len() implies t[a].username@ != t[b].username@ by {
        assert(s[a].username@ != s[b].username@);
    }
    assert forall|a: int| 0 <= a < t.len() implies record_ok(#[trigger] t[a]) by {
        if a != i {
            assert(record_ok(s[a]));
        }
    }
}

/// What starting an instance requires of the caller.
#[derive(Debug)]
pub struct SpawnCommand {
    /// Program to run.
    pub program: String,
    /// Its arguments.
    pub args: Vec<String>,
    /// Variables added to its environment.
    pub env: Vec<(String, String)>,
}

/// What stopping an instance requires of the caller.
#[derive(Debug, Clone, Copy, PartialEq, Eq, Structural)]
pub enum StopPlan {
    /// The instance is stopped already: nothing to do.
    AlreadyStopped,
    /// No process backs the instance: nothing to signal.
    NoProcess,
    /// The process to shut down.
    Terminate(u32),
}

/// The arguments that start a user's server under the user's identity.
pub open spec fn spawn_args(
    dir: Seq<char>,
    binary: Seq<char>,
    u: Seq<char>,
    port: u16,
    limits: ResourceLimits,
) -> Seq<Seq<char>> {
    seq![
        "-u"@,
        u,
        binary,
        "--port"@,
        decimal(port as nat),
        "--app-dir"@,
        dir + "/apps"@,
        "--data-dir"@,
        dir + "/data"@,
        "--memory-limit"@,
        decimal(limits.memory_mb as nat),
    ]
}

/// The environment that publishes the limits to a user's server.
pub open spec fn spawn_env(limits: ResourceLimits) -> Seq<(Seq<char>, Seq<char>)> {
    seq![
        ("FRAME_MEMORY_LIMIT_MB"@, decimal(limits.memory_mb as nat)),
        ("FRAME_CPU_LIMIT_PERCENT"@, decimal(limits.cpu_percent as nat)),
        ("FRAME_MAX_CONNECTIONS"@, decimal(limits.max_connections as nat)),
    ]
}

/// What stopping a record needs.
pub open spec fn stop_plan_of(r: Instance) -> StopPlan {
    if r.status == InstanceStatus::Stopped {
        StopPlan::AlreadyStopped
    } else {
        match r.pid {
            None => StopPlan::NoProcess,
            Some(p) => StopPlan::Terminate(p),
        }
    }
}

/// The records of all users' instances.
pub struct InstanceManager {
    instances_dir: String,
    frame_server_path: String,
    instances: Vec<Instance>,
    default_limits: ResourceLimits,
}

impl InstanceManager {
    pub closed spec fn records(&self) -> Seq<Instance> {
        self.instances@
    }

    pub closed spec fn spec_default_limits(&self) -> ResourceLimits {
        self.default_limits
    }

    pub closed spec fn spec_instances_dir(&self) -> Seq<char> {
        self.instances_dir@
    }

    pub closed spec fn spec_server_path(&self) -> Seq<char> {
        self.frame_server_path@
    }

    pub open spec fn wf(&self) -> bool {
        table_ok(self.records())
    }

    /// `c` is the command that starts `u`'s server on `port` with `limits`.
    pub open spec fn is_spawn_command(&self, c: SpawnCommand, u: Seq<char>, port: u16, limits: ResourceLimits) -> bool {
        &&& c.program@ == "sudo"@
        &&& c.args@.map_values(|a: String| a@) == spawn_args(
            self.instance_dir(u),
            self.spec_server_path(),
            u,
            port,
            limits,
        )
        &&& c.env@.map_values(|e: (String, String)| (e.0@, e.1@)) == spawn_env(limits)
    }

    /// The directory of `u`'s instance.
    pub open spec fn instance_dir(&self, u: Seq<char>) -> Seq<char> {
        self.spec_instances_dir() + "/"@ + u
    }

    /// A manager with no records.
    pub fn new(instances_dir: String, frame_server_path: String, default_limits: ResourceLimits) -> (r:
        Self)
        ensures
            r.wf(),
            r.records().len() == 0,
            r.spec_default_limits() == default_limits,
            r.spec_instances_dir() == instances_dir@,
            r.spec_server_path() == frame_server_path@,
    {
        InstanceManager { instances_dir, frame_server_path, instances: Vec::new(), default_limits }
    }

    fn index_of(&self, username: &str) -> (r: Option<usize>)
        requires
            names_unique(self.records()),
        ensures
            r is None ==> find_instance(self.records(), username@) == -1,
            r matches Some(i) ==> i < self.records().len() && i as int == find_instance(
                self.records(),
                username@,
            ),
    {
        proof {
            lemma_find_instance(self.records(), username@);
        }
        let u = username.to_owned();
        let mut i: usize = 0;
        while i < self.instances.len()
            invariant
                i <= self.instances@.len(),
                u@ == username@,
                names_unique(self.instances@),
                forall|j: int| 0 <= j < i ==> (#[trigger] self.instances@[j]).username@ != username@,
            decreases self.instances@.len() - i,
        {
            if self.instances[i].username == u {
                proof {
                    lemma_find_instance(self.instances@, username@);
                    assert(self.instances@[i as int].username@ == username@);
                }
                return Some(i);
            }
            i = i + 1;
        }
        None
    }

    fn copy_record(r: &Instance) -> (o: Instance)
        ensures
            o == *r,
    {
        Instance {
            username: r.username.clone(),
            port: r.port,
            status: r.status,
            pid: r.pid,
            memory_usage: r.memory_usage,
            cpu_usage: r.cpu_usage,
            app_count: r.app_count,
            limits: r.limits,
            started_at: r.started_at,
            last_health_check: r.last_health_check,
        }
    }

    fn set_lifecycle(
        &mut self,
        i: usize,
        status: InstanceStatus,
        port: u16,
        pid: Option<u32>,
        started_at: Option<i64>,
    )
        requires
            i < old(self).records().len(),
        ensures
            final(self).records() == old(self).records().update(
                i as int,
                with_lifecycle(old(self).records()[i as int], status, port, pid, started_at),
            ),
            final(self).spec_default_limits() == old(self).spec_default_limits(),
            final(self).spec_instances_dir() == old(self).spec_instances_dir(),
            final(self).spec_server_path() == old(self).spec_server_path(),
    {
        let r = &self.instances[i];
        let rec = Instance {
            username: r.username.clone(),
            port,
            status,
            pid,
            memory_usage: r.memory_usage,
            cpu_usage: r.cpu_usage,
            app_count: r.app_count,
            limits: r.limits,
            started_at,
            last_health_check: r.last_health_check,
        };
        self.instances.set(i, rec);
    }

    /// Puts `rec` in place of `rec.username`'s record, or adds it.
    fn upsert(&mut self, rec: Instance)
        requires
            old(self).wf(),
            record_ok(rec),
        ensures
            final(self).wf(),
            ({
                let s = old(self).records();
                let i = find_instance(s, rec.username@);
                final(self).records() == if i >= 0 {
                    s.update(i, rec)
                } else {
                    s.push(rec)
                }
            }),
            final(self).spec_default_limits() == old(self).spec_default_limits(),
            final(self).spec_instances_dir() == old(self).spec_instances_dir(),
            final(self).spec_server_path() == old(self).spec_server_path(),
    {
        let ghost s = self.instances@;
        match self.index_of(rec.username.as_str()) {
            Some(i) => {
                proof {
                    lemma_find_instance(s, rec.username@);
                    lemma_update_keeps_ok(s, i as int, rec);
                }
                self.instances.set(i, rec);
            },
            None => {
                proof {
                    lemma_find_instance(s, rec.username@);
                }
                self.instances.push(rec);
                proof {
                    let t = self.instances@;
                    assert forall|a: int, b: int| 0 <= a < b < t.len() implies t[a].username@
                        != t[b].username@ by {
                        if b == s.len() {
                            assert(t[a] == s[a]);
                        } else {
                            assert(s[a].username@ != s[b].username@);
                        }
                    }
                    assert forall|a: int| 0 <= a < t.len() implies record_ok(#[trigger] t[a]) by {
                        if a < s.len() {
                            assert(t[a] == s[a]);
                        }
                    }
                }
            },
        }
    }

    /// Records a new, stopped instance for `username` with `limits`, or the
    /// default limits when none are given. An existing record is replaced.
    pub fn create(&mut self, username: &str, limits: Option<ResourceLimits>)
        requires
            old(self).wf(),
        ensures
            final(self).wf(),
            ({
                let s = old(self).records();
                let i = find_instance(s, username@);
                let l = match limits {
                    Some(l) => l,
                    None => old(self).spec_default_limits(),
                };
                let rec = fresh_record(final(self).records()[if i >= 0 {
                    i
                } else {
                    s.len() as int
                }].username, l, 0);
                &&& rec.username@ == username@
                &&& final(self).records() == if i >= 0 {
                    s.update(i, rec)
                } else {
                    s.push(rec)
                }
            }),
            final(self).spec_default_limits() == old(self).spec_default_limits(),
    {
        let l = match limits {
            Some(l) => l,
            None => self.default_limits,
        };
        let rec = Instance {
            username: username.to_owned(),
            port: 0,
            status: InstanceStatus::Stopped,
            pid: None,
            memory_usage: 0,
            cpu_usage: 0,
            app_count: 0,
            limits: l,
            started_at: None,
            last_health_check: None,
        };
        let ghost s = self.records();
        proof {
            lemma_find_instance(s, username@);
        }
        self.upsert(rec);
    }

    /// Records an instance found on disk: stopped, with the memory limit and
    /// app cap of its own settings and the other limits from the defaults.
    pub fn load_instance(&mut self, username: &str, config: &InstanceConfig, app_count: u32)
        requires
            old(self).wf(),
        ensures
            final(self).wf(),
            ({
                let s = old(self).records();
                let i = find_instance(s, username@);
                let d = old(self).spec_default_limits();
                let l = ResourceLimits {
                    memory_mb: config.memory_limit,
                    cpu_percent: d.cpu_percent,
                    max_connections: d.max_connections,
                    max_apps: config.max_apps,
                    disk_quota_mb: d.disk_quota_mb,
                };
                let rec = fresh_record(final(self).records()[if i >= 0 {
                    i
                } else {
                    s.len() as int
                }].username, l, app_count);
                &&& rec.username@ == username@
                &&& final(self).records() == if i >= 0 {
                    s.update(i, rec)
                } else {
                    s.push(rec)
                }
            }),
            final(self).spec_default_limits() == old(self).spec_default_limits(),
    {
        let d = self.default_limits;
        let l = ResourceLimits {
            memory_mb: config.memory_limit,
            cpu_percent: d.cpu_percent,
            max_connections: d.max_connections,
            max_apps: config.max_apps,
            disk_quota_mb: d.disk_quota_mb,
        };
        let rec = Instance {
            username: username.to_owned(),
            port: 0,
            status: InstanceStatus::Stopped,
            pid: None,
            memory_usage: 0,
            cpu_usage: 0,
            app_count,
            limits: l,
            started_at: None,
            last_health_check: None,
        };
        let ghost s = self.records();
        proof {
            lemma_find_instance(s, username@);
        }
        self.upsert(rec);
    }

    /// What starting `username`'s instance on `port` needs: `None` when it is
    /// running already, else the command that spawns its process.
    pub fn start_plan(&self, username: &str, port: u16) -> (r: Result<Option<SpawnCommand>, ManagerError>)
        requires
            self.wf(),
        ensures
            ({
                let s = self.records();
                let i = find_instance(s, username@);
                if i < 0 {
                    r == Err::<Option<SpawnCommand>, ManagerError>(ManagerError::NotFound)
                } else if s[i].status == InstanceStatus::Running {
                    r matches Ok(None)
                } else if port == 0 {
                    r == Err::<Option<SpawnCommand>, ManagerError>(ManagerError::Internal)
                } else {
                    r matches Ok(Some(c)) && c.program@ == "sudo"@ && c.args@.map_values(
                        |a: String| a@,
                    ) == spawn_args(
                        self.instance_dir(username@),
                        self.spec_server_path(),
                        username@,
                        port,
                        s[i].limits,
                    ) && c.env@.map_values(|e: (String, String)| (e.0@, e.1@)) == spawn_env(
                        s[i].limits,
                    )
                }
            }),
    {
        let i = match self.index_of(username) {
            None => {
                return Err(ManagerError::NotFound);
            },
            Some(i) => i,
        };
        if self.instances[i].status == InstanceStatus::Running {
            return Ok(None);
        }
        if port == 0 {
            return Err(ManagerError::Internal);
        }
        Ok(Some(self.spawn_command(username, port, self.instances[i].limits)))
    }

    /// The command that starts `username`'s server on `port` with `limits`.
    fn spawn_command(&self, username: &str, port: u16, limits: ResourceLimits) -> (c: SpawnCommand)
        ensures
            c.program@ == "sudo"@,
            c.args@.map_values(|a: String| a@) == spawn_args(
                self.instance_dir(username@),
                self.spec_server_path(),
                username@,
                port,
                limits,
            ),
            c.env@.map_values(|e: (String, String)| (e.0@, e.1@)) == spawn_env(limits),
    {
        proof {
            reveal_strlit("sudo");
            reveal_strlit("/");
            reveal_strlit("-u");
            reveal_strlit("--port");
            reveal_strlit("--app-dir");
            reveal_strlit("/apps");
            reveal_strlit("--data-dir");
            reveal_strlit("/data");
            reveal_strlit("--memory-limit");
            reveal_strlit("FRAME_MEMORY_LIMIT_MB");
            reveal_strlit("FRAME_CPU_LIMIT_PERCENT");
            reveal_strlit("FRAME_MAX_CONNECTIONS");
        }
        let mut dir = join2(self.instances_dir.as_str(), "/");
        dir.append(username);
        let mut args: Vec<String> = Vec::new();
        args.push(String::from_str("-u"));
        args.push(username.to_owned());
        args.push(self.frame_server_path.clone());
        args.push(String::from_str("--port"));
        args.push(to_decimal(port as u64));
        args.push(String::from_str("--app-dir"));
        args.push(join2(dir.as_str(), "/apps"));
        args.push(String::from_str("--data-dir"));
        args.push(join2(dir.as_str(), "/data"));
        args.push(String::from_str("--memory-limit"));
        args.push(to_decimal(limits.memory_mb));
        let mut env: Vec<(String, String)> = Vec::new();
        env.push((String::from_str("FRAME_MEMORY_LIMIT_MB"), to_decimal(limits.memory_mb)));
        env.push((String::from_str("FRAME_CPU_LIMIT_PERCENT"), to_decimal(limits.cpu_percent as u64)));
        env.push((String::from_str("FRAME_MAX_CONNECTIONS"), to_decimal(limits.max_connections as u64)));
        proof {
            assert(args@.map_values(|a: String| a@) =~= spawn_args(
                self.instance_dir(username@),
                self.spec_server_path(),
                username@,
                port,
                limits,
            ));
            assert(env@.map_values(|e: (String, String)| (e.0@, e.1@)) =~= spawn_env(limits));
        }
        SpawnCommand { program: String::from_str("sudo"), args, env }
    }

    /// What restarting `username`'s instance on `port` needs: the stop's
    /// plan, and the command that spawns the new process once the stop has
    /// succeeded (`None` for port 0, which `start` refuses).
    pub fn restart_plan(&self, username: &str, port: u16) -> (r: Result<(StopPlan, Option<SpawnCommand>), ManagerError>)
        requires
            self.wf(),
        ensures
            ({
                let s = self.records();
                let i = find_instance(s, username@);
                if i < 0 {
                    r is Err && r->Err_0 == ManagerError::NotFound
                } else {
                    &&& r is Ok
                    &&& r->Ok_0.0 == if s[i].status == InstanceStatus::Stopped {
                        StopPlan::AlreadyStopped
                    } else {
                        match s[i].pid {
                            None => StopPlan::NoProcess,
                            Some(p) => StopPlan::Terminate(p),
                        }
                    }
                    &&& port == 0 <==> r->Ok_0.1 is None
                    &&& r->Ok_0.1 matches Some(c) ==> c.program@ == "sudo"@ && c.args@.map_values(
                        |a: String| a@,
                    ) == spawn_args(
                        self.instance_dir(username@),
                        self.spec_server_path(),
                        username@,
                        port,
                        s[i].limits,
                    ) && c.env@.map_values(|e: (String, String)| (e.0@, e.1@)) == spawn_env(
                        s[i].limits,
                    )
                }
            }),
    {
        let plan = match self.stop_plan(username) {
            Ok(p) => p,
            Err(e) => {
                return Err(e);
            },
        };
        let i = match self.index_of(username) {
            None => {
                return Err(ManagerError::NotFound);
            },
            Some(i) => i,
        };
        if port == 0 {
            return Ok((plan, None));
        }
        Ok((plan, Some(self.spawn_command(username, port, self.instances[i].limits))))
    }


    /// Starts `username`'s instance on `port`, given the id of the process
    /// that was spawned for it, or `None` when spawning failed. A running
    /// instance is left as it is. On failure the record becomes `Failed` and
    /// keeps the port.
    pub fn start(&mut self, username: &str, port: u16, spawned: Option<u32>, now: i64) -> (r: Result<
        (),
        ManagerError,
    >)
        requires
            old(self).wf(),
        ensures
            final(self).wf(),
            (final(self).records(), r) == spec_start(old(self).records(), username@, port, spawned, now),
            final(self).spec_default_limits() == old(self).spec_default_limits(),
            final(self).spec_instances_dir() == old(self).spec_instances_dir(),
            final(self).spec_server_path() == old(self).spec_server_path(),
    {
        let ghost s = self.records();
        let i = match self.index_of(username) {
            None => {
                return Err(ManagerError::NotFound);
            },
            Some(i) => i,
        };
        if self.instances[i].status == InstanceStatus::Running {
            return Ok(());
        }
        if port == 0 {
            return Err(ManagerError::Internal);
        }
        proof {
            lemma_find_instance(s, username@);
        }
        match spawned {
            Some(pid) => {
                self.set_lifecycle(i, InstanceStatus::Running, port, Some(pid), Some(now));
                proof {
                    lemma_update_keeps_ok(s, i as int, self.records()[i as int]);
                }
                Ok(())
            },
            None => {
                self.set_lifecycle(i, InstanceStatus::Failed, port, None, None);
                proof {
                    lemma_update_keeps_ok(s, i as int, self.records()[i as int]);
                }
                Err(ManagerError::SpawnFailed)
            },
        }
    }

    /// What stopping `username`'s instance needs.
    pub fn stop_plan(&self, username: &str) -> (r: Result<StopPlan, ManagerError>)
        requires
            self.wf(),
        ensures
            ({
                let s = self.records();
                let i = find_instance(s, username@);
                if i < 0 {
                    r == Err::<StopPlan, ManagerError>(ManagerError::NotFound)
                } else if s[i].status == InstanceStatus::Stopped {
                    r == Ok::<StopPlan, ManagerError>(StopPlan::AlreadyStopped)
                } else {
                    match s[i].pid {
                        None => r == Ok::<StopPlan, ManagerError>(StopPlan::NoProcess),
                        Some(p) => r == Ok::<StopPlan, ManagerError>(StopPlan::Terminate(p)),
                    }
                }
            }),
    {
        let i = match self.index_of(username) {
            None => {
                return Err(ManagerError::NotFound);
            },
            Some(i) => i,
        };
        if self.instances[i].status == InstanceStatus::Stopped {
            return Ok(StopPlan::AlreadyStopped);
        }
        match self.instances[i].pid {
            None => Ok(StopPlan::NoProcess),
            Some(p) => Ok(StopPlan::Terminate(p)),
        }
    }

    /// Stops `username`'s instance, given the outcome of shutting down its
    /// process. A stopped instance is left as it is. When the shutdown
    /// failed, the record stays `Stopping` with its process, and the error
    /// is returned.
    pub fn stop(&mut self, username: &str, signalled: Result<(), ManagerError>) -> (r: Result<
        (),
        ManagerError,
    >)
        requires
            old(self).wf(),
        ensures
            final(self).wf(),
            (final(self).records(), r) == spec_stop(old(self).records(), username@, signalled),
            final(self).spec_default_limits() == old(self).spec_default_limits(),
            final(self).spec_instances_dir() == old(self).spec_instances_dir(),
            final(self).spec_server_path() == old(self).spec_server_path(),
    {
        let ghost s = self.records();
        let i = match self.index_of(username) {
            None => {
                return Err(ManagerError::NotFound);
            },
            Some(i) => i,
        };
        if self.instances[i].status == InstanceStatus::Stopped {
            return Ok(());
        }
        proof {
            lemma_find_instance(s, username@);
        }
        let port = self.instances[i].port;
        if self.instances[i].pid.is_none() || signalled.is_ok() {
            self.set_lifecycle(i, InstanceStatus::Stopped, port, None, None);
            proof {
                lemma_update_keeps_ok(s, i as int, self.records()[i as int]);
            }
            Ok(())
        } else {
            let pid = self.instances[i].pid;
            let started = self.instances[i].started_at;
            self.set_lifecycle(i, InstanceStatus::Stopping, port, pid, started);
            proof {
                lemma_update_keeps_ok(s, i as int, self.records()[i as int]);
            }
            signalled
        }
    }

    /// Restarts `username`'s instance: a stop, and when it succeeded, a
    /// start on `port`.
    pub fn restart(
        &mut self,
        username: &str,
        port: u16,
        signalled: Result<(), ManagerError>,
        spawned: Option<u32>,
        now: i64,
    ) -> (r: Result<(), ManagerError>)
        requires
            old(self).wf(),
        ensures
            final(self).wf(),
            (final(self).records(), r) == spec_restart(
                old(self).records(),
                username@,
                port,
                signalled,
                spawned,
                now,
            ),
    {
        let stopped = self.stop(username, signalled);
        match stopped {
            Err(e) => Err(e),
            Ok(()) => self.start(username, port, spawned, now),
        }
    }

    /// Forgets the port of `username`'s instance when no process backs it;
    /// whether the record exists without a process.
    pub fn clear_port(&mut self, username: &str) -> (r: bool)
        requires
            old(self).wf(),
        ensures
            final(self).wf(),
            ({
                let s = old(self).records();
                let i = find_instance(s, username@);
                &&& r == (i >= 0 && s[i].pid is None)
                &&& r ==> final(self).records() == s.update(
                    i,
                    with_lifecycle(s[i], s[i].status, 0, s[i].pid, s[i].started_at),
                )
                &&& !r ==> final(self).records() == s
            }),
            final(self).spec_default_limits() == old(self).spec_default_limits(),
            final(self).spec_instances_dir() == old(self).spec_instances_dir(),
            final(self).spec_server_path() == old(self).spec_server_path(),
    {
        let ghost s = self.records();
        let i = match self.index_of(username) {
            None => {
                return false;
            },
            Some(i) => i,
        };
        if self.instances[i].pid.is_some() {
            return false;
        }
        proof {
            lemma_find_instance(s, username@);
        }
        let status = self.instances[i].status;
        let started = self.instances[i].started_at;
        self.set_lifecycle(i, status, 0, None, started);
        proof {
            lemma_update_keeps_ok(s, i as int, self.records()[i as int]);
        }
        true
    }

    /// A copy of `username`'s record.
    pub fn status(&self, username: &str) -> (r: Result<Instance, ManagerError>)
        requires
            self.wf(),
        ensures
            ({
                let i = find_instance(self.records(), username@);
                if i < 0 {
                    r == Err::<Instance, ManagerError>(ManagerError::NotFound)
                } else {
                    r == Ok::<Instance, ManagerError>(self.records()[i])
                }
            }),
    {
        match self.index_of(username) {
            None => Err(ManagerError::NotFound),
            Some(i) => Ok(Self::copy_record(&self.instances[i])),
        }
    }

    /// Copies of all records.
    pub fn list(&self) -> (r: Vec<Instance>)
        ensures
            r@ == self.records(),
    {
        let mut out: Vec<Instance> = Vec::new();
        let mut i: usize = 0;
        while i < self.instances.len()
            invariant
                i <= self.instances@.len(),
                out@ == self.instances@.subrange(0, i as int),
            decreases self.instances@.len() - i,
        {
            out.push(Self::copy_record(&self.instances[i]));
            i = i + 1;
            assert(out@ =~= self.instances@.subrange(0, i as int));
        }
        assert(out@ =~= self.instances@);
        out
    }

    /// Forgets `username`'s record; whether there was one.
    pub fn remove(&mut self, username: &str) -> (r: bool)
        requires
            old(self).wf(),
        ensures
            final(self).wf(),
            r == (find_instance(old(self).records(), username@) >= 0),
            r ==> final(self).records() == old(self).records().remove(
                find_instance(old(self).records(), username@),
            ),
            !r ==> final(self).records() == old(self).records(),
            final(self).spec_default_limits() == old(self).spec_default_limits(),
    {
        let ghost s = self.records();
        match self.index_of(username) {
            None => false,
            Some(i) => {
                self.instances.remove(i);
                proof {
                    let t = self.records();
                    assert forall|a: int| 0 <= a < t.len() implies #[trigger] t[a] == s[if a < i {
                        a
                    } else {
                        a + 1
                    }] by {}
                    assert forall|a: int, b: int| 0 <= a < b < t.len() implies t[a].username@
                        != t[b].username@ by {
                        let a2 = if a < i { a } else { a + 1 };
                        let b2 = if b < i { b } else { b + 1 };
                        assert(t[a] == s[a2] && t[b] == s[b2]);
                        assert(s[a2].username@ != s[b2].username@);
                    }
                    assert forall|a: int| 0 <= a < t.len() implies record_ok(#[trigger] t[a]) by {
                        let a2 = if a < i { a } else { a + 1 };
                        assert(t[a] == s[a2]);
                        assert(record_ok(s[a2]));
                    }
                }
                true
            },
        }
    }

    /// The process whose usage should be sampled for `username`, if any.
    pub fn usage_pid(&self, username: &str) -> (r: Option<u32>)
        requires
            self.wf(),
        ensures
            ({
                let i = find_instance(self.records(), username@);
                r == if i < 0 {
                    None
                } else {
                    self.records()[i].pid
                }
            }),
    {
        match self.index_of(username) {
            None => None,
            Some(i) => self.instances[i].pid,
        }
    }

    /// Stores a usage sample of `username`'s process: resident bytes, and
    /// CPU time in clock ticks, which the record keeps as hundredths of a
    /// percent, capped at 100%. Records without a process are left as they are.
    pub fn update_usage(&mut self, username: &str, memory_bytes: u64, cpu_ticks: u64, now: i64)
        requires
            old(self).wf(),
        ensures
            final(self).wf(),
            ({
                let s = old(self).records();
                let i = find_instance(s, username@);
                if i < 0 || s[i].pid is None {
                    final(self).records() == s
                } else {
                    final(self).records() == s.update(
                        i,
                        Instance {
                            username: s[i].username,
                            port: s[i].port,
                            status: s[i].status,
                            pid: s[i].pid,
                            memory_usage: memory_bytes,
                            cpu_usage: if cpu_ticks > 10000 {
                                10000
                            } else {
                                cpu_ticks as u32
                            },
                            app_count: s[i].app_count,
                            limits: s[i].limits,
                            started_at: s[i].started_at,
                            last_health_check: Some(now),
                        },
                    )
                }
            }),
            final(self).spec_default_limits() == old(self).spec_default_limits(),
    {
        let ghost s = self.records();
        let i = match self.index_of(username) {
            None => {
                return;
            },
            Some(i) => i,
        };
        if self.instances[i].pid.is_none() {
            return;
        }
        proof {
            lemma_find_instance(s, username@);
        }
        let cpu: u32 = if cpu_ticks > 10000 {
            10000
        } else {
            cpu_ticks as u32
        };
        let r = &self.instances[i];
        let rec = Instance {
            username: r.username.clone(),
            port: r.port,
            status: r.status,
            pid: r.pid,
            memory_usage: memory_bytes,
            cpu_usage: cpu,
            app_count: r.app_count,
            limits: r.limits,
            started_at: r.started_at,
            last_health_check: Some(now),
        };
        self.instances.set(i, rec);
        proof {
            lemma_update_keeps_ok(s, i as int, self.records()[i as int]);
        }
    }

    /// Whether `username`'s instance is running and `is_running` reports its
    /// process alive.
    pub fn is_healthy<F: Fn(u32) -> bool>(&self, username: &str, is_running: F) -> (r: bool)
        requires
            self.wf(),
            forall|p: u32| is_running.requires((p,)),
        ensures
            ({
                let s = self.records();
                let i = find_instance(s, username@);
                if i >= 0 && s[i].status == InstanceStatus::Running {
                    is_running.ensures((s[i].pid->Some_0,), r)
                } else {
                    !r
                }
            }),
    {
        match self.index_of(username) {
            None => false,
            Some(i) => {
                if self.instances[i].status != InstanceStatus::Running {
                    return false;
                }
                match self.instances[i].pid {
                    Some(p) => is_running(p),
                    None => false,
                }
            },
        }
    }

    /// Number of running instances.
    pub fn running_count(&self) -> (r: usize)
        ensures
            r == count_running(self.records()),
    {
        let mut n: usize = 0;
        let mut i: usize = 0;
        while i < self.instances.len()
            invariant
                i <= self.instances@.len(),
                n == count_running(self.instances@.subrange(0, i as int)),
                n <= i,
            decreases self.instances@.len() - i,
        {
            proof {
                assert(self.instances@.subrange(0, i + 1).drop_last() =~= self.instances@.subrange(
                    0,
                    i as int,
                ));
            }
            if self.instances[i].status == InstanceStatus::Running {
                n = n + 1;
            }
            i = i + 1;
        }
        assert(self.instances@.subrange(0, i as int) =~= self.instances@);
        n
    }

    /// Number of records.
    pub fn total_count(&self) -> (r: usize)
        ensures
            r == self.records().len(),
    {
        self.instances.len()
    }
}

/// In every table reachable by the lifecycle operations, a running instance
/// has a process and a non-zero port, and a stopped or failed one has no
/// process.
pub proof fn lemma_running_has_process(m: InstanceManager, u: Seq<char>)
    requires
        m.wf(),
    ensures
        ({
            let i = find_instance(m.records(), u);
            &&& i >= 0 && m.records()[i].status == InstanceStatus::Running ==> m.records()[i].pid is Some
                && m.records()[i].port != 0
            &&& i >= 0 && (m.records()[i].status == InstanceStatus::Stopped || m.records()[i].status
                == InstanceStatus::Failed) ==> m.records()[i].pid is None
        }),
{
    lemma_find_instance(m.records(), u);
    let i = find_instance(m.records(), u);
    if i >= 0 {
        assert(record_ok(m.records()[i]));
    }
}

/// Starting a running instance changes nothing and succeeds, whatever the
/// spawn outcome handed in.
pub proof fn lemma_start_idempotent(
    s: Seq<Instance>,
    u: Seq<char>,
    port: u16,
    spawned: Option<u32>,
    now: i64,
)
    requires
        find_instance(s, u) >= 0,
        s[find_instance(s, u)].status == InstanceStatus::Running,
    ensures
        spec_start(s, u, port, spawned, now) == (s, Ok::<(), ManagerError>(())),
{
}

/// Stopping a stopped instance changes nothing and succeeds, whatever the
/// shutdown outcome handed in.
pub proof fn lemma_stop_idempotent(s: Seq<Instance>, u: Seq<char>, signalled: Result<(), ManagerError>)
    requires
        find_instance(s, u) >= 0,
        s[find_instance(s, u)].status == InstanceStatus::Stopped,
    ensures
        spec_stop(s, u, signalled) == (s, Ok::<(), ManagerError>(())),
{
}

/// A restart is a stop followed by a start: when the stop succeeds, the
/// result is that of starting the stopped instance; a running instance whose
/// process shut down and whose new process started is running again, on the
/// given port, with the new process.
pub proof fn lemma_restart_is_stop_then_start(
    s: Seq<Instance>,
    u: Seq<char>,
    port: u16,
    signalled: Result<(), ManagerError>,
    spawned: Option<u32>,
    now: i64,
)
    requires
        table_ok(s),
    ensures
        ({
            let (s1, r1) = spec_stop(s, u, signalled);
            r1 is Ok ==> spec_restart(s, u, port, signalled, spawned, now) == spec_start(
                s1,
                u,
                port,
                spawned,
                now,
            )
        }),
        ({
            let i = find_instance(s, u);
            let (s2, r2) = spec_restart(s, u, port, signalled, spawned, now);
            i >= 0 && s[i].status == InstanceStatus::Running && signalled is Ok && port != 0
                && spawned is Some ==> r2 is Ok && s2[i].status == InstanceStatus::Running && s2[i].pid
                == spawned && s2[i].port == port && s2[i].username == s[i].username
        }),
{
    lemma_find_instance(s, u);
    let i = find_instance(s, u);
    if i >= 0 {
        let (s1, r1) = spec_stop(s, u, signalled);
        if s[i].status != InstanceStatus::Stopped && r1 is Ok {
            lemma_find_instance(s1, u);
            assert(s1[i].username@ == u);
            assert(names_unique(s1)) by {
                assert forall|a: int, b: int| 0 <= a < b < s1.len() implies s1[a].username@
                    != s1[b].username@ by {
                    assert(s[a].username@ != s[b].username@);
                }
            }
            assert(find_instance(s1, u) == i);
        }
    }
}

} // verus!
