//! Lifecycle events, their envelope, and how each maps to a hook script and
//! its environment.

use vstd::prelude::*;
use vstd::string::StringExecFns;
use crate::text::{decimal, join2, signed_decimal, to_decimal, to_signed_decimal};

verus! {

/// Something that happened to the service or an instance.
#[derive(Debug, Clone)]
pub enum Event {
    InstanceStarted { username: String, port: u16, apps: Vec<String> },
    InstanceStopped { username: String },
    InstanceCrashed { username: String, exit_code: Option<i32>, reason: String },
    AppDeployed { username: String, app_name: String },
    AppRemoved { username: String, app_name: String },
    ResourceLimitReached { username: String, resource: String, current: u64, limit: u64 },
    HealthCheckFailed { username: String, check_name: String, message: String },
    ConfigReloaded,
    ServiceStarted,
    ServiceStopped,
}

/// The dotted name of an event's kind, for logs.
pub open spec fn spec_event_name(e: Event) -> Seq<char> {
    match e {
        Event::InstanceStarted { .. } => "instance.started"@,
        Event::InstanceStopped { .. } => "instance.stopped"@,
        Event::InstanceCrashed { .. } => "instance.crashed"@,
        Event::AppDeployed { .. } => "app.deployed"@,
        Event::AppRemoved { .. } => "app.removed"@,
        Event::ResourceLimitReached { .. } => "resource.limit_reached"@,
        Event::HealthCheckFailed { .. } => "health_check.failed"@,
        Event::ConfigReloaded => "config.reloaded"@,
        Event::ServiceStarted => "service.started"@,
        Event::ServiceStopped => "service.stopped"@,
    }
}

/// The script that runs for an event's kind.
pub open spec fn spec_hook_name(e: Event) -> Seq<char> {
    match e {
        Event::InstanceStarted { .. } => "on_instance_started"@,
        Event::InstanceStopped { .. } => "on_instance_stopped"@,
        Event::InstanceCrashed { .. } => "on_instance_crashed"@,
        Event::AppDeployed { .. } => "on_app_deployed"@,
        Event::AppRemoved { .. } => "on_app_removed"@,
        Event::ResourceLimitReached { .. } => "on_resource_limit"@,
        Event::HealthCheckFailed { .. } => "on_health_check_failed"@,
        Event::ConfigReloaded => "on_config_reloaded"@,
        Event::ServiceStarted => "on_service_started"@,
        Event::ServiceStopped => "on_service_stopped"@,
    }
}

/// Names joined with commas.
pub open spec fn comma_joined(s: Seq<String>) -> Seq<char>
    decreases s.len(),
{
    if s.len() == 0 {
        Seq::empty()
    } else if s.len() == 1 {
        s[0]@
    } else {
        comma_joined(s.drop_last()) + ","@ + s.last()@
    }
}

/// The environment a hook script receives for an event.
pub open spec fn event_env(e: Event) -> Seq<(Seq<char>, Seq<char>)> {
    match e {
        Event::InstanceStarted { username, port, apps } => seq![
            ("FRAME_USERNAME"@, username@),
            ("FRAME_PORT"@, decimal(port as nat)),
            ("FRAME_APPS"@, comma_joined(apps@)),
        ],
        Event::InstanceStopped { username } => seq![("FRAME_USERNAME"@, username@)],
        Event::InstanceCrashed { username, exit_code, reason } => match exit_code {
            Some(c) => seq![
                ("FRAME_USERNAME"@, username@),
                ("FRAME_EXIT_CODE"@, signed_decimal(c as int)),
                ("FRAME_REASON"@, reason@),
            ],
            None => seq![("FRAME_USERNAME"@, username@), ("FRAME_REASON"@, reason@)],
        },
        Event::AppDeployed { username, app_name } => seq![
            ("FRAME_USERNAME"@, username@),
            ("FRAME_APP_NAME"@, app_name@),
        ],
        Event::AppRemoved { username, app_name } => seq![
            ("FRAME_USERNAME"@, username@),
            ("FRAME_APP_NAME"@, app_name@),
        ],
        Event::ResourceLimitReached { username, resource, current, limit } => seq![
            ("FRAME_USERNAME"@, username@),
            ("FRAME_RESOURCE"@, resource@),
            ("FRAME_CURRENT"@, decimal(current as nat)),
            ("FRAME_LIMIT"@, decimal(limit as nat)),
        ],
        Event::HealthCheckFailed { username, check_name, message } => seq![
            ("FRAME_USERNAME"@, username@),
            ("FRAME_CHECK_NAME"@, check_name@),
            ("FRAME_MESSAGE"@, message@),
        ],
        _ => Seq::empty(),
    }
}

/// Environment pairs as character sequences.
pub open spec fn env_view(v: Seq<(String, String)>) -> Seq<(Seq<char>, Seq<char>)> {
    v.map_values(|p: (String, String)| (p.0@, p.1@))
}

/// The dotted name of an event's kind, for logs.
pub fn event_name(event: &Event) -> (r: &'static str)
    ensures
        r@ == spec_event_name(*event),
{
    proof {
        reveal_strlit("instance.started");
        reveal_strlit("instance.stopped");
        reveal_strlit("instance.crashed");
        reveal_strlit("app.deployed");
        reveal_strlit("app.removed");
        reveal_strlit("resource.limit_reached");
        reveal_strlit("health_check.failed");
        reveal_strlit("config.reloaded");
        reveal_strlit("service.started");
        reveal_strlit("service.stopped");
    }
    match event {
        Event::InstanceStarted { .. } => "instance.started",
        Event::InstanceStopped { .. } => "instance.stopped",
        Event::InstanceCrashed { .. } => "instance.crashed",
        Event::AppDeployed { .. } => "app.deployed",
        Event::AppRemoved { .. } => "app.removed",
        Event::ResourceLimitReached { .. } => "resource.limit_reached",
        Event::HealthCheckFailed { .. } => "health_check.failed",
        Event::ConfigReloaded => "config.reloaded",
        Event::ServiceStarted => "service.started",
        Event::ServiceStopped => "service.stopped",
    }
}

/// The names joined with commas.
pub fn join_commas(names: &Vec<String>) -> (r: String)
    ensures
        r@ == comma_joined(names@),
{
    proof {
        reveal_strlit(",");
    }
    let mut out = String::new();
    let mut i: usize = 0;
    while i < names.len()
        invariant
            i <= names@.len(),
            out@ == comma_joined(names@.subrange(0, i as int)),
        decreases names@.len() - i,
    {
        if i > 0 {
            out.append(",");
        }
        out.append(names[i].as_str());
        proof {
            let s = names@.subrange(0, i + 1);
            assert(s.drop_last() =~= names@.subrange(0, i as int));
            assert(out@ =~= comma_joined(s));
        }
        i = i + 1;
    }
    assert(names@.subrange(0, i as int) =~= names@);
    out
}

/// An event with the time it was emitted and free-form metadata.
#[derive(Debug, Clone)]
pub struct EventEnvelope {
    pub event: Event,
    /// Seconds since the Unix epoch.
    pub timestamp: i64,
    pub metadata: Vec<(String, String)>,
}

impl EventEnvelope {
    /// The envelope of `event` emitted at `timestamp`, without metadata.
    pub fn new(event: Event, timestamp: i64) -> (r: Self)
        ensures
            r.event == event,
            r.timestamp == timestamp,
            r.metadata@.len() == 0,
    {
        EventEnvelope { event, timestamp, metadata: Vec::new() }
    }

    /// The envelope with metadata `key` set to `value`, replacing an earlier
    /// value of that key.
    pub fn with_metadata(self, key: &str, value: &str) -> (r: Self)
        ensures
            r.event == self.event,
            r.timestamp == self.timestamp,
            ({
                let m = self.metadata@;
                let k = key_position(m, key@);
                env_view(r.metadata@) == if k >= 0 {
                    env_view(m).update(k, (key@, value@))
                } else {
                    env_view(m).push((key@, value@))
                }
            }),
    {
        let mut out = self;
        let k = key.to_owned();
        let ghost m = out.metadata@;
        let mut i: usize = 0;
        while i < out.metadata.len()
            invariant
                out.metadata@ == m,
                k@ == key@,
                i <= m.len(),
                forall|j: int| 0 <= j < i ==> (#[trigger] m[j]).0@ != key@,
            ensures
                i <= m.len(),
                i < m.len() ==> m[i as int].0@ == key@,
                forall|j: int| 0 <= j < i ==> (#[trigger] m[j]).0@ != key@,
            decreases m.len() - i,
        {
            if out.metadata[i].0 == k {
                break;
            }
            i = i + 1;
        }
        proof {
            lemma_key_position(m, key@, i as int);
        }
        if i < out.metadata.len() {
            out.metadata.set(i, (k, value.to_owned()));
        } else {
            out.metadata.push((k, value.to_owned()));
        }
        assert(env_view(out.metadata@) =~= if i < m.len() {
            env_view(m).update(i as int, (key@, value@))
        } else {
            env_view(m).push((key@, value@))
        });
        out
    }
}

/// Position of the first pair with key `k`, or -1.
pub open spec fn key_position(m: Seq<(String, String)>, k: Seq<char>) -> int
    decreases m.len(),
{
    if m.len() == 0 {
        -1
    } else {
        let r = key_position(m.drop_last(), k);
        if r >= 0 {
            r
        } else if m.last().0@ == k {
            m.len() - 1
        } else {
            -1
        }
    }
}

proof fn lemma_key_position(m: Seq<(String, String)>, k: Seq<char>, i: int)
    requires
        0 <= i <= m.len(),
        i < m.len() ==> m[i].0@ == k,
        forall|j: int| 0 <= j < i ==> (#[trigger] m[j]).0@ != k,
    ensures
        key_position(m, k) == if i < m.len() {
            i
        } else {
            -1
        },
    decreases m.len(),
{
    if m.len() > 0 {
        let d = m.drop_last();
        assert forall|j: int| 0 <= j < d.len() implies d[j] == m[j] by {}
        if i < m.len() - 1 {
            lemma_key_position(d, k, i);
        } else {
            lemma_key_position(d, k, d.len() as int);
        }
    }
}

/// Runs the hook script of each event, from a directory of scripts.
#[derive(Debug, Clone)]
pub struct HookExecutor {
    hooks_dir: String,
}

impl HookExecutor {
    pub closed spec fn spec_hooks_dir(&self) -> Seq<char> {
        self.hooks_dir@
    }

    /// An executor of the scripts in `hooks_dir`.
    pub fn new(hooks_dir: String) -> (r: Self)
        ensures
            r.spec_hooks_dir() == hooks_dir@,
    {
        HookExecutor { hooks_dir }
    }

    /// The script name of an event's kind.
    pub fn hook_name(event: &Event) -> (r: &'static str)
        ensures
            r@ == spec_hook_name(*event),
    {
        proof {
            reveal_strlit("on_instance_started");
            reveal_strlit("on_instance_stopped");
            reveal_strlit("on_instance_crashed");
            reveal_strlit("on_app_deployed");
            reveal_strlit("on_app_removed");
            reveal_strlit("on_resource_limit");
            reveal_strlit("on_health_check_failed");
            reveal_strlit("on_config_reloaded");
            reveal_strlit("on_service_started");
            reveal_strlit("on_service_stopped");
        }
        match event {
            Event::InstanceStarted { .. } => "on_instance_started",
            Event::InstanceStopped { .. } => "on_instance_stopped",
            Event::InstanceCrashed { .. } => "on_instance_crashed",
            Event::AppDeployed { .. } => "on_app_deployed",
            Event::AppRemoved { .. } => "on_app_removed",
            Event::ResourceLimitReached { .. } => "on_resource_limit",
            Event::HealthCheckFailed { .. } => "on_health_check_failed",
            Event::ConfigReloaded => "on_config_reloaded",
            Event::ServiceStarted => "on_service_started",
            Event::ServiceStopped => "on_service_stopped",
        }
    }

    /// The path of the script that runs for `event`.
    pub fn hook_path(&self, event: &Event) -> (r: String)
        ensures
            r@ == self.spec_hooks_dir() + "/"@ + spec_hook_name(*event),
    {
        proof {
            reveal_strlit("/");
        }
        let mut p = join2(self.hooks_dir.as_str(), "/");
        p.append(Self::hook_name(event));
        p
    }

    /// The environment variables that carry an event's fields to its script:
    /// only those the event's kind has.
    pub fn event_to_env(&self, event: &Event) -> (r: Vec<(String, String)>)
        ensures
            env_view(r@) == event_env(*event),
    {
        proof {
            reveal_strlit("FRAME_USERNAME");
            reveal_strlit("FRAME_PORT");
            reveal_strlit("FRAME_APPS");
            reveal_strlit("FRAME_EXIT_CODE");
            reveal_strlit("FRAME_REASON");
            reveal_strlit("FRAME_APP_NAME");
            reveal_strlit("FRAME_RESOURCE");
            reveal_strlit("FRAME_CURRENT");
            reveal_strlit("FRAME_LIMIT");
            reveal_strlit("FRAME_CHECK_NAME");
            reveal_strlit("FRAME_MESSAGE");
        }
        let mut env: Vec<(String, String)> = Vec::new();
        match event {
            Event::InstanceStarted { username, port, apps } => {
                env.push((String::from_str("FRAME_USERNAME"), username.clone()));
                env.push((String::from_str("FRAME_PORT"), to_decimal(*port as u64)));
                env.push((String::from_str("FRAME_APPS"), join_commas(apps)));
            },
            Event::InstanceStopped { username } => {
                env.push((String::from_str("FRAME_USERNAME"), username.clone()));
            },
            Event::InstanceCrashed { username, exit_code, reason } => {
                env.push((String::from_str("FRAME_USERNAME"), username.clone()));
                if let Some(code) = exit_code {
                    env.push((String::from_str("FRAME_EXIT_CODE"), to_signed_decimal(*code)));
                }
                env.push((String::from_str("FRAME_REASON"), reason.clone()));
            },
            Event::AppDeployed { username, app_name } => {
                env.push((String::from_str("FRAME_USERNAME"), username.clone()));
                env.push((String::from_str("FRAME_APP_NAME"), app_name.clone()));
            },
            Event::AppRemoved { username, app_name } => {
                env.push((String::from_str("FRAME_USERNAME"), username.clone()));
                env.push((String::from_str("FRAME_APP_NAME"), app_name.clone()));
            },
            Event::ResourceLimitReached { username, resource, current, limit } => {
                env.push((String::from_str("FRAME_USERNAME"), username.clone()));
                env.push((String::from_str("FRAME_RESOURCE"), resource.clone()));
                env.push((String::from_str("FRAME_CURRENT"), to_decimal(*current)));
                env.push((String::from_str("FRAME_LIMIT"), to_decimal(*limit)));
            },
            Event::HealthCheckFailed { username, check_name, message } => {
                env.push((String::from_str("FRAME_USERNAME"), username.clone()));
                env.push((String::from_str("FRAME_CHECK_NAME"), check_name.clone()));
                env.push((String::from_str("FRAME_MESSAGE"), message.clone()));
            },
            _ => {},
        }
        assert(env_view(env@) =~= event_env(*event));
        env
    }
}

} // verus!
