//! Health probes of running instances and the record of their outcomes:
//! consecutive failures, and when they call for a restart.

use vstd::prelude::*;
use vstd::string::{StrSliceExecFns, StringExecFns};
use crate::instance::{Instance, InstanceStatus};
use crate::text::{decimal, join2, push_decimal};

verus! {

/// Consecutive failed probe sets after which an instance is restarted.
pub const FAILURE_THRESHOLD: u32 = 3;

/// Seconds the port probe waits for a connection.
pub const PORT_PROBE_TIMEOUT_SECS: u64 = 2;

/// Seconds the HTTP probe waits for a connection.
pub const HTTP_PROBE_TIMEOUT_SECS: u64 = 5;

/// Path that the HTTP probe requests.
pub const HEALTH_PATH: &'static str = "/health";

/// What a health check probes.
#[derive(Debug, Clone, PartialEq, Eq)]
pub enum CheckType {
    /// That the process is alive.
    Process(u32),
    /// That the port accepts connections.
    Port(u16),
    /// That the port answers an HTTP request for the path with a 2xx status.
    Http(u16, String),
    /// That the process's resident memory stays within the limit in bytes.
    Memory(u32, u64),
}

/// One health check.
#[derive(Debug, Clone)]
pub struct HealthCheck {
    pub check_type: CheckType,
}

/// What a caller observed when it carried out a check.
#[derive(Debug)]
pub enum Observation {
    /// Whether the process is alive.
    Alive(bool),
    /// Whether a connection was made; the error text when not.
    Connected(Result<(), String>),
    /// The HTTP exchange.
    Http(HttpExchange),
    /// The resident memory in bytes, or the error text of reading it.
    Resident(Result<u64, String>),
}

/// The outcome of sending one HTTP request.
#[derive(Debug, Clone)]
pub enum HttpExchange {
    /// No connection; the error text.
    ConnectFailed(String),
    /// The request could not be written.
    SendFailed,
    /// The response could not be read.
    ReadFailed,
    /// The whole response text.
    Response(String),
}

/// The result of one health check.
#[derive(Debug, Clone)]
pub struct HealthCheckResult {
    pub check_name: String,
    pub passed: bool,
    pub message: String,
    pub duration_ms: u64,
    /// Seconds since the Unix epoch.
    pub timestamp: i64,
}

/// Whether an HTTP response reports success.
pub open spec fn status_ok(response: Seq<char>) -> bool {
    "HTTP/1.1 2"@.is_prefix_of(response) || "HTTP/1.0 2"@.is_prefix_of(response)
}

/// The request that the HTTP probe sends for `path`.
pub open spec fn http_request_text(path: Seq<char>) -> Seq<char> {
    "GET "@ + path + " HTTP/1.1\r\nHost: localhost\r\nConnection: close\r\n\r\n"@
}

/// Position of the first newline in `s`, or its length.
pub open spec fn line_end(s: Seq<char>) -> int
    decreases s.len(),
{
    if s.len() == 0 {
        0
    } else if s[0] == '\n' {
        0
    } else {
        1 + line_end(s.subrange(1, s.len() as int))
    }
}

/// The first line of `s` without its line ending, or "unknown" when `s` is empty.
pub open spec fn first_line(s: Seq<char>) -> Seq<char> {
    if s.len() == 0 {
        "unknown"@
    } else {
        let l = s.subrange(0, line_end(s));
        if l.len() > 0 && l.last() == '\r' {
            l.drop_last()
        } else {
            l
        }
    }
}

/// The address that the HTTP probe names in its messages.
pub open spec fn probe_url(port: u16, path: Seq<char>) -> Seq<char> {
    "http://127.0.0.1:"@ + decimal(port as nat) + path
}

/// Name, verdict and message of a check given what was observed.
pub open spec fn spec_evaluate(check: CheckType, obs: Observation) -> Option<(Seq<char>, bool, Seq<char>)> {
    match (check, obs) {
        (CheckType::Process(pid), Observation::Alive(alive)) => Some(
            (
                "process"@,
                alive,
                "Process "@ + decimal(pid as nat) + if alive {
                    " is running"@
                } else {
                    " is not running"@
                },
            ),
        ),
        (CheckType::Port(port), Observation::Connected(c)) => Some(
            (
                "port"@,
                c is Ok,
                "Port "@ + decimal(port as nat) + match c {
                    Ok(_) => " is accepting connections"@,
                    Err(e) => " is not accessible: "@ + e@,
                },
            ),
        ),
        (CheckType::Http(port, path), Observation::Http(x)) => {
            let url = probe_url(port, path@);
            Some(
                match x {
                    HttpExchange::ConnectFailed(e) => (
                        "http"@,
                        false,
                        "Failed to connect to "@ + url + ": "@ + e@,
                    ),
                    HttpExchange::SendFailed => (
                        "http"@,
                        false,
                        "Failed to send HTTP request to "@ + url,
                    ),
                    HttpExchange::ReadFailed => (
                        "http"@,
                        false,
                        "Failed to read HTTP response from "@ + url,
                    ),
                    HttpExchange::Response(resp) => if status_ok(resp@) {
                        ("http"@, true, "HTTP endpoint "@ + url + " responded with success"@)
                    } else {
                        (
                            "http"@,
                            false,
                            "HTTP endpoint "@ + url + " responded with: "@ + first_line(resp@),
                        )
                    },
                },
            )
        },
        (CheckType::Memory(_pid, limit), Observation::Resident(m)) => Some(
            match m {
                Ok(bytes) => (
                    "memory"@,
                    bytes <= limit,
                    "Memory usage "@ + decimal(bytes as nat / 1048576) + if bytes <= limit {
                        " MB is within limit "@
                    } else {
                        " MB exceeds limit "@
                    } + decimal(limit as nat / 1048576) + " MB"@,
                ),
                Err(e) => ("memory"@, false, "Failed to read memory info: "@ + e@),
            },
        ),
        _ => None,
    }
}

/// Whether `p` begins `s`.
fn has_prefix(s: &str, p: &str) -> (r: bool)
    ensures
        r == p@.is_prefix_of(s@),
{
    let n = p.unicode_len();
    if n > s.unicode_len() {
        return false;
    }
    let mut i: usize = 0;
    while i < n
        invariant
            n == p@.len(),
            n <= s@.len(),
            i <= n,
            forall|j: int| 0 <= j < i ==> p@[j] == s@[j],
        decreases n - i,
    {
        if p.get_char(i) != s.get_char(i) {
            return false;
        }
        i = i + 1;
    }
    assert(p@ =~= s@.subrange(0, n as int));
    true
}

/// Whether an HTTP response's status line reports success.
pub fn http_status_ok(response: &str) -> (r: bool)
    ensures
        r == status_ok(response@),
{
    proof {
        reveal_strlit("HTTP/1.1 2");
        reveal_strlit("HTTP/1.0 2");
    }
    has_prefix(response, "HTTP/1.1 2") || has_prefix(response, "HTTP/1.0 2")
}

/// The request that the HTTP probe sends for `path`.
pub fn http_request(path: &str) -> (r: String)
    ensures
        r@ == http_request_text(path@),
{
    proof {
        reveal_strlit("GET ");
        reveal_strlit(" HTTP/1.1\r\nHost: localhost\r\nConnection: close\r\n\r\n");
    }
    let mut s = join2("GET ", path);
    s.append(" HTTP/1.1\r\nHost: localhost\r\nConnection: close\r\n\r\n");
    s
}

proof fn lemma_line_end(s: Seq<char>)
    ensures
        0 <= line_end(s) <= s.len(),
        line_end(s) < s.len() ==> s[line_end(s)] == '\n',
        forall|j: int| 0 <= j < line_end(s) ==> s[j] != '\n',
    decreases s.len(),
{
    if s.len() > 0 && s[0] != '\n' {
        let t = s.subrange(1, s.len() as int);
        lemma_line_end(t);
        assert forall|j: int| 0 <= j < line_end(s) implies s[j] != '\n' by {
            if j > 0 {
                assert(s[j] == t[j - 1]);
            }
        }
    }
}

proof fn lemma_line_end_first(s: Seq<char>, k: int)
    requires
        0 <= k <= s.len(),
        k < s.len() ==> s[k] == '\n',
        forall|j: int| 0 <= j < k ==> s[j] != '\n',
    ensures
        line_end(s) == k,
    decreases s.len(),
{
    if s.len() > 0 && s[0] != '\n' {
        let t = s.subrange(1, s.len() as int);
        assert forall|j: int| 0 <= j < k - 1 implies t[j] != '\n' by {
            assert(t[j] == s[j + 1]);
        }
        lemma_line_end_first(t, k - 1);
    }
}

/// The first line of a response, for messages.
pub fn status_line(response: &str) -> (r: String)
    ensures
        r@ == first_line(response@),
{
    let n = response.unicode_len();
    if n == 0 {
        proof {
            reveal_strlit("unknown");
        }
        return String::from_str("unknown");
    }
    let mut k: usize = 0;
    while k < n && response.get_char(k) != '\n'
        invariant
            n == response@.len(),
            k <= n,
            forall|j: int| 0 <= j < k ==> response@[j] != '\n',
        decreases n - k,
    {
        k = k + 1;
    }
    proof {
        lemma_line_end_first(response@, k as int);
    }
    let mut end = k;
    if end > 0 && response.get_char(end - 1) == '\r' {
        end = end - 1;
    }
    String::from_str(response.substring_char(0, end))
}

impl HealthCheck {
    /// A check that the process is alive.
    pub fn process(pid: u32) -> (r: Self)
        ensures
            r.check_type == CheckType::Process(pid),
    {
        HealthCheck { check_type: CheckType::Process(pid) }
    }

    /// A check that the port accepts connections.
    pub fn port(port: u16) -> (r: Self)
        ensures
            r.check_type == CheckType::Port(port),
    {
        HealthCheck { check_type: CheckType::Port(port) }
    }

    /// A check that the port answers a request for `path` with a 2xx status.
    pub fn http(port: u16, path: &str) -> (r: Self)
        ensures
            r.check_type matches CheckType::Http(p, s) && p == port && s@ == path@,
    {
        HealthCheck { check_type: CheckType::Http(port, path.to_owned()) }
    }

    /// A check that resident memory stays within `limit_bytes`.
    pub fn memory(pid: u32, limit_bytes: u64) -> (r: Self)
        ensures
            r.check_type == CheckType::Memory(pid, limit_bytes),
    {
        HealthCheck { check_type: CheckType::Memory(pid, limit_bytes) }
    }

    /// The result of this check given what was observed, how long it took
    /// and when it ran; `None` when the observation is of another kind.
    pub fn evaluate(&self, obs: Observation, duration_ms: u64, timestamp: i64) -> (r: Option<HealthCheckResult>)
        ensures
            match spec_evaluate(self.check_type, obs) {
                None => r is None,
                Some((name, passed, message)) => r matches Some(x) && x.check_name@ == name
                    && x.passed == passed && x.message@ == message && x.duration_ms == duration_ms
                    && x.timestamp == timestamp,
            },
    {
        proof {
            reveal_strlit("process");
            reveal_strlit("Process ");
            reveal_strlit(" is running");
            reveal_strlit(" is not running");
            reveal_strlit("port");
            reveal_strlit("Port ");
            reveal_strlit(" is accepting connections");
            reveal_strlit(" is not accessible: ");
            reveal_strlit("http");
            reveal_strlit("http://127.0.0.1:");
            reveal_strlit("Failed to connect to ");
            reveal_strlit(": ");
            reveal_strlit("Failed to send HTTP request to ");
            reveal_strlit("Failed to read HTTP response from ");
            reveal_strlit("HTTP endpoint ");
            reveal_strlit(" responded with success");
            reveal_strlit(" responded with: ");
            reveal_strlit("memory");
            reveal_strlit("Memory usage ");
            reveal_strlit(" MB is within limit ");
            reveal_strlit(" MB exceeds limit ");
            reveal_strlit(" MB");
            reveal_strlit("Failed to read memory info: ");
        }
        let (name, passed, message): (&str, bool, String) = match (&self.check_type, &obs) {
            (CheckType::Process(pid), Observation::Alive(alive)) => {
                let mut m = String::from_str("Process ");
                push_decimal(&mut m, *pid as u64);
                if *alive {
                    m.append(" is running");
                } else {
                    m.append(" is not running");
                }
                ("process", *alive, m)
            },
            (CheckType::Port(port), Observation::Connected(c)) => {
                let mut m = String::from_str("Port ");
                push_decimal(&mut m, *port as u64);
                match c {
                    Ok(_) => {
                        m.append(" is accepting connections");
                    },
                    Err(e) => {
                        m.append(" is not accessible: ");
                        m.append(e.as_str());
                    },
                }
                ("port", c.is_ok(), m)
            },
            (CheckType::Http(port, path), Observation::Http(x)) => {
                let mut url = String::from_str("http://127.0.0.1:");
                push_decimal(&mut url, *port as u64);
                url.append(path.as_str());
                match x {
                    HttpExchange::ConnectFailed(e) => {
                        let mut m = join2("Failed to connect to ", url.as_str());
                        m.append(": ");
                        m.append(e.as_str());
                        ("http", false, m)
                    },
                    HttpExchange::SendFailed => {
                        ("http", false, join2("Failed to send HTTP request to ", url.as_str()))
                    },
                    HttpExchange::ReadFailed => {
                        ("http", false, join2("Failed to read HTTP response from ", url.as_str()))
                    },
                    HttpExchange::Response(resp) => {
                        let mut m = join2("HTTP endpoint ", url.as_str());
                        if http_status_ok(resp.as_str()) {
                            m.append(" responded with success");
                            ("http", true, m)
                        } else {
                            m.append(" responded with: ");
                            let line = status_line(resp.as_str());
                            m.append(line.as_str());
                            ("http", false, m)
                        }
                    },
                }
            },
            (CheckType::Memory(_pid, limit), Observation::Resident(res)) => {
                match res {
                    Ok(bytes) => {
                        let mut m = String::from_str("Memory usage ");
                        push_decimal(&mut m, *bytes / 1048576);
                        let ok = *bytes <= *limit;
                        if ok {
                            m.append(" MB is within limit ");
                        } else {
                            m.append(" MB exceeds limit ");
                        }
                        push_decimal(&mut m, *limit / 1048576);
                        m.append(" MB");
                        ("memory", ok, m)
                    },
                    Err(e) => {
                        ("memory", false, join2("Failed to read memory info: ", e.as_str()))
                    },
                }
            },
            _ => {
                return None;
            },
        };
        let ghost spec = spec_evaluate(self.check_type, obs);
        assert(spec matches Some(t) && message@ =~= t.2);
        Some(
            HealthCheckResult {
                check_name: String::from_str(name),
                passed,
                message,
                duration_ms,
                timestamp,
            },
        )
    }
}

/// The health record of one instance.
#[derive(Debug)]
pub struct HealthStatus {
    pub username: String,
    /// Whether every check of the last probe set passed.
    pub healthy: bool,
    /// The results of the last probe set.
    pub checks: Vec<HealthCheckResult>,
    /// When the last probe set ran, in seconds since the Unix epoch.
    pub last_check: i64,
    /// Failed probe sets since the last pass or restart.
    pub consecutive_failures: u32,
}

/// Every check passed.
pub open spec fn all_passed(checks: Seq<HealthCheckResult>) -> bool {
    forall|i: int| 0 <= i < checks.len() ==> (#[trigger] checks[i]).passed
}

/// The failure count after a probe set, given the count before it: a pass
/// resets it, a failure adds one, and reaching the threshold (which
/// triggers a restart) resets it too.
pub open spec fn failures_after(prev: u32, passed: bool) -> u32 {
    if passed || prev + 1 >= FAILURE_THRESHOLD {
        0
    } else {
        (prev + 1) as u32
    }
}

/// Whether a failed probe set brings the count to the threshold.
pub open spec fn restart_due(prev: u32, passed: bool) -> bool {
    !passed && prev + 1 >= FAILURE_THRESHOLD
}

/// Position of the last record of user `u`, or -1.
pub open spec fn find_status(s: Seq<HealthStatus>, u: Seq<char>) -> int
    decreases s.len(),
{
    if s.len() == 0 {
        -1
    } else if s.last().username@ == u {
        s.len() - 1
    } else {
        find_status(s.drop_last(), u)
    }
}

pub open spec fn statuses_ok(s: Seq<HealthStatus>) -> bool {
    &&& forall|i: int, j: int|
        0 <= i < j < s.len() ==> #[trigger] s[i].username@ != #[trigger] s[j].username@
    &&& forall|i: int| 0 <= i < s.len() ==> (#[trigger] s[i]).consecutive_failures < FAILURE_THRESHOLD
}

pub proof fn lemma_find_status(s: Seq<HealthStatus>, u: Seq<char>)
    ensures
        -1 <= find_status(s, u) < s.len(),
        find_status(s, u) >= 0 ==> s[find_status(s, u)].username@ == u,
        forall|i: int| 0 <= i < s.len() && (#[trigger] s[i]).username@ == u ==> find_status(s, u) >= 0,
        statuses_ok(s) ==> forall|i: int|
            0 <= i < s.len() && (#[trigger] s[i]).username@ == u ==> find_status(s, u) == i,
    decreases s.len(),
{
    if s.len() > 0 {
        let d = s.drop_last();
        lemma_find_status(d, u);
        assert forall|i: int| 0 <= i < s.len() - 1 implies s[i] == d[i] by {}
        if statuses_ok(s) {
            assert(statuses_ok(d)) by {
                assert forall|i: int, j: int| 0 <= i < j < d.len() implies d[i].username@
                    != d[j].username@ by {
                    assert(s[i].username@ != s[j].username@);
                }
            }
            assert forall|i: int| 0 <= i < s.len() && (#[trigger] s[i]).username@ == u implies find_status(
                s,
                u,
            ) == i by {
                if s.last().username@ == u && i < s.len() - 1 {
                    assert(s[i].username@ != s[s.len() - 1].username@);
                }
            }
        }
    }
}

/// The periodic health monitor: its cadence, whether it runs, and the
/// health record of each probed instance.
pub struct HealthMonitor {
    interval_secs: u64,
    status_cache: Vec<HealthStatus>,
    running: bool,
}

impl HealthMonitor {
    pub closed spec fn statuses(&self) -> Seq<HealthStatus> {
        self.status_cache@
    }

    pub closed spec fn spec_running(&self) -> bool {
        self.running
    }

    pub closed spec fn spec_interval(&self) -> u64 {
        self.interval_secs
    }

    pub open spec fn wf(&self) -> bool {
        statuses_ok(self.statuses())
    }

    /// A stopped monitor with no records that probes every `interval_secs`.
    pub fn new(interval_secs: u64) -> (r: Self)
        ensures
            r.wf(),
            r.statuses().len() == 0,
            !r.spec_running(),
            r.spec_interval() == interval_secs,
    {
        HealthMonitor { interval_secs, status_cache: Vec::new(), running: false }
    }

    /// Seconds between two probe rounds.
    pub fn interval_secs(&self) -> (r: u64)
        ensures
            r == self.spec_interval(),
    {
        self.interval_secs
    }

    /// Marks the monitor running; whether it was stopped, in which case the
    /// caller starts the probe loop.
    pub fn start(&mut self) -> (r: bool)
        ensures
            r == !old(self).spec_running(),
            final(self).spec_running(),
            final(self).statuses() == old(self).statuses(),
            final(self).spec_interval() == old(self).spec_interval(),
    {
        if self.running {
            return false;
        }
        self.running = true;
        true
    }

    /// Marks the monitor stopped; the probe loop ends before its next round.
    pub fn stop(&mut self)
        ensures
            !final(self).spec_running(),
            final(self).statuses() == old(self).statuses(),
            final(self).spec_interval() == old(self).spec_interval(),
    {
        self.running = false;
    }

    /// Whether the probe loop should go on.
    pub fn is_running(&self) -> (r: bool)
        ensures
            r == self.spec_running(),
    {
        self.running
    }

    fn index_of(&self, username: &str) -> (r: Option<usize>)
        requires
            self.wf(),
        ensures
            r is None ==> find_status(self.statuses(), username@) == -1,
            r matches Some(i) ==> i < self.statuses().len() && i as int == find_status(
                self.statuses(),
                username@,
            ),
    {
        proof {
            lemma_find_status(self.statuses(), username@);
        }
        let u = username.to_owned();
        let mut i: usize = 0;
        while i < self.status_cache.len()
            invariant
                i <= self.status_cache@.len(),
                u@ == username@,
                statuses_ok(self.status_cache@),
                forall|j: int| 0 <= j < i ==> (#[trigger] self.status_cache@[j]).username@ != username@,
            decreases self.status_cache@.len() - i,
        {
            if self.status_cache[i].username == u {
                proof {
                    lemma_find_status(self.status_cache@, username@);
                    assert(self.status_cache@[i as int].username@ == username@);
                }
                return Some(i);
            }
            i = i + 1;
        }
        None
    }

    /// The health record of `username`, if one was made.
    pub fn get_status(&self, username: &str) -> (r: Option<&HealthStatus>)
        requires
            self.wf(),
        ensures
            ({
                let i = find_status(self.statuses(), username@);
                if i < 0 {
                    r is None
                } else {
                    r == Some(&self.statuses()[i])
                }
            }),
    {
        match self.index_of(username) {
            None => None,
            Some(i) => Some(&self.status_cache[i]),
        }
    }

    /// All health records.
    pub fn get_all_statuses(&self) -> (r: &Vec<HealthStatus>)
        ensures
            r@ == self.statuses(),
    {
        &self.status_cache
    }

    /// Whether the last probe set of `username` passed.
    pub fn is_healthy(&self, username: &str) -> (r: bool)
        requires
            self.wf(),
        ensures
            ({
                let i = find_status(self.statuses(), username@);
                r == (i >= 0 && self.statuses()[i].healthy)
            }),
    {
        match self.index_of(username) {
            None => false,
            Some(i) => self.status_cache[i].healthy,
        }
    }

    /// The failure count of `username` before a new probe set.
    pub open spec fn prior_failures(&self, u: Seq<char>) -> u32 {
        let i = find_status(self.statuses(), u);
        if i < 0 {
            0
        } else {
            self.statuses()[i].consecutive_failures
        }
    }

    fn put(&mut self, username: &str, checks: Vec<HealthCheckResult>, now: i64, healthy: bool, failures: u32)
        requires
            old(self).wf(),
            failures < FAILURE_THRESHOLD,
        ensures
            final(self).wf(),
            final(self).spec_running() == old(self).spec_running(),
            final(self).spec_interval() == old(self).spec_interval(),
            ({
                let s = old(self).statuses();
                let t = final(self).statuses();
                let i = find_status(s, username@);
                let k = if i >= 0 {
                    i
                } else {
                    s.len() as int
                };
                &&& t.len() == if i >= 0 {
                    s.len()
                } else {
                    s.len() + 1
                }
                &&& find_status(t, username@) == k
                &&& t[k].username@ == username@
                &&& t[k].healthy == healthy
                &&& t[k].checks@ == checks@
                &&& t[k].last_check == now
                &&& t[k].consecutive_failures == failures
                &&& forall|j: int| 0 <= j < s.len() && j != k ==> t[j] == s[j]
            }),
    {
        let ghost s = self.statuses();
        let ghost gchecks = checks@;
        let rec = HealthStatus {
            username: username.to_owned(),
            healthy,
            checks,
            last_check: now,
            consecutive_failures: failures,
        };
        proof {
            lemma_find_status(s, username@);
        }
        match self.index_of(username) {
            Some(i) => {
                self.status_cache.set(i, rec);
            },
            None => {
                self.status_cache.push(rec);
            },
        }
        proof {
            let t = self.statuses();
            let i = find_status(s, username@);
            let k = if i >= 0 {
                i
            } else {
                s.len() as int
            };
            assert forall|j: int| 0 <= j < s.len() && j != k implies t[j] == s[j] by {}
            assert forall|a: int, b: int| 0 <= a < b < t.len() implies t[a].username@
                != t[b].username@ by {
                if a != k && b != k {
                    assert(s[a].username@ != s[b].username@);
                } else if a == k {
                    lemma_find_status(s, t[b].username@);
                } else {
                    lemma_find_status(s, t[a].username@);
                }
            }
            assert forall|a: int| 0 <= a < t.len() implies (#[trigger] t[a]).consecutive_failures
                < FAILURE_THRESHOLD by {
                if a != k {
                    assert(t[a] == s[a]);
                }
            }
            lemma_find_status(t, username@);
            assert(t[k].username@ == username@);
        }
    }

    /// Records the results of a scheduled probe set of `username`; whether
    /// the instance is now due for a restart. A pass resets the failure
    /// count; a failure adds one, and on reaching `FAILURE_THRESHOLD` the
    /// count is reset and a restart is due.
    pub fn record_probe(&mut self, username: &str, checks: Vec<HealthCheckResult>, now: i64) -> (r: bool)
        requires
            old(self).wf(),
        ensures
            final(self).wf(),
            final(self).spec_running() == old(self).spec_running(),
            r == restart_due(old(self).prior_failures(username@), all_passed(checks@)),
            ({
                let t = final(self).statuses();
                let k = find_status(t, username@);
                &&& k >= 0
                &&& t[k].healthy == all_passed(checks@)
                &&& t[k].checks@ == checks@
                &&& t[k].last_check == now
                &&& t[k].consecutive_failures == failures_after(
                    old(self).prior_failures(username@),
                    all_passed(checks@),
                )
                &&& forall|j: int|
                    0 <= j < old(self).statuses().len() && j != k ==> t[j] == old(self).statuses()[j]
            }),
    {
        let prev: u32 = match self.index_of(username) {
            None => 0,
            Some(i) => self.status_cache[i].consecutive_failures,
        };
        let mut passed = true;
        let mut i: usize = 0;
        while i < checks.len()
            invariant
                i <= checks@.len(),
                passed == forall|j: int| 0 <= j < i ==> (#[trigger] checks@[j]).passed,
            decreases checks@.len() - i,
        {
            if !checks[i].passed {
                passed = false;
            }
            i = i + 1;
        }
        let due = !passed && prev + 1 >= FAILURE_THRESHOLD;
        let failures: u32 = if passed || prev + 1 >= FAILURE_THRESHOLD {
            0
        } else {
            prev + 1
        };
        self.put(username, checks, now, passed, failures);
        due
    }

    /// Records the results of an on-demand probe set of `username`, which
    /// resets the failure count and never calls for a restart.
    pub fn record_manual(&mut self, username: &str, checks: Vec<HealthCheckResult>, now: i64) -> (r: bool)
        requires
            old(self).wf(),
        ensures
            final(self).wf(),
            final(self).spec_running() == old(self).spec_running(),
            r == all_passed(checks@),
            ({
                let t = final(self).statuses();
                let k = find_status(t, username@);
                &&& k >= 0
                &&& t[k].healthy == all_passed(checks@)
                &&& t[k].checks@ == checks@
                &&& t[k].last_check == now
                &&& t[k].consecutive_failures == 0
            }),
    {
        let mut passed = true;
        let mut i: usize = 0;
        while i < checks.len()
            invariant
                i <= checks@.len(),
                passed == forall|j: int| 0 <= j < i ==> (#[trigger] checks@[j]).passed,
            decreases checks@.len() - i,
        {
            if !checks[i].passed {
                passed = false;
            }
            i = i + 1;
        }
        self.put(username, checks, now, passed, 0);
        passed
    }
}

/// The checks of one probe set of `instance`: its process when it has one,
/// its port, and an HTTP request for the health path. Only running
/// instances are probed.
pub fn probe_set(instance: &Instance) -> (r: Vec<HealthCheck>)
    ensures
        instance.status != InstanceStatus::Running ==> r@.len() == 0,
        instance.status == InstanceStatus::Running ==> {
            let off: int = if instance.pid is Some { 1 } else { 0 };
            &&& r@.len() == off + 2
            &&& instance.pid matches Some(p) ==> r@[0].check_type == CheckType::Process(p)
            &&& r@[off].check_type == CheckType::Port(instance.port)
            &&& r@[off + 1].check_type matches CheckType::Http(p, s) && p == instance.port && s@
                == HEALTH_PATH@
        },
{
    let mut checks: Vec<HealthCheck> = Vec::new();
    if instance.status != InstanceStatus::Running {
        return checks;
    }
    if let Some(pid) = instance.pid {
        checks.push(HealthCheck::process(pid));
    }
    checks.push(HealthCheck::port(instance.port));
    checks.push(HealthCheck::http(instance.port, HEALTH_PATH));
    checks
}

/// Failure counts stay below the threshold, so a restart comes at the
/// latest on the third consecutive failed probe set; a passing set always
/// leaves the count at zero and calls for no restart.
pub proof fn lemma_failures_bounded(prev: u32, passed: bool)
    requires
        prev < FAILURE_THRESHOLD,
    ensures
        failures_after(prev, passed) < FAILURE_THRESHOLD,
        passed ==> failures_after(prev, passed) == 0 && !restart_due(prev, passed),
        restart_due(prev, passed) ==> failures_after(prev, passed) == 0,
        !passed && prev == FAILURE_THRESHOLD - 1 ==> restart_due(prev, passed),
{
}

} // verus!
