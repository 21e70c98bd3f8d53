//! Resource limits of an instance, and the cgroup v2 files that enforce them.

use vstd::prelude::*;
use vstd::string::StringExecFns;
use crate::text::{decimal, join2, push_decimal};

verus! {

/// Resource limits of one instance.
#[derive(Debug, Clone, Copy, PartialEq, Eq, Structural)]
pub struct ResourceLimits {
    /// Memory limit in MB.
    pub memory_mb: u64,
    /// CPU limit as a percentage of one core (0 to 100).
    pub cpu_percent: u8,
    /// Maximum number of concurrent connections.
    pub max_connections: u32,
    /// Maximum number of deployed apps.
    pub max_apps: u32,
    /// Disk quota in MB.
    pub disk_quota_mb: u64,
}

/// Connections allowed to an instance unless configured otherwise.
pub const DEFAULT_MAX_CONNECTIONS: u32 = 100;

/// Bytes in a megabyte.
pub const BYTES_PER_MB: u64 = 1048576;

impl Default for ResourceLimits {
    fn default() -> (r: Self)
        ensures
            r.memory_mb == 512,
            r.cpu_percent == 25,
            r.max_connections == DEFAULT_MAX_CONNECTIONS,
            r.max_apps == 5,
            r.disk_quota_mb == 1024,
    {
        ResourceLimits {
            memory_mb: 512,
            cpu_percent: 25,
            max_connections: DEFAULT_MAX_CONNECTIONS,
            max_apps: 5,
            disk_quota_mb: 1024,
        }
    }
}

/// Why a set of limits is refused.
pub open spec fn limits_error(l: ResourceLimits) -> Option<Seq<char>> {
    if l.memory_mb == 0 {
        Some("Memory limit must be greater than 0"@)
    } else if l.cpu_percent > 100 {
        Some("CPU limit must be between 0 and 100"@)
    } else if l.max_apps == 0 {
        Some("Max apps must be greater than 0"@)
    } else {
        None
    }
}

impl ResourceLimits {
    /// Limits from the configured defaults, with the default connection cap.
    pub fn from_defaults(memory: u64, cpu: u8, max_apps: u32, disk: u64) -> (r: Self)
        ensures
            r.memory_mb == memory,
            r.cpu_percent == cpu,
            r.max_connections == DEFAULT_MAX_CONNECTIONS,
            r.max_apps == max_apps,
            r.disk_quota_mb == disk,
    {
        ResourceLimits {
            memory_mb: memory,
            cpu_percent: cpu,
            max_connections: DEFAULT_MAX_CONNECTIONS,
            max_apps,
            disk_quota_mb: disk,
        }
    }

    /// The memory limit in bytes.
    pub fn memory_bytes(&self) -> (r: u64)
        requires
            self.memory_mb * BYTES_PER_MB <= u64::MAX,
        ensures
            r == self.memory_mb * BYTES_PER_MB,
    {
        self.memory_mb * BYTES_PER_MB
    }

    /// The disk quota in bytes.
    pub fn disk_quota_bytes(&self) -> (r: u64)
        requires
            self.disk_quota_mb * BYTES_PER_MB <= u64::MAX,
        ensures
            r == self.disk_quota_mb * BYTES_PER_MB,
    {
        self.disk_quota_mb * BYTES_PER_MB
    }

    /// Refuses a zero memory limit, a CPU limit above 100 and a zero app cap.
    pub fn validate(&self) -> (r: Result<(), String>)
        ensures
            match limits_error(*self) {
                None => r is Ok,
                Some(m) => r matches Err(s) && s@ == m,
            },
    {
        if self.memory_mb == 0 {
            proof {
                reveal_strlit("Memory limit must be greater than 0");
            }
            return Err(String::from_str("Memory limit must be greater than 0"));
        }
        if self.cpu_percent > 100 {
            proof {
                reveal_strlit("CPU limit must be between 0 and 100");
            }
            return Err(String::from_str("CPU limit must be between 0 and 100"));
        }
        if self.max_apps == 0 {
            proof {
                reveal_strlit("Max apps must be greater than 0");
            }
            return Err(String::from_str("Max apps must be greater than 0"));
        }
        Ok(())
    }
}

/// One write of `content` to the control file at `path`.
#[derive(Debug, Clone, PartialEq, Eq)]
pub struct CgroupWrite {
    pub path: String,
    pub content: String,
}

/// Directory under which each user's cgroup lives.
pub open spec fn cgroup_base() -> Seq<char> {
    "/sys/fs/cgroup/frame/"@
}

/// A user's cgroup v2 directory and the writes that configure it.
#[derive(Debug, Clone)]
pub struct CgroupController {
    cgroup_path: String,
}

impl CgroupController {
    pub closed spec fn spec_path(&self) -> Seq<char> {
        self.cgroup_path@
    }

    /// The controller of `username`'s cgroup directory.
    pub fn create_for_user(username: &str) -> (r: Self)
        ensures
            r.spec_path() == cgroup_base() + username@,
    {
        proof {
            reveal_strlit("/sys/fs/cgroup/frame/");
        }
        CgroupController { cgroup_path: join2("/sys/fs/cgroup/frame/", username) }
    }

    /// The cgroup directory.
    pub fn cgroup_path(&self) -> (r: &String)
        ensures
            r@ == self.spec_path(),
    {
        &self.cgroup_path
    }

    /// The write that caps memory at `limit_bytes`.
    pub fn set_memory_limit(&self, limit_bytes: u64) -> (r: CgroupWrite)
        ensures
            r.path@ == self.spec_path() + "/memory.max"@,
            r.content@ == decimal(limit_bytes as nat),
    {
        proof {
            reveal_strlit("/memory.max");
        }
        let mut content = String::new();
        push_decimal(&mut content, limit_bytes);
        CgroupWrite { path: join2(self.cgroup_path.as_str(), "/memory.max"), content }
    }

    /// The write that caps CPU at `percent` of one core: a quota of
    /// `percent * 1000` microseconds per period of 100000.
    pub fn set_cpu_limit(&self, percent: u8) -> (r: CgroupWrite)
        ensures
            r.path@ == self.spec_path() + "/cpu.max"@,
            r.content@ == decimal(percent as nat * 1000) + " 100000"@,
    {
        proof {
            reveal_strlit("/cpu.max");
            reveal_strlit(" 100000");
        }
        let quota: u64 = percent as u64 * 1000;
        let mut content = String::new();
        push_decimal(&mut content, quota);
        content.append(" 100000");
        assert(content@ =~= decimal(percent as nat * 1000) + " 100000"@);
        CgroupWrite { path: join2(self.cgroup_path.as_str(), "/cpu.max"), content }
    }

    /// The write that moves process `pid` into the cgroup.
    pub fn add_process(&self, pid: u32) -> (r: CgroupWrite)
        ensures
            r.path@ == self.spec_path() + "/cgroup.procs"@,
            r.content@ == decimal(pid as nat),
    {
        proof {
            reveal_strlit("/cgroup.procs");
        }
        let mut content = String::new();
        push_decimal(&mut content, pid as u64);
        assert(content@ =~= decimal(pid as nat));
        CgroupWrite { path: join2(self.cgroup_path.as_str(), "/cgroup.procs"), content }
    }
}

} // verus!
