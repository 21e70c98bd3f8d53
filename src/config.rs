//! The service configuration: its sections, their defaults, the rules a
//! configuration must meet, and reading it from a loaded INI document.

use vstd::prelude::*;
use vstd::string::StringExecFns;
use configparser::ini::Ini;
use crate::error::ManagerError;
use crate::procfs::{all_digits, digits_value};
use crate::text::{decimal, push_decimal};

verus! {

#[verifier::external_type_specification]
#[verifier::external_body]
pub struct ExIni(Ini);

/// What a document holds: for each (section, key) the text written after the
/// key, or `None` for a key written without a value.
pub uninterp spec fn ini_entries(ini: Ini) -> Map<(Seq<char>, Seq<char>), Option<Seq<char>>>;

/// Whether a document keeps the settings that `Ini::new` gives: names folded
/// to lower case, no fall-back to a default section, and the default comment
/// and delimiter characters.
pub uninterp spec fn ini_default_settings(ini: Ini) -> bool;

/// The entries that a document with default settings holds after reading
/// `text`; `None` when the text is malformed.
pub uninterp spec fn ini_document(text: Seq<char>) -> Option<Map<(Seq<char>, Seq<char>), Option<Seq<char>>>>;

/// A name as configparser looks it up unchanged: ASCII without capitals.
pub open spec fn lower_ascii(s: Seq<char>) -> bool {
    forall|i: int| 0 <= i < s.len() ==> (#[trigger] s[i] as u32) < 128 && !('A' <= s[i] && s[i] <= 'Z')
}

/// The text of `key` in `section`, when the key is present with a value.
pub open spec fn entry_text(e: Map<(Seq<char>, Seq<char>), Option<Seq<char>>>, section: Seq<char>, key: Seq<char>) -> Option<Seq<char>> {
    if e.contains_key((section, key)) {
        e[(section, key)]
    } else {
        None
    }
}

/// What `u64::from_str` makes of `v`: an optional `+` and one or more
/// decimal digits denoting a value that fits.
pub open spec fn u64_text(v: Seq<char>) -> Option<u64> {
    let d = if v.len() > 0 && v[0] == '+' {
        v.subrange(1, v.len() as int)
    } else {
        v
    };
    if d.len() > 0 && all_digits(d) && digits_value(d) <= u64::MAX {
        Some(digits_value(d) as u64)
    } else {
        None
    }
}

/// `v` equals the lower-case ASCII word `w` but for the case of its letters.
pub open spec fn same_word_any_case(v: Seq<char>, w: Seq<char>) -> bool {
    &&& v.len() == w.len()
    &&& forall|i: int|
        0 <= i < v.len() ==> #[trigger] v[i] == w[i] || ('a' <= w[i] && w[i] <= 'z' && (v[i] as u32)
            == (w[i] as u32) - 32)
}

/// Relies on configparser's `Ini::new`: an empty document with default settings.
#[verifier::external_body]
fn ini_new() -> (r: Ini)
    ensures
        ini_default_settings(r),
{
    Ini::new()
}

/// Relies on configparser's `Ini::read`: parses `text` into the document,
/// replacing what it held; a malformed text leaves the document as it was.
#[verifier::external_body]
fn ini_read(ini: &mut Ini, text: String) -> (r: Result<(), String>)
    requires
        ini_default_settings(*old(ini)),
    ensures
        ini_default_settings(*final(ini)),
        r is Ok <==> ini_document(text@) is Some,
        r is Ok ==> ini_entries(*final(ini)) == ini_document(text@)->Some_0,
        r is Err ==> ini_entries(*final(ini)) == ini_entries(*old(ini)),
{
    ini.read(text).map(|_| ())
}

/// Relies on configparser's `Ini::getuint`: the text of `key` in `section`
/// parsed as a `u64`; `Ok(None)` when there is none, `Err` when it does not
/// parse.
#[verifier::external_body]
fn ini_getuint(ini: &Ini, section: &str, key: &str) -> (r: Result<Option<u64>, String>)
    requires
        ini_default_settings(*ini),
        lower_ascii(section@),
        lower_ascii(key@),
    ensures
        match entry_text(ini_entries(*ini), section@, key@) {
            None => r matches Ok(None),
            Some(v) => match u64_text(v) {
                Some(n) => r matches Ok(Some(x)) && x == n,
                None => r is Err,
            },
        },
{
    ini.getuint(section, key)
}

/// Relies on configparser's `Ini::getbool`: the text of `key` in `section`
/// read as `true` or `false` in any case; `Ok(None)` when there is none,
/// `Err` for other text.
#[verifier::external_body]
fn ini_getbool(ini: &Ini, section: &str, key: &str) -> (r: Result<Option<bool>, String>)
    requires
        ini_default_settings(*ini),
        lower_ascii(section@),
        lower_ascii(key@),
    ensures
        match entry_text(ini_entries(*ini), section@, key@) {
            None => r matches Ok(None),
            Some(v) => if same_word_any_case(v, "true"@) {
                r matches Ok(Some(x)) && x
            } else if same_word_any_case(v, "false"@) {
                r matches Ok(Some(x)) && !x
            } else {
                r is Err
            },
        },
{
    ini.getbool(section, key)
}

/// Relies on configparser's `Ini::get`: the text of `key` in `section`, if any.
#[verifier::external_body]
fn ini_get(ini: &Ini, section: &str, key: &str) -> (r: Option<String>)
    requires
        ini_default_settings(*ini),
        lower_ascii(section@),
        lower_ascii(key@),
    ensures
        match entry_text(ini_entries(*ini), section@, key@) {
            None => r is None,
            Some(v) => r matches Some(t) && t@ == v,
        },
{
    ini.get(section, key)
}

/// The number that `key` in `section` holds, when it holds one.
pub open spec fn found_uint(e: Map<(Seq<char>, Seq<char>), Option<Seq<char>>>, section: Seq<char>, key: Seq<char>) -> Option<u64> {
    match entry_text(e, section, key) {
        Some(v) => u64_text(v),
        None => None,
    }
}

/// The truth value that `key` in `section` holds, when it holds one.
pub open spec fn found_bool(e: Map<(Seq<char>, Seq<char>), Option<Seq<char>>>, section: Seq<char>, key: Seq<char>) -> Option<bool> {
    match entry_text(e, section, key) {
        Some(v) => if same_word_any_case(v, "true"@) {
            Some(true)
        } else if same_word_any_case(v, "false"@) {
            Some(false)
        } else {
            None
        },
        None => None,
    }
}

fn lookup_uint(ini: &Ini, section: &str, key: &str) -> (o: Option<u64>)
    requires
        ini_default_settings(*ini),
        lower_ascii(section@),
        lower_ascii(key@),
    ensures
        o == found_uint(ini_entries(*ini), section@, key@),
{
    match ini_getuint(ini, section, key) {
        Ok(Some(v)) => Some(v),
        _ => None,
    }
}

fn lookup_bool(ini: &Ini, section: &str, key: &str) -> (o: Option<bool>)
    requires
        ini_default_settings(*ini),
        lower_ascii(section@),
        lower_ascii(key@),
    ensures
        o == found_bool(ini_entries(*ini), section@, key@),
{
    match ini_getbool(ini, section, key) {
        Ok(Some(v)) => Some(v),
        _ => None,
    }
}

/// `v` when given, else `d`.
pub open spec fn or_default<T>(v: Option<T>, d: T) -> T {
    match v {
        Some(x) => x,
        None => d,
    }
}

/// A found value that must fit in `max`: the default when absent, `None`
/// when too large.
pub open spec fn bounded(v: Option<u64>, d: u64, max: u64) -> Option<u64> {
    match v {
        Some(x) => if x <= max {
            Some(x)
        } else {
            None
        },
        None => Some(d),
    }
}

fn pick_bounded(v: Option<u64>, d: u64, max: u64) -> (r: Option<u64>)
    ensures
        r == bounded(v, d, max),
{
    match v {
        Some(x) => if x <= max {
            Some(x)
        } else {
            None
        },
        None => Some(d),
    }
}

/// The `[service]` section.
#[derive(Debug, Clone, Copy, PartialEq, Eq, Structural)]
pub struct ServiceConfig {
    pub enabled: bool,
    pub port_range_start: u16,
    pub port_range_end: u16,
    pub manager_port: u16,
    pub auto_start: bool,
    /// Seconds between two health probe rounds.
    pub health_check_interval: u64,
}

impl Default for ServiceConfig {
    fn default() -> (r: Self)
        ensures
            r.enabled,
            r.port_range_start == 30001,
            r.port_range_end == 32000,
            r.manager_port == 30000,
            r.auto_start,
            r.health_check_interval == 30,
    {
        ServiceConfig {
            enabled: true,
            port_range_start: 30001,
            port_range_end: 32000,
            manager_port: 30000,
            auto_start: true,
            health_check_interval: 30,
        }
    }
}

/// The `[service]` section from the values found, or `None` when a port
/// does not fit in 16 bits.
pub open spec fn service_from(
    enabled: Option<bool>,
    port_range_start: Option<u64>,
    port_range_end: Option<u64>,
    manager_port: Option<u64>,
    auto_start: Option<bool>,
    health_check_interval: Option<u64>,
) -> Option<ServiceConfig> {
    let s = bounded(port_range_start, 30001, 65535);
    let e = bounded(port_range_end, 32000, 65535);
    let m = bounded(manager_port, 30000, 65535);
    if s is Some && e is Some && m is Some {
        Some(
            ServiceConfig {
                enabled: or_default(enabled, true),
                port_range_start: s->Some_0 as u16,
                port_range_end: e->Some_0 as u16,
                manager_port: m->Some_0 as u16,
                auto_start: or_default(auto_start, true),
                health_check_interval: or_default(health_check_interval, 30),
            },
        )
    } else {
        None
    }
}

impl ServiceConfig {
    /// The defaults with each value that was found put in place; a port
    /// that does not fit in 16 bits is refused.
    pub fn with_overrides(
        enabled: Option<bool>,
        port_range_start: Option<u64>,
        port_range_end: Option<u64>,
        manager_port: Option<u64>,
        auto_start: Option<bool>,
        health_check_interval: Option<u64>,
    ) -> (r: Result<Self, ManagerError>)
        ensures
            match service_from(
                enabled,
                port_range_start,
                port_range_end,
                manager_port,
                auto_start,
                health_check_interval,
            ) {
                Some(c) => r == Ok::<ServiceConfig, ManagerError>(c),
                None => r == Err::<ServiceConfig, ManagerError>(ManagerError::ConfigInvalid),
            },
    {
        let s = pick_bounded(port_range_start, 30001, 65535);
        let e = pick_bounded(port_range_end, 32000, 65535);
        let m = pick_bounded(manager_port, 30000, 65535);
        match (s, e, m) {
            (Some(s), Some(e), Some(m)) => Ok(
                ServiceConfig {
                    enabled: match enabled {
                        Some(v) => v,
                        None => true,
                    },
                    port_range_start: s as u16,
                    port_range_end: e as u16,
                    manager_port: m as u16,
                    auto_start: match auto_start {
                        Some(v) => v,
                        None => true,
                    },
                    health_check_interval: match health_check_interval {
                        Some(v) => v,
                        None => 30,
                    },
                },
            ),
            _ => Err(ManagerError::ConfigInvalid),
        }
    }
}

/// The `[defaults]` section: limits of instances without their own.
#[derive(Debug, Clone, Copy, PartialEq, Eq, Structural)]
pub struct DefaultsConfig {
    /// Memory limit in MB.
    pub memory_limit: u64,
    /// CPU limit as a percentage, 0 to 100.
    pub cpu_limit: u8,
    pub max_apps: u32,
    /// Disk quota in MB.
    pub disk_quota: u64,
}

impl Default for DefaultsConfig {
    fn default() -> (r: Self)
        ensures
            r.memory_limit == 512,
            r.cpu_limit == 25,
            r.max_apps == 5,
            r.disk_quota == 1024,
    {
        DefaultsConfig { memory_limit: 512, cpu_limit: 25, max_apps: 5, disk_quota: 1024 }
    }
}

/// The `[defaults]` section from the values found, or `None` when the CPU
/// limit does not fit in 8 bits or the app cap in 32.
pub open spec fn defaults_from(
    memory_limit: Option<u64>,
    cpu_limit: Option<u64>,
    max_apps: Option<u64>,
    disk_quota: Option<u64>,
) -> Option<DefaultsConfig> {
    let c = bounded(cpu_limit, 25, 255);
    let a = bounded(max_apps, 5, 4294967295);
    if c is Some && a is Some {
        Some(
            DefaultsConfig {
                memory_limit: or_default(memory_limit, 512),
                cpu_limit: c->Some_0 as u8,
                max_apps: a->Some_0 as u32,
                disk_quota: or_default(disk_quota, 1024),
            },
        )
    } else {
        None
    }
}

impl DefaultsConfig {
    /// The defaults with each value that was found put in place; a CPU
    /// limit beyond 8 bits or an app cap beyond 32 is refused.
    pub fn with_overrides(
        memory_limit: Option<u64>,
        cpu_limit: Option<u64>,
        max_apps: Option<u64>,
        disk_quota: Option<u64>,
    ) -> (r: Result<Self, ManagerError>)
        ensures
            match defaults_from(memory_limit, cpu_limit, max_apps, disk_quota) {
                Some(c) => r == Ok::<DefaultsConfig, ManagerError>(c),
                None => r == Err::<DefaultsConfig, ManagerError>(ManagerError::ConfigInvalid),
            },
    {
        let c = pick_bounded(cpu_limit, 25, 255);
        let a = pick_bounded(max_apps, 5, 4294967295);
        match (c, a) {
            (Some(c), Some(a)) => Ok(
                DefaultsConfig {
                    memory_limit: match memory_limit {
                        Some(v) => v,
                        None => 512,
                    },
                    cpu_limit: c as u8,
                    max_apps: a as u32,
                    disk_quota: match disk_quota {
                        Some(v) => v,
                        None => 1024,
                    },
                },
            ),
            _ => Err(ManagerError::ConfigInvalid),
        }
    }
}

/// The `[logging]` section.
#[derive(Debug, Clone)]
pub struct LoggingConfig {
    pub level: String,
    pub retention_days: u32,
    /// Largest log file in MB.
    pub max_file_size: u64,
}

impl Default for LoggingConfig {
    fn default() -> (r: Self)
        ensures
            r.level@ == "info"@,
            r.retention_days == 30,
            r.max_file_size == 100,
    {
        proof {
            reveal_strlit("info");
        }
        LoggingConfig { level: String::from_str("info"), retention_days: 30, max_file_size: 100 }
    }
}

impl LoggingConfig {
    /// The defaults with each value that was found put in place; a
    /// retention beyond 32 bits is refused.
    pub fn with_overrides(level: Option<String>, retention_days: Option<u64>, max_file_size: Option<u64>) -> (r:
        Result<Self, ManagerError>)
        ensures
            bounded(retention_days, 30, 4294967295) is None ==> r == Err::<LoggingConfig, ManagerError>(
                ManagerError::ConfigInvalid,
            ),
            bounded(retention_days, 30, 4294967295) matches Some(d) ==> r matches Ok(c) && c.level@ == (
            match level {
                Some(s) => s@,
                None => "info"@,
            }) && c.retention_days == d as u32 && c.max_file_size == or_default(max_file_size, 100),
    {
        let d = match pick_bounded(retention_days, 30, 4294967295) {
            Some(d) => d,
            None => {
                return Err(ManagerError::ConfigInvalid);
            },
        };
        let mut c = LoggingConfig::default();
        if let Some(v) = level {
            c.level = v;
        }
        c.retention_days = d as u32;
        if let Some(v) = max_file_size {
            c.max_file_size = v;
        }
        Ok(c)
    }
}

/// The `[security]` section.
#[derive(Debug, Clone, Copy, PartialEq, Eq, Structural)]
pub struct SecurityConfig {
    pub allow_fs_access: bool,
    pub allow_sys_access: bool,
    pub require_https: bool,
}

impl Default for SecurityConfig {
    fn default() -> (r: Self)
        ensures
            !r.allow_fs_access,
            !r.allow_sys_access,
            r.require_https,
    {
        SecurityConfig { allow_fs_access: false, allow_sys_access: false, require_https: true }
    }
}

impl SecurityConfig {
    /// The defaults with each value that was found put in place.
    pub fn with_overrides(
        allow_fs_access: Option<bool>,
        allow_sys_access: Option<bool>,
        require_https: Option<bool>,
    ) -> (r: Self)
        ensures
            r.allow_fs_access == or_default(allow_fs_access, false),
            r.allow_sys_access == or_default(allow_sys_access, false),
            r.require_https == or_default(require_https, true),
    {
        SecurityConfig {
            allow_fs_access: match allow_fs_access {
                Some(v) => v,
                None => false,
            },
            allow_sys_access: match allow_sys_access {
                Some(v) => v,
                None => false,
            },
            require_https: match require_https {
                Some(v) => v,
                None => true,
            },
        }
    }
}

/// The `[proxy]` section.
#[derive(Debug, Clone)]
pub struct ProxyConfig {
    pub backend: String,
    /// Seconds.
    pub timeout: u64,
    pub websocket: bool,
}

impl Default for ProxyConfig {
    fn default() -> (r: Self)
        ensures
            r.backend@ == "apache"@,
            r.timeout == 60,
            r.websocket,
    {
        proof {
            reveal_strlit("apache");
        }
        ProxyConfig { backend: String::from_str("apache"), timeout: 60, websocket: true }
    }
}

impl ProxyConfig {
    /// The defaults with each value that was found put in place.
    pub fn with_overrides(backend: Option<String>, timeout: Option<u64>, websocket: Option<bool>) -> (r: Self)
        ensures
            r.backend@ == (match backend {
                Some(s) => s@,
                None => "apache"@,
            }),
            r.timeout == or_default(timeout, 60),
            r.websocket == or_default(websocket, true),
    {
        let mut c = ProxyConfig::default();
        if let Some(v) = backend {
            c.backend = v;
        }
        if let Some(v) = timeout {
            c.timeout = v;
        }
        if let Some(v) = websocket {
            c.websocket = v;
        }
        c
    }
}

/// The whole service configuration.
#[derive(Debug, Clone)]
pub struct Config {
    pub service: ServiceConfig,
    pub defaults: DefaultsConfig,
    pub logging: LoggingConfig,
    pub security: SecurityConfig,
    pub proxy: ProxyConfig,
}

/// The rules a configuration must meet: a non-empty user port range, the
/// manager's port outside it, and a CPU limit of at most 100.
pub open spec fn config_valid(service: ServiceConfig, defaults: DefaultsConfig) -> bool {
    &&& service.port_range_start < service.port_range_end
    &&& !(service.port_range_start <= service.manager_port <= service.port_range_end)
    &&& defaults.cpu_limit <= 100
}

impl Default for Config {
    fn default() -> (r: Self)
        ensures
            r.service.port_range_start == 30001,
            r.service.port_range_end == 32000,
            r.service.manager_port == 30000,
            r.defaults.cpu_limit == 25,
            config_valid(r.service, r.defaults),
    {
        Config {
            service: ServiceConfig::default(),
            defaults: DefaultsConfig::default(),
            logging: LoggingConfig::default(),
            security: SecurityConfig::default(),
            proxy: ProxyConfig::default(),
        }
    }
}

impl Config {
    /// Refuses a configuration that breaks one of the rules.
    pub fn validate(&self) -> (r: Result<(), ManagerError>)
        ensures
            r is Ok <==> config_valid(self.service, self.defaults),
            r is Err ==> r == Err::<(), ManagerError>(ManagerError::ConfigInvalid),
    {
        if self.service.port_range_start >= self.service.port_range_end {
            return Err(ManagerError::ConfigInvalid);
        }
        if self.service.manager_port >= self.service.port_range_start && self.service.manager_port
            <= self.service.port_range_end {
            return Err(ManagerError::ConfigInvalid);
        }
        if self.defaults.cpu_limit > 100 {
            return Err(ManagerError::ConfigInvalid);
        }
        Ok(())
    }

    /// Applies a settings change: each given value replaces the current one.
    pub fn apply_settings(&mut self, update: &SettingsUpdate)
        ensures
            final(self).service.enabled == or_default(update.enabled, old(self).service.enabled),
            final(self).service.auto_start == or_default(update.auto_start, old(self).service.auto_start),
            final(self).service.health_check_interval == or_default(
                update.health_check_interval,
                old(self).service.health_check_interval,
            ),
            final(self).service.port_range_start == old(self).service.port_range_start,
            final(self).service.port_range_end == old(self).service.port_range_end,
            final(self).service.manager_port == old(self).service.manager_port,
            final(self).defaults == old(self).defaults,
    {
        if let Some(v) = update.enabled {
            self.service.enabled = v;
        }
        if let Some(v) = update.auto_start {
            self.service.auto_start = v;
        }
        if let Some(v) = update.health_check_interval {
            self.service.health_check_interval = v;
        }
    }
}

/// A change of service settings; absent values stay as they are.
#[derive(Debug, Clone, Copy, PartialEq, Eq, Structural)]
pub struct SettingsUpdate {
    pub enabled: Option<bool>,
    pub auto_start: Option<bool>,
    pub health_check_interval: Option<u64>,
}

/// A change of a package's limits; absent values are left out of its file.
#[derive(Debug, Clone, Copy, PartialEq, Eq, Structural)]
pub struct PackageUpdate {
    pub memory_limit: Option<u64>,
    pub cpu_limit: Option<u8>,
    pub max_apps: Option<u32>,
    pub disk_quota: Option<u64>,
}

pub open spec fn doc_service(e: Map<(Seq<char>, Seq<char>), Option<Seq<char>>>) -> Option<ServiceConfig> {
    service_from(
        found_bool(e, "service"@, "enabled"@),
        found_uint(e, "service"@, "port_range_start"@),
        found_uint(e, "service"@, "port_range_end"@),
        found_uint(e, "service"@, "manager_port"@),
        found_bool(e, "service"@, "auto_start"@),
        found_uint(e, "service"@, "health_check_interval"@),
    )
}

pub open spec fn doc_defaults(e: Map<(Seq<char>, Seq<char>), Option<Seq<char>>>) -> Option<DefaultsConfig> {
    defaults_from(
        found_uint(e, "defaults"@, "memory_limit"@),
        found_uint(e, "defaults"@, "cpu_limit"@),
        found_uint(e, "defaults"@, "max_apps"@),
        found_uint(e, "defaults"@, "disk_quota"@),
    )
}

pub open spec fn doc_retention(e: Map<(Seq<char>, Seq<char>), Option<Seq<char>>>) -> Option<u64> {
    bounded(found_uint(e, "logging"@, "retention_days"@), 30, 4294967295)
}

pub open spec fn doc_security(e: Map<(Seq<char>, Seq<char>), Option<Seq<char>>>) -> SecurityConfig {
    SecurityConfig {
        allow_fs_access: or_default(found_bool(e, "security"@, "allow_fs_access"@), false),
        allow_sys_access: or_default(found_bool(e, "security"@, "allow_sys_access"@), false),
        require_https: or_default(found_bool(e, "security"@, "require_https"@), true),
    }
}

/// A document gives a configuration when its numbers fit their fields and
/// the result meets the rules.
pub open spec fn doc_accepted(e: Map<(Seq<char>, Seq<char>), Option<Seq<char>>>) -> bool {
    &&& doc_service(e) is Some
    &&& doc_defaults(e) is Some
    &&& doc_retention(e) is Some
    &&& config_valid(doc_service(e)->Some_0, doc_defaults(e)->Some_0)
}

/// The configuration that a document describes, section by section.
pub open spec fn config_of(e: Map<(Seq<char>, Seq<char>), Option<Seq<char>>>, c: Config) -> bool {
    &&& c.service == doc_service(e)->Some_0
    &&& c.defaults == doc_defaults(e)->Some_0
    &&& c.logging.level@ == or_default(entry_text(e, "logging"@, "level"@), "info"@)
    &&& c.logging.retention_days == doc_retention(e)->Some_0 as u32
    &&& c.logging.max_file_size == or_default(found_uint(e, "logging"@, "max_file_size"@), 100)
    &&& c.security == doc_security(e)
    &&& c.proxy.backend@ == or_default(entry_text(e, "proxy"@, "backend"@), "apache"@)
    &&& c.proxy.timeout == or_default(found_uint(e, "proxy"@, "timeout"@), 60)
    &&& c.proxy.websocket == or_default(found_bool(e, "proxy"@, "websocket"@), true)
}

/// Reads a configuration from the text of an INI document.
#[derive(Debug, Clone, Copy)]
pub struct ConfigParser;

impl ConfigParser {
    pub fn new() -> (r: Self) {
        ConfigParser
    }

    /// The configuration that `text` describes: each section's defaults
    /// with the values the document gives. A malformed document, a number
    /// too large for its field, or a configuration that breaks the rules is
    /// refused.
    pub fn parse(&self, text: String) -> (r: Result<Config, ManagerError>)
        ensures
            match ini_document(text@) {
                None => r == Err::<Config, ManagerError>(ManagerError::ConfigInvalid),
                Some(e) => {
                    &&& r is Ok <==> doc_accepted(e)
                    &&& r is Err ==> r->Err_0 == ManagerError::ConfigInvalid
                    &&& r matches Ok(c) ==> config_of(e, c)
                },
            },
    {
        proof {
            reveal_strlit("service");
            reveal_strlit("enabled");
            reveal_strlit("port_range_start");
            reveal_strlit("port_range_end");
            reveal_strlit("manager_port");
            reveal_strlit("auto_start");
            reveal_strlit("health_check_interval");
            reveal_strlit("defaults");
            reveal_strlit("memory_limit");
            reveal_strlit("cpu_limit");
            reveal_strlit("max_apps");
            reveal_strlit("disk_quota");
            reveal_strlit("logging");
            reveal_strlit("level");
            reveal_strlit("retention_days");
            reveal_strlit("max_file_size");
            reveal_strlit("security");
            reveal_strlit("allow_fs_access");
            reveal_strlit("allow_sys_access");
            reveal_strlit("require_https");
            reveal_strlit("proxy");
            reveal_strlit("backend");
            reveal_strlit("timeout");
            reveal_strlit("websocket");
        }
        let mut ini = ini_new();
        if ini_read(&mut ini, text).is_err() {
            return Err(ManagerError::ConfigInvalid);
        }
        let service = match ServiceConfig::with_overrides(
            lookup_bool(&ini, "service", "enabled"),
            lookup_uint(&ini, "service", "port_range_start"),
            lookup_uint(&ini, "service", "port_range_end"),
            lookup_uint(&ini, "service", "manager_port"),
            lookup_bool(&ini, "service", "auto_start"),
            lookup_uint(&ini, "service", "health_check_interval"),
        ) {
            Ok(c) => c,
            Err(e) => {
                return Err(e);
            },
        };
        let defaults = match DefaultsConfig::with_overrides(
            lookup_uint(&ini, "defaults", "memory_limit"),
            lookup_uint(&ini, "defaults", "cpu_limit"),
            lookup_uint(&ini, "defaults", "max_apps"),
            lookup_uint(&ini, "defaults", "disk_quota"),
        ) {
            Ok(c) => c,
            Err(e) => {
                return Err(e);
            },
        };
        let logging = match LoggingConfig::with_overrides(
            ini_get(&ini, "logging", "level"),
            lookup_uint(&ini, "logging", "retention_days"),
            lookup_uint(&ini, "logging", "max_file_size"),
        ) {
            Ok(c) => c,
            Err(e) => {
                return Err(e);
            },
        };
        let security = SecurityConfig::with_overrides(
            lookup_bool(&ini, "security", "allow_fs_access"),
            lookup_bool(&ini, "security", "allow_sys_access"),
            lookup_bool(&ini, "security", "require_https"),
        );
        let proxy = ProxyConfig::with_overrides(
            ini_get(&ini, "proxy", "backend"),
            lookup_uint(&ini, "proxy", "timeout"),
            lookup_bool(&ini, "proxy", "websocket"),
        );
        let config = Config { service, defaults, logging, security, proxy };
        match config.validate() {
            Ok(()) => Ok(config),
            Err(e) => Err(e),
        }
    }

    /// The package configuration named `name` that `text` describes; a
    /// malformed document or a number too large for its field is refused.
    pub fn parse_package(&self, name: String, text: String) -> (r: Result<PackageConfig, ManagerError>)
        ensures
            match ini_document(text@) {
                None => r == Err::<PackageConfig, ManagerError>(ManagerError::ConfigInvalid),
                Some(e) => match doc_package_limits(e) {
                    None => r == Err::<PackageConfig, ManagerError>(ManagerError::ConfigInvalid),
                    Some(l) => r matches Ok(p) && p.name@ == name@ && p.limits == l && p.features
                        == doc_package_features(e),
                },
            },
    {
        proof {
            reveal_strlit("limits");
            reveal_strlit("memory_limit");
            reveal_strlit("cpu_limit");
            reveal_strlit("max_apps");
            reveal_strlit("disk_quota");
            reveal_strlit("features");
            reveal_strlit("fs_access");
            reveal_strlit("sys_access");
            reveal_strlit("custom_domains");
            reveal_strlit("ssl_support");
        }
        let mut ini = ini_new();
        if ini_read(&mut ini, text).is_err() {
            return Err(ManagerError::ConfigInvalid);
        }
        let limits = match PackageLimits::with_overrides(
            lookup_uint(&ini, "limits", "memory_limit"),
            lookup_uint(&ini, "limits", "cpu_limit"),
            lookup_uint(&ini, "limits", "max_apps"),
            lookup_uint(&ini, "limits", "disk_quota"),
        ) {
            Ok(l) => l,
            Err(e) => {
                return Err(e);
            },
        };
        let features = PackageFeatures::with_overrides(
            lookup_bool(&ini, "features", "fs_access"),
            lookup_bool(&ini, "features", "sys_access"),
            lookup_bool(&ini, "features", "custom_domains"),
            lookup_bool(&ini, "features", "ssl_support"),
        );
        Ok(PackageConfig { name, limits, features })
    }
}

pub open spec fn doc_package_limits(e: Map<(Seq<char>, Seq<char>), Option<Seq<char>>>) -> Option<PackageLimits> {
    limits_from(
        found_uint(e, "limits"@, "memory_limit"@),
        found_uint(e, "limits"@, "cpu_limit"@),
        found_uint(e, "limits"@, "max_apps"@),
        found_uint(e, "limits"@, "disk_quota"@),
    )
}

pub open spec fn doc_package_features(e: Map<(Seq<char>, Seq<char>), Option<Seq<char>>>) -> PackageFeatures {
    PackageFeatures {
        fs_access: or_default(found_bool(e, "features"@, "fs_access"@), false),
        sys_access: or_default(found_bool(e, "features"@, "sys_access"@), false),
        custom_domains: or_default(found_bool(e, "features"@, "custom_domains"@), true),
        ssl_support: or_default(found_bool(e, "features"@, "ssl_support"@), true),
    }
}

/// Limits and features of a hosting package.
#[derive(Debug, Clone)]
pub struct PackageConfig {
    pub name: String,
    pub limits: PackageLimits,
    pub features: PackageFeatures,
}

/// Resource limits of a hosting package.
#[derive(Debug, Clone, Copy, PartialEq, Eq, Structural)]
pub struct PackageLimits {
    pub memory_limit: u64,
    pub cpu_limit: u8,
    pub max_apps: u32,
    pub disk_quota: u64,
}

/// Package limits from the values found (defaults of 512 MB, 25% CPU, 5
/// apps and 1024 MB of disk), or `None` when the CPU limit does not fit in
/// 8 bits or the app cap in 32.
pub open spec fn limits_from(
    memory_limit: Option<u64>,
    cpu_limit: Option<u64>,
    max_apps: Option<u64>,
    disk_quota: Option<u64>,
) -> Option<PackageLimits> {
    let c = bounded(cpu_limit, 25, 255);
    let a = bounded(max_apps, 5, 4294967295);
    if c is Some && a is Some {
        Some(
            PackageLimits {
                memory_limit: or_default(memory_limit, 512),
                cpu_limit: c->Some_0 as u8,
                max_apps: a->Some_0 as u32,
                disk_quota: or_default(disk_quota, 1024),
            },
        )
    } else {
        None
    }
}

impl PackageLimits {
    /// The defaults with each value that was found put in place; a CPU
    /// limit beyond 8 bits or an app cap beyond 32 is refused.
    pub fn with_overrides(
        memory_limit: Option<u64>,
        cpu_limit: Option<u64>,
        max_apps: Option<u64>,
        disk_quota: Option<u64>,
    ) -> (r: Result<Self, ManagerError>)
        ensures
            match limits_from(memory_limit, cpu_limit, max_apps, disk_quota) {
                Some(l) => r == Ok::<PackageLimits, ManagerError>(l),
                None => r == Err::<PackageLimits, ManagerError>(ManagerError::ConfigInvalid),
            },
    {
        let c = pick_bounded(cpu_limit, 25, 255);
        let a = pick_bounded(max_apps, 5, 4294967295);
        match (c, a) {
            (Some(c), Some(a)) => Ok(
                PackageLimits {
                    memory_limit: match memory_limit {
                        Some(v) => v,
                        None => 512,
                    },
                    cpu_limit: c as u8,
                    max_apps: a as u32,
                    disk_quota: match disk_quota {
                        Some(v) => v,
                        None => 1024,
                    },
                },
            ),
            _ => Err(ManagerError::ConfigInvalid),
        }
    }
}

/// Capabilities of a hosting package.
#[derive(Debug, Clone, Copy, PartialEq, Eq, Structural)]
pub struct PackageFeatures {
    pub fs_access: bool,
    pub sys_access: bool,
    pub custom_domains: bool,
    pub ssl_support: bool,
}

impl PackageFeatures {
    /// Defaults of no file-system or system access, custom domains and SSL,
    /// with each value that was found put in place.
    pub fn with_overrides(
        fs_access: Option<bool>,
        sys_access: Option<bool>,
        custom_domains: Option<bool>,
        ssl_support: Option<bool>,
    ) -> (r: Self)
        ensures
            r.fs_access == or_default(fs_access, false),
            r.sys_access == or_default(sys_access, false),
            r.custom_domains == or_default(custom_domains, true),
            r.ssl_support == or_default(ssl_support, true),
    {
        PackageFeatures {
            fs_access: match fs_access {
                Some(v) => v,
                None => false,
            },
            sys_access: match sys_access {
                Some(v) => v,
                None => false,
            },
            custom_domains: match custom_domains {
                Some(v) => v,
                None => true,
            },
            ssl_support: match ssl_support {
                Some(v) => v,
                None => true,
            },
        }
    }
}

pub open spec fn bool_text(b: bool) -> Seq<char> {
    if b {
        "true"@
    } else {
        "false"@
    }
}

fn push_bool(out: &mut String, b: bool)
    ensures
        final(out)@ == old(out)@ + bool_text(b),
{
    proof {
        reveal_strlit("true");
        reveal_strlit("false");
    }
    if b {
        out.append("true");
    } else {
        out.append("false");
    }
}

/// The `[service]` settings file that records `service`'s switches and cadence.
pub open spec fn settings_text(service: ServiceConfig) -> Seq<char> {
    "[service]\nenabled = "@ + bool_text(service.enabled) + "\nauto_start = "@ + bool_text(
        service.auto_start,
    ) + "\nhealth_check_interval = "@ + decimal(service.health_check_interval as nat) + "\n"@
}

/// One `key = value` line when the value is given.
pub open spec fn limit_line(key: Seq<char>, v: Option<nat>) -> Seq<char> {
    match v {
        Some(n) => key + " = "@ + decimal(n) + "\n"@,
        None => Seq::empty(),
    }
}

/// The `[limits]` file of a package after `update`.
pub open spec fn package_text(update: PackageUpdate) -> Seq<char> {
    "[limits]\n"@ + limit_line("memory_limit"@, match update.memory_limit {
        Some(v) => Some(v as nat),
        None => None,
    }) + limit_line("cpu_limit"@, match update.cpu_limit {
        Some(v) => Some(v as nat),
        None => None,
    }) + limit_line("max_apps"@, match update.max_apps {
        Some(v) => Some(v as nat),
        None => None,
    }) + limit_line("disk_quota"@, match update.disk_quota {
        Some(v) => Some(v as nat),
        None => None,
    })
}

/// The settings file text for `service`.
pub fn settings_file_text(service: &ServiceConfig) -> (r: String)
    ensures
        r@ == settings_text(*service),
{
    proof {
        reveal_strlit("[service]\nenabled = ");
        reveal_strlit("\nauto_start = ");
        reveal_strlit("\nhealth_check_interval = ");
        reveal_strlit("\n");
    }
    let mut out = String::from_str("[service]\nenabled = ");
    push_bool(&mut out, service.enabled);
    out.append("\nauto_start = ");
    push_bool(&mut out, service.auto_start);
    out.append("\nhealth_check_interval = ");
    push_decimal(&mut out, service.health_check_interval);
    out.append("\n");
    assert(out@ =~= settings_text(*service));
    out
}

fn push_limit_line(out: &mut String, key: &str, v: Option<u64>)
    ensures
        final(out)@ == old(out)@ + limit_line(key@, match v {
            Some(n) => Some(n as nat),
            None => None,
        }),
{
    proof {
        reveal_strlit(" = ");
        reveal_strlit("\n");
    }
    if let Some(n) = v {
        out.append(key);
        out.append(" = ");
        push_decimal(out, n);
        out.append("\n");
    }
    assert(out@ =~= old(out)@ + limit_line(key@, match v {
        Some(n) => Some(n as nat),
        None => None,
    }));
}

/// The package file text after `update`: only the given limits appear.
pub fn package_file_text(update: &PackageUpdate) -> (r: String)
    ensures
        r@ == package_text(*update),
{
    proof {
        reveal_strlit("[limits]\n");
        reveal_strlit("memory_limit");
        reveal_strlit("cpu_limit");
        reveal_strlit("max_apps");
        reveal_strlit("disk_quota");
    }
    let mut out = String::from_str("[limits]\n");
    push_limit_line(&mut out, "memory_limit", update.memory_limit);
    push_limit_line(&mut out, "cpu_limit", match update.cpu_limit {
        Some(v) => Some(v as u64),
        None => None,
    });
    push_limit_line(&mut out, "max_apps", match update.max_apps {
        Some(v) => Some(v as u64),
        None => None,
    });
    push_limit_line(&mut out, "disk_quota", update.disk_quota);
    assert(out@ =~= package_text(*update));
    out
}

} // verus!
