//! The supervisor: the port allocator and the instance table kept in step,
//! so that every port an instance record names is the port allocated to
//! its user.

use vstd::prelude::*;
use crate::error::ManagerError;
use crate::instance::{
    Instance, InstanceConfig, InstanceManager, InstanceStatus, SpawnCommand, StopPlan, find_instance,
    lemma_find_instance, names_unique, record_ok, stop_plan_of, count_running, spec_restart, spec_start, spec_stop, with_lifecycle,
};
use crate::port::allocator::{PortAllocator, after_pick, after_release, lemma_allocator_invariants, pool_pick};
use crate::port::registry::holds_port;

verus! {

/// Every record with a non-zero port names the port allocated to its user.
pub open spec fn ports_bound(allocation: Map<Seq<char>, u16>, records: Seq<Instance>) -> bool {
    forall|i: int|
        0 <= i < records.len() && (#[trigger] records[i]).port != 0 ==> allocation.contains_key(
            records[i].username@,
        ) && allocation[records[i].username@] == records[i].port
}

/// Port allocation and instance records, kept consistent.
pub struct Supervisor {
    ports: PortAllocator,
    instances: InstanceManager,
}

impl Supervisor {
    pub closed spec fn spec_ports(&self) -> PortAllocator {
        self.ports
    }

    pub closed spec fn spec_instances(&self) -> InstanceManager {
        self.instances
    }

    pub open spec fn allocation(&self) -> Map<Seq<char>, u16> {
        self.spec_ports().allocation()
    }

    pub open spec fn records(&self) -> Seq<Instance> {
        self.spec_instances().records()
    }

    pub open spec fn wf(&self) -> bool {
        &&& self.spec_ports().wf()
        &&& self.spec_instances().wf()
        &&& ports_bound(self.allocation(), self.records())
    }

    /// A supervisor over `ports` and `instances`; refuses records whose port
    /// is not the one allocated to their user.
    pub fn new(ports: PortAllocator, instances: InstanceManager) -> (r: Result<Self, ManagerError>)
        requires
            ports.wf(),
            instances.wf(),
        ensures
            r is Ok <==> ports_bound(ports.allocation(), instances.records()),
            r matches Ok(s) ==> s.wf() && s.spec_ports() == ports && s.spec_instances() == instances,
            r matches Err(e) ==> e == ManagerError::PortConflict,
    {
        let list = instances.list();
        let mut i: usize = 0;
        while i < list.len()
            invariant
                ports.wf(),
                list@ == instances.records(),
                i <= list@.len(),
                forall|j: int|
                    0 <= j < i && (#[trigger] list@[j]).port != 0 ==> ports.allocation().contains_key(
                        list@[j].username@,
                    ) && ports.allocation()[list@[j].username@] == list@[j].port,
            decreases list@.len() - i,
        {
            if list[i].port != 0 {
                match ports.get_port(list[i].username.as_str()) {
                    Some(p) => {
                        if p != list[i].port {
                            return Err(ManagerError::PortConflict);
                        }
                    },
                    None => {
                        return Err(ManagerError::PortConflict);
                    },
                }
            }
            i = i + 1;
        }
        Ok(Supervisor { ports, instances })
    }

    /// The port allocator.
    pub fn ports(&self) -> (r: &PortAllocator)
        ensures
            *r == self.spec_ports(),
    {
        &self.ports
    }

    /// The instance table.
    pub fn instances(&self) -> (r: &InstanceManager)
        ensures
            *r == self.spec_instances(),
    {
        &self.instances
    }

    /// Records a new, stopped instance for `username` without a port.
    pub fn create(&mut self, username: &str, limits: Option<crate::instance::resource::ResourceLimits>)
        requires
            old(self).wf(),
        ensures
            final(self).wf(),
            final(self).spec_ports() == old(self).spec_ports(),
            find_instance(final(self).records(), username@) >= 0,
            final(self).records()[find_instance(final(self).records(), username@)].status
                == InstanceStatus::Stopped,
            final(self).records()[find_instance(final(self).records(), username@)].port == 0,
            final(self).records()[find_instance(final(self).records(), username@)].limits == match limits {
                Some(l) => l,
                None => old(self).spec_instances().spec_default_limits(),
            },
    {
        let ghost s = self.instances.records();
        self.instances.create(username, limits);
        proof {
            let t = self.instances.records();
            let f = find_instance(s, username@);
            lemma_find_instance(s, username@);
            let k = if f >= 0 {
                f
            } else {
                s.len() as int
            };
            assert forall|i: int| 0 <= i < t.len() && (#[trigger] t[i]).port != 0 implies self.allocation().contains_key(
                t[i].username@,
            ) && self.allocation()[t[i].username@] == t[i].port by {
                assert(i != k);
                assert(t[i] == s[i]);
            }
            lemma_find_instance(t, username@);
            assert(t[k].username@ == username@);
        }
    }

    /// Records an instance found on disk, stopped and without a port.
    pub fn load_instance(&mut self, username: &str, config: &InstanceConfig, app_count: u32)
        requires
            old(self).wf(),
        ensures
            final(self).wf(),
            final(self).spec_ports() == old(self).spec_ports(),
            find_instance(final(self).records(), username@) >= 0,
            final(self).records()[find_instance(final(self).records(), username@)].status
                == InstanceStatus::Stopped,
            final(self).records()[find_instance(final(self).records(), username@)].app_count == app_count,
            ({
                let d = old(self).spec_instances().spec_default_limits();
                let l = final(self).records()[find_instance(final(self).records(), username@)].limits;
                &&& l.memory_mb == config.memory_limit
                &&& l.max_apps == config.max_apps
                &&& l.cpu_percent == d.cpu_percent
                &&& l.max_connections == d.max_connections
                &&& l.disk_quota_mb == d.disk_quota_mb
            }),
    {
        let ghost s = self.instances.records();
        self.instances.load_instance(username, config, app_count);
        proof {
            let t = self.instances.records();
            let f = find_instance(s, username@);
            lemma_find_instance(s, username@);
            let k = if f >= 0 {
                f
            } else {
                s.len() as int
            };
            assert forall|i: int| 0 <= i < t.len() && (#[trigger] t[i]).port != 0 implies self.allocation().contains_key(
                t[i].username@,
            ) && self.allocation()[t[i].username@] == t[i].port by {
                assert(i != k);
                assert(t[i] == s[i]);
            }
            lemma_find_instance(t, username@);
            assert(t[k].username@ == username@);
        }
    }

    /// Stores a usage sample of `username`'s process, as the instance table does.
    pub fn update_usage(&mut self, username: &str, memory_bytes: u64, cpu_ticks: u64, now: i64)
        requires
            old(self).wf(),
        ensures
            final(self).wf(),
            final(self).spec_ports() == old(self).spec_ports(),
            ({
                let s = old(self).records();
                let t = final(self).records();
                let i = find_instance(s, username@);
                &&& t.len() == s.len()
                &&& forall|k: int| 0 <= k < s.len() && k != i ==> t[k] == s[k]
                &&& i >= 0 && s[i].pid is Some ==> t[i].memory_usage == memory_bytes
                    && t[i].last_health_check == Some(now)
            }),
    {
        let ghost s = self.instances.records();
        self.instances.update_usage(username, memory_bytes, cpu_ticks, now);
        proof {
            lemma_find_instance(s, username@);
            self.lemma_port_change_keeps_binding(s, username@);
        }
    }

    /// Gives `username` a port as the allocator does.
    pub fn allocate_port<F: Fn(u16) -> bool>(&mut self, username: &str, in_use: F) -> (r: Result<u16, ManagerError>)
        requires
            old(self).wf(),
            forall|p: u16| in_use.requires((p,)),
        ensures
            final(self).wf(),
            final(self).spec_instances() == old(self).spec_instances(),
            r matches Ok(p) ==> final(self).allocation().contains_key(username@) && final(self).allocation()[username@]
                == p,
            r is Err ==> final(self).allocation() == old(self).allocation(),
            old(self).allocation().contains_key(username@) ==> final(self).allocation() == old(
                self,
            ).allocation(),
            pool_pick(old(self).allocation(), old(self).spec_ports().released(), username@) matches Some(p) ==> {
                &&& r matches Ok(q) && q == p
                &&& (final(self).allocation(), final(self).spec_ports().released()) == after_pick(
                    old(self).allocation(),
                    old(self).spec_ports().released(),
                    username@,
                )
            },
            pool_pick(old(self).allocation(), old(self).spec_ports().released(), username@) is None ==> match r {
                Ok(p) => {
                    &&& old(self).spec_ports().spec_start() <= p <= old(self).spec_ports().spec_end()
                    &&& !holds_port(old(self).spec_ports().spec_registry().allocated@, p)
                    &&& in_use.ensures((p,), false)
                    &&& forall|q: u16|
                        old(self).spec_ports().spec_start() <= q < p ==> holds_port(
                            old(self).spec_ports().spec_registry().allocated@,
                            q,
                        ) || #[trigger] in_use.ensures((q,), true)
                    &&& final(self).allocation() == old(self).allocation().insert(username@, p)
                },
                Err(e) => {
                    &&& e == ManagerError::NoPortsAvailable
                    &&& final(self).spec_ports() == old(self).spec_ports()
                    &&& forall|q: u16|
                        old(self).spec_ports().spec_start() <= q <= old(self).spec_ports().spec_end()
                            ==> holds_port(old(self).spec_ports().spec_registry().allocated@, q)
                            || #[trigger] in_use.ensures((q,), true)
                },
            },
    {
        let ghost a = self.ports.allocation();
        let r = self.ports.allocate(username, in_use);
        proof {
            let b = self.ports.allocation();
            let t = self.instances.records();
            assert forall|i: int| 0 <= i < t.len() && (#[trigger] t[i]).port != 0 implies b.contains_key(
                t[i].username@,
            ) && b[t[i].username@] == t[i].port by {
                assert(a.contains_key(t[i].username@));
                if t[i].username@ == username@ {
                    assert(b == a);
                }
            }
        }
        r
    }

    /// Gives `username`'s port back, unless a process of theirs is using it;
    /// their record then names no port.
    pub fn release_port(&mut self, username: &str) -> (r: Result<(), ManagerError>)
        requires
            old(self).wf(),
        ensures
            final(self).wf(),
            ({
                let s = old(self).records();
                let i = find_instance(s, username@);
                if i >= 0 && s[i].pid is Some {
                    r == Err::<(), ManagerError>(ManagerError::PortConflict) && *final(self) == *old(self)
                } else if !old(self).allocation().contains_key(username@) {
                    r == Err::<(), ManagerError>(ManagerError::NotAllocated) && *final(self) == *old(self)
                } else {
                    &&& r is Ok
                    &&& (final(self).allocation(), final(self).spec_ports().released()) == after_release(
                        old(self).allocation(),
                        old(self).spec_ports().released(),
                        username@,
                    )
                    &&& i >= 0 ==> final(self).records() == s.update(
                        i,
                        with_lifecycle(s[i], s[i].status, 0, s[i].pid, s[i].started_at),
                    )
                    &&& i < 0 ==> final(self).records() == s
                }
            }),
    {
        let ghost s = self.instances.records();
        let ghost a = self.ports.allocation();
        proof {
            lemma_find_instance(s, username@);
        }
        if let Some(_) = self.instances.usage_pid(username) {
            return Err(ManagerError::PortConflict);
        }
        match self.ports.release(username) {
            Err(e) => {
                return Err(e);
            },
            Ok(()) => {},
        }
        self.instances.clear_port(username);
        proof {
            let t = self.instances.records();
            let b = self.ports.allocation();
            let f = find_instance(s, username@);
            assert(b == a.remove(username@));
            assert forall|i: int| 0 <= i < t.len() && (#[trigger] t[i]).port != 0 implies b.contains_key(
                t[i].username@,
            ) && b[t[i].username@] == t[i].port by {
                if f >= 0 && i != f {
                    assert(t[i] == s[i]);
                    assert(s[i].username@ != s[f].username@);
                } else if f < 0 {
                    assert(t[i] == s[i]);
                    assert(s[i].username@ != username@);
                }
            }
        }
        Ok(())
    }

    /// What starting `username`'s instance needs: a port, allocated here when
    /// the user has none, and the command that spawns its process unless it
    /// is running already.
    pub fn start_plan<F: Fn(u16) -> bool>(&mut self, username: &str, in_use: F) -> (r: Result<
        (u16, Option<SpawnCommand>),
        ManagerError,
    >)
        requires
            old(self).wf(),
            forall|p: u16| in_use.requires((p,)),
        ensures
            final(self).wf(),
            final(self).spec_instances() == old(self).spec_instances(),
            r matches Ok((p, c)) ==> final(self).allocation().contains_key(username@)
                && final(self).allocation()[username@] == p && (c is None <==> old(self).records()[find_instance(
                old(self).records(),
                username@,
            )].status == InstanceStatus::Running),
            old(self).allocation().contains_key(username@) ==> final(self).allocation() == old(
                self,
            ).allocation(),
            ({
                let a = old(self).allocation();
                let rel = old(self).spec_ports().released();
                let s = old(self).records();
                let i = find_instance(s, username@);
                pool_pick(a, rel, username@) matches Some(p) ==> {
                    &&& (final(self).allocation(), final(self).spec_ports().released()) == after_pick(
                        a,
                        rel,
                        username@,
                    )
                    &&& if i < 0 {
                        r matches Err(e) && e == ManagerError::NotFound
                    } else if s[i].status == InstanceStatus::Running {
                        r matches Ok((q, c)) && q == p && c is None
                    } else if p == 0 {
                        r matches Err(e) && e == ManagerError::Internal
                    } else {
                        r matches Ok((q, Some(c))) && q == p && old(self).spec_instances().is_spawn_command(
                            c,
                            username@,
                            p,
                            s[i].limits,
                        )
                    }
                }
            }),
            ({
                let s = old(self).records();
                let i = find_instance(s, username@);
                let p = final(self).allocation()[username@];
                pool_pick(old(self).allocation(), old(self).spec_ports().released(), username@) is None ==> {
                    &&& !final(self).allocation().contains_key(username@) ==> (r matches Err(e) && e
                        == ManagerError::NoPortsAvailable)
                    &&& final(self).allocation().contains_key(username@) ==> if i < 0 {
                        r matches Err(e) && e == ManagerError::NotFound
                    } else if s[i].status == InstanceStatus::Running {
                        r matches Ok((q, c)) && q == p && c is None
                    } else if p == 0 {
                        r matches Err(e) && e == ManagerError::Internal
                    } else {
                        r matches Ok((q, Some(c))) && q == p && old(self).spec_instances().is_spawn_command(
                            c,
                            username@,
                            p,
                            s[i].limits,
                        )
                    }
                }
            }),
            pool_pick(old(self).allocation(), old(self).spec_ports().released(), username@) is None ==> {
                &&& (r is Err && r->Err_0 == ManagerError::NoPortsAvailable) ==> {
                    &&& final(self).spec_ports() == old(self).spec_ports()
                    &&& forall|q: u16|
                        old(self).spec_ports().spec_start() <= q <= old(self).spec_ports().spec_end()
                            ==> holds_port(old(self).spec_ports().spec_registry().allocated@, q)
                            || #[trigger] in_use.ensures((q,), true)
                }
                &&& r matches Ok((p, _)) ==> {
                    &&& old(self).spec_ports().spec_start() <= p <= old(self).spec_ports().spec_end()
                    &&& !holds_port(old(self).spec_ports().spec_registry().allocated@, p)
                    &&& in_use.ensures((p,), false)
                    &&& forall|q: u16|
                        old(self).spec_ports().spec_start() <= q < p ==> holds_port(
                            old(self).spec_ports().spec_registry().allocated@,
                            q,
                        ) || #[trigger] in_use.ensures((q,), true)
                    &&& final(self).allocation() == old(self).allocation().insert(username@, p)
                }
            },
    {
        let port = match self.allocate_port(username, in_use) {
            Ok(p) => p,
            Err(e) => {
                return Err(e);
            },
        };
        match self.instances.start_plan(username, port) {
            Ok(c) => Ok((port, c)),
            Err(e) => Err(e),
        }
    }

    /// Starts `username`'s instance on the port allocated to the user, given
    /// the spawned process id, or `None` when spawning failed.
    pub fn start(&mut self, username: &str, spawned: Option<u32>, now: i64) -> (r: Result<(), ManagerError>)
        requires
            old(self).wf(),
        ensures
            final(self).wf(),
            final(self).spec_ports() == old(self).spec_ports(),
            !old(self).allocation().contains_key(username@) ==> r == Err::<(), ManagerError>(
                ManagerError::NotAllocated,
            ) && final(self).records() == old(self).records(),
            old(self).allocation().contains_key(username@) ==> (final(self).records(), r) == spec_start(
                old(self).records(),
                username@,
                old(self).allocation()[username@],
                spawned,
                now,
            ),
    {
        let port = match self.ports.get_port(username) {
            None => {
                return Err(ManagerError::NotAllocated);
            },
            Some(p) => p,
        };
        let ghost s = self.instances.records();
        let r = self.instances.start(username, port, spawned, now);
        proof {
            lemma_find_instance(s, username@);
            self.lemma_port_change_keeps_binding(s, username@);
        }
        r
    }

    /// Stops `username`'s instance, given the outcome of shutting down its
    /// process. The port stays allocated.
    pub fn stop(&mut self, username: &str, signalled: Result<(), ManagerError>) -> (r: Result<(), ManagerError>)
        requires
            old(self).wf(),
        ensures
            final(self).wf(),
            final(self).spec_ports() == old(self).spec_ports(),
            (final(self).records(), r) == spec_stop(old(self).records(), username@, signalled),
    {
        let ghost s = self.instances.records();
        let r = self.instances.stop(username, signalled);
        proof {
            lemma_find_instance(s, username@);
            self.lemma_port_change_keeps_binding(s, username@);
        }
        r
    }

    /// What restarting `username`'s instance needs: the user's port, the
    /// stop's plan, and the command for the new process.
    pub fn restart_plan(&self, username: &str) -> (r: Result<(u16, StopPlan, Option<SpawnCommand>), ManagerError>)
        requires
            self.wf(),
        ensures
            !self.allocation().contains_key(username@) ==> r == Err::<
                (u16, StopPlan, Option<SpawnCommand>),
                ManagerError,
            >(ManagerError::NotAllocated),
            r matches Ok((p, _, _)) ==> self.allocation().contains_key(username@) && p
                == self.allocation()[username@],
            self.allocation().contains_key(username@) && find_instance(self.records(), username@)
                < 0 ==> r == Err::<(u16, StopPlan, Option<SpawnCommand>), ManagerError>(
                ManagerError::NotFound,
            ),
            ({
                let s = self.records();
                let i = find_instance(s, username@);
                let p = self.allocation()[username@];
                self.allocation().contains_key(username@) && i >= 0 ==> (r matches Ok((q, plan, cmd))
                    && q == p && plan == stop_plan_of(s[i]) && (cmd is None <==> p == 0) && (
                cmd matches Some(c) ==> self.spec_instances().is_spawn_command(c, username@, p, s[i].limits)))
            }),
    {
        let port = match self.ports.get_port(username) {
            None => {
                return Err(ManagerError::NotAllocated);
            },
            Some(p) => p,
        };
        match self.instances.restart_plan(username, port) {
            Ok((plan, cmd)) => Ok((port, plan, cmd)),
            Err(e) => Err(e),
        }
    }

    /// Restarts `username`'s instance on the user's port: a stop and, when
    /// it succeeded, a start.
    pub fn restart(
        &mut self,
        username: &str,
        signalled: Result<(), ManagerError>,
        spawned: Option<u32>,
        now: i64,
    ) -> (r: Result<(), ManagerError>)
        requires
            old(self).wf(),
        ensures
            final(self).wf(),
            final(self).spec_ports() == old(self).spec_ports(),
            !old(self).allocation().contains_key(username@) ==> r == Err::<(), ManagerError>(
                ManagerError::NotAllocated,
            ) && final(self).records() == old(self).records(),
            old(self).allocation().contains_key(username@) ==> (final(self).records(), r) == spec_restart(
                old(self).records(),
                username@,
                old(self).allocation()[username@],
                signalled,
                spawned,
                now,
            ),
    {
        let port = match self.ports.get_port(username) {
            None => {
                return Err(ManagerError::NotAllocated);
            },
            Some(p) => p,
        };
        let ghost s = self.instances.records();
        let r = self.instances.restart(username, port, signalled, spawned, now);
        proof {
            lemma_find_instance(s, username@);
            let f = find_instance(s, username@);
            let s1 = spec_stop(s, username@, signalled).0;
            if f >= 0 {
                assert forall|a: int, b: int| 0 <= a < b < s1.len() implies s1[a].username@
                    != s1[b].username@ by {
                    assert(s[a].username@ != s[b].username@);
                }
                lemma_find_instance(s1, username@);
                assert(s1[f].username@ == username@);
                assert(find_instance(s1, username@) == f);
            }
            self.lemma_port_change_keeps_binding(s, username@);
        }
        r
    }

    /// Forgets `username`'s record and gives their port back; whether there
    /// was a record.
    pub fn remove(&mut self, username: &str) -> (r: bool)
        requires
            old(self).wf(),
        ensures
            final(self).wf(),
            r == (find_instance(old(self).records(), username@) >= 0),
            !final(self).allocation().contains_key(username@),
            find_instance(final(self).records(), username@) < 0,
            r ==> final(self).records() == old(self).records().remove(
                find_instance(old(self).records(), username@),
            ),
            !r ==> final(self).records() == old(self).records(),
            old(self).allocation().contains_key(username@) ==> (
            final(self).allocation(),
            final(self).spec_ports().released(),
            ) == after_release(old(self).allocation(), old(self).spec_ports().released(), username@),
            !old(self).allocation().contains_key(username@) ==> final(self).spec_ports() == old(
                self,
            ).spec_ports(),
    {
        let ghost s = self.instances.records();
        let r = self.instances.remove(username);
        let ghost t = self.instances.records();
        let ghost a = self.ports.allocation();
        proof {
            lemma_find_instance(s, username@);
            let f = find_instance(s, username@);
            assert forall|i: int| 0 <= i < t.len() implies (#[trigger] t[i]).username@ != username@ by {
                if f >= 0 {
                    let i2 = if i < f { i } else { i + 1 };
                    assert(t[i] == s[i2]);
                    assert(s[i2].username@ != s[f].username@);
                } else {
                    assert(t[i] == s[i]);
                }
            }
            lemma_find_instance(t, username@);
        }
        let _ = self.ports.release(username);
        proof {
            let b = self.ports.allocation();
            let f = find_instance(s, username@);
            assert forall|i: int| 0 <= i < t.len() && (#[trigger] t[i]).port != 0 implies b.contains_key(
                t[i].username@,
            ) && b[t[i].username@] == t[i].port by {
                let i2 = if f >= 0 && i >= f { i + 1 } else { i };
                assert(t[i] == s[i2]);
            }
        }
        r
    }

    /// Names of the running instances: each running record's name once.
    pub fn running_usernames(&self) -> (r: Vec<String>)
        requires
            self.wf(),
        ensures
            r@.len() == count_running(self.records()),
            forall|i: int| 0 <= i < r@.len() ==> {
                let k = find_instance(self.records(), (#[trigger] r@[i])@);
                k >= 0 && self.records()[k].status == InstanceStatus::Running
            },
            forall|k: int|
                0 <= k < self.records().len() && (#[trigger] self.records()[k]).status
                    == InstanceStatus::Running ==> exists|j: int|
                    0 <= j < r@.len() && (#[trigger] r@[j])@ == self.records()[k].username@,
    {
        let list = self.instances.list();
        let mut out: Vec<String> = Vec::new();
        let mut i: usize = 0;
        while i < list.len()
            invariant
                list@ == self.records(),
                names_unique(self.records()),
                i <= list@.len(),
                out@.len() == count_running(list@.subrange(0, i as int)),
                forall|j: int| 0 <= j < out@.len() ==> {
                    let k = find_instance(self.records(), (#[trigger] out@[j])@);
                    k >= 0 && self.records()[k].status == InstanceStatus::Running
                },
                forall|k: int|
                    0 <= k < i && (#[trigger] list@[k]).status == InstanceStatus::Running ==> exists|j: int|
                        0 <= j < out@.len() && (#[trigger] out@[j])@ == list@[k].username@,
            decreases list@.len() - i,
        {
            proof {
                assert(list@.subrange(0, i + 1).drop_last() =~= list@.subrange(0, i as int));
            }
            if list[i].status == InstanceStatus::Running {
                proof {
                    lemma_find_instance(self.records(), list@[i as int].username@);
                }
                let ghost before = out@;
                out.push(list[i].username.clone());
                proof {
                    assert forall|k: int|
                        0 <= k < i + 1 && (#[trigger] list@[k]).status == InstanceStatus::Running implies exists|j: int|
                        0 <= j < out@.len() && (#[trigger] out@[j])@ == list@[k].username@ by {
                        if k < i {
                            let j = choose|j: int| 0 <= j < before.len() && (#[trigger] before[j])@ == list@[k].username@;
                            assert(out@[j] == before[j]);
                        } else {
                            assert(out@[before.len() as int]@ == list@[k].username@);
                        }
                    }
                }
            }
            i = i + 1;
        }
        assert(list@.subrange(0, i as int) =~= list@);
        out
    }

    /// A change to the record of `u` alone that keeps its port or sets it to
    /// the port allocated to `u` keeps every record bound.
    proof fn lemma_port_change_keeps_binding(&self, s: Seq<Instance>, u: Seq<char>)
        requires
            names_unique(s),
            ports_bound(self.allocation(), s),
            ({
                let t = self.records();
                let f = find_instance(s, u);
                &&& t.len() == s.len()
                &&& forall|i: int| 0 <= i < s.len() && i != f ==> t[i] == s[i]
                &&& f >= 0 ==> t[f].username == s[f].username && (t[f].port == s[f].port || t[f].port == 0
                    || (self.allocation().contains_key(u) && t[f].port == self.allocation()[u]))
            }),
        ensures
            ports_bound(self.allocation(), self.records()),
    {
        lemma_find_instance(s, u);
    }
}

/// No two instances with a process share a port, and each uses the port
/// allocated to its user.
pub proof fn lemma_active_ports_distinct(sv: Supervisor)
    requires
        sv.wf(),
    ensures
        forall|i: int, j: int|
            0 <= i < sv.records().len() && 0 <= j < sv.records().len() && i != j && (
            #[trigger] sv.records()[i]).pid is Some && (#[trigger] sv.records()[j]).pid is Some
                ==> sv.records()[i].port != sv.records()[j].port,
        forall|i: int|
            0 <= i < sv.records().len() && (#[trigger] sv.records()[i]).pid is Some ==> sv.allocation()[sv.records()[i].username@]
                == sv.records()[i].port,
{
    let s = sv.records();
    lemma_allocator_invariants(sv.spec_ports());
    assert forall|i: int| 0 <= i < s.len() && (#[trigger] s[i]).pid is Some implies s[i].port != 0 by {
        assert(record_ok(s[i]));
    }
    assert forall|i: int, j: int|
        0 <= i < s.len() && 0 <= j < s.len() && i != j && (#[trigger] s[i]).pid is Some
            && (#[trigger] s[j]).pid is Some implies s[i].port != s[j].port by {
        assert(record_ok(s[i]) && record_ok(s[j]));
        if i < j {
            assert(s[i].username@ != s[j].username@);
        } else {
            assert(s[j].username@ != s[i].username@);
        }
        assert(sv.allocation().contains_key(s[i].username@));
        assert(sv.allocation().contains_key(s[j].username@));
    }
}

} // verus!
