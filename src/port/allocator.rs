//! Hands out ports of a configured range to users: a user keeps their port,
//! released ports are reused last-released first, and otherwise the lowest
//! free port of the range is taken.

use vstd::prelude::*;
use crate::error::ManagerError;
use crate::port::registry::{
    PortRegistry, entries_map, find_user, holds_port, lemma_find_user, lemma_without_absent, lemma_without_port,
};

verus! {

/// Counts over the allocator's range.
#[derive(Debug, Clone, Copy, PartialEq, Eq, Structural)]
pub struct PortStats {
    pub range_start: u16,
    pub range_end: u16,
    pub total: usize,
    pub allocated: usize,
    pub available: usize,
    pub released_pool: usize,
}

/// Port allocator over the inclusive range `[range_start, range_end]`.
pub struct PortAllocator {
    range_start: u16,
    range_end: u16,
    registry: PortRegistry,
}

/// The port that an allocation for `u` takes without scanning the range: the
/// one `u` holds, else the most recently released one.
pub open spec fn pool_pick(allocation: Map<Seq<char>, u16>, released: Seq<u16>, u: Seq<char>) -> Option<u16> {
    if allocation.contains_key(u) {
        Some(allocation[u])
    } else if released.len() > 0 {
        Some(released.last())
    } else {
        None
    }
}

/// Allocation and pool after `u` takes the port that `pool_pick` names.
pub open spec fn after_pick(allocation: Map<Seq<char>, u16>, released: Seq<u16>, u: Seq<char>) -> (
    Map<Seq<char>, u16>,
    Seq<u16>,
) {
    if allocation.contains_key(u) {
        (allocation, released)
    } else {
        (allocation.insert(u, released.last()), released.drop_last())
    }
}

/// Allocation and pool after `u` gives their port back.
pub open spec fn after_release(allocation: Map<Seq<char>, u16>, released: Seq<u16>, u: Seq<char>) -> (
    Map<Seq<char>, u16>,
    Seq<u16>,
) {
    (allocation.remove(u), released.push(allocation[u]))
}

/// Every port that the registry records lies in `[start, end]`.
pub open spec fn registry_within(reg: PortRegistry, start: u16, end: u16) -> bool {
    &&& forall|u: Seq<char>|
        #[trigger] reg.allocation().contains_key(u) ==> start <= reg.allocation()[u] <= end
    &&& forall|i: int| 0 <= i < reg.released@.len() ==> start <= #[trigger] reg.released@[i] <= end
}

impl PortAllocator {
    pub closed spec fn spec_start(&self) -> u16 {
        self.range_start
    }

    pub closed spec fn spec_end(&self) -> u16 {
        self.range_end
    }

    pub closed spec fn spec_registry(&self) -> PortRegistry {
        self.registry
    }

    /// The mapping from username to port.
    pub open spec fn allocation(&self) -> Map<Seq<char>, u16> {
        self.spec_registry().allocation()
    }

    /// The released pool, oldest first.
    pub open spec fn released(&self) -> Seq<u16> {
        self.spec_registry().released@
    }

    pub open spec fn wf(&self) -> bool {
        &&& self.spec_registry().wf()
        &&& self.spec_start() <= self.spec_end()
        &&& registry_within(self.spec_registry(), self.spec_start(), self.spec_end())
    }

    /// An allocator over `[range_start, range_end]` that starts from
    /// `registry`. Refuses an empty range and a registry holding a port
    /// outside the range.
    pub fn new(range_start: u16, range_end: u16, registry: PortRegistry) -> (r: Result<
        PortAllocator,
        ManagerError,
    >)
        requires
            registry.wf(),
        ensures
            r is Ok <==> (range_start <= range_end && registry_within(
                registry,
                range_start,
                range_end,
            )),
            r matches Ok(a) ==> a.wf() && a.spec_start() == range_start && a.spec_end() == range_end
                && a.spec_registry() == registry,
            r matches Err(e) ==> e == ManagerError::ConfigInvalid,
    {
        if range_start > range_end {
            return Err(ManagerError::ConfigInvalid);
        }
        let mut i: usize = 0;
        while i < registry.allocated.len()
            invariant
                registry.wf(),
                i <= registry.allocated@.len(),
                forall|j: int|
                    0 <= j < i ==> range_start <= (#[trigger] registry.allocated@[j]).1 <= range_end,
            decreases registry.allocated@.len() - i,
        {
            let p = registry.allocated[i].1;
            if p < range_start || p > range_end {
                proof {
                    let u = registry.allocated@[i as int].0@;
                    lemma_find_user(registry.allocated@, u);
                    assert(registry.allocation().contains_key(u));
                }
                return Err(ManagerError::ConfigInvalid);
            }
            i = i + 1;
        }
        let mut k: usize = 0;
        while k < registry.released.len()
            invariant
                k <= registry.released@.len(),
                forall|j: int| 0 <= j < k ==> range_start <= #[trigger] registry.released@[j] <= range_end,
            decreases registry.released@.len() - k,
        {
            let p = registry.released[k];
            if p < range_start || p > range_end {
                return Err(ManagerError::ConfigInvalid);
            }
            k = k + 1;
        }
        proof {
            assert forall|u: Seq<char>| #[trigger] registry.allocation().contains_key(u) implies range_start
                <= registry.allocation()[u] <= range_end by {
                lemma_find_user(registry.allocated@, u);
            }
        }
        Ok(PortAllocator { range_start, range_end, registry })
    }

    /// First port of the range.
    pub fn range_start(&self) -> (r: u16)
        ensures
            r == self.spec_start(),
    {
        self.range_start
    }

    /// Last port of the range.
    pub fn range_end(&self) -> (r: u16)
        ensures
            r == self.spec_end(),
    {
        self.range_end
    }

    /// The registry as it stands, for persisting it.
    pub fn registry(&self) -> (r: &PortRegistry)
        ensures
            *r == self.spec_registry(),
    {
        &self.registry
    }

    /// The lowest port of the range that no user holds and that `in_use`
    /// does not report as bound on the host.
    fn find_available_port<F: Fn(u16) -> bool>(&self, in_use: &F) -> (r: Result<u16, ManagerError>)
        requires
            self.wf(),
            forall|p: u16| in_use.requires((p,)),
        ensures
            r matches Ok(p) ==> self.spec_start() <= p <= self.spec_end()
                && !holds_port(self.spec_registry().allocated@, p) && in_use.ensures((p,), false)
                && forall|q: u16|
                self.spec_start() <= q < p ==> holds_port(self.spec_registry().allocated@, q)
                    || #[trigger] in_use.ensures((q,), true),
            r matches Err(e) ==> e == ManagerError::NoPortsAvailable && forall|q: u16|
                self.spec_start() <= q <= self.spec_end() ==> holds_port(
                    self.spec_registry().allocated@,
                    q,
                ) || #[trigger] in_use.ensures((q,), true),
    {
        let mut port: u32 = self.range_start as u32;
        while port <= self.range_end as u32
            invariant
                self.wf(),
                forall|p: u16| in_use.requires((p,)),
                self.range_start <= port <= self.range_end as u32 + 1,
                forall|q: u16|
                    self.spec_start() <= q < port ==> holds_port(self.spec_registry().allocated@, q)
                        || #[trigger] in_use.ensures((q,), true),
            decreases self.range_end as u32 + 1 - port,
        {
            let p = port as u16;
            if !self.registry.is_allocated(p) {
                let bound = in_use(p);
                if !bound {
                    return Ok(p);
                }
            }
            port = port + 1;
        }
        Err(ManagerError::NoPortsAvailable)
    }

    /// Gives `username` a port: the one they hold already, else the most
    /// recently released one, else the lowest free port of the range that
    /// `in_use` does not report as bound on the host.
    pub fn allocate<F: Fn(u16) -> bool>(&mut self, username: &str, in_use: F) -> (r: Result<
        u16,
        ManagerError,
    >)
        requires
            old(self).wf(),
            forall|p: u16| in_use.requires((p,)),
        ensures
            final(self).wf(),
            final(self).spec_start() == old(self).spec_start(),
            final(self).spec_end() == old(self).spec_end(),
            pool_pick(old(self).allocation(), old(self).released(), username@) matches Some(p) ==> {
                &&& r == Ok::<u16, ManagerError>(p)
                &&& (final(self).allocation(), final(self).released()) == after_pick(
                    old(self).allocation(),
                    old(self).released(),
                    username@,
                )
            },
            pool_pick(old(self).allocation(), old(self).released(), username@) is None ==> match r {
                Ok(p) => {
                    &&& old(self).spec_start() <= p <= old(self).spec_end()
                    &&& !holds_port(old(self).spec_registry().allocated@, p)
                    &&& in_use.ensures((p,), false)
                    &&& forall|q: u16|
                        old(self).spec_start() <= q < p ==> holds_port(
                            old(self).spec_registry().allocated@,
                            q,
                        ) || #[trigger] in_use.ensures((q,), true)
                    &&& final(self).allocation() == old(self).allocation().insert(username@, p)
                    &&& final(self).spec_registry().released@.len() == 0
                },
                Err(e) => {
                    &&& e == ManagerError::NoPortsAvailable
                    &&& *final(self) == *old(self)
                    &&& forall|q: u16|
                        old(self).spec_start() <= q <= old(self).spec_end() ==> holds_port(
                            old(self).spec_registry().allocated@,
                            q,
                        ) || #[trigger] in_use.ensures((q,), true)
                },
            },
    {
        if let Some(port) = self.registry.get_port(username) {
            assert((self.allocation(), self.released()) == after_pick(
                old(self).allocation(), old(self).released(), username@));
            return Ok(port);
        }
        let ghost before = self.registry;
        if self.registry.released_count() > 0 {
            let port = match self.registry.pop_released() {
                Some(p) => p,
                None => {
                    return Err(ManagerError::Internal);
                },
            };
            proof {
                let rel = before.released@;
                assert(rel[rel.len() - 1] == port);
                assert(!holds_port(before.allocated@, port));
                assert(!self.registry.released@.contains(port)) by {
                    let d = self.registry.released@;
                    if d.contains(port) {
                        let a = choose|a: int| 0 <= a < d.len() && d[a] == port;
                        assert(rel[a] == port);
                    }
                }
                lemma_without_absent(self.registry.released@, port);
            }
            let res = self.registry.allocate(username, port);
            proof {
                assert forall|i: int| 0 <= i < self.registry.released@.len() implies self.range_start
                    <= #[trigger] self.registry.released@[i] <= self.range_end by {
                    assert(before.released@[i] == self.registry.released@[i]);
                }
            }
            return match res {
                Ok(()) => Ok(port),
                Err(e) => Err(e),
            };
        }
        let port = match self.find_available_port(&in_use) {
            Ok(p) => p,
            Err(e) => {
                return Err(e);
            },
        };
        let res = self.registry.allocate(username, port);
        proof {
            lemma_without_port(before.released@, port);
            assert forall|i: int| 0 <= i < self.registry.released@.len() implies self.range_start
                <= #[trigger] self.registry.released@[i] <= self.range_end by {
                assert(self.registry.released@.contains(self.registry.released@[i]));
            }
        }
        match res {
            Ok(()) => Ok(port),
            Err(e) => Err(e),
        }
    }

    /// Gives `username`'s port back to the released pool.
    pub fn release(&mut self, username: &str) -> (r: Result<(), ManagerError>)
        requires
            old(self).wf(),
        ensures
            final(self).wf(),
            final(self).spec_start() == old(self).spec_start(),
            final(self).spec_end() == old(self).spec_end(),
            old(self).allocation().contains_key(username@) <==> r is Ok,
            r is Ok ==> (final(self).allocation(), final(self).released()) == after_release(
                old(self).allocation(),
                old(self).released(),
                username@,
            ),
            r is Err ==> r == Err::<(), ManagerError>(ManagerError::NotAllocated) && *final(self)
                == *old(self),
    {
        let ghost before = self.registry;
        let res = self.registry.release(username);
        proof {
            if res is Ok {
                let rr = self.registry.released@;
                assert forall|i: int| 0 <= i < rr.len() implies self.range_start <= #[trigger] rr[i]
                    <= self.range_end by {
                    if i < before.released@.len() {
                        assert(rr[i] == before.released@[i]);
                    } else {
                        assert(before.allocation().contains_key(username@));
                    }
                }
            }
        }
        res
    }

    /// The port held by `username`, if any.
    pub fn get_port(&self, username: &str) -> (r: Option<u16>)
        requires
            self.wf(),
        ensures
            r == (if self.allocation().contains_key(username@) {
                Some(self.allocation()[username@])
            } else {
                None
            }),
    {
        self.registry.get_port(username)
    }

    /// Every allocation, as username and port.
    pub fn list_allocations(&self) -> (r: Vec<(String, u16)>)
        requires
            self.wf(),
        ensures
            r@.len() == self.spec_registry().allocated@.len(),
            forall|i: int|
                0 <= i < r@.len() ==> (#[trigger] r@[i]).0@ == self.spec_registry().allocated@[i].0@
                    && r@[i].1 == self.spec_registry().allocated@[i].1,
            entries_map(r@) == self.allocation(),
    {
        let mut out: Vec<(String, u16)> = Vec::new();
        let mut i: usize = 0;
        while i < self.registry.allocated.len()
            invariant
                i <= self.spec_registry().allocated@.len(),
                out@.len() == i,
                forall|j: int|
                    0 <= j < i ==> (#[trigger] out@[j]).0@ == self.spec_registry().allocated@[j].0@
                        && out@[j].1 == self.spec_registry().allocated@[j].1,
            decreases self.spec_registry().allocated@.len() - i,
        {
            let name = self.registry.allocated[i].0.clone();
            out.push((name, self.registry.allocated[i].1));
            i = i + 1;
        }
        proof {
            let s = self.spec_registry().allocated@;
            assert forall|k: Seq<char>| #[trigger] find_user(out@, k) == find_user(s, k) && (find_user(
                s,
                k,
            ) >= 0 ==> out@[find_user(s, k)].1 == s[find_user(s, k)].1) by {
                lemma_find_same_names(out@, s, k);
                lemma_find_user(s, k);
            }
            assert(entries_map(out@) =~= self.allocation());
        }
        out
    }

    /// Whether `port` lies in the range and no user holds it.
    pub fn is_available(&self, port: u16) -> (r: bool)
        ensures
            r == (self.spec_start() <= port <= self.spec_end() && !holds_port(
                self.spec_registry().allocated@,
                port,
            )),
    {
        if port < self.range_start || port > self.range_end {
            return false;
        }
        !self.registry.is_allocated(port)
    }

    /// Counts over the range: its size, the ports held, the ports free, and
    /// the size of the released pool.
    pub fn stats(&self) -> (r: PortStats)
        requires
            self.wf(),
        ensures
            r.range_start == self.spec_start(),
            r.range_end == self.spec_end(),
            r.total == self.spec_end() - self.spec_start() + 1,
            r.allocated == self.spec_registry().allocated@.len(),
            r.available == r.total - r.allocated,
            r.released_pool == self.released().len(),
    {
        proof {
            self.lemma_allocated_fit_range();
        }
        let total = (self.range_end - self.range_start) as usize + 1;
        let allocated = self.registry.allocated_count();
        PortStats {
            range_start: self.range_start,
            range_end: self.range_end,
            total,
            allocated,
            available: total - allocated,
            released_pool: self.registry.released_count(),
        }
    }

    /// Users hold distinct ports of the range, so there are no more of them
    /// than ports in the range.
    proof fn lemma_allocated_fit_range(&self)
        requires
            self.wf(),
        ensures
            self.spec_registry().allocated@.len() <= self.spec_end() - self.spec_start() + 1,
    {
        let s = self.spec_registry().allocated@;
        let ps = s.map_values(|e: (String, u16)| e.1 as int);
        assert(ps.no_duplicates()) by {
            assert forall|i: int, j: int| 0 <= i < ps.len() && 0 <= j < ps.len() && i != j implies ps[i]
                != ps[j] by {
                if i < j {
                    assert(s[i].1 != s[j].1);
                } else {
                    assert(s[j].1 != s[i].1);
                }
            }
        }
        ps.unique_seq_to_set();
        let range = vstd::set_lib::set_int_range(self.spec_start() as int, self.spec_end() + 1);
        vstd::set_lib::lemma_int_range(self.spec_start() as int, self.spec_end() + 1);
        assert forall|x: int| ps.to_set().contains(x) implies range.contains(x) by {
            let i = choose|i: int| 0 <= i < ps.len() && ps[i] == x;
            let u = s[i].0@;
            lemma_find_user(s, u);
            assert(self.allocation().contains_key(u));
        }
        vstd::set_lib::lemma_len_subset(ps.to_set(), range);
    }
}

/// Two entry lists with the same names at each position find each user at
/// the same position.
pub proof fn lemma_find_same_names(a: Seq<(String, u16)>, b: Seq<(String, u16)>, k: Seq<char>)
    requires
        a.len() == b.len(),
        forall|i: int| 0 <= i < a.len() ==> (#[trigger] a[i]).0@ == b[i].0@,
    ensures
        find_user(a, k) == find_user(b, k),
    decreases a.len(),
{
    if a.len() > 0 {
        lemma_find_same_names(a.drop_last(), b.drop_last(), k);
        assert(a[a.len() - 1].0@ == b[b.len() - 1].0@);
    }
}

/// What every reachable allocator state satisfies: no port is held twice,
/// every held port lies in the range, and no released port is held.
pub proof fn lemma_allocator_invariants(a: PortAllocator)
    requires
        a.wf(),
    ensures
        forall|u: Seq<char>, v: Seq<char>|
            #[trigger] a.allocation().contains_key(u) && #[trigger] a.allocation().contains_key(v)
                && u != v ==> a.allocation()[u] != a.allocation()[v],
        forall|u: Seq<char>|
            #[trigger] a.allocation().contains_key(u) ==> a.spec_start() <= a.allocation()[u]
                <= a.spec_end(),
        forall|i: int, u: Seq<char>|
            0 <= i < a.released().len() && #[trigger] a.allocation().contains_key(u)
                ==> a.allocation()[u] != #[trigger] a.released()[i],
{
    let s = a.spec_registry().allocated@;
    assert forall|u: Seq<char>, v: Seq<char>|
        #[trigger] a.allocation().contains_key(u) && #[trigger] a.allocation().contains_key(v) && u
            != v implies a.allocation()[u] != a.allocation()[v] by {
        lemma_find_user(s, u);
        lemma_find_user(s, v);
        let i = find_user(s, u);
        let j = find_user(s, v);
        if i < j {
            assert(s[i].1 != s[j].1);
        } else if j < i {
            assert(s[j].1 != s[i].1);
        }
    }
    assert forall|i: int, u: Seq<char>|
        0 <= i < a.released().len() && #[trigger] a.allocation().contains_key(u) implies a.allocation()[u]
        != #[trigger] a.released()[i] by {
        lemma_find_user(s, u);
        assert(!holds_port(s, a.released()[i]));
        assert(s[find_user(s, u)].1 == a.allocation()[u]);
    }
}

/// Releasing a user's port and then allocating for a user who holds none
/// hands out the port just released; the releasing user no longer holds one.
pub proof fn lemma_release_then_allocate_reuses(
    allocation: Map<Seq<char>, u16>,
    released: Seq<u16>,
    u: Seq<char>,
    v: Seq<char>,
)
    requires
        allocation.contains_key(u),
        !allocation.contains_key(v) || v == u,
    ensures
        ({
            let (a1, r1) = after_release(allocation, released, u);
            &&& !a1.contains_key(u)
            &&& r1.last() == allocation[u]
            &&& pool_pick(a1, r1, v) == Some(allocation[u])
            &&& after_pick(a1, r1, v) == (a1.insert(v, allocation[u]), released)
        }),
{
    let (a1, r1) = after_release(allocation, released, u);
    assert(r1.drop_last() =~= released);
}

} // verus!
