//! The persistent record of which user holds which port, and the pool of
//! ports that were given back.

use vstd::prelude::*;
use crate::error::ManagerError;

verus! {

/// First port of the range that a fresh registry records.
pub const DEFAULT_RANGE_START: u16 = 30001;

/// Last port of the range that a fresh registry records.
pub const DEFAULT_RANGE_END: u16 = 32000;

/// An inclusive range of ports.
#[derive(Debug, Clone, Copy, PartialEq, Eq, Structural)]
pub struct PortRange {
    pub start: u16,
    pub end: u16,
}

impl Default for PortRange {
    fn default() -> (r: Self)
        ensures
            r.start == DEFAULT_RANGE_START,
            r.end == DEFAULT_RANGE_END,
    {
        PortRange { start: DEFAULT_RANGE_START, end: DEFAULT_RANGE_END }
    }
}

/// Position of the last entry of user `u` in `s`, or -1 when there is none.
pub open spec fn find_user(s: Seq<(String, u16)>, u: Seq<char>) -> int
    decreases s.len(),
{
    if s.len() == 0 {
        -1
    } else if s.last().0@ == u {
        s.len() - 1
    } else {
        find_user(s.drop_last(), u)
    }
}

/// No user has two entries.
pub open spec fn users_unique(s: Seq<(String, u16)>) -> bool {
    forall|i: int, j: int| 0 <= i < j < s.len() ==> #[trigger] s[i].0@ != #[trigger] s[j].0@
}

/// No port is held by two entries.
pub open spec fn ports_distinct(s: Seq<(String, u16)>) -> bool {
    forall|i: int, j: int| 0 <= i < j < s.len() ==> #[trigger] s[i].1 != #[trigger] s[j].1
}

/// Some entry holds port `p`.
pub open spec fn holds_port(s: Seq<(String, u16)>, p: u16) -> bool {
    exists|i: int| 0 <= i < s.len() && #[trigger] s[i].1 == p
}

/// The mapping from username to port that a list of entries describes.
pub open spec fn entries_map(s: Seq<(String, u16)>) -> Map<Seq<char>, u16> {
    Map::new(|u: Seq<char>| find_user(s, u) >= 0, |u: Seq<char>| s[find_user(s, u)].1)
}

/// The conditions under which a list of entries and a released pool form a
/// consistent registry.
pub open spec fn parts_consistent(allocated: Seq<(String, u16)>, released: Seq<u16>) -> bool {
    &&& users_unique(allocated)
    &&& ports_distinct(allocated)
    &&& released.no_duplicates()
    &&& forall|i: int| 0 <= i < released.len() ==> !holds_port(allocated, #[trigger] released[i])
}

/// What loading a stored document gives: its parts, kept as they are, when
/// they are consistent.
pub open spec fn loaded_parts(range: PortRange, allocated: Seq<(String, u16)>, released: Seq<u16>) -> Option<
    (PortRange, Seq<(String, u16)>, Seq<u16>),
> {
    if parts_consistent(allocated, released) {
        Some((range, allocated, released))
    } else {
        None
    }
}

pub proof fn lemma_find_user(s: Seq<(String, u16)>, u: Seq<char>)
    ensures
        -1 <= find_user(s, u) < s.len(),
        find_user(s, u) >= 0 ==> s[find_user(s, u)].0@ == u,
        forall|i: int| 0 <= i < s.len() && (#[trigger] s[i]).0@ == u ==> find_user(s, u) >= 0,
        users_unique(s) ==> forall|i: int|
            0 <= i < s.len() && (#[trigger] s[i]).0@ == u ==> find_user(s, u) == i,
    decreases s.len(),
{
    if s.len() > 0 {
        let d = s.drop_last();
        lemma_find_user(d, u);
        assert forall|i: int| 0 <= i < s.len() - 1 implies s[i] == d[i] by {}
        if users_unique(s) {
            assert(users_unique(d)) by {
                assert forall|i: int, j: int| 0 <= i < j < d.len() implies d[i].0@ != d[j].0@ by {
                    assert(s[i].0@ != s[j].0@);
                }
            }
            assert forall|i: int| 0 <= i < s.len() && (#[trigger] s[i]).0@ == u implies find_user(
                s,
                u,
            ) == i by {
                if s.last().0@ == u && i < s.len() - 1 {
                    assert(s[i].0@ != s[s.len() - 1].0@);
                }
            }
        }
    }
}

/// A port-allocation record: who holds which port, and which ports were
/// given back for reuse (the last one given back is reused first).
#[derive(Debug, Clone)]
pub struct PortRegistry {
    /// Port range recorded with the allocations.
    pub range: PortRange,
    /// Username and port of each allocation.
    pub allocated: Vec<(String, u16)>,
    /// Released ports, oldest first.
    pub released: Vec<u16>,
}

impl PortRegistry {
    /// The mapping from username to port.
    pub open spec fn allocation(&self) -> Map<Seq<char>, u16> {
        entries_map(self.allocated@)
    }

    pub open spec fn wf(&self) -> bool {
        parts_consistent(self.allocated@, self.released@)
    }

    /// An empty registry over the default range: what a missing file holds.
    pub fn new() -> (r: PortRegistry)
        ensures
            r.wf(),
            r.range.start == DEFAULT_RANGE_START,
            r.range.end == DEFAULT_RANGE_END,
            r.allocated@.len() == 0,
            r.released@.len() == 0,
            r.allocation() == Map::<Seq<char>, u16>::empty(),
    {
        let r = PortRegistry { range: PortRange::default(), allocated: Vec::new(), released: Vec::new() };
        assert(r.allocation() =~= Map::<Seq<char>, u16>::empty());
        r
    }

    /// Builds a registry from the parts of a stored document, refusing one
    /// whose parts are inconsistent.
    pub fn from_parts(range: PortRange, allocated: Vec<(String, u16)>, released: Vec<u16>) -> (r:
        Result<PortRegistry, ManagerError>)
        ensures
            match loaded_parts(range, allocated@, released@) {
                Some(parts) => r matches Ok(reg) && (reg.range, reg.allocated@, reg.released@) == parts,
                None => r matches Err(e) && e == ManagerError::IoFailure,
            },
    {
        let n = allocated.len();
        let mut i: usize = 0;
        while i < n
            invariant
                n == allocated@.len(),
                i <= n,
                forall|a: int, b: int|
                    0 <= a < i && a < b < n ==> (#[trigger] allocated@[a]).0@ != (#[trigger] allocated@[b]).0@
                        && allocated@[a].1 != allocated@[b].1,
            decreases n - i,
        {
            let mut j: usize = i + 1;
            while j < n
                invariant
                    n == allocated@.len(),
                    i < n,
                    i + 1 <= j <= n,
                    forall|a: int, b: int|
                        0 <= a < i && a < b < n ==> (#[trigger] allocated@[a]).0@ != (#[trigger] allocated@[b]).0@
                            && allocated@[a].1 != allocated@[b].1,
                    forall|b: int| i < b < j ==> allocated@[i as int].0@ != (#[trigger] allocated@[b]).0@
                        && allocated@[i as int].1 != allocated@[b].1,
                decreases n - j,
            {
                if allocated[i].0 == allocated[j].0 || allocated[i].1 == allocated[j].1 {
                    proof {
                        let x = allocated@[i as int];
                        let y = allocated@[j as int];
                        assert(x.0@ == y.0@ || x.1 == y.1);
                    }
                    return Err(ManagerError::IoFailure);
                }
                j = j + 1;
            }
            i = i + 1;
        }
        let m = released.len();
        let mut k: usize = 0;
        while k < m
            invariant
                n == allocated@.len(),
                m == released@.len(),
                k <= m,
                users_unique(allocated@),
                ports_distinct(allocated@),
                forall|a: int, b: int| 0 <= a < k && a < b < m ==> #[trigger] released@[a] != #[trigger] released@[b],
                forall|a: int| 0 <= a < k ==> !holds_port(allocated@, #[trigger] released@[a]),
            decreases m - k,
        {
            let p = released[k];
            let mut j: usize = k + 1;
            while j < m
                invariant
                    m == released@.len(),
                    k < m,
                    p == released@[k as int],
                    k + 1 <= j <= m,
                    forall|b: int| k < b < j ==> released@[k as int] != #[trigger] released@[b],
                decreases m - j,
            {
                if released[j] == p {
                    proof {
                        assert(released@[k as int] == released@[j as int]);
                    }
                    return Err(ManagerError::IoFailure);
                }
                j = j + 1;
            }
            let mut a: usize = 0;
            while a < n
                invariant
                    n == allocated@.len(),
                    k < m,
                    m == released@.len(),
                    p == released@[k as int],
                    a <= n,
                    forall|c: int| 0 <= c < a ==> (#[trigger] allocated@[c]).1 != p,
                decreases n - a,
            {
                if allocated[a].1 == p {
                    proof {
                        assert(allocated@[a as int].1 == released@[k as int]);
                        assert(holds_port(allocated@, released@[k as int]));
                    }
                    return Err(ManagerError::IoFailure);
                }
                a = a + 1;
            }
            k = k + 1;
        }
        Ok(PortRegistry { range, allocated, released })
    }

    /// Position of `username`'s entry.
    fn index_of(&self, username: &String) -> (r: Option<usize>)
        requires
            users_unique(self.allocated@),
        ensures
            r is None ==> find_user(self.allocated@, username@) == -1,
            r matches Some(i) ==> i < self.allocated@.len() && i as int == find_user(
                self.allocated@,
                username@,
            ),
    {
        proof {
            lemma_find_user(self.allocated@, username@);
        }
        let mut i: usize = 0;
        while i < self.allocated.len()
            invariant
                i <= self.allocated@.len(),
                users_unique(self.allocated@),
                forall|j: int| 0 <= j < i ==> (#[trigger] self.allocated@[j]).0@ != username@,
            decreases self.allocated@.len() - i,
        {
            if self.allocated[i].0 == *username {
                proof {
                    lemma_find_user(self.allocated@, username@);
                    assert(self.allocated@[i as int].0@ == username@);
                }
                return Some(i);
            }
            i = i + 1;
        }
        None
    }

    /// The port held by `username`, if any.
    pub fn get_port(&self, username: &str) -> (r: Option<u16>)
        requires
            self.wf(),
        ensures
            r == (if self.allocation().contains_key(username@) {
                Some(self.allocation()[username@])
            } else {
                None
            }),
    {
        let u = username.to_owned();
        match self.index_of(&u) {
            Some(i) => Some(self.allocated[i].1),
            None => None,
        }
    }

    /// Whether some user holds `port`.
    pub fn is_allocated(&self, port: u16) -> (r: bool)
        ensures
            r == holds_port(self.allocated@, port),
    {
        let mut i: usize = 0;
        while i < self.allocated.len()
            invariant
                i <= self.allocated@.len(),
                forall|j: int| 0 <= j < i ==> (#[trigger] self.allocated@[j]).1 != port,
            decreases self.allocated@.len() - i,
        {
            if self.allocated[i].1 == port {
                return true;
            }
            i = i + 1;
        }
        false
    }

    /// Records `port` as held by `username`, taking it out of the released
    /// pool. Refuses a port that some user already holds.
    pub fn allocate(&mut self, username: &str, port: u16) -> (r: Result<(), ManagerError>)
        requires
            old(self).wf(),
        ensures
            final(self).wf(),
            final(self).range == old(self).range,
            holds_port(old(self).allocated@, port) <==> r is Err,
            r is Err ==> r == Err::<(), ManagerError>(ManagerError::PortConflict)
                && *final(self) == *old(self),
            r is Ok ==> final(self).allocation() == old(self).allocation().insert(username@, port)
                && final(self).released@ == without_port(old(self).released@, port),
            r is Ok ==> final(self).allocated@.len() == old(self).allocated@.len() + if old(
                self,
            ).allocation().contains_key(username@) {
                0int
            } else {
                1int
            },
    {
        if self.is_allocated(port) {
            return Err(ManagerError::PortConflict);
        }
        let ghost old_released = self.released@;
        let mut kept: Vec<u16> = Vec::new();
        let mut i: usize = 0;
        while i < self.released.len()
            invariant
                self.released@ == old_released,
                i <= old_released.len(),
                kept@ == without_port(old_released.subrange(0, i as int), port),
            decreases old_released.len() - i,
        {
            proof {
                assert(old_released.subrange(0, i + 1).drop_last() =~= old_released.subrange(
                    0,
                    i as int,
                ));
            }
            if self.released[i] != port {
                kept.push(self.released[i]);
            }
            i = i + 1;
        }
        assert(old_released.subrange(0, old_released.len() as int) =~= old_released);
        proof {
            lemma_without_port(old_released, port);
        }
        self.released = kept;
        let ghost s = self.allocated@;
        let u = username.to_owned();
        let entry = (u, port);
        match self.index_of(&entry.0) {
            Some(i) => {
                self.allocated.set(i, entry);
            },
            None => {
                self.allocated.push(entry);
            },
        }
        proof {
            let t = self.allocated@;
            let f = find_user(s, username@);
            lemma_find_user(s, username@);
            assert(t.len() == s.len() || t.len() == s.len() + 1);
            assert forall|a: int| 0 <= a < s.len() && a != f implies t[a] == s[a] by {}
            assert(users_unique(t)) by {
                assert forall|a: int, b: int| 0 <= a < b < t.len() implies t[a].0@ != t[b].0@ by {
                    if a == f || b == f || b == s.len() {
                        lemma_find_user(s, t[a].0@);
                        lemma_find_user(s, t[b].0@);
                    }
                }
            }
            lemma_find_user(t, username@);
            let g = if f >= 0 {
                f
            } else {
                s.len() as int
            };
            assert(t[g].0@ == username@ && t[g].1 == port);
            assert(find_user(t, username@) == g);
            assert forall|k: Seq<char>|
                (#[trigger] find_user(t, k) >= 0) == (k == username@ || find_user(s, k) >= 0) && (
                find_user(t, k) >= 0 ==> t[find_user(t, k)].1 == (if k == username@ {
                    port
                } else {
                    s[find_user(s, k)].1
                })) by {
                lemma_find_user(s, k);
                lemma_find_user(t, k);
                if find_user(s, k) >= 0 && k != username@ {
                    assert(t[find_user(s, k)] == s[find_user(s, k)]);
                }
                if find_user(t, k) >= 0 && k != username@ {
                    assert(find_user(t, k) < s.len());
                    assert(t[find_user(t, k)] == s[find_user(t, k)]);
                }
            }
            assert(self.allocation() =~= old(self).allocation().insert(username@, port));
            assert(ports_distinct(t)) by {
                assert forall|a: int, b: int| 0 <= a < b < t.len() implies t[a].1 != t[b].1 by {
                    if a != f && a < s.len() && b != f && b < s.len() {
                        assert(s[a].1 != s[b].1);
                    } else if a != f && a < s.len() {
                        assert(t[b].1 == port);
                        assert(s[a].1 == t[a].1);
                    } else if b != f && b < s.len() {
                        assert(t[a].1 == port);
                        assert(s[b].1 == t[b].1);
                    }
                }
            }
            assert forall|a: int| 0 <= a < self.released@.len() implies !holds_port(
                t,
                #[trigger] self.released@[a],
            ) by {
                let q = self.released@[a];
                assert(without_port(old_released, port).contains(q));
                assert(old_released.contains(q));
                let b = choose|b: int| 0 <= b < old_released.len() && old_released[b] == q;
                assert(!holds_port(s, old_released[b]));
                if holds_port(t, q) {
                    let c = choose|c: int| 0 <= c < t.len() && #[trigger] t[c].1 == q;
                    if c != f && c < s.len() {
                        assert(s[c].1 == q);
                    }
                }
            }
        }
        Ok(())
    }

    /// Gives back `username`'s port: the entry goes, and the port joins the
    /// released pool.
    pub fn release(&mut self, username: &str) -> (r: Result<(), ManagerError>)
        requires
            old(self).wf(),
        ensures
            final(self).wf(),
            final(self).range == old(self).range,
            old(self).allocation().contains_key(username@) <==> r is Ok,
            r is Err ==> r == Err::<(), ManagerError>(ManagerError::NotAllocated)
                && *final(self) == *old(self),
            r is Ok ==> final(self).allocation() == old(self).allocation().remove(username@)
                && final(self).released@ == old(self).released@.push(
                old(self).allocation()[username@],
            ),
            r is Ok ==> final(self).allocated@.len() == old(self).allocated@.len() - 1,
    {
        let u = username.to_owned();
        match self.index_of(&u) {
            None => Err(ManagerError::NotAllocated),
            Some(i) => {
                let ghost s = self.allocated@;
                let ghost rel = self.released@;
                let entry = self.allocated.remove(i);
                let port = entry.1;
                self.released.push(port);
                proof {
                    let t = self.allocated@;
                    lemma_find_user(s, username@);
                    assert(t =~= s.remove(i as int));
                    assert forall|a: int| 0 <= a < t.len() implies #[trigger] t[a] == s[if a < i {
                        a
                    } else {
                        a + 1
                    }] by {}
                    assert(users_unique(t)) by {
                        assert forall|a: int, b: int| 0 <= a < b < t.len() implies t[a].0@
                            != t[b].0@ by {
                            let a2 = if a < i { a } else { a + 1 };
                            let b2 = if b < i { b } else { b + 1 };
                            assert(t[a] == s[a2] && t[b] == s[b2]);
                        }
                    }
                    assert(ports_distinct(t)) by {
                        assert forall|a: int, b: int| 0 <= a < b < t.len() implies t[a].1
                            != t[b].1 by {
                            let a2 = if a < i { a } else { a + 1 };
                            let b2 = if b < i { b } else { b + 1 };
                            assert(t[a] == s[a2] && t[b] == s[b2]);
                        }
                    }
                    assert forall|k: Seq<char>|
                        (#[trigger] find_user(t, k) >= 0) == (k != username@ && find_user(s, k) >= 0)
                            && (find_user(t, k) >= 0 ==> t[find_user(t, k)].1 == s[find_user(
                            s,
                            k,
                        )].1) by {
                        lemma_find_user(s, k);
                        lemma_find_user(t, k);
                        let j = find_user(s, k);
                        if j >= 0 && k != username@ {
                            let j2 = if j < i { j } else { j - 1 };
                            assert(t[j2] == s[j]);
                        }
                        if find_user(t, k) >= 0 {
                            let a = find_user(t, k);
                            let a2 = if a < i { a } else { a + 1 };
                            assert(t[a] == s[a2]);
                        }
                    }
                    assert(self.allocation() =~= old(self).allocation().remove(username@));
                    let rr = self.released@;
                    assert(rr =~= rel.push(port));
                    assert(holds_port(s, port)) by {
                        assert(s[i as int].1 == port);
                    }
                    assert(!rel.contains(port)) by {
                        if rel.contains(port) {
                            let b = choose|b: int| 0 <= b < rel.len() && rel[b] == port;
                            assert(!holds_port(s, rel[b]));
                        }
                    }
                    assert(rr.no_duplicates());
                    assert forall|a: int| 0 <= a < rr.len() implies !holds_port(t, #[trigger] rr[a]) by {
                        if holds_port(t, rr[a]) {
                            let c = choose|c: int| 0 <= c < t.len() && #[trigger] t[c].1 == rr[a];
                            let c2 = if c < i { c } else { c + 1 };
                            assert(t[c] == s[c2]);
                            if a == rel.len() {
                                assert(s[c2].1 != s[i as int].1);
                            } else {
                                assert(rr[a] == rel[a]);
                            }
                        }
                    }
                }
                Ok(())
            },
        }
    }

    /// Takes the most recently released port out of the pool.
    pub fn pop_released(&mut self) -> (r: Option<u16>)
        requires
            old(self).wf(),
        ensures
            final(self).wf(),
            final(self).range == old(self).range,
            final(self).allocated@ == old(self).allocated@,
            old(self).released@.len() == 0 ==> r is None && final(self).released@ == old(
                self,
            ).released@,
            old(self).released@.len() > 0 ==> r == Some(old(self).released@.last())
                && final(self).released@ == old(self).released@.drop_last(),
    {
        let r = self.released.pop();
        proof {
            assert forall|a: int| 0 <= a < self.released@.len() implies self.released@[a] == old(
                self,
            ).released@[a] by {}
        }
        r
    }

    /// Number of users holding a port.
    pub fn allocated_count(&self) -> (r: usize)
        ensures
            r == self.allocated@.len(),
    {
        self.allocated.len()
    }

    /// Number of ports waiting in the released pool.
    pub fn released_count(&self) -> (r: usize)
        ensures
            r == self.released@.len(),
    {
        self.released.len()
    }
}

/// `s` with every occurrence of `port` taken out, order kept.
pub open spec fn without_port(s: Seq<u16>, port: u16) -> Seq<u16>
    decreases s.len(),
{
    if s.len() == 0 {
        s
    } else if s.last() == port {
        without_port(s.drop_last(), port)
    } else {
        without_port(s.drop_last(), port).push(s.last())
    }
}

pub proof fn lemma_without_absent(s: Seq<u16>, port: u16)
    requires
        !s.contains(port),
    ensures
        without_port(s, port) == s,
    decreases s.len(),
{
    if s.len() > 0 {
        let d = s.drop_last();
        assert(!d.contains(port)) by {
            if d.contains(port) {
                let a = choose|a: int| 0 <= a < d.len() && d[a] == port;
                assert(s[a] == port);
            }
        }
        lemma_without_absent(d, port);
        assert(s[s.len() - 1] != port);
        assert(s =~= d.push(s.last()));
    }
}

pub proof fn lemma_without_port(s: Seq<u16>, port: u16)
    ensures
        forall|q: u16| #[trigger] without_port(s, port).contains(q) <==> (s.contains(q) && q != port),
        s.no_duplicates() ==> without_port(s, port).no_duplicates(),
    decreases s.len(),
{
    if s.len() > 0 {
        let d = s.drop_last();
        let w = without_port(d, port);
        let v = w.push(s.last());
        lemma_without_port(d, port);
        assert(without_port(s, port) == if s.last() == port { w } else { v });
        assert forall|q: u16| #[trigger] without_port(s, port).contains(q) <==> (s.contains(q) && q != port) by {
            if s.contains(q) {
                let a = choose|a: int| 0 <= a < s.len() && s[a] == q;
                if a < d.len() {
                    assert(d[a] == q);
                }
            }
            if d.contains(q) {
                let a = choose|a: int| 0 <= a < d.len() && d[a] == q;
                assert(s[a] == q);
            }
            assert(s[s.len() - 1] == s.last());
            if v.contains(q) {
                let a = choose|a: int| 0 <= a < v.len() && v[a] == q;
                if a < w.len() {
                    assert(w[a] == q);
                }
            }
            if w.contains(q) {
                let a = choose|a: int| 0 <= a < w.len() && w[a] == q;
                assert(v[a] == q);
            }
            assert(v[w.len() as int] == s.last());
        }
        if s.no_duplicates() {
            assert(d.no_duplicates()) by {
                assert forall|a: int, b: int| 0 <= a < d.len() && 0 <= b < d.len() && a != b implies d[a] != d[b] by {
                    assert(s[a] == d[a] && s[b] == d[b]);
                }
            }
            if s.last() != port {
                assert(!d.contains(s.last())) by {
                    if d.contains(s.last()) {
                        let a = choose|a: int| 0 <= a < d.len() && d[a] == s.last();
                        assert(s[a] == s[s.len() - 1]);
                    }
                }
                assert(!w.contains(s.last()));
                assert forall|a: int, b: int| 0 <= a < v.len() && 0 <= b < v.len() && a != b implies v[a] != v[b] by {
                    if a == w.len() {
                        assert(v[b] == w[b]);
                        assert(w.contains(v[b]));
                    } else if b == w.len() {
                        assert(v[a] == w[a]);
                        assert(w.contains(v[a]));
                    } else {
                        assert(v[a] == w[a] && v[b] == w[b]);
                    }
                }
            }
        }
    }
}

/// Loading what was saved gives the same registry back: range, entries and
/// released pool come back exactly.
pub proof fn lemma_save_load_identity(r: PortRegistry)
    requires
        r.wf(),
    ensures
        loaded_parts(r.range, r.allocated@, r.released@) == Some((r.range, r.allocated@, r.released@)),
{
}

} // verus!
