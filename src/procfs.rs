//! Reading numbers out of the kernel's per-process text files
//! (`/proc/<pid>/statm`, `/proc/<pid>/stat`).

use vstd::prelude::*;
use vstd::string::StrSliceExecFns;

verus! {

/// Bytes in a memory page, the unit of resident sizes in `statm`.
pub const PAGE_SIZE: u64 = 4096;

/// Index of the resident-pages field in `statm`.
pub const STATM_RESIDENT: usize = 1;

/// Index of the user-time field in `stat`.
pub const STAT_UTIME: usize = 13;

/// Index of the system-time field in `stat`.
pub const STAT_STIME: usize = 14;

/// ASCII white space.
pub open spec fn is_space(c: char) -> bool {
    c == ' ' || c == '\t' || c == '\n' || c == '\r' || c == '\x0B' || c == '\x0C'
}

/// The white-space separated fields of `s`, in order.
pub open spec fn fields(s: Seq<char>) -> Seq<Seq<char>>
    decreases s.len(),
{
    if s.len() == 0 {
        Seq::empty()
    } else {
        let f = fields(s.drop_last());
        let c = s.last();
        if is_space(c) {
            f
        } else if s.len() >= 2 && !is_space(s[s.len() - 2]) && f.len() > 0 {
            f.update(f.len() - 1, f.last().push(c))
        } else {
            f.push(seq![c])
        }
    }
}

pub open spec fn is_digit(c: char) -> bool {
    '0' <= c && c <= '9'
}

/// The number that a string of decimal digits denotes.
pub open spec fn digits_value(t: Seq<char>) -> nat
    decreases t.len(),
{
    if t.len() == 0 {
        0
    } else {
        digits_value(t.drop_last()) * 10 + ((t.last() as u32) - ('0' as u32)) as nat
    }
}

/// A field is a number when it is made of decimal digits only.
pub open spec fn all_digits(t: Seq<char>) -> bool {
    forall|i: int| 0 <= i < t.len() ==> is_digit(#[trigger] t[i])
}

/// Field `n` of `s` read as a decimal `u64`; 0 when there is no such field,
/// or it is not a decimal number, or it exceeds `u64::MAX`.
pub open spec fn field_number(s: Seq<char>, n: nat) -> u64 {
    let f = fields(s);
    if n < f.len() && all_digits(f[n as int]) && digits_value(f[n as int]) <= u64::MAX {
        digits_value(f[n as int]) as u64
    } else {
        0
    }
}

proof fn lemma_fields_last(s: Seq<char>)
    requires
        s.len() > 0,
        !is_space(s.last()),
    ensures
        fields(s).len() > 0,
{
}

/// Field `n` of `text` read as a decimal number (0 when absent or not a
/// number that fits).
pub fn proc_field(text: &str, n: usize) -> (r: u64)
    ensures
        r == field_number(text@, n as nat),
{
    let len = text.unicode_len();
    let ghost s = text@;
    let mut count: usize = 0;
    let mut in_field = false;
    let mut acc: u64 = 0;
    let mut ok = true;
    let mut i: usize = 0;
    while i < len
        invariant
            len == s.len(),
            s == text@,
            i <= len,
            count as int == fields(s.subrange(0, i as int)).len(),
            count <= i,
            in_field == (i > 0 && !is_space(s[i - 1])),
            count > n ==> ({
                let t = fields(s.subrange(0, i as int))[n as int];
                &&& ok == (all_digits(t) && digits_value(t) <= u64::MAX)
                &&& ok ==> acc == digits_value(t)
            }),
        decreases len - i,
    {
        let c = text.get_char(i);
        let ghost p = s.subrange(0, i as int);
        let ghost q = s.subrange(0, i + 1);
        proof {
            assert(q.drop_last() =~= p);
            assert(q.last() == c);
            if i > 0 {
                assert(q[q.len() - 2] == s[i - 1]);
            }
        }
        let space = c == ' ' || c == '\t' || c == '\n' || c == '\r' || c == '\x0B' || c == '\x0C';
        if space {
            in_field = false;
        } else {
            if !in_field {
                count = count + 1;
                in_field = true;
                if count > n && count - 1 == n {
                    acc = 0;
                    ok = true;
                    proof {
                        assert(fields(q)[n as int] =~= seq![c]);
                        assert(digits_value(seq![c]) == digits_value(seq![c].drop_last()) * 10 + ((c as u32)
                            - ('0' as u32)) as nat);
                        assert(seq![c].drop_last() =~= Seq::<char>::empty());
                    }
                    if c >= '0' && c <= '9' {
                        acc = (c as u32 - '0' as u32) as u64;
                    } else {
                        ok = false;
                    }
                }
            } else {
                proof {
                    lemma_fields_last(p);
                }
                if count > n && count - 1 == n && ok {
                    let ghost t = fields(p)[n as int];
                    proof {
                        assert(fields(q)[n as int] == t.push(c));
                        assert(t.push(c).drop_last() =~= t);
                    }
                    if c >= '0' && c <= '9' {
                        let d = (c as u32 - '0' as u32) as u64;
                        if acc > 1844674407370955161 || (acc == 1844674407370955161 && d > 5) {
                            ok = false;
                            proof {
                                assert(acc * 10 + d > u64::MAX) by (nonlinear_arith)
                                    requires
                                        acc > 1844674407370955161 || (acc == 1844674407370955161
                                            && d > 5),
                                ;
                            }
                        } else {
                            proof {
                                assert(acc * 10 + d <= u64::MAX) by (nonlinear_arith)
                                    requires
                                        acc <= 1844674407370955161,
                                        acc < 1844674407370955161 || d <= 5,
                                        d <= 9,
                                ;
                            }
                            acc = acc * 10 + d;
                        }
                    } else {
                        ok = false;
                        proof {
                            assert(!is_digit(t.push(c)[t.len() as int]));
                        }
                    }
                } else if count > n && count - 1 == n {
                    proof {
                        let t = fields(p)[n as int];
                        assert(fields(q)[n as int] == t.push(c));
                        assert(t.push(c).drop_last() =~= t);
                        if all_digits(t.push(c)) {
                            assert forall|j: int| 0 <= j < t.len() implies is_digit(#[trigger] t[j]) by {
                                assert(t[j] == t.push(c)[j]);
                            }
                            assert(digits_value(t.push(c)) >= digits_value(t)) by (nonlinear_arith)
                                requires
                                    digits_value(t.push(c)) == digits_value(t) * 10 + ((c as u32) - ('0' as u32)) as nat,
                            ;
                        }
                    }
                }
            }
        }
        i = i + 1;
    }
    assert(s.subrange(0, len as int) =~= s);
    if count > n && ok {
        acc
    } else {
        0
    }
}

/// Resident bytes of a process, from its `statm` text.
pub fn resident_bytes(statm: &str) -> (r: u64)
    requires
        field_number(statm@, STATM_RESIDENT as nat) * PAGE_SIZE <= u64::MAX,
    ensures
        r == field_number(statm@, STATM_RESIDENT as nat) * PAGE_SIZE,
{
    proc_field(statm, STATM_RESIDENT) * PAGE_SIZE
}

/// User plus system CPU ticks of a process, from its `stat` text,
/// saturating at `u64::MAX`.
pub fn cpu_ticks(stat: &str) -> (r: u64)
    ensures
        r == if field_number(stat@, STAT_UTIME as nat) as int + field_number(stat@, STAT_STIME as nat)
            > u64::MAX {
            u64::MAX
        } else {
            (field_number(stat@, STAT_UTIME as nat) + field_number(stat@, STAT_STIME as nat)) as u64
        },
{
    let u = proc_field(stat, STAT_UTIME);
    let s = proc_field(stat, STAT_STIME);
    if u > u64::MAX - s {
        u64::MAX
    } else {
        u + s
    }
}

} // verus!
