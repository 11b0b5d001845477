//! Jail registry: consumes hit events, issues jail commands through an
//! executor capability, schedules releases, and escalates repeat offenders
//! by a factor of six per previous jail.

use vstd::prelude::*;
use std::collections::HashMap;
use crate::ip::Ipv4;

verus! {

broadcast use vstd::std_specs::hash::group_hash_axioms;

/// An observer reporting that `ip` crossed its hit threshold.
pub struct Hit {
    pub observer_name: String,
    pub ip: Ipv4,
}

/// A jailed address and the epoch second at which it is to be released.
#[derive(Clone, Copy, PartialEq, Eq, Structural, Debug)]
pub struct JailEntry {
    pub time: i64,
    pub ip: Ipv4,
}

/// The capability that runs the configured jail or unjail command against an
/// address; `true` means the command succeeded. Callers substitute their own
/// implementation (a process spawner, or a recorder under test).
pub trait Executor {
    fn execute(&mut self, ip: &Ipv4) -> bool;
}

pub open spec fn sorted_by_time(s: Seq<JailEntry>) -> bool {
    forall|i: int, j: int| 0 <= i < j < s.len() ==> s[i].time <= s[j].time
}

pub open spec fn unique_ips(s: Seq<JailEntry>) -> bool {
    forall|i: int, j: int| 0 <= i < j < s.len() ==> s[i].ip != s[j].ip
}

pub open spec fn has_ip(s: Seq<JailEntry>, ip: Ipv4) -> bool {
    exists|i: int| 0 <= i < s.len() && s[i].ip == ip
}

pub open spec fn clamp_i64(x: int) -> int {
    if x < i64::MIN {
        i64::MIN as int
    } else if x > i64::MAX {
        i64::MAX as int
    } else {
        x
    }
}

pub fn sat_add_i64(a: i64, b: i64) -> (r: i64)
    ensures
        r as int == clamp_i64(a + b),
{
    match a.checked_add(b) {
        Some(v) => v,
        None => {
            if b < 0 {
                i64::MIN
            } else {
                i64::MAX
            }
        },
    }
}

pub fn sat_mul_i64(a: i64, b: i64) -> (r: i64)
    ensures
        r as int == clamp_i64(a * b),
{
    match a.checked_mul(b) {
        Some(v) => v,
        None => {
            proof {
                lemma_mul_sign(a as int, b as int);
            }
            if (a < 0) != (b < 0) {
                i64::MIN
            } else {
                i64::MAX
            }
        },
    }
}

proof fn lemma_mul_sign(a: int, b: int)
    ensures
        (a >= 0 && b >= 0) ==> a * b >= 0,
        (a <= 0 && b <= 0) ==> a * b >= 0,
        (a >= 0 && b <= 0) ==> a * b <= 0,
        (a <= 0 && b >= 0) ==> a * b <= 0,
{
    assert((a >= 0 && b >= 0) ==> a * b >= 0) by (nonlinear_arith);
    assert((a <= 0 && b <= 0) ==> a * b >= 0) by (nonlinear_arith);
    assert((a >= 0 && b <= 0) ==> a * b <= 0) by (nonlinear_arith);
    assert((a <= 0 && b >= 0) ==> a * b <= 0) by (nonlinear_arith);
}

/// 6 to the `k`-th power.
pub open spec fn pow6(k: nat) -> int
    decreases k,
{
    if k == 0 {
        1
    } else {
        6 * pow6((k - 1) as nat)
    }
}

pub proof fn lemma_pow6_pos(k: nat)
    ensures
        pow6(k) >= 1,
    decreases k,
{
    if k > 0 {
        lemma_pow6_pos((k - 1) as nat);
    }
}

/// `6^k`, saturating at `i64::MAX`.
pub open spec fn pow6_sat_spec(k: nat) -> int {
    if pow6(k) <= i64::MAX {
        pow6(k)
    } else {
        i64::MAX as int
    }
}

pub fn pow6_sat(k: u32) -> (r: i64)
    ensures
        r as int == pow6_sat_spec(k as nat),
{
    let mut p: i64 = 1;
    let mut i: u32 = 0;
    proof {
        lemma_pow6_pos(k as nat);
    }
    while i < k
        invariant
            i <= k,
            p as int == pow6_sat_spec(i as nat),
            p >= 1,
        decreases k - i,
    {
        proof {
            lemma_pow6_pos(i as nat);
            lemma_pow6_pos((i + 1) as nat);
        }
        if p <= i64::MAX / 6 {
            p = p * 6;
        } else {
            proof {
                assert(pow6((i + 1) as nat) == 6 * pow6(i as nat));
                assert(p > i64::MAX / 6 ==> 6 * (p as int) > i64::MAX) by (nonlinear_arith)
                    requires
                        p as int >= 1,
                ;
            }
            p = i64::MAX;
        }
        i = i + 1;
    }
    p
}

/// The count an address's jail counter takes after one more first-time jail.
pub open spec fn next_count(m: Map<u32, u32>, k: u32) -> u32 {
    if m.contains_key(k) {
        if m[k] < u32::MAX {
            (m[k] + 1) as u32
        } else {
            u32::MAX
        }
    } else {
        1u32
    }
}

/// Release deadline of the `n`-th first-time jail started at `now`:
/// `now + jail_time * 6^(n-1)`, saturating at the `i64` range.
pub open spec fn escalation_deadline(now: int, jail_time: int, n: nat) -> int {
    clamp_i64(now + clamp_i64(jail_time * pow6_sat_spec((n - 1) as nat)))
}

/// Where nothing saturates, the `n`-th first-time jail releases exactly
/// `jail_time * 6^(n-1)` seconds after it was imposed.
pub proof fn lemma_escalation_deadline_exact(now: int, jail_time: int, n: nat)
    requires
        n >= 1,
        pow6((n - 1) as nat) <= i64::MAX,
        i64::MIN <= jail_time * pow6((n - 1) as nat) <= i64::MAX,
        i64::MIN <= now + jail_time * pow6((n - 1) as nat) <= i64::MAX,
    ensures
        escalation_deadline(now, jail_time, n) == now + jail_time * pow6((n - 1) as nat),
{
    lemma_pow6_pos((n - 1) as nat);
}

proof fn lemma_remove_entry(s: Seq<JailEntry>, idx: int)
    requires
        0 <= idx < s.len(),
        sorted_by_time(s),
        unique_ips(s),
    ensures
        sorted_by_time(s.remove(idx)),
        unique_ips(s.remove(idx)),
        !has_ip(s.remove(idx), s[idx].ip),
        forall|e: JailEntry| e.ip != s[idx].ip ==> (s.remove(idx).contains(e) <==> s.contains(e)),
        forall|ip: Ipv4| ip != s[idx].ip ==> (has_ip(s.remove(idx), ip) <==> has_ip(s, ip)),
{
    let t = s.remove(idx);
    assert(forall|j: int| 0 <= j < t.len() ==> t[j] == (if j < idx {
        s[j]
    } else {
        s[j + 1]
    }));
    assert forall|e: JailEntry| e.ip != s[idx].ip implies (t.contains(e) <==> s.contains(e)) by {
        if t.contains(e) {
            let j = choose|j: int| 0 <= j < t.len() && t[j] == e;
            if j < idx {
                assert(s[j] == e);
            } else {
                assert(s[j + 1] == e);
            }
        }
        if s.contains(e) {
            let j = choose|j: int| 0 <= j < s.len() && s[j] == e;
            if j < idx {
                assert(t[j] == e);
            } else {
                assert(j != idx);
                assert(t[j - 1] == e);
            }
        }
    }
    assert forall|ip: Ipv4| ip != s[idx].ip implies (has_ip(t, ip) <==> has_ip(s, ip)) by {
        if has_ip(t, ip) {
            let j = choose|j: int| 0 <= j < t.len() && t[j].ip == ip;
            if j < idx {
                assert(s[j].ip == ip);
            } else {
                assert(s[j + 1].ip == ip);
            }
        }
        if has_ip(s, ip) {
            let j = choose|j: int| 0 <= j < s.len() && s[j].ip == ip;
            if j < idx {
                assert(t[j].ip == ip);
            } else {
                assert(j != idx);
                assert(t[j - 1].ip == ip);
            }
        }
    }
    assert(!has_ip(t, s[idx].ip)) by {
        if has_ip(t, s[idx].ip) {
            let j = choose|j: int| 0 <= j < t.len() && t[j].ip == s[idx].ip;
            if j < idx {
                assert(s[j].ip == s[idx].ip);
                assert(false);
            } else {
                assert(s[j + 1].ip == s[idx].ip);
                assert(false);
            }
        }
    }
}

/// Places `e` into a deadline-sorted sequence, keeping it sorted.
fn insert_sorted(entries: &mut Vec<JailEntry>, e: JailEntry)
    requires
        sorted_by_time(old(entries)@),
    ensures
        final(entries)@.len() == old(entries)@.len() + 1,
        sorted_by_time(final(entries)@),
        unique_ips(old(entries)@) && !has_ip(old(entries)@, e.ip) ==> unique_ips(final(entries)@),
        final(entries)@.contains(e),
        exists|i: int|
            0 <= i < final(entries)@.len() && final(entries)@[i].ip == e.ip
                && final(entries)@[i].time == e.time,
        forall|x: JailEntry| final(entries)@.contains(x) <==> old(entries)@.contains(x) || x == e,
        forall|ip: Ipv4| has_ip(final(entries)@, ip) <==> has_ip(old(entries)@, ip) || ip == e.ip,
{
    let ghost orig = entries@;
    let mut idx: usize = 0;
    while idx < entries.len() && entries[idx].time <= e.time
        invariant
            entries@ == orig,
            idx <= orig.len(),
            forall|j: int| 0 <= j < idx ==> orig[j].time <= e.time,
        decreases entries@.len() - idx,
    {
        idx = idx + 1;
    }
    assert(idx < orig.len() ==> orig[idx as int].time > e.time);
    entries.insert(idx, e);
    let ghost t = entries@;
    proof {
        assert(t == orig.insert(idx as int, e));
        assert(forall|j: int| 0 <= j < t.len() ==> t[j] == (if j < idx {
            orig[j]
        } else if j == idx {
            e
        } else {
            orig[j - 1]
        }));
        assert forall|x: JailEntry| t.contains(x) <==> orig.contains(x) || x == e by {
            if t.contains(x) {
                let j = choose|j: int| 0 <= j < t.len() && t[j] == x;
                if j < idx {
                    assert(orig[j] == x);
                } else if j > idx {
                    assert(orig[j - 1] == x);
                }
            }
            if orig.contains(x) {
                let j = choose|j: int| 0 <= j < orig.len() && orig[j] == x;
                if j < idx {
                    assert(t[j] == x);
                } else {
                    assert(t[j + 1] == x);
                }
            }
            if x == e {
                assert(t[idx as int] == x);
            }
        }
        assert forall|ip: Ipv4| has_ip(t, ip) <==> has_ip(orig, ip) || ip == e.ip by {
            if has_ip(t, ip) {
                let j = choose|j: int| 0 <= j < t.len() && t[j].ip == ip;
                if j < idx {
                    assert(orig[j].ip == ip);
                } else if j > idx {
                    assert(orig[j - 1].ip == ip);
                }
            }
            if has_ip(orig, ip) {
                let j = choose|j: int| 0 <= j < orig.len() && orig[j].ip == ip;
                if j < idx {
                    assert(t[j].ip == ip);
                } else {
                    assert(t[j + 1].ip == ip);
                }
            }
            if ip == e.ip {
                assert(t[idx as int].ip == ip);
            }
        }
        assert(t[idx as int] == e);
    }
}

/// Handles one hit event. An address already jailed has its deadline
/// refreshed to `now + jail_time` without a new command and without touching
/// the jail counter; a new address is counted, the jail command is run, and
/// on success an entry with the escalated deadline is recorded.
pub fn dojail<E: Executor>(
    entries: &mut Vec<JailEntry>,
    jail_counter: &mut HashMap<u32, u32>,
    hit: &Hit,
    now: i64,
    jail_time: i64,
    executor: &mut E,
) -> (r: bool)
    requires
        sorted_by_time(old(entries)@),
        unique_ips(old(entries)@),
    ensures
        sorted_by_time(final(entries)@),
        unique_ips(final(entries)@),
        forall|k: u32|
            old(jail_counter)@.contains_key(k) ==> final(jail_counter)@.contains_key(k)
                && final(jail_counter)@[k] >= old(jail_counter)@[k],
        forall|k: u32|
            final(jail_counter)@.contains_key(k) ==> old(jail_counter)@.contains_key(k) || k
                == hit.ip.key32(),
        has_ip(old(entries)@, hit.ip) ==> {
            &&& r == false
            &&& final(jail_counter)@ == old(jail_counter)@
            &&& final(entries)@.len() == old(entries)@.len()
            &&& forall|ip: Ipv4| has_ip(final(entries)@, ip) <==> has_ip(old(entries)@, ip)
            &&& exists|i: int|
                0 <= i < final(entries)@.len() && final(entries)@[i].ip == hit.ip
                    && final(entries)@[i].time == clamp_i64(now + jail_time)
            &&& forall|e: JailEntry|
                e.ip != hit.ip ==> (final(entries)@.contains(e) <==> old(entries)@.contains(e))
        },
        !has_ip(old(entries)@, hit.ip) ==> {
            &&& r == true
            &&& final(jail_counter)@ == old(jail_counter)@.insert(
                hit.ip.key32(),
                next_count(old(jail_counter)@, hit.ip.key32()),
            )
            &&& (final(entries)@ == old(entries)@ || {
                &&& final(entries)@.len() == old(entries)@.len() + 1
                &&& forall|ip: Ipv4|
                    has_ip(final(entries)@, ip) <==> has_ip(old(entries)@, ip) || ip == hit.ip
                &&& exists|i: int|
                    0 <= i < final(entries)@.len() && final(entries)@[i].ip == hit.ip
                        && final(entries)@[i].time == escalation_deadline(
                        now as int,
                        jail_time as int,
                        next_count(old(jail_counter)@, hit.ip.key32()) as nat,
                    )
                &&& forall|e: JailEntry|
                    e.ip != hit.ip ==> (final(entries)@.contains(e) <==> old(entries)@.contains(e))
            })
        },
{
    let ghost orig = entries@;
    let mut idx: usize = 0;
    let mut found = false;
    while idx < entries.len() && !found
        invariant
            entries@ == orig,
            idx <= orig.len(),
            !found ==> forall|j: int| 0 <= j < idx ==> orig[j].ip != hit.ip,
            found ==> idx < orig.len() && orig[idx as int].ip == hit.ip,
        decreases orig.len() - idx + (if found {
            0int
        } else {
            1int
        }),
    {
        if entries[idx].ip == hit.ip {
            found = true;
        } else {
            idx = idx + 1;
        }
    }
    if found {
        proof {
            lemma_remove_entry(orig, idx as int);
        }
        let e = entries.remove(idx);
        let refreshed = JailEntry { time: sat_add_i64(now, jail_time), ip: e.ip };
        insert_sorted(entries, refreshed);
        return false;
    }
    assert(!has_ip(orig, hit.ip));
    let key: u32 = hit.ip.key();
    assert(key == hit.ip.key32());
    let n: u32 = match jail_counter.get(&key) {
        Some(c) => {
            if *c < u32::MAX {
                *c + 1
            } else {
                u32::MAX
            }
        },
        None => 1,
    };
    jail_counter.insert(key, n);
    let ok = executor.execute(&hit.ip);
    if ok {
        let exponent = pow6_sat(n - 1);
        let duration = sat_mul_i64(jail_time, exponent);
        let deadline = sat_add_i64(now, duration);
        insert_sorted(entries, JailEntry { time: deadline, ip: hit.ip });
    }
    true
}

/// Tries to release the entry at `index`: runs the unjail command and
/// removes the entry only when the command succeeds.
pub fn unjail<E: Executor>(entries: &mut Vec<JailEntry>, index: usize, executor: &mut E) -> (r:
    bool)
    requires
        index < old(entries)@.len(),
        sorted_by_time(old(entries)@),
        unique_ips(old(entries)@),
    ensures
        sorted_by_time(final(entries)@),
        unique_ips(final(entries)@),
        r ==> final(entries)@ == old(entries)@.remove(index as int),
        !r ==> final(entries)@ == old(entries)@,
{
    let ip = entries[index].ip;
    let ok = executor.execute(&ip);
    if ok {
        proof {
            lemma_remove_entry(entries@, index as int);
        }
        entries.remove(index);
        return true;
    }
    false
}

/// The release sweep: while the front entry is due at `now`, try to unjail
/// it; a failing command leaves the entry for the next sweep.
pub fn do_while<E: Executor>(entries: &mut Vec<JailEntry>, now: i64, executor: &mut E)
    requires
        sorted_by_time(old(entries)@),
        unique_ips(old(entries)@),
    ensures
        sorted_by_time(final(entries)@),
        unique_ips(final(entries)@),
        exists|k: int|
            0 <= k <= old(entries)@.len() && final(entries)@ == old(entries)@.skip(k) && (forall|
                i: int,
            |
                0 <= i < k ==> old(entries)@[i].time <= now),
{
    let ghost orig = entries@;
    let ghost mut k: int = 0;
    proof {
        assert(orig.skip(0) =~= orig);
    }
    while entries.len() > 0 && entries[0].time <= now
        invariant
            0 <= k <= orig.len(),
            entries@ == orig.skip(k),
            forall|i: int| 0 <= i < k ==> orig[i].time <= now,
            sorted_by_time(entries@),
            unique_ips(entries@),
        decreases entries@.len(),
    {
        let ok = unjail(entries, 0, executor);
        if !ok {
            break ;
        }
        proof {
            assert(orig.skip(k).remove(0) =~= orig.skip(k + 1));
            assert(orig[k] == orig.skip(k)[0]);
            k = k + 1;
        }
    }
}

} // verus!
