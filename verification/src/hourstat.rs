//! Per-IP sliding-window datum: hits per minute of a single anchor hour.
//! A window query sums the trailing minutes of that hour only; an anchor
//! jump of more than one hour resets every counter.

use vstd::prelude::*;

verus! {

pub open spec fn abs_diff_spec(a: u8, b: u8) -> int {
    if a >= b {
        a - b
    } else {
        b - a
    }
}

pub fn abs_difference(a: &u8, b: &u8) -> (r: u8)
    ensures
        r as int == abs_diff_spec(*a, *b),
{
    if *a >= *b {
        *a - *b
    } else {
        *b - *a
    }
}

pub open spec fn sat_add_u32(a: int, b: int) -> int {
    if a + b <= 0xffff_ffff {
        a + b
    } else {
        0xffff_ffff
    }
}

fn sat_add_u32_exec(a: u32, b: u32) -> (r: u32)
    ensures
        r as int == sat_add_u32(a as int, b as int),
{
    if a <= u32::MAX - b {
        a + b
    } else {
        u32::MAX
    }
}

pub struct HourStat {
    pub hour: u8,
    pub minutes: Vec<u32>,
}

/// The bucket a hit `i` minutes before minute `minute` lands in; the wrap is
/// purely numeric and never reaches into the previous hour.
pub open spec fn wrap_index(minute: int, i: int) -> int {
    if minute >= i {
        minute - i
    } else {
        60 + minute - i
    }
}

/// Sum of the buckets `wrap_index(minute, 0) .. wrap_index(minute, k - 1)`.
pub open spec fn window_sum_upto(mins: Seq<u32>, minute: int, k: int) -> int
    decreases k,
{
    if k <= 0 {
        0
    } else {
        window_sum_upto(mins, minute, k - 1) + mins[wrap_index(minute, k - 1)]
    }
}

/// The minute counters after an incoming hit at `hour` is reconciled with the
/// anchor: a jump of more than one hour clears them.
pub open spec fn reconciled_minutes(s: HourStat, hour: u8) -> Seq<u32> {
    if abs_diff_spec(s.hour, hour) > 1 {
        Seq::new(60, |i: int| 0u32)
    } else {
        s.minutes@
    }
}

impl HourStat {
    pub open spec fn wf(self) -> bool {
        self.minutes@.len() == 60 && self.hour <= 23
    }

    /// What `sum` returns: 0 when the anchor is far, else the window total
    /// (saturating at `u32::MAX`).
    pub open spec fn window_sum_spec(self, hour: u8, minute: u8, interval: u8) -> int {
        if abs_diff_spec(self.hour, hour) > 1 {
            0
        } else {
            window_sum_upto(self.minutes@, minute as int, interval as int)
        }
    }

    pub fn new(hour: u8, minute: u8, count: u32) -> (r: HourStat)
        requires
            hour <= 23,
            minute < 60,
        ensures
            r.wf(),
            r.hour == hour,
            r.minutes@ == Seq::new(60, |i: int| 0u32).update(minute as int, count),
    {
        let mut minutes: Vec<u32> = Vec::new();
        let mut i: usize = 0;
        while i < 60
            invariant
                i <= 60,
                minutes@ =~= Seq::new(i as nat, |j: int| 0u32),
            decreases 60 - i,
        {
            minutes.push(0);
            i = i + 1;
        }
        minutes[minute as usize] = count;
        proof {
            assert(minutes@ =~= Seq::new(60, |i: int| 0u32).update(minute as int, count));
        }
        HourStat { hour, minutes }
    }

    pub fn add(&mut self, hour: u8, minute: u8, count: u32)
        requires
            old(self).wf(),
            hour <= 23,
            minute < 60,
        ensures
            final(self).wf(),
            final(self).hour == hour,
            final(self).minutes@ == reconciled_minutes(*old(self), hour).update(
                minute as int,
                sat_add_u32(reconciled_minutes(*old(self), hour)[minute as int] as int, count as int)
                    as u32,
            ),
    {
        if abs_difference(&self.hour, &hour) > 1 {
            let mut zeros: Vec<u32> = Vec::new();
            let mut i: usize = 0;
            while i < 60
                invariant
                    i <= 60,
                    zeros@ =~= Seq::new(i as nat, |j: int| 0u32),
                decreases 60 - i,
            {
                zeros.push(0);
                i = i + 1;
            }
            self.minutes = zeros;
        }
        self.hour = hour;
        let bumped = sat_add_u32_exec(self.minutes[minute as usize], count);
        self.minutes[minute as usize] = bumped;
    }

    pub fn sum(&mut self, hour: u8, minute: u8, interval: &u8) -> (r: u32)
        requires
            old(self).wf(),
            minute < 60,
            *interval <= 60,
        ensures
            *final(self) == *old(self),
            r as int == if old(self).window_sum_spec(hour, minute, *interval) <= 0xffff_ffff {
                old(self).window_sum_spec(hour, minute, *interval)
            } else {
                0xffff_ffff
            },
    {
        if abs_difference(&self.hour, &hour) > 1 {
            return 0;
        }
        let mut total: u32 = 0;
        let mut i: u8 = 0;
        while i < *interval
            invariant
                self.wf(),
                i <= *interval <= 60,
                minute < 60,
                total as int == if window_sum_upto(self.minutes@, minute as int, i as int)
                    <= 0xffff_ffff {
                    window_sum_upto(self.minutes@, minute as int, i as int)
                } else {
                    0xffff_ffff
                },
            decreases *interval - i,
        {
            let index: u8 = if minute >= i {
                minute - i
            } else {
                60 + minute - i
            };
            let m = self.minutes[index as usize];
            proof {
                assert(index as int == wrap_index(minute as int, i as int));
                lemma_window_sum_upto_nonneg(self.minutes@, minute as int, i as int);
            }
            total = sat_add_u32_exec(total, m);
            i = i + 1;
        }
        total
    }
}

pub open spec fn zeros60() -> Seq<u32> {
    Seq::new(60, |i: int| 0u32)
}

/// The minute counters after recording each of `ops` (a minute per record,
/// count 1) into a fresh stat whose anchor hour never changes.
pub open spec fn recorded_minutes(ops: Seq<u8>) -> Seq<u32>
    decreases ops.len(),
{
    if ops.len() == 0 {
        zeros60()
    } else {
        let prev = recorded_minutes(ops.drop_last());
        prev.update(
            ops.last() as int,
            sat_add_u32(prev[ops.last() as int] as int, 1) as u32,
        )
    }
}

/// Minute `mu` lies among the `k` trailing minutes ending at `m`.
pub open spec fn in_window(mu: int, m: int, k: int) -> bool {
    exists|i: int| 0 <= i < k && wrap_index(m, i) == mu
}

/// How many of the recorded minutes lie in the window.
pub open spec fn count_in_window(ops: Seq<u8>, m: int, k: int) -> int
    decreases ops.len(),
{
    if ops.len() == 0 {
        0
    } else {
        count_in_window(ops.drop_last(), m, k) + if in_window(ops.last() as int, m, k) {
            1int
        } else {
            0int
        }
    }
}

proof fn lemma_wrap_injective(m: int, i: int, j: int)
    requires
        0 <= m < 60,
        0 <= i < 60,
        0 <= j < 60,
        wrap_index(m, i) == wrap_index(m, j),
    ensures
        i == j,
{
}

proof fn lemma_recorded_bounds(ops: Seq<u8>)
    requires
        forall|j: int| 0 <= j < ops.len() ==> ops[j] < 60,
    ensures
        recorded_minutes(ops).len() == 60,
        forall|b: int| 0 <= b < 60 ==> recorded_minutes(ops)[b] <= ops.len(),
    decreases ops.len(),
{
    if ops.len() > 0 {
        assert(forall|j: int|
            0 <= j < ops.drop_last().len() ==> ops.drop_last()[j] == ops[j] && ops[j] < 60);
        lemma_recorded_bounds(ops.drop_last());
    }
}

/// Updating one bucket changes a window sum by the bucket's change when the
/// bucket lies in the window, and not at all otherwise.
proof fn lemma_window_sum_update(mins: Seq<u32>, m: int, k: int, mu: int, v: u32)
    requires
        mins.len() == 60,
        0 <= m < 60,
        0 <= k <= 60,
        0 <= mu < 60,
    ensures
        window_sum_upto(mins.update(mu, v), m, k) == window_sum_upto(mins, m, k) + if in_window(
            mu,
            m,
            k,
        ) {
            v - mins[mu]
        } else {
            0int
        },
    decreases k,
{
    if k > 0 {
        lemma_window_sum_update(mins, m, k - 1, mu, v);
        let slot = wrap_index(m, k - 1);
        if slot == mu {
            assert(!in_window(mu, m, k - 1)) by {
                if in_window(mu, m, k - 1) {
                    let i = choose|i: int| 0 <= i < k - 1 && wrap_index(m, i) == mu;
                    lemma_wrap_injective(m, i, k - 1);
                }
            }
            assert(in_window(mu, m, k));
        } else {
            assert(in_window(mu, m, k) == in_window(mu, m, k - 1)) by {
                if in_window(mu, m, k) {
                    let i = choose|i: int| 0 <= i < k && wrap_index(m, i) == mu;
                    assert(i != k - 1);
                    assert(in_window(mu, m, k - 1));
                }
            }
        }
    }
}

/// In a steady anchor hour, the window query returns exactly the number of
/// records whose minute lies among the `w` trailing minutes ending at `m`.
pub proof fn lemma_window_sum_counts(ops: Seq<u8>, m: u8, w: u8)
    requires
        forall|j: int| 0 <= j < ops.len() ==> ops[j] < 60,
        m < 60,
        w <= 60,
        ops.len() < 0xffff_ffff,
    ensures
        window_sum_upto(recorded_minutes(ops), m as int, w as int) == count_in_window(
            ops,
            m as int,
            w as int,
        ),
    decreases ops.len(),
{
    if ops.len() == 0 {
        assert forall|k: int| 0 <= k <= w implies window_sum_upto(zeros60(), m as int, k) == 0 by {
            lemma_window_zero(m as int, k);
        }
    } else {
        let prior = ops.drop_last();
        assert(forall|j: int| 0 <= j < prior.len() ==> prior[j] == ops[j] && ops[j] < 60);
        lemma_window_sum_counts(prior, m, w);
        lemma_recorded_bounds(prior);
        let prev = recorded_minutes(prior);
        let mu = ops.last() as int;
        let bumped = sat_add_u32(prev[mu] as int, 1) as u32;
        assert(bumped == prev[mu] + 1);
        lemma_window_sum_update(prev, m as int, w as int, mu, bumped);
    }
}

proof fn lemma_window_zero(m: int, k: int)
    requires
        0 <= m < 60,
        0 <= k <= 60,
    ensures
        window_sum_upto(zeros60(), m, k) == 0,
    decreases k,
{
    if k > 0 {
        lemma_window_zero(m, k - 1);
    }
}

pub proof fn lemma_window_sum_upto_nonneg(mins: Seq<u32>, minute: int, k: int)
    ensures
        window_sum_upto(mins, minute, k) >= 0,
    decreases k,
{
    if k > 0 {
        lemma_window_sum_upto_nonneg(mins, minute, k - 1);
    }
}

} // verus!
