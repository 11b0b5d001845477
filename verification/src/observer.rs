//! Per-observer tailing logic: every new line runs through the detector; a
//! hit updates the per-IP sliding window held in a bounded LRU (capacity
//! 5000), and an IP whose windowed count reaches the observer's limit is
//! evicted from the LRU and reported as a `Hit`.

use vstd::prelude::*;
use std::hash::BuildHasherDefault;
use fnv::FnvHasher;
use crate::hourstat::{reconciled_minutes, sat_add_u32, window_sum_upto, HourStat};
use crate::jail::Hit;
use crate::pattern::{
    detect_spec, is_first_match, lemma_extract_bounds, lemma_first_match_exists, regex_caps,
    regex_match, regex_pattern, regexset_patterns, check_patterns, LogPattern, PatternResult,
};

verus! {

//
// Trusted view of the bounded LRU map (lru_cache with the fnv hasher).
//

#[verifier::external_type_specification]
#[verifier::external_body]
#[verifier::reject_recursive_types(K)]
#[verifier::reject_recursive_types(V)]
#[verifier::reject_recursive_types(S)]
pub struct ExLruCache<K: std::cmp::Eq + std::hash::Hash, V, S: std::hash::BuildHasher>(
    lru_cache::LruCache<K, V, S>,
);

#[verifier::external_type_specification]
#[verifier::external_body]
pub struct ExFnvHasher(fnv::FnvHasher);

#[verifier::external_type_specification]
#[verifier::external_body]
#[verifier::reject_recursive_types(H)]
pub struct ExBuildHasherDefault<H>(std::hash::BuildHasherDefault<H>);

/// The per-IP statistics cache: IPv4 key (as its 32-bit form) to hour stats.
pub type IpStats = lru_cache::LruCache<u32, HourStat, BuildHasherDefault<FnvHasher>>;

/// What the cache holds.
pub uninterp spec fn ip_stats_map(c: IpStats) -> Map<u32, HourStat>;

pub open spec fn empty_stats() -> Map<u32, HourStat> {
    Map::empty()
}

/// The capacity the cache was created with.
pub uninterp spec fn ip_stats_cap(c: IpStats) -> nat;

/// Relies on lru_cache::LruCache::with_hasher: a new cache is empty and
/// holds at most `capacity` entries.
#[verifier::external_body]
pub(crate) fn lru_new(capacity: usize) -> (c: lru_cache::LruCache<u32, HourStat, BuildHasherDefault<FnvHasher>>)
    ensures
        ip_stats_map(c) == empty_stats(),
        ip_stats_cap(c) == capacity,
{
    lru_cache::LruCache::with_hasher(capacity, Default::default())
}

/// Relies on lru_cache::LruCache::remove: it removes and returns the entry
/// at the key, leaving the rest of the cache as it was.
#[verifier::external_body]
pub(crate) fn lru_remove(c: &mut IpStats, key: u32) -> (r: Option<HourStat>)
    ensures
        ip_stats_cap(*final(c)) == ip_stats_cap(*old(c)),
        ip_stats_map(*final(c)) == ip_stats_map(*old(c)).remove(key),
        r is Some <==> ip_stats_map(*old(c)).contains_key(key),
        r is Some ==> r->Some_0 == ip_stats_map(*old(c))[key],
{
    c.remove(&key)
}

/// Relies on lru_cache::LruCache::insert: the entry goes in under its key,
/// and when a new key would push the cache over its capacity the
/// least-recently-used entry is dropped, so the cache never grows past the
/// capacity it was created with.
#[verifier::external_body]
pub(crate) fn lru_insert(c: &mut IpStats, key: u32, value: HourStat)
    requires
        ip_stats_cap(*old(c)) >= 1,
    ensures
        ip_stats_cap(*final(c)) == ip_stats_cap(*old(c)),
        ip_stats_map(*old(c)).contains_key(key) || ip_stats_map(*old(c)).len() < ip_stats_cap(
            *old(c),
        ) ==> ip_stats_map(*final(c)) == ip_stats_map(*old(c)).insert(key, value),
        !ip_stats_map(*old(c)).contains_key(key) && ip_stats_map(*old(c)).len() >= ip_stats_cap(
            *old(c),
        ) ==> exists|evicted: u32|
            ip_stats_map(*old(c)).contains_key(evicted) && evicted != key && ip_stats_map(
                *final(c),
            ) == ip_stats_map(*old(c)).remove(evicted).insert(key, value),
        ip_stats_map(*old(c)).len() <= ip_stats_cap(*old(c)) ==> ip_stats_map(*final(c)).len()
            <= ip_stats_cap(*final(c)),
{
    c.insert(key, value);
}

//
// Verified tailing logic.
//

/// The cache holds finitely many entries, every one of them well formed.
pub open spec fn stats_wf(m: Map<u32, HourStat>) -> bool {
    &&& m.dom().finite()
    &&& forall|k: u32| m.contains_key(k) ==> (#[trigger] m[k]).wf()
}

/// The minute counters of the stat for `pr` after this hit is recorded.
pub open spec fn minutes_after_hit(m: Map<u32, HourStat>, pr: PatternResult) -> Seq<u32> {
    let key = pr.ip.key32();
    if m.contains_key(key) {
        let base = reconciled_minutes(m[key], pr.hour);
        base.update(
            pr.minute as int,
            sat_add_u32(base[pr.minute as int] as int, 1) as u32,
        )
    } else {
        Seq::new(60, |i: int| 0u32).update(pr.minute as int, 1u32)
    }
}

/// The windowed count the tailer compares against the observer's limit,
/// saturating at `u32::MAX`.
pub open spec fn windowed_count(m: Map<u32, HourStat>, pr: PatternResult, limit_minutes: u8) -> int {
    if m.contains_key(pr.ip.key32()) {
        let ws = window_sum_upto(minutes_after_hit(m, pr), pr.minute as int, limit_minutes as int);
        if ws <= 0xffff_ffff {
            ws
        } else {
            0xffff_ffff
        }
    } else {
        1
    }
}

/// Records a hit in the per-IP cache and returns the windowed count for the
/// hit's IP, exactly as the sliding-window rules state.
pub fn get_updated_interval_hits(
    ip_statistics: &mut IpStats,
    hit: &PatternResult,
    limit_minutes: &u8,
) -> (r: u32)
    requires
        hit.hour <= 23,
        hit.minute < 60,
        *limit_minutes <= 60,
        ip_stats_cap(*old(ip_statistics)) >= 1,
        stats_wf(ip_stats_map(*old(ip_statistics))),
        ip_stats_map(*old(ip_statistics)).len() <= ip_stats_cap(*old(ip_statistics)),
    ensures
        ip_stats_cap(*final(ip_statistics)) == ip_stats_cap(*old(ip_statistics)),
        stats_wf(ip_stats_map(*final(ip_statistics))),
        ip_stats_map(*final(ip_statistics)).len() <= ip_stats_cap(*final(ip_statistics)),
        r as int == windowed_count(ip_stats_map(*old(ip_statistics)), *hit, *limit_minutes),
        ip_stats_map(*final(ip_statistics)).contains_key(hit.ip.key32()),
        ip_stats_map(*final(ip_statistics))[hit.ip.key32()].hour == hit.hour,
        ip_stats_map(*final(ip_statistics))[hit.ip.key32()].minutes@ == minutes_after_hit(
            ip_stats_map(*old(ip_statistics)),
            *hit,
        ),
        forall|k: u32|
            ip_stats_map(*final(ip_statistics)).contains_key(k) ==> k == hit.ip.key32()
                || ip_stats_map(*old(ip_statistics)).contains_key(k),
        forall|k: u32|
            k != hit.ip.key32() && ip_stats_map(*final(ip_statistics)).contains_key(k) ==> (
            #[trigger] ip_stats_map(*final(ip_statistics))[k]) == ip_stats_map(
                *old(ip_statistics),
            )[k],
{
    let key = hit.ip.key();
    match lru_remove(ip_statistics, key) {
        Some(mut hour_stat) => {
            hour_stat.add(hit.hour, hit.minute, 1);
            let total = hour_stat.sum(hit.hour, hit.minute, limit_minutes);
            proof {
                ip_stats_map(*old(ip_statistics)).lemma_remove_key_len(key);
            }
            lru_insert(ip_statistics, key, hour_stat);
            total
        },
        None => {
            lru_insert(ip_statistics, key, HourStat::new(hit.hour, hit.minute, 1));
            1
        },
    }
}

/// Where reading resumes after a size check: a file smaller than it was has
/// been truncated or rotated, so reading continues at its new end; otherwise
/// at the position already reached.
pub fn tail_resume_position(last_size: u64, current_size: u64, position: u64) -> (r: u64)
    ensures
        current_size < last_size ==> r == current_size,
        current_size >= last_size ==> r == position,
{
    if current_size < last_size {
        current_size
    } else {
        position
    }
}

/// A configured observer: a file, its compiled patterns, and the rate limit.
pub struct FileObserver {
    pub name: String,
    pub file_path: String,
    pub patterns: Vec<LogPattern>,
    pub pattern_set: regex::RegexSet,
    pub limit_count: u32,
    pub limit_minutes: u8,
}

impl FileObserver {
    /// The multi-regex set tests exactly the patterns' regexes, in order.
    pub open spec fn wf(self) -> bool {
        &&& regexset_patterns(self.pattern_set).len() == self.patterns@.len()
        &&& forall|i: int|
            0 <= i < self.patterns@.len() ==> regexset_patterns(self.pattern_set)[i]
                == regex_pattern(self.patterns@[i].regex)
    }

    /// Feeds one log line through the detector and the sliding window.
    /// A line that trips the observer's limit evicts its IP from the cache
    /// and yields the `Hit` to send to the registry.
    pub fn process_line(&self, ip_statistics: &mut IpStats, line: &str) -> (r: Option<Hit>)
        requires
            self.wf(),
            self.limit_minutes <= 60,
            ip_stats_cap(*old(ip_statistics)) >= 1,
            stats_wf(ip_stats_map(*old(ip_statistics))),
            ip_stats_map(*old(ip_statistics)).len() <= ip_stats_cap(*old(ip_statistics)),
        ensures
            ip_stats_cap(*final(ip_statistics)) == ip_stats_cap(*old(ip_statistics)),
            stats_wf(ip_stats_map(*final(ip_statistics))),
            ip_stats_map(*final(ip_statistics)).len() <= ip_stats_cap(*final(ip_statistics)),
            (forall|i: int|
                0 <= i < self.patterns@.len() ==> !regex_match(
                    regex_pattern(self.patterns@[i].regex),
                    line@,
                )) ==> r is None && ip_stats_map(*final(ip_statistics)) == ip_stats_map(
                *old(ip_statistics),
            ),
            forall|i: int| #[trigger]
                is_first_match(self.patterns@, line@, i) ==> match detect_spec(
                    self.patterns@,
                    line@,
                    i,
                ) {
                    None => r is None && ip_stats_map(*final(ip_statistics)) == ip_stats_map(
                        *old(ip_statistics),
                    ),
                    Some(pr) => {
                        let ws = windowed_count(
                            ip_stats_map(*old(ip_statistics)),
                            pr,
                            self.limit_minutes,
                        );
                        &&& (ws >= self.limit_count ==> {
                            &&& r is Some
                            &&& r->Some_0.observer_name@ == self.name@
                            &&& r->Some_0.ip == pr.ip
                            &&& !ip_stats_map(*final(ip_statistics)).contains_key(pr.ip.key32())
                        })
                        &&& (ws < self.limit_count ==> {
                            &&& r is None
                            &&& ip_stats_map(*final(ip_statistics)).contains_key(pr.ip.key32())
                            &&& ip_stats_map(*final(ip_statistics))[pr.ip.key32()].minutes@
                                == minutes_after_hit(ip_stats_map(*old(ip_statistics)), pr)
                        })
                        &&& forall|k: u32|
                            ip_stats_map(*final(ip_statistics)).contains_key(k) ==> k
                                == pr.ip.key32() || ip_stats_map(*old(ip_statistics)).contains_key(
                                k,
                            )
                        &&& forall|k: u32|
                            k != pr.ip.key32() && ip_stats_map(*final(ip_statistics)).contains_key(
                                k,
                            ) ==> (#[trigger] ip_stats_map(*final(ip_statistics))[k])
                                == ip_stats_map(*old(ip_statistics))[k]
                    },
                },
    {
        let hit = match check_patterns(&self.pattern_set, &self.patterns, line) {
            Some(h) => h,
            None => {
                return None;
            },
        };
        proof {
            assert(exists|j: int|
                0 <= j < self.patterns@.len() && #[trigger] regex_match(
                    regex_pattern(self.patterns@[j].regex),
                    line@,
                )) by {
                if forall|j: int|
                    0 <= j < self.patterns@.len() ==> !#[trigger] regex_match(
                        regex_pattern(self.patterns@[j].regex),
                        line@,
                    ) {
                    assert(false);
                }
            }
            let j = choose|j: int|
                0 <= j < self.patterns@.len() && #[trigger] regex_match(
                    regex_pattern(self.patterns@[j].regex),
                    line@,
                );
            lemma_first_match_exists(self.patterns@, line@, j);
            let i0 = choose|i: int| is_first_match(self.patterns@, line@, i);
            assert(detect_spec(self.patterns@, line@, i0) == Some(hit));
            lemma_extract_bounds(
                regex_caps(regex_pattern(self.patterns@[i0].regex), line@),
                self.patterns@[i0].pos_hour as int,
                self.patterns@[i0].pos_minute as int,
                self.patterns@[i0].pos_ip as int,
            );
            assert(hit.hour <= 23 && hit.minute <= 59);
        }
        let interval_hits = get_updated_interval_hits(ip_statistics, &hit, &self.limit_minutes);
        if interval_hits >= self.limit_count {
            lru_remove(ip_statistics, hit.ip.key());
            Some(Hit { observer_name: self.name.clone(), ip: hit.ip })
        } else {
            None
        }
    }
}

} // verus!
