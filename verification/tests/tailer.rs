use heimdall::hourstat::HourStat;
use heimdall::ip::Ipv4;
use heimdall::observer::{
    get_updated_interval_hits, tail_resume_position, FileObserver, IpStats,
};
use heimdall::pattern::{create_pattern, PatternResult};
use regex::RegexSet;

fn new_stats() -> IpStats {
    lru_cache::LruCache::with_hasher(5000, Default::default())
}

fn observer(limit_count: u32, limit_minutes: u8) -> FileObserver {
    let (pattern, pattern_str) = create_pattern(
        &"{hh:mm:ss}.*Failed password.*from {ip}".to_owned(),
    )
    .unwrap();
    FileObserver {
        name: "ssh".to_string(),
        file_path: "/var/log/auth.log".to_string(),
        patterns: vec![pattern],
        pattern_set: RegexSet::new([pattern_str]).unwrap(),
        limit_count,
        limit_minutes,
    }
}

#[test]
fn third_line_trips_and_evicts() {
    let obs = observer(3, 5);
    let mut stats = new_stats();
    assert!(obs
        .process_line(&mut stats, "10:00:00 Failed password from 1.2.3.4")
        .is_none());
    assert!(obs
        .process_line(&mut stats, "10:00:01 Failed password from 1.2.3.4")
        .is_none());
    let hit = obs
        .process_line(&mut stats, "10:00:30 Failed password from 1.2.3.4")
        .unwrap();
    assert_eq!(hit.observer_name, "ssh");
    assert_eq!(hit.ip, Ipv4 { o0: 1, o1: 2, o2: 3, o3: 4 });
    // the tripped address starts from zero again
    assert_eq!(stats.len(), 0);
}

#[test]
fn two_lines_stay_quiet() {
    let obs = observer(3, 5);
    let mut stats = new_stats();
    assert!(obs
        .process_line(&mut stats, "10:00:00 Failed password from 1.2.3.4")
        .is_none());
    assert!(obs
        .process_line(&mut stats, "10:00:01 Failed password from 1.2.3.4")
        .is_none());
    assert_eq!(stats.len(), 1);
}

#[test]
fn line_after_trip_counts_from_zero() {
    let obs = observer(3, 5);
    let mut stats = new_stats();
    for second in ["00", "01", "02"] {
        let line = format!("10:00:{} Failed password from 1.2.3.4", second);
        obs.process_line(&mut stats, &line);
    }
    // after the trip the eviction reset the count, so one more line is quiet
    assert!(obs
        .process_line(&mut stats, "10:00:45 Failed password from 1.2.3.4")
        .is_none());
}

#[test]
fn unmatched_lines_are_ignored() {
    let obs = observer(1, 5);
    let mut stats = new_stats();
    assert!(obs.process_line(&mut stats, "an unrelated line").is_none());
    assert!(obs
        .process_line(&mut stats, "99:00:00 Failed password from 1.2.3.4")
        .is_none());
    assert_eq!(stats.len(), 0);
}

#[test]
fn distinct_addresses_count_separately() {
    let obs = observer(3, 5);
    let mut stats = new_stats();
    for line in [
        "10:00:00 Failed password from 1.2.3.4",
        "10:00:01 Failed password from 5.6.7.8",
        "10:00:02 Failed password from 1.2.3.4",
    ] {
        assert!(obs.process_line(&mut stats, line).is_none());
    }
    assert_eq!(stats.len(), 2);
}

#[test]
fn cache_never_grows_past_capacity() {
    let mut stats = new_stats();
    for n in 0..5100u32 {
        let hit = PatternResult {
            hour: 10,
            minute: 0,
            ip: Ipv4 {
                o0: (n >> 8) as u8,
                o1: (n & 0xff) as u8,
                o2: 1,
                o3: 1,
            },
        };
        get_updated_interval_hits(&mut stats, &hit, &5);
        assert!(stats.len() <= 5000);
    }
    assert_eq!(stats.len(), 5000);
}

#[test]
fn repeated_hits_accumulate_in_window() {
    let mut stats = new_stats();
    let hit = PatternResult { hour: 10, minute: 0, ip: Ipv4 { o0: 1, o1: 2, o2: 3, o3: 4 } };
    assert_eq!(get_updated_interval_hits(&mut stats, &hit, &5), 1);
    assert_eq!(get_updated_interval_hits(&mut stats, &hit, &5), 2);
    assert_eq!(get_updated_interval_hits(&mut stats, &hit, &5), 3);
}

#[test]
fn stat_updates_survive_the_cache() {
    let mut stats = new_stats();
    let a = Ipv4 { o0: 1, o1: 2, o2: 3, o3: 4 };
    let early = PatternResult { hour: 10, minute: 0, ip: a };
    let late = PatternResult { hour: 10, minute: 10, ip: a };
    get_updated_interval_hits(&mut stats, &early, &5);
    // the hit at minute 0 is outside the 5-minute window ending at minute 10
    assert_eq!(get_updated_interval_hits(&mut stats, &late, &5), 1);
    // but a wide window still sees both
    let wide = PatternResult { hour: 10, minute: 10, ip: a };
    assert_eq!(get_updated_interval_hits(&mut stats, &wide, &60), 3);
}

#[test]
fn truncated_file_resumes_at_new_end() {
    // the file shrank: it was rotated or truncated, reading continues at its end
    assert_eq!(tail_resume_position(1000, 0, 1000), 0);
    assert_eq!(tail_resume_position(1000, 120, 900), 120);
    // the file only grew: reading continues where it stopped
    assert_eq!(tail_resume_position(1000, 1500, 1000), 1000);
    assert_eq!(tail_resume_position(1000, 1000, 640), 640);
}

#[test]
fn hourstat_new_records_first_hit() {
    let mut stat = HourStat::new(10, 0, 1);
    assert_eq!(stat.sum(10, 0, &5), 1);
}
