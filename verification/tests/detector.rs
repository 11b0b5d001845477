use heimdall::ip::Ipv4;
use heimdall::pattern::{check_patterns, create_pattern, extract_result, LogPattern, PatternError};
use regex::RegexSet;

fn some(s: &str) -> Option<String> {
    Some(s.to_string())
}

#[test]
fn checkpatterns_ipv4() {
    let mut pattern_strs = Vec::<String>::new();
    let mut patterns = Vec::<LogPattern>::new();

    let (pattern, pattern_str) = create_pattern(
        &"{hh:mm:ss}.*Failed password.*from {ip}".to_owned(),
    )
    .unwrap();
    pattern_strs.push(pattern_str);
    let regex_set = RegexSet::new(pattern_strs).unwrap();
    patterns.push(pattern);

    let check = check_patterns(
        &regex_set,
        &patterns,
        "10:00:00 Failed password from 192.168.1.1",
    )
    .unwrap();
    assert_eq!(check.hour, 10);
    assert_eq!(check.minute, 00);
    assert_eq!(check.ip, Ipv4 { o0: 192, o1: 168, o2: 1, o3: 1 });
}

#[test]
fn expansion_and_positions() {
    let (pattern, expanded) = create_pattern(
        &"{hh:mm:ss}.*Failed password.*from {ip}".to_owned(),
    )
    .unwrap();
    assert_eq!(
        expanded,
        "(\\d?\\d):(\\d?\\d):\\d\\d.*Failed password.*from (\\d{1,3}\\.\\d{1,3}\\.\\d{1,3}\\.\\d{1,3})"
    );
    assert_eq!(pattern.pos_hour, 1);
    assert_eq!(pattern.pos_minute, 2);
    assert_eq!(pattern.pos_ip, 3);
}

#[test]
fn user_parentheses_shift_positions() {
    let (pattern, _expanded) = create_pattern(&"(x+) {hh:mm:ss} {ip}".to_owned()).unwrap();
    assert_eq!(pattern.pos_hour, 2);
    assert_eq!(pattern.pos_minute, 3);
    assert_eq!(pattern.pos_ip, 4);
}

#[test]
fn missing_placeholders_are_reported() {
    assert!(matches!(
        create_pattern(&"{h}:{m} only".to_owned()),
        Err(PatternError::MissingIp)
    ));
    assert!(matches!(
        create_pattern(&"{ip} only".to_owned()),
        Err(PatternError::MissingHour)
    ));
    assert!(matches!(
        create_pattern(&"{h} and {ip}".to_owned()),
        Err(PatternError::MissingMinute)
    ));
}

#[test]
fn invalid_regex_is_reported() {
    assert!(matches!(
        create_pattern(&"({h}{m}{ip}".to_owned()),
        Err(PatternError::InvalidRegex(_))
    ));
}

#[test]
fn first_matching_pattern_wins() {
    let templates = [
        "{h}:{m}:\\d\\d.*from {ip}",
        "\\d\\d:{h}:{m}.*from {ip}",
    ];
    let mut pattern_strs = Vec::<String>::new();
    let mut patterns = Vec::<LogPattern>::new();
    for t in &templates {
        let (pattern, pattern_str) = create_pattern(&t.to_string()).unwrap();
        pattern_strs.push(pattern_str);
        patterns.push(pattern);
    }
    let regex_set = RegexSet::new(&pattern_strs).unwrap();
    let check = check_patterns(&regex_set, &patterns, "10:11:12 attack from 9.8.7.6").unwrap();
    // both patterns match; the first-indexed pattern's captures are used
    assert_eq!(check.hour, 10);
    assert_eq!(check.minute, 11);
    assert_eq!(check.ip, Ipv4 { o0: 9, o1: 8, o2: 7, o3: 6 });
}

#[test]
fn no_match_gives_none() {
    let (pattern, pattern_str) =
        create_pattern(&"{hh:mm:ss} bad login {ip}".to_owned()).unwrap();
    let regex_set = RegexSet::new([pattern_str]).unwrap();
    let patterns = vec![pattern];
    assert!(check_patterns(&regex_set, &patterns, "nothing to see here").is_none());
}

#[test]
fn extract_reads_positions() {
    let caps = vec![some("whole"), some("10"), some("42"), some("192.168.1.1")];
    let r = extract_result(&caps, 1, 2, 3).unwrap();
    assert_eq!(r.hour, 10);
    assert_eq!(r.minute, 42);
    assert_eq!(r.ip, Ipv4 { o0: 192, o1: 168, o2: 1, o3: 1 });
}

#[test]
fn extract_rejects_out_of_range_time() {
    let caps = vec![some("whole"), some("24"), some("00"), some("1.2.3.4")];
    assert!(extract_result(&caps, 1, 2, 3).is_none());
    let caps = vec![some("whole"), some("23"), some("60"), some("1.2.3.4")];
    assert!(extract_result(&caps, 1, 2, 3).is_none());
    let caps = vec![some("whole"), some("23"), some("59"), some("1.2.3.4")];
    assert!(extract_result(&caps, 1, 2, 3).is_some());
}

#[test]
fn extract_rejects_bad_addresses() {
    let caps = vec![some("w"), some("1"), some("2"), some("999.1.2.3")];
    assert!(extract_result(&caps, 1, 2, 3).is_none());
    let caps = vec![some("w"), some("1"), some("2"), some("01.2.3.4")];
    assert!(extract_result(&caps, 1, 2, 3).is_none());
    let caps = vec![some("w"), some("1"), some("2"), some("1.2.3")];
    assert!(extract_result(&caps, 1, 2, 3).is_none());
}

#[test]
fn extract_rejects_missing_group() {
    let caps = vec![some("w"), None, some("2"), some("1.2.3.4")];
    assert!(extract_result(&caps, 1, 2, 3).is_none());
    let caps = vec![some("w"), some("1"), some("2"), some("1.2.3.4")];
    assert!(extract_result(&caps, 1, 2, 9).is_none());
}
