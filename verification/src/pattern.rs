//! Pattern compiler and hit detector. Operator templates hold the
//! placeholders `{ip}`, `{h}`, `{m}` and `{hh:mm:ss}`; compilation expands
//! them into regex capture groups and records each placeholder's 1-based
//! capture-group position by counting the `(` characters emitted before it.
//! Detection runs a line through the compiled set and reads `(hour, minute,
//! ip)` out of the first matching pattern's captures.

use vstd::prelude::*;
use crate::ip::{parse_ipv4_spec, parse_ipv4_chars, Ipv4};
use crate::text::{parse_u8_spec, parse_u8_chars, str_to_chars, chars_to_string};

verus! {

//
// Trusted view of the regex engine.
//

#[verifier::external_type_specification]
#[verifier::external_body]
pub struct ExRegex(regex::Regex);

#[verifier::external_type_specification]
#[verifier::external_body]
pub struct ExRegexSet(regex::RegexSet);

/// The pattern string a `Regex` was compiled from.
pub uninterp spec fn regex_pattern(re: regex::Regex) -> Seq<char>;

/// The pattern strings a `RegexSet` was built from.
pub uninterp spec fn regexset_patterns(rs: regex::RegexSet) -> Seq<Seq<char>>;

/// Whether `regex::Regex::new` accepts this pattern; compilation is a
/// function of the pattern text alone.
pub uninterp spec fn regex_valid(pattern: Seq<char>) -> bool;

/// Whether `regex::RegexSet::new` accepts this list of patterns.
pub uninterp spec fn regexset_valid(patterns: Seq<Seq<char>>) -> bool;

/// Whether the pattern matches somewhere in the line; matching is a function
/// of the pattern and the line alone.
pub uninterp spec fn regex_match(pattern: Seq<char>, line: Seq<char>) -> bool;

/// The capture groups (index 0 is the whole match) of the leftmost match of
/// the pattern in the line; a function of the pattern and the line alone.
pub uninterp spec fn regex_caps(pattern: Seq<char>, line: Seq<char>) -> Seq<Option<Seq<char>>>;

/// Relies on regex::Regex::new: success depends on the pattern text alone,
/// and the compiled value matches according to that pattern.
#[verifier::external_body]
pub(crate) fn regex_new(s: &str) -> (r: Result<regex::Regex, String>)
    ensures
        r is Ok <==> regex_valid(s@),
        r is Ok ==> regex_pattern(r->Ok_0) == s@,
{
    regex::Regex::new(s).map_err(|e| e.to_string())
}

/// Relies on regex::RegexSet::new: success depends on the pattern texts
/// alone, and the built set tests those patterns.
#[verifier::external_body]
pub(crate) fn regexset_new(patterns: &Vec<String>) -> (r: Result<regex::RegexSet, String>)
    ensures
        r is Ok <==> regexset_valid(patterns.deep_view()),
        r is Ok ==> regexset_patterns(r->Ok_0) == patterns.deep_view(),
{
    regex::RegexSet::new(patterns).map_err(|e| e.to_string())
}

/// Relies on regex::RegexSet::matches and SetMatches::iter: the iterator
/// yields the indices of exactly the matching patterns, in ascending order,
/// so its first element is the lowest-indexed matching pattern.
#[verifier::external_body]
pub(crate) fn regexset_first_match(rs: &regex::RegexSet, line: &str) -> (r: Option<usize>)
    ensures
        match r {
            Some(i) => i < regexset_patterns(*rs).len() && regex_match(
                regexset_patterns(*rs)[i as int],
                line@,
            ) && forall|j: int|
                0 <= j < i ==> !regex_match(regexset_patterns(*rs)[j], line@),
            None => forall|j: int|
                0 <= j < regexset_patterns(*rs).len() ==> !regex_match(
                    regexset_patterns(*rs)[j],
                    line@,
                ),
        },
{
    rs.matches(line).iter().next()
}

/// Relies on regex::Regex::captures: it returns a value exactly when the
/// regex matches the line, holding each capture group of the leftmost match;
/// the body only copies each group out as an owned string.
#[verifier::external_body]
pub(crate) fn regex_captures_vec(re: &regex::Regex, line: &str) -> (r: Option<Vec<Option<String>>>)
    ensures
        r is Some <==> regex_match(regex_pattern(*re), line@),
        r is Some ==> r->Some_0.deep_view() == regex_caps(regex_pattern(*re), line@),
{
    match re.captures(line) {
        None => None,
        Some(c) => Some(c.iter().map(|m| m.map(|x| x.as_str().to_string())).collect()),
    }
}

//
// Template expansion: the mathematical description of compilation.
//

/// What one `(` in the expanded regex stands for: a placeholder's capture
/// group, or a parenthesis the operator wrote (which the regex engine also
/// numbers as a group).
pub enum GroupKind {
    Ip,
    Hour,
    Minute,
    Other,
}

pub open spec fn at_hms(s: Seq<char>, i: int) -> bool {
    &&& 0 <= i
    &&& i + 10 <= s.len()
    &&& s[i] == '{'
    &&& s[i + 1] == 'h'
    &&& s[i + 2] == 'h'
    &&& s[i + 3] == ':'
    &&& s[i + 4] == 'm'
    &&& s[i + 5] == 'm'
    &&& s[i + 6] == ':'
    &&& s[i + 7] == 's'
    &&& s[i + 8] == 's'
    &&& s[i + 9] == '}'
}

pub open spec fn at_ip(s: Seq<char>, i: int) -> bool {
    &&& 0 <= i
    &&& i + 4 <= s.len()
    &&& s[i] == '{'
    &&& s[i + 1] == 'i'
    &&& s[i + 2] == 'p'
    &&& s[i + 3] == '}'
}

pub open spec fn at_h(s: Seq<char>, i: int) -> bool {
    &&& 0 <= i
    &&& i + 3 <= s.len()
    &&& s[i] == '{'
    &&& s[i + 1] == 'h'
    &&& s[i + 2] == '}'
}

pub open spec fn at_m(s: Seq<char>, i: int) -> bool {
    &&& 0 <= i
    &&& i + 3 <= s.len()
    &&& s[i] == '{'
    &&& s[i + 1] == 'm'
    &&& s[i + 2] == '}'
}

pub open spec fn ip_frag() -> Seq<char> {
    "(\\d{1,3}\\.\\d{1,3}\\.\\d{1,3}\\.\\d{1,3})"@
}

pub open spec fn hm_frag() -> Seq<char> {
    "(\\d?\\d)"@
}

pub open spec fn hms_frag() -> Seq<char> {
    "(\\d?\\d):(\\d?\\d):\\d\\d"@
}

/// Expansion of the template suffix starting at `i`: the regex text, and the
/// meaning of each emitted capture group in order. `{hh:mm:ss}` stands for
/// `{h}:{m}:\d\d`, so it emits an hour group and a minute group; the seconds
/// are not captured.
pub open spec fn expand_from(s: Seq<char>, i: int) -> (Seq<char>, Seq<GroupKind>)
    decreases s.len() - i,
{
    if i < 0 || i >= s.len() {
        (Seq::<char>::empty(), Seq::<GroupKind>::empty())
    } else if at_hms(s, i) {
        let rest = expand_from(s, i + 10);
        (hms_frag() + rest.0, seq![GroupKind::Hour, GroupKind::Minute] + rest.1)
    } else if at_ip(s, i) {
        let rest = expand_from(s, i + 4);
        (ip_frag() + rest.0, seq![GroupKind::Ip] + rest.1)
    } else if at_h(s, i) {
        let rest = expand_from(s, i + 3);
        (hm_frag() + rest.0, seq![GroupKind::Hour] + rest.1)
    } else if at_m(s, i) {
        let rest = expand_from(s, i + 3);
        (hm_frag() + rest.0, seq![GroupKind::Minute] + rest.1)
    } else {
        let rest = expand_from(s, i + 1);
        (seq![s[i]] + rest.0, if s[i] == '(' {
            seq![GroupKind::Other] + rest.1
        } else {
            rest.1
        })
    }
}

/// Each consumed character emits at most one capture group.
pub proof fn lemma_expand_groups_len(s: Seq<char>, i: int)
    ensures
        expand_from(s, i).1.len() <= if i < s.len() {
            s.len() - i
        } else {
            0
        },
    decreases s.len() - i,
{
    if 0 <= i < s.len() {
        if at_hms(s, i) {
            lemma_expand_groups_len(s, i + 10);
        } else if at_ip(s, i) {
            lemma_expand_groups_len(s, i + 4);
        } else if at_h(s, i) {
            lemma_expand_groups_len(s, i + 3);
        } else if at_m(s, i) {
            lemma_expand_groups_len(s, i + 3);
        } else {
            lemma_expand_groups_len(s, i + 1);
        }
    }
}

fn at_hms_exec(v: &Vec<char>, i: usize) -> (b: bool)
    requires
        i <= v@.len(),
    ensures
        b == at_hms(v@, i as int),
{
    v.len() - i >= 10 && v[i] == '{' && v[i + 1] == 'h' && v[i + 2] == 'h' && v[i + 3] == ':' && v[i
        + 4] == 'm' && v[i + 5] == 'm' && v[i + 6] == ':' && v[i + 7] == 's' && v[i + 8] == 's'
        && v[i + 9] == '}'
}

fn at_ip_exec(v: &Vec<char>, i: usize) -> (b: bool)
    requires
        i <= v@.len(),
    ensures
        b == at_ip(v@, i as int),
{
    v.len() - i >= 4 && v[i] == '{' && v[i + 1] == 'i' && v[i + 2] == 'p' && v[i + 3] == '}'
}

fn at_h_exec(v: &Vec<char>, i: usize) -> (b: bool)
    requires
        i <= v@.len(),
    ensures
        b == at_h(v@, i as int),
{
    v.len() - i >= 3 && v[i] == '{' && v[i + 1] == 'h' && v[i + 2] == '}'
}

fn at_m_exec(v: &Vec<char>, i: usize) -> (b: bool)
    requires
        i <= v@.len(),
    ensures
        b == at_m(v@, i as int),
{
    v.len() - i >= 3 && v[i] == '{' && v[i + 1] == 'm' && v[i + 2] == '}'
}

fn push_all(out: &mut Vec<char>, frag: &Vec<char>)
    ensures
        final(out)@ == old(out)@ + frag@,
{
    let mut i: usize = 0;
    while i < frag.len()
        invariant
            i <= frag@.len(),
            out@ == old(out)@ + frag@.subrange(0, i as int),
        decreases frag@.len() - i,
    {
        out.push(frag[i]);
        proof {
            assert(frag@.subrange(0, i + 1) =~= frag@.subrange(0, i as int).push(frag@[i as int]));
        }
        i = i + 1;
    }
    proof {
        assert(frag@.subrange(0, frag@.len() as int) =~= frag@);
    }
}

//
// Compiled patterns.
//

/// A compiled template: the regex plus the 1-based capture-group position of
/// each placeholder.
pub struct LogPattern {
    pub regex: regex::Regex,
    pub pos_hour: usize,
    pub pos_minute: usize,
    pub pos_ip: usize,
}

#[derive(Clone, Copy, PartialEq, Eq, Structural, Debug)]
pub struct PatternResult {
    pub hour: u8,
    pub minute: u8,
    pub ip: Ipv4,
}

#[derive(Debug)]
pub enum PatternError {
    /// The expanded template was not accepted by the regex engine; holds the
    /// engine's message.
    InvalidRegex(String),
    MissingIp,
    MissingHour,
    MissingMinute,
}

pub open spec fn has_kind(gs: Seq<GroupKind>, k: GroupKind) -> bool {
    exists|j: int| 0 <= j < gs.len() && gs[j] == k
}

/// `pos` is 1 plus the index of the first group of kind `k`.
pub open spec fn pos_points_to(gs: Seq<GroupKind>, pos: int, k: GroupKind) -> bool {
    &&& 1 <= pos <= gs.len()
    &&& gs[pos - 1] == k
    &&& forall|l: int| 0 <= l < pos - 1 ==> gs[l] != k
}

/// The three placeholder positions of a compiled pattern name distinct,
/// existing capture groups.
pub proof fn lemma_positions_distinct(
    gs: Seq<GroupKind>,
    pos_ip: int,
    pos_hour: int,
    pos_minute: int,
)
    requires
        pos_points_to(gs, pos_ip, GroupKind::Ip),
        pos_points_to(gs, pos_hour, GroupKind::Hour),
        pos_points_to(gs, pos_minute, GroupKind::Minute),
    ensures
        pos_ip != pos_hour,
        pos_ip != pos_minute,
        pos_hour != pos_minute,
        1 <= pos_ip <= gs.len(),
        1 <= pos_hour <= gs.len(),
        1 <= pos_minute <= gs.len(),
{
}

/// Compiles a template. The expansion and group positions follow
/// `expand_from`; the regex engine decides acceptance of the expanded text.
#[verifier::rlimit(100)]
pub fn create_pattern(s: &String) -> (r: Result<(LogPattern, String), PatternError>)
    ensures
        match r {
            Ok(pr) => {
                &&& regex_valid(expand_from(s@, 0).0)
                &&& pr.1@ == expand_from(s@, 0).0
                &&& regex_pattern(pr.0.regex) == expand_from(s@, 0).0
                &&& pos_points_to(expand_from(s@, 0).1, pr.0.pos_ip as int, GroupKind::Ip)
                &&& pos_points_to(expand_from(s@, 0).1, pr.0.pos_hour as int, GroupKind::Hour)
                &&& pos_points_to(expand_from(s@, 0).1, pr.0.pos_minute as int, GroupKind::Minute)
            },
            Err(PatternError::InvalidRegex(_)) => !regex_valid(expand_from(s@, 0).0),
            Err(PatternError::MissingIp) => regex_valid(expand_from(s@, 0).0) && !has_kind(
                expand_from(s@, 0).1,
                GroupKind::Ip,
            ),
            Err(PatternError::MissingHour) => regex_valid(expand_from(s@, 0).0) && has_kind(
                expand_from(s@, 0).1,
                GroupKind::Ip,
            ) && !has_kind(expand_from(s@, 0).1, GroupKind::Hour),
            Err(PatternError::MissingMinute) => regex_valid(expand_from(s@, 0).0) && has_kind(
                expand_from(s@, 0).1,
                GroupKind::Ip,
            ) && has_kind(expand_from(s@, 0).1, GroupKind::Hour) && !has_kind(
                expand_from(s@, 0).1,
                GroupKind::Minute,
            ),
        },
{
    let chars = str_to_chars(s.as_str());
    let ghost full = expand_from(s@, 0);
    let ip_f = str_to_chars("(\\d{1,3}\\.\\d{1,3}\\.\\d{1,3}\\.\\d{1,3})");
    let hm_f = str_to_chars("(\\d?\\d)");
    let hms_f = str_to_chars("(\\d?\\d):(\\d?\\d):\\d\\d");
    let mut out: Vec<char> = Vec::new();
    let ghost mut gsofar: Seq<GroupKind> = Seq::<GroupKind>::empty();
    let mut gc: usize = 0;
    let mut pos_ip: usize = 0;
    let mut have_ip = false;
    let mut pos_hour: usize = 0;
    let mut have_hour = false;
    let mut pos_minute: usize = 0;
    let mut have_minute = false;
    let mut i: usize = 0;
    let n = chars.len();
    proof {
        lemma_expand_groups_len(s@, 0);
        assert(full.0 =~= out@ + expand_from(chars@, 0).0);
        assert(full.1 =~= gsofar + expand_from(chars@, 0).1);
    }
    while i < n
        invariant
            i <= n,
            n == chars@.len(),
            chars@ == s@,
            ip_f@ == ip_frag(),
            hm_f@ == hm_frag(),
            hms_f@ == hms_frag(),
            full == expand_from(s@, 0),
            full.1.len() <= n,
            full.0 == out@ + expand_from(chars@, i as int).0,
            full.1 == gsofar + expand_from(chars@, i as int).1,
            gc as int == gsofar.len(),
            have_ip ==> 1 <= pos_ip <= gsofar.len() && gsofar[pos_ip - 1] == GroupKind::Ip && (
            forall|l: int| 0 <= l < pos_ip - 1 ==> gsofar[l] != GroupKind::Ip),
            !have_ip ==> forall|l: int| 0 <= l < gsofar.len() ==> gsofar[l] != GroupKind::Ip,
            have_hour ==> 1 <= pos_hour <= gsofar.len() && gsofar[pos_hour - 1] == GroupKind::Hour
                && (forall|l: int| 0 <= l < pos_hour - 1 ==> gsofar[l] != GroupKind::Hour),
            !have_hour ==> forall|l: int| 0 <= l < gsofar.len() ==> gsofar[l] != GroupKind::Hour,
            have_minute ==> 1 <= pos_minute <= gsofar.len() && gsofar[pos_minute - 1]
                == GroupKind::Minute && (forall|l: int|
                0 <= l < pos_minute - 1 ==> gsofar[l] != GroupKind::Minute),
            !have_minute ==> forall|l: int|
                0 <= l < gsofar.len() ==> gsofar[l] != GroupKind::Minute,
        decreases n - i,
    {
        let ghost suffix = expand_from(chars@, i as int);
        if at_hms_exec(&chars, i) {
            proof {
                assert(suffix.0 == hms_frag() + expand_from(chars@, i + 10).0);
                assert(suffix.1 == seq![GroupKind::Hour, GroupKind::Minute] + expand_from(
                    chars@,
                    i + 10,
                ).1);
            }
            push_all(&mut out, &hms_f);
            if !have_hour {
                pos_hour = gc + 1;
                have_hour = true;
            }
            if !have_minute {
                pos_minute = gc + 2;
                have_minute = true;
            }
            proof {
                gsofar = gsofar + seq![GroupKind::Hour, GroupKind::Minute];
            }
            gc = gc + 2;
            i = i + 10;
            proof {
                assert(full.0 == out@ + expand_from(chars@, i as int).0) by {
                    assert(hms_frag() + expand_from(chars@, i as int).0 =~= suffix.0);
                }
            }
        } else if at_ip_exec(&chars, i) {
            proof {
                assert(suffix.0 == ip_frag() + expand_from(chars@, i + 4).0);
                assert(suffix.1 == seq![GroupKind::Ip] + expand_from(chars@, i + 4).1);
            }
            push_all(&mut out, &ip_f);
            if !have_ip {
                pos_ip = gc + 1;
                have_ip = true;
            }
            proof {
                gsofar = gsofar + seq![GroupKind::Ip];
            }
            gc = gc + 1;
            i = i + 4;
        } else if at_h_exec(&chars, i) {
            proof {
                assert(suffix.0 == hm_frag() + expand_from(chars@, i + 3).0);
                assert(suffix.1 == seq![GroupKind::Hour] + expand_from(chars@, i + 3).1);
            }
            push_all(&mut out, &hm_f);
            if !have_hour {
                pos_hour = gc + 1;
                have_hour = true;
            }
            proof {
                gsofar = gsofar + seq![GroupKind::Hour];
            }
            gc = gc + 1;
            i = i + 3;
        } else if at_m_exec(&chars, i) {
            proof {
                assert(suffix.0 == hm_frag() + expand_from(chars@, i + 3).0);
                assert(suffix.1 == seq![GroupKind::Minute] + expand_from(chars@, i + 3).1);
            }
            push_all(&mut out, &hm_f);
            if !have_minute {
                pos_minute = gc + 1;
                have_minute = true;
            }
            proof {
                gsofar = gsofar + seq![GroupKind::Minute];
            }
            gc = gc + 1;
            i = i + 3;
        } else {
            proof {
                assert(suffix.0 == seq![chars@[i as int]] + expand_from(chars@, i + 1).0);
            }
            let c = chars[i];
            out.push(c);
            if c == '(' {
                proof {
                    gsofar = gsofar + seq![GroupKind::Other];
                }
                gc = gc + 1;
            }
            i = i + 1;
        }
    }
    proof {
        assert(expand_from(chars@, n as int).0 =~= Seq::<char>::empty());
        assert(expand_from(chars@, n as int).1 =~= Seq::<GroupKind>::empty());
        assert(full.0 =~= out@);
        assert(full.1 =~= gsofar);
    }
    let rx_string = chars_to_string(&out);
    let compiled = match regex_new(rx_string.as_str()) {
        Ok(re) => re,
        Err(msg) => {
            return Err(PatternError::InvalidRegex(msg));
        },
    };
    if !have_ip {
        return Err(PatternError::MissingIp);
    }
    if !have_hour {
        return Err(PatternError::MissingHour);
    }
    if !have_minute {
        return Err(PatternError::MissingMinute);
    }
    Ok((LogPattern { regex: compiled, pos_hour, pos_minute, pos_ip }, rx_string))
}

//
// Capture extraction and detection.
//

pub open spec fn cap_at(caps: Seq<Option<Seq<char>>>, i: int) -> Option<Seq<char>> {
    if 0 <= i < caps.len() {
        caps[i]
    } else {
        None
    }
}

/// What detection reads out of a matched pattern's captures: hour and minute
/// as decimal bytes, the address as a strict dotted quad; a missing group, a
/// failed parse, an hour above 23 or a minute above 59 ignores the line.
pub open spec fn extract_spec(
    caps: Seq<Option<Seq<char>>>,
    pos_hour: int,
    pos_minute: int,
    pos_ip: int,
) -> Option<PatternResult> {
    match cap_at(caps, pos_hour) {
        None => None,
        Some(hs) => match parse_u8_spec(hs) {
            None => None,
            Some(hour) => match cap_at(caps, pos_minute) {
                None => None,
                Some(ms) => match parse_u8_spec(ms) {
                    None => None,
                    Some(minute) => match cap_at(caps, pos_ip) {
                        None => None,
                        Some(ips) => match parse_ipv4_spec(ips) {
                            None => None,
                            Some(ip) => if hour <= 23 && minute <= 59 {
                                Some(PatternResult { hour, minute, ip })
                            } else {
                                None
                            },
                        },
                    },
                },
            },
        },
    }
}

fn cap_get<'a>(caps: &'a Vec<Option<String>>, i: usize) -> (r: Option<&'a String>)
    ensures
        r is Some <==> cap_at(caps.deep_view(), i as int) is Some,
        r is Some ==> r->Some_0@ == cap_at(caps.deep_view(), i as int)->Some_0,
{
    proof {
        if i < caps@.len() {
            assert(caps.deep_view()[i as int] == caps@[i as int].deep_view());
        }
    }
    if i < caps.len() {
        match &caps[i] {
            Some(s) => Some(s),
            None => None,
        }
    } else {
        None
    }
}

/// Reads `(hour, minute, ip)` out of a capture list by the given 1-based
/// group positions.
pub fn extract_result(
    caps: &Vec<Option<String>>,
    pos_hour: usize,
    pos_minute: usize,
    pos_ip: usize,
) -> (r: Option<PatternResult>)
    ensures
        r == extract_spec(caps.deep_view(), pos_hour as int, pos_minute as int, pos_ip as int),
{
    let hour_str = match cap_get(caps, pos_hour) {
        Some(s) => s,
        None => {
            return None;
        },
    };
    let hour_chars = str_to_chars(hour_str.as_str());
    let hour = match parse_u8_chars(&hour_chars) {
        Some(h) => h,
        None => {
            return None;
        },
    };
    let minute_str = match cap_get(caps, pos_minute) {
        Some(s) => s,
        None => {
            return None;
        },
    };
    let minute_chars = str_to_chars(minute_str.as_str());
    let minute = match parse_u8_chars(&minute_chars) {
        Some(m) => m,
        None => {
            return None;
        },
    };
    let ip_str = match cap_get(caps, pos_ip) {
        Some(s) => s,
        None => {
            return None;
        },
    };
    let ip_chars = str_to_chars(ip_str.as_str());
    let ip = match parse_ipv4_chars(&ip_chars) {
        Some(p) => p,
        None => {
            return None;
        },
    };
    if hour <= 23 && minute <= 59 {
        Some(PatternResult { hour, minute, ip })
    } else {
        None
    }
}

/// A successful extraction always carries an hour of at most 23 and a
/// minute of at most 59.
pub proof fn lemma_extract_bounds(caps: Seq<Option<Seq<char>>>, ph: int, pm: int, pi: int)
    ensures
        extract_spec(caps, ph, pm, pi) is Some ==> extract_spec(caps, ph, pm, pi)->Some_0.hour <= 23
            && extract_spec(caps, ph, pm, pi)->Some_0.minute <= 59,
{
}

/// If any pattern matches the line, some pattern is the first to match.
pub proof fn lemma_first_match_exists(patterns: Seq<LogPattern>, line: Seq<char>, j: int)
    requires
        0 <= j < patterns.len(),
        regex_match(regex_pattern(patterns[j].regex), line),
    ensures
        exists|i: int| is_first_match(patterns, line, i),
    decreases j,
{
    if forall|l: int| 0 <= l < j ==> !regex_match(regex_pattern(#[trigger] patterns[l].regex), line) {
        assert(is_first_match(patterns, line, j));
    } else {
        let l = choose|l: int|
            0 <= l < j && regex_match(regex_pattern(#[trigger] patterns[l].regex), line);
        lemma_first_match_exists(patterns, line, l);
    }
}

/// `i` is the lowest-indexed pattern matching the line.
pub open spec fn is_first_match(patterns: Seq<LogPattern>, line: Seq<char>, i: int) -> bool {
    &&& 0 <= i < patterns.len()
    &&& regex_match(regex_pattern(patterns[i].regex), line)
    &&& forall|j: int| 0 <= j < i ==> !regex_match(regex_pattern(patterns[j].regex), line)
}

/// The result detection owes for the first matching pattern.
pub open spec fn detect_spec(patterns: Seq<LogPattern>, line: Seq<char>, i: int) -> Option<
    PatternResult,
> {
    extract_spec(
        regex_caps(regex_pattern(patterns[i].regex), line),
        patterns[i].pos_hour as int,
        patterns[i].pos_minute as int,
        patterns[i].pos_ip as int,
    )
}

/// Tests a line against the whole pattern set in one pass; on a hit the
/// lowest-indexed matching pattern's captures are used.
pub fn check_patterns(
    regex_set: &regex::RegexSet,
    patterns: &Vec<LogPattern>,
    line: &str,
) -> (r: Option<PatternResult>)
    requires
        regexset_patterns(*regex_set).len() == patterns@.len(),
        forall|i: int|
            0 <= i < patterns@.len() ==> regexset_patterns(*regex_set)[i] == regex_pattern(
                patterns@[i].regex,
            ),
    ensures
        (forall|i: int|
            0 <= i < patterns@.len() ==> !regex_match(regex_pattern(patterns@[i].regex), line@))
            ==> r is None,
        forall|i: int| #[trigger]
            is_first_match(patterns@, line@, i) ==> r == detect_spec(patterns@, line@, i),
{
    match regexset_first_match(regex_set, line) {
        None => {
            proof {
                assert forall|i2: int| 0 <= i2 < patterns@.len() implies !regex_match(
                    regex_pattern(patterns@[i2].regex),
                    line@,
                ) by {
                    assert(regexset_patterns(*regex_set)[i2] == regex_pattern(patterns@[i2].regex));
                    assert(!regex_match(regexset_patterns(*regex_set)[i2], line@));
                }
            }
            None
        },
        Some(i) => {
            proof {
                assert(regexset_patterns(*regex_set)[i as int] == regex_pattern(
                    patterns@[i as int].regex,
                ));
                assert forall|j: int| 0 <= j < i implies !regex_match(
                    regex_pattern(patterns@[j].regex),
                    line@,
                ) by {
                    assert(regexset_patterns(*regex_set)[j] == regex_pattern(patterns@[j].regex));
                    assert(!regex_match(regexset_patterns(*regex_set)[j], line@));
                }
                assert(is_first_match(patterns@, line@, i as int));
            }
            let p = &patterns[i];
            match regex_captures_vec(&p.regex, line) {
                Some(caps) => {
                    let res = extract_result(&caps, p.pos_hour, p.pos_minute, p.pos_ip);
                    proof {
                        assert forall|k: int| is_first_match(patterns@, line@, k) implies k
                            == i as int by {
                            if k < i as int {
                                assert(regex_match(regex_pattern(patterns@[k].regex), line@));
                            } else if k > i as int {
                                assert(!regex_match(regex_pattern(patterns@[i as int].regex), line@));
                            }
                        }
                    }
                    res
                },
                None => {
                    // unreachable: the set reported this pattern as matching,
                    // so its own regex yields captures
                    proof {
                        assert(false);
                    }
                    None
                },
            }
        },
    }
}

} // verus!
