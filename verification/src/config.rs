//! Configuration: a plain model of the parsed XML document, and the
//! validation that turns it into a `Config`. The first offending element,
//! attribute or value decides the error, in document order.

use vstd::prelude::*;
use vstd::string::StringExecFns;
use crate::observer::FileObserver;
use crate::pattern::{
    create_pattern, expand_from, has_kind, pos_points_to, regex_pattern, regex_valid,
    regexset_new, regexset_patterns, regexset_valid, GroupKind, LogPattern, PatternError,
};
use crate::text::{parse_i64_chars, parse_i64_spec, parse_u32_chars, parse_u32_spec,
    parse_u8_chars, parse_u8_spec, str_to_chars};

verus! {

/// An XML element as the configuration reader sees it: its name, its
/// attributes in document order, its child elements, and its text content.
pub struct XmlElement {
    pub name: String,
    pub attributes: Vec<(String, String)>,
    pub children: Vec<XmlElement>,
    pub text: Option<String>,
}

/// The parsed configuration.
pub struct Config {
    pub logfile: String,
    pub command_jail: String,
    pub command_unjail: String,
    pub jail_time: i64,
    pub observers: Vec<FileObserver>,
}

#[derive(Debug)]
pub enum ConfigError {
    MissingLogfile,
    EmptyLogfile,
    MissingCommandJail,
    EmptyCommandJail,
    MissingCommandUnjail,
    EmptyCommandUnjail,
    MissingObservers,
    MissingJailTime,
    BadJailTime,
    MissingPatterns,
    MissingPatternText,
    /// The regex engine refused the expanded pattern; holds its message.
    InvalidRegex(String),
    MissingIpPlaceholder,
    MissingHourPlaceholder,
    MissingMinutePlaceholder,
    MissingName,
    MissingFile,
    EmptyFile,
    MissingLimitMinutes,
    BadLimitMinutes,
    MissingLimitCount,
    BadLimitCount,
    /// The regex engine refused the combined pattern set; holds its message.
    InvalidPatternSet(String),
}

/// The error cases without their payloads, for stating exactly which error
/// an input produces.
pub enum ConfigErrorKind {
    MissingLogfile,
    EmptyLogfile,
    MissingCommandJail,
    EmptyCommandJail,
    MissingCommandUnjail,
    EmptyCommandUnjail,
    MissingObservers,
    MissingJailTime,
    BadJailTime,
    MissingPatterns,
    MissingPatternText,
    InvalidRegex,
    MissingIpPlaceholder,
    MissingHourPlaceholder,
    MissingMinutePlaceholder,
    MissingName,
    MissingFile,
    EmptyFile,
    MissingLimitMinutes,
    BadLimitMinutes,
    MissingLimitCount,
    BadLimitCount,
    InvalidPatternSet,
}

pub open spec fn kind_of(e: ConfigError) -> ConfigErrorKind {
    match e {
        ConfigError::MissingLogfile => ConfigErrorKind::MissingLogfile,
        ConfigError::EmptyLogfile => ConfigErrorKind::EmptyLogfile,
        ConfigError::MissingCommandJail => ConfigErrorKind::MissingCommandJail,
        ConfigError::EmptyCommandJail => ConfigErrorKind::EmptyCommandJail,
        ConfigError::MissingCommandUnjail => ConfigErrorKind::MissingCommandUnjail,
        ConfigError::EmptyCommandUnjail => ConfigErrorKind::EmptyCommandUnjail,
        ConfigError::MissingObservers => ConfigErrorKind::MissingObservers,
        ConfigError::MissingJailTime => ConfigErrorKind::MissingJailTime,
        ConfigError::BadJailTime => ConfigErrorKind::BadJailTime,
        ConfigError::MissingPatterns => ConfigErrorKind::MissingPatterns,
        ConfigError::MissingPatternText => ConfigErrorKind::MissingPatternText,
        ConfigError::InvalidRegex(_) => ConfigErrorKind::InvalidRegex,
        ConfigError::MissingIpPlaceholder => ConfigErrorKind::MissingIpPlaceholder,
        ConfigError::MissingHourPlaceholder => ConfigErrorKind::MissingHourPlaceholder,
        ConfigError::MissingMinutePlaceholder => ConfigErrorKind::MissingMinutePlaceholder,
        ConfigError::MissingName => ConfigErrorKind::MissingName,
        ConfigError::MissingFile => ConfigErrorKind::MissingFile,
        ConfigError::EmptyFile => ConfigErrorKind::EmptyFile,
        ConfigError::MissingLimitMinutes => ConfigErrorKind::MissingLimitMinutes,
        ConfigError::BadLimitMinutes => ConfigErrorKind::BadLimitMinutes,
        ConfigError::MissingLimitCount => ConfigErrorKind::MissingLimitCount,
        ConfigError::BadLimitCount => ConfigErrorKind::BadLimitCount,
        ConfigError::InvalidPatternSet(_) => ConfigErrorKind::InvalidPatternSet,
    }
}

/// First child element with this name.
pub open spec fn find_child(children: Seq<XmlElement>, name: Seq<char>) -> Option<XmlElement>
    decreases children.len(),
{
    if children.len() == 0 {
        None
    } else if children[0].name@ == name {
        Some(children[0])
    } else {
        find_child(children.drop_first(), name)
    }
}

/// Value of the first attribute with this name.
pub open spec fn find_attr(attrs: Seq<(String, String)>, name: Seq<char>) -> Option<Seq<char>>
    decreases attrs.len(),
{
    if attrs.len() == 0 {
        None
    } else if attrs[0].0@ == name {
        Some(attrs[0].1@)
    } else {
        find_attr(attrs.drop_first(), name)
    }
}

/// Why a single pattern template is rejected, if it is.
pub open spec fn pattern_error_kind(t: Seq<char>) -> Option<ConfigErrorKind> {
    if !regex_valid(expand_from(t, 0).0) {
        Some(ConfigErrorKind::InvalidRegex)
    } else if !has_kind(expand_from(t, 0).1, GroupKind::Ip) {
        Some(ConfigErrorKind::MissingIpPlaceholder)
    } else if !has_kind(expand_from(t, 0).1, GroupKind::Hour) {
        Some(ConfigErrorKind::MissingHourPlaceholder)
    } else if !has_kind(expand_from(t, 0).1, GroupKind::Minute) {
        Some(ConfigErrorKind::MissingMinutePlaceholder)
    } else {
        None
    }
}

/// The first failing pattern decides, in document order.
pub open spec fn first_pattern_error(children: Seq<XmlElement>) -> Option<ConfigErrorKind>
    decreases children.len(),
{
    if children.len() == 0 {
        None
    } else {
        match children[0].text {
            None => Some(ConfigErrorKind::MissingPatternText),
            Some(t) => match pattern_error_kind(t@) {
                Some(k) => Some(k),
                None => first_pattern_error(children.drop_first()),
            },
        }
    }
}

/// The expanded regex text of each pattern child, in order.
pub open spec fn expanded_patterns(children: Seq<XmlElement>) -> Seq<Seq<char>>
    decreases children.len(),
{
    if children.len() == 0 {
        Seq::<Seq<char>>::empty()
    } else {
        let t = match children[0].text {
            Some(t) => t@,
            None => Seq::<char>::empty(),
        };
        seq![expand_from(t, 0).0] + expanded_patterns(children.drop_first())
    }
}

/// Why one observer element is rejected, if it is: its checks run in the
/// order patterns, name, file, limit_minutes, limit_count, pattern set.
pub open spec fn observer_error(el: XmlElement) -> Option<ConfigErrorKind> {
    match find_child(el.children@, "patterns"@) {
        None => Some(ConfigErrorKind::MissingPatterns),
        Some(pats) => match first_pattern_error(pats.children@) {
            Some(k) => Some(k),
            None => if find_attr(el.attributes@, "name"@) is None {
                Some(ConfigErrorKind::MissingName)
            } else {
                match find_child(el.children@, "file"@) {
                    None => Some(ConfigErrorKind::MissingFile),
                    Some(f) => if f.text is None {
                        Some(ConfigErrorKind::EmptyFile)
                    } else {
                        match find_attr(el.attributes@, "limit_minutes"@) {
                            None => Some(ConfigErrorKind::MissingLimitMinutes),
                            Some(lm) => if parse_u8_spec(lm) is None {
                                Some(ConfigErrorKind::BadLimitMinutes)
                            } else {
                                match find_attr(el.attributes@, "limit_count"@) {
                                    None => Some(ConfigErrorKind::MissingLimitCount),
                                    Some(lc) => if parse_u32_spec(lc) is None {
                                        Some(ConfigErrorKind::BadLimitCount)
                                    } else if !regexset_valid(expanded_patterns(pats.children@)) {
                                        Some(ConfigErrorKind::InvalidPatternSet)
                                    } else {
                                        None
                                    },
                                }
                            },
                        }
                    },
                }
            },
        },
    }
}

/// The first failing observer decides, in document order.
pub open spec fn first_observer_error(children: Seq<XmlElement>) -> Option<ConfigErrorKind>
    decreases children.len(),
{
    if children.len() == 0 {
        None
    } else {
        match observer_error(children[0]) {
            Some(k) => Some(k),
            None => first_observer_error(children.drop_first()),
        }
    }
}

/// Which error, if any, a whole configuration document produces.
pub open spec fn config_error(root: XmlElement) -> Option<ConfigErrorKind> {
    match find_child(root.children@, "logfile"@) {
        None => Some(ConfigErrorKind::MissingLogfile),
        Some(lf) => if lf.text is None {
            Some(ConfigErrorKind::EmptyLogfile)
        } else {
            match find_child(root.children@, "command_jail"@) {
                None => Some(ConfigErrorKind::MissingCommandJail),
                Some(cj) => if cj.text is None {
                    Some(ConfigErrorKind::EmptyCommandJail)
                } else {
                    match find_child(root.children@, "command_unjail"@) {
                        None => Some(ConfigErrorKind::MissingCommandUnjail),
                        Some(cu) => if cu.text is None {
                            Some(ConfigErrorKind::EmptyCommandUnjail)
                        } else {
                            match find_child(root.children@, "observers"@) {
                                None => Some(ConfigErrorKind::MissingObservers),
                                Some(obs) => match find_attr(obs.attributes@, "jail_time"@) {
                                    None => Some(ConfigErrorKind::MissingJailTime),
                                    Some(jt) => if parse_i64_spec(jt) is None {
                                        Some(ConfigErrorKind::BadJailTime)
                                    } else {
                                        first_observer_error(obs.children@)
                                    },
                                },
                            }
                        },
                    }
                },
            }
        },
    }
}

/// What a built observer owes to its element once no error was found in it.
pub open spec fn observer_matches(el: XmlElement, ob: FileObserver) -> bool {
    let pats = find_child(el.children@, "patterns"@)->Some_0;
    &&& ob.name@ == find_attr(el.attributes@, "name"@)->Some_0
    &&& ob.file_path@ == (find_child(el.children@, "file"@)->Some_0.text)->Some_0@
    &&& Some(ob.limit_minutes) == parse_u8_spec(find_attr(el.attributes@, "limit_minutes"@)->Some_0)
    &&& Some(ob.limit_count) == parse_u32_spec(find_attr(el.attributes@, "limit_count"@)->Some_0)
    &&& ob.patterns@.len() == pats.children@.len()
    &&& forall|j: int|
        0 <= j < pats.children@.len() ==> regex_pattern((#[trigger] ob.patterns@[j]).regex)
            == expand_from((pats.children@[j].text)->Some_0@, 0).0
    &&& forall|j: int|
        0 <= j < pats.children@.len() ==> pos_points_to(
            expand_from((#[trigger] pats.children@[j].text)->Some_0@, 0).1,
            ob.patterns@[j].pos_ip as int,
            GroupKind::Ip,
        ) && pos_points_to(
            expand_from((pats.children@[j].text)->Some_0@, 0).1,
            ob.patterns@[j].pos_hour as int,
            GroupKind::Hour,
        ) && pos_points_to(
            expand_from((pats.children@[j].text)->Some_0@, 0).1,
            ob.patterns@[j].pos_minute as int,
            GroupKind::Minute,
        )
    &&& regexset_patterns(ob.pattern_set) == expanded_patterns(pats.children@)
    &&& ob.wf()
}

/// When no pattern child fails, every pattern child has text.
pub proof fn lemma_no_pattern_error_texts(children: Seq<XmlElement>, j: int)
    requires
        first_pattern_error(children) is None,
        0 <= j < children.len(),
    ensures
        children[j].text is Some,
    decreases j,
{
    if j > 0 {
        assert(children.drop_first()[j - 1] == children[j]);
        lemma_no_pattern_error_texts(children.drop_first(), j - 1);
    }
}

pub proof fn lemma_expanded_patterns_len(children: Seq<XmlElement>)
    ensures
        expanded_patterns(children).len() == children.len(),
    decreases children.len(),
{
    if children.len() > 0 {
        lemma_expanded_patterns_len(children.drop_first());
    }
}

pub proof fn lemma_expanded_patterns_index(children: Seq<XmlElement>, j: int)
    requires
        0 <= j < children.len(),
    ensures
        expanded_patterns(children)[j] == expand_from(
            match children[j].text {
                Some(t) => t@,
                None => Seq::<char>::empty(),
            },
            0,
        ).0,
    decreases j,
{
    lemma_expanded_patterns_len(children.drop_first());
    if j > 0 {
        lemma_expanded_patterns_index(children.drop_first(), j - 1);
        assert(children.drop_first()[j - 1] == children[j]);
    }
}

fn text_eq(a: &str, b: &str) -> (r: bool)
    ensures
        r == (a@ == b@),
{
    let va = str_to_chars(a);
    let vb = str_to_chars(b);
    if va.len() != vb.len() {
        return false;
    }
    let mut i: usize = 0;
    while i < va.len()
        invariant
            i <= va@.len(),
            va@.len() == vb@.len(),
            va@ == a@,
            vb@ == b@,
            forall|l: int| 0 <= l < i ==> va@[l] == vb@[l],
        decreases va@.len() - i,
    {
        if va[i] != vb[i] {
            return false;
        }
        i = i + 1;
    }
    proof {
        assert(a@ =~= b@);
    }
    true
}

fn child_named<'a>(el: &'a XmlElement, name: &str) -> (r: Option<&'a XmlElement>)
    ensures
        match r {
            Some(c) => find_child(el.children@, name@) == Some(*c),
            None => find_child(el.children@, name@) is None,
        },
{
    let mut i: usize = 0;
    proof {
        assert(el.children@.skip(0) =~= el.children@);
    }
    while i < el.children.len()
        invariant
            i <= el.children@.len(),
            find_child(el.children@, name@) == find_child(el.children@.skip(i as int), name@),
        decreases el.children@.len() - i,
    {
        proof {
            assert(el.children@.skip(i as int)[0] == el.children@[i as int]);
            assert(el.children@.skip(i as int).drop_first() =~= el.children@.skip(i + 1));
        }
        if text_eq(el.children[i].name.as_str(), name) {
            return Some(&el.children[i]);
        }
        i = i + 1;
    }
    None
}

fn attr_named<'a>(el: &'a XmlElement, name: &str) -> (r: Option<&'a String>)
    ensures
        match r {
            Some(v) => find_attr(el.attributes@, name@) == Some(v@),
            None => find_attr(el.attributes@, name@) is None,
        },
{
    let mut i: usize = 0;
    proof {
        assert(el.attributes@.skip(0) =~= el.attributes@);
    }
    while i < el.attributes.len()
        invariant
            i <= el.attributes@.len(),
            find_attr(el.attributes@, name@) == find_attr(el.attributes@.skip(i as int), name@),
        decreases el.attributes@.len() - i,
    {
        proof {
            assert(el.attributes@.skip(i as int)[0] == el.attributes@[i as int]);
            assert(el.attributes@.skip(i as int).drop_first() =~= el.attributes@.skip(i + 1));
        }
        if text_eq(el.attributes[i].0.as_str(), name) {
            return Some(&el.attributes[i].1);
        }
        i = i + 1;
    }
    None
}

/// Compiles every pattern child; the first failing one decides the error.
fn parse_patterns(pats: &XmlElement) -> (r: Result<(Vec<LogPattern>, Vec<String>), ConfigError>)
    ensures
        match r {
            Ok(pr) => {
                &&& first_pattern_error(pats.children@) is None
                &&& pr.0@.len() == pats.children@.len()
                &&& pr.1@.len() == pats.children@.len()
                &&& pr.1.deep_view() == expanded_patterns(pats.children@)
                &&& forall|j: int|
                    0 <= j < pats.children@.len() ==> regex_pattern(
                        (#[trigger] pr.0@[j]).regex,
                    ) == expand_from((pats.children@[j].text)->Some_0@, 0).0
                &&& forall|j: int|
                    0 <= j < pats.children@.len() ==> pos_points_to(
                        expand_from((#[trigger] pats.children@[j].text)->Some_0@, 0).1,
                        pr.0@[j].pos_ip as int,
                        GroupKind::Ip,
                    ) && pos_points_to(
                        expand_from((pats.children@[j].text)->Some_0@, 0).1,
                        pr.0@[j].pos_hour as int,
                        GroupKind::Hour,
                    ) && pos_points_to(
                        expand_from((pats.children@[j].text)->Some_0@, 0).1,
                        pr.0@[j].pos_minute as int,
                        GroupKind::Minute,
                    )
            },
            Err(e) => first_pattern_error(pats.children@) == Some(kind_of(e)),
        },
{
    let mut observer_patterns: Vec<LogPattern> = Vec::new();
    let mut pattern_strings: Vec<String> = Vec::new();
    let mut j: usize = 0;
    proof {
        assert(pats.children@.skip(0) =~= pats.children@);
        assert(pattern_strings.deep_view() =~= Seq::<Seq<char>>::empty());
    }
    while j < pats.children.len()
        invariant
            j <= pats.children@.len(),
            observer_patterns@.len() == j,
            pattern_strings@.len() == j,
            first_pattern_error(pats.children@) == first_pattern_error(
                pats.children@.skip(j as int),
            ),
            expanded_patterns(pats.children@) == pattern_strings.deep_view() + expanded_patterns(
                pats.children@.skip(j as int),
            ),
            forall|l: int|
                0 <= l < j ==> regex_pattern((#[trigger] observer_patterns@[l]).regex)
                    == expand_from((pats.children@[l].text)->Some_0@, 0).0,
            forall|l: int|
                0 <= l < j ==> pos_points_to(
                    expand_from((#[trigger] pats.children@[l].text)->Some_0@, 0).1,
                    observer_patterns@[l].pos_ip as int,
                    GroupKind::Ip,
                ) && pos_points_to(
                    expand_from((pats.children@[l].text)->Some_0@, 0).1,
                    observer_patterns@[l].pos_hour as int,
                    GroupKind::Hour,
                ) && pos_points_to(
                    expand_from((pats.children@[l].text)->Some_0@, 0).1,
                    observer_patterns@[l].pos_minute as int,
                    GroupKind::Minute,
                ),
        decreases pats.children@.len() - j,
    {
        proof {
            assert(pats.children@.skip(j as int)[0] == pats.children@[j as int]);
            assert(pats.children@.skip(j as int).drop_first() =~= pats.children@.skip(j + 1));
        }
        let pattern_el = &pats.children[j];
        let text = match &pattern_el.text {
            Some(t) => t,
            None => {
                return Err(ConfigError::MissingPatternText);
            },
        };
        let (pattern, expanded) = match create_pattern(text) {
            Ok(p) => p,
            Err(PatternError::InvalidRegex(m)) => {
                return Err(ConfigError::InvalidRegex(m));
            },
            Err(PatternError::MissingIp) => {
                return Err(ConfigError::MissingIpPlaceholder);
            },
            Err(PatternError::MissingHour) => {
                return Err(ConfigError::MissingHourPlaceholder);
            },
            Err(PatternError::MissingMinute) => {
                return Err(ConfigError::MissingMinutePlaceholder);
            },
        };
        let ghost dv = pattern_strings.deep_view();
        observer_patterns.push(pattern);
        pattern_strings.push(expanded);
        proof {
            assert(pattern_strings.deep_view() =~= dv.push(expanded@));
            assert(dv + expanded_patterns(pats.children@.skip(j as int)) =~= dv.push(expanded@)
                + expanded_patterns(pats.children@.skip(j + 1)));
        }
        j = j + 1;
    }
    proof {
        assert(expanded_patterns(pats.children@.skip(pats.children@.len() as int))
            =~= Seq::<Seq<char>>::empty());
        assert(pattern_strings.deep_view() =~= expanded_patterns(pats.children@));
    }
    Ok((observer_patterns, pattern_strings))
}

/// Validates one observer element and builds its `FileObserver`.
fn parse_observer(el: &XmlElement) -> (r: Result<FileObserver, ConfigError>)
    ensures
        match r {
            Ok(ob) => observer_error(*el) is None && observer_matches(*el, ob),
            Err(e) => observer_error(*el) == Some(kind_of(e)),
        },
{
    let pats = match child_named(el, "patterns") {
        Some(p) => p,
        None => {
            return Err(ConfigError::MissingPatterns);
        },
    };
    let (observer_patterns, pattern_strings) = match parse_patterns(pats) {
        Ok(pr) => pr,
        Err(e) => {
            return Err(e);
        },
    };
    let name = match attr_named(el, "name") {
        Some(n) => n.clone(),
        None => {
            return Err(ConfigError::MissingName);
        },
    };
    let file_el = match child_named(el, "file") {
        Some(f) => f,
        None => {
            return Err(ConfigError::MissingFile);
        },
    };
    let file_path = match &file_el.text {
        Some(t) => t.clone(),
        None => {
            return Err(ConfigError::EmptyFile);
        },
    };
    let limit_minutes = {
        let lm = match attr_named(el, "limit_minutes") {
            Some(v) => v,
            None => {
                return Err(ConfigError::MissingLimitMinutes);
            },
        };
        let lm_chars = str_to_chars(lm.as_str());
        match parse_u8_chars(&lm_chars) {
            Some(n) => n,
            None => {
                return Err(ConfigError::BadLimitMinutes);
            },
        }
    };
    let limit_count = {
        let lc = match attr_named(el, "limit_count") {
            Some(v) => v,
            None => {
                return Err(ConfigError::MissingLimitCount);
            },
        };
        let lc_chars = str_to_chars(lc.as_str());
        match parse_u32_chars(&lc_chars) {
            Some(n) => n,
            None => {
                return Err(ConfigError::BadLimitCount);
            },
        }
    };
    let pattern_set = match regexset_new(&pattern_strings) {
        Ok(s) => s,
        Err(m) => {
            return Err(ConfigError::InvalidPatternSet(m));
        },
    };
    proof {
        lemma_expanded_patterns_len(pats.children@);
        assert forall|jj: int| 0 <= jj < pats.children@.len() implies regexset_patterns(
            pattern_set,
        )[jj] == regex_pattern((#[trigger] observer_patterns@[jj]).regex) by {
            lemma_no_pattern_error_texts(pats.children@, jj);
            lemma_expanded_patterns_index(pats.children@, jj);
            assert(regexset_patterns(pattern_set)[jj] == expanded_patterns(pats.children@)[jj]);
        }
    }
    Ok(
        FileObserver {
            name,
            file_path,
            patterns: observer_patterns,
            pattern_set,
            limit_count,
            limit_minutes,
        },
    )
}

impl Config {
    /// Validates a configuration document. Exactly the document's first
    /// offence, in document order, decides the error; on success every field
    /// and observer is read as `config_error` describes.
    #[verifier::loop_isolation(false)]
    pub fn parse(root: &XmlElement) -> (r: Result<Config, ConfigError>)
        ensures
            match r {
                Ok(cfg) => {
                    &&& config_error(*root) is None
                    &&& cfg.logfile@ == (find_child(root.children@, "logfile"@)->Some_0.text)
                        ->Some_0@
                    &&& cfg.command_jail@ == (find_child(root.children@, "command_jail"@)
                        ->Some_0.text)->Some_0@
                    &&& cfg.command_unjail@ == (find_child(root.children@, "command_unjail"@)
                        ->Some_0.text)->Some_0@
                    &&& Some(cfg.jail_time) == parse_i64_spec(
                        find_attr(
                            find_child(root.children@, "observers"@)->Some_0.attributes@,
                            "jail_time"@,
                        )->Some_0,
                    )
                    &&& cfg.observers@.len() == find_child(root.children@, "observers"@)
                        ->Some_0.children@.len()
                    &&& forall|i: int|
                        0 <= i < cfg.observers@.len() ==> observer_matches(
                            #[trigger] find_child(root.children@, "observers"@)
                                ->Some_0.children@[i],
                            cfg.observers@[i],
                        )
                },
                Err(e) => config_error(*root) == Some(kind_of(e)),
            },
    {
        let logfile = match child_named(root, "logfile") {
            Some(el) => match &el.text {
                Some(t) => t.clone(),
                None => {
                    return Err(ConfigError::EmptyLogfile);
                },
            },
            None => {
                return Err(ConfigError::MissingLogfile);
            },
        };
        let command_jail = match child_named(root, "command_jail") {
            Some(el) => match &el.text {
                Some(t) => t.clone(),
                None => {
                    return Err(ConfigError::EmptyCommandJail);
                },
            },
            None => {
                return Err(ConfigError::MissingCommandJail);
            },
        };
        let command_unjail = match child_named(root, "command_unjail") {
            Some(el) => match &el.text {
                Some(t) => t.clone(),
                None => {
                    return Err(ConfigError::EmptyCommandUnjail);
                },
            },
            None => {
                return Err(ConfigError::MissingCommandUnjail);
            },
        };
        let observers_el = match child_named(root, "observers") {
            Some(el) => el,
            None => {
                return Err(ConfigError::MissingObservers);
            },
        };
        let jail_time = {
            let jt = match attr_named(observers_el, "jail_time") {
                Some(v) => v,
                None => {
                    return Err(ConfigError::MissingJailTime);
                },
            };
            let jt_chars = str_to_chars(jt.as_str());
            match parse_i64_chars(&jt_chars) {
                Some(n) => n,
                None => {
                    return Err(ConfigError::BadJailTime);
                },
            }
        };
        let mut observers: Vec<FileObserver> = Vec::new();
        let mut i: usize = 0;
        proof {
            assert(observers_el.children@.skip(0) =~= observers_el.children@);
        }
        while i < observers_el.children.len()
            invariant
                i <= observers_el.children@.len(),
                observers@.len() == i,
                first_observer_error(observers_el.children@) == first_observer_error(
                    observers_el.children@.skip(i as int),
                ),
                forall|l: int|
                    0 <= l < i ==> observer_matches(
                        #[trigger] observers_el.children@[l],
                        observers@[l],
                    ),
            decreases observers_el.children@.len() - i,
        {
            proof {
                assert(observers_el.children@.skip(i as int)[0] == observers_el.children@[
                i as int]);
                assert(observers_el.children@.skip(i as int).drop_first()
                    =~= observers_el.children@.skip(i + 1));
            }
            let observer = match parse_observer(&observers_el.children[i]) {
                Ok(ob) => ob,
                Err(e) => {
                    proof {
                        assert(first_observer_error(observers_el.children@.skip(i as int)) == Some(
                            kind_of(e),
                        ));
                    }
                    return Err(e);
                },
            };
            observers.push(observer);
            i = i + 1;
        }
        proof {
            assert(first_observer_error(
                observers_el.children@.skip(observers_el.children@.len() as int),
            ) is None);
        }
        Ok(Config { logfile, command_jail, command_unjail, jail_time, observers })
    }
}

/// The default configuration path: the system-wide file when it exists, else
/// the one in the working directory, given which of the two exist.
pub fn get_default_config(etc_exists: bool, local_exists: bool) -> (r: Option<String>)
    ensures
        etc_exists ==> r is Some && r->Some_0@ == "/etc/heimdall.xml"@,
        !etc_exists && local_exists ==> r is Some && r->Some_0@ == "heimdall.xml"@,
        !etc_exists && !local_exists ==> r is None,
{
    if etc_exists {
        Some(String::from_str("/etc/heimdall.xml"))
    } else if local_exists {
        Some(String::from_str("heimdall.xml"))
    } else {
        None
    }
}

} // verus!
