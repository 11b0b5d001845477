use heimdall::config::{get_default_config, Config, ConfigError, XmlElement};

fn el(name: &str) -> XmlElement {
    XmlElement {
        name: name.to_string(),
        attributes: Vec::new(),
        children: Vec::new(),
        text: None,
    }
}

fn text_el(name: &str, text: &str) -> XmlElement {
    XmlElement {
        name: name.to_string(),
        attributes: Vec::new(),
        children: Vec::new(),
        text: Some(text.to_string()),
    }
}

fn attr(el: &mut XmlElement, key: &str, value: &str) {
    el.attributes.push((key.to_string(), value.to_string()));
}

fn observer_el(name: &str, file: &str, minutes: &str, count: &str, patterns: &[&str]) -> XmlElement {
    let mut ob = el("observer");
    attr(&mut ob, "name", name);
    attr(&mut ob, "limit_minutes", minutes);
    attr(&mut ob, "limit_count", count);
    let mut pats = el("patterns");
    for p in patterns {
        pats.children.push(text_el("pattern", p));
    }
    ob.children.push(pats);
    ob.children.push(text_el("file", file));
    ob
}

fn valid_root() -> XmlElement {
    let mut root = el("configuration");
    root.children.push(text_el("logfile", "/var/log/heimdall.log"));
    root.children.push(text_el("command_jail", "iptables -A INPUT -s {ip} -j DROP"));
    root.children.push(text_el("command_unjail", "iptables -D INPUT -s {ip} -j DROP"));
    let mut obs = el("observers");
    attr(&mut obs, "jail_time", "60");
    obs.children.push(observer_el(
        "ssh",
        "/var/log/auth.log",
        "5",
        "3",
        &["{hh:mm:ss}.*Failed password.*from {ip}"],
    ));
    root.children.push(obs);
    root
}

#[test]
fn valid_document_parses() {
    let cfg = Config::parse(&valid_root()).unwrap();
    assert_eq!(cfg.logfile, "/var/log/heimdall.log");
    assert_eq!(cfg.command_jail, "iptables -A INPUT -s {ip} -j DROP");
    assert_eq!(cfg.command_unjail, "iptables -D INPUT -s {ip} -j DROP");
    assert_eq!(cfg.jail_time, 60);
    assert_eq!(cfg.observers.len(), 1);
    let ob = &cfg.observers[0];
    assert_eq!(ob.name, "ssh");
    assert_eq!(ob.file_path, "/var/log/auth.log");
    assert_eq!(ob.limit_minutes, 5);
    assert_eq!(ob.limit_count, 3);
    assert_eq!(ob.patterns.len(), 1);
}

#[test]
fn negative_jail_time_is_a_number() {
    let mut root = valid_root();
    root.children[3].attributes[0].1 = "-5".to_string();
    let cfg = Config::parse(&root).unwrap();
    assert_eq!(cfg.jail_time, -5);
}

#[test]
fn missing_logfile_is_reported() {
    let mut root = valid_root();
    root.children.remove(0);
    assert!(matches!(Config::parse(&root), Err(ConfigError::MissingLogfile)));
}

#[test]
fn empty_logfile_is_reported() {
    let mut root = valid_root();
    root.children[0].text = None;
    assert!(matches!(Config::parse(&root), Err(ConfigError::EmptyLogfile)));
}

#[test]
fn missing_commands_are_reported() {
    let mut root = valid_root();
    root.children.remove(1);
    assert!(matches!(Config::parse(&root), Err(ConfigError::MissingCommandJail)));
    let mut root = valid_root();
    root.children.remove(2);
    assert!(matches!(Config::parse(&root), Err(ConfigError::MissingCommandUnjail)));
}

#[test]
fn missing_observers_is_reported() {
    let mut root = valid_root();
    root.children.remove(3);
    assert!(matches!(Config::parse(&root), Err(ConfigError::MissingObservers)));
}

#[test]
fn bad_jail_time_is_reported() {
    let mut root = valid_root();
    root.children[3].attributes[0].1 = "sixty".to_string();
    assert!(matches!(Config::parse(&root), Err(ConfigError::BadJailTime)));
    let mut root = valid_root();
    root.children[3].attributes.clear();
    assert!(matches!(Config::parse(&root), Err(ConfigError::MissingJailTime)));
}

#[test]
fn observer_validation_errors_are_reported() {
    // a pattern without the {ip} placeholder
    let mut root = valid_root();
    root.children[3].children[0].children[0].children[0].text =
        Some("{hh:mm:ss} no address".to_string());
    assert!(matches!(Config::parse(&root), Err(ConfigError::MissingIpPlaceholder)));

    // a pattern expanding to an invalid regex
    let mut root = valid_root();
    root.children[3].children[0].children[0].children[0].text =
        Some("({h}{m}{ip}".to_string());
    assert!(matches!(Config::parse(&root), Err(ConfigError::InvalidRegex(_))));

    // a limit that does not fit u8
    let mut root = valid_root();
    root.children[3].children[0].attributes[1].1 = "256".to_string();
    assert!(matches!(Config::parse(&root), Err(ConfigError::BadLimitMinutes)));

    // a missing file element
    let mut root = valid_root();
    root.children[3].children[0].children.remove(1);
    assert!(matches!(Config::parse(&root), Err(ConfigError::MissingFile)));

    // a missing name attribute
    let mut root = valid_root();
    root.children[3].children[0].attributes.remove(0);
    assert!(matches!(Config::parse(&root), Err(ConfigError::MissingName)));

    // a missing limit_count attribute
    let mut root = valid_root();
    root.children[3].children[0].attributes.remove(2);
    assert!(matches!(Config::parse(&root), Err(ConfigError::MissingLimitCount)));
}

#[test]
fn empty_command_elements_are_reported() {
    let mut root = valid_root();
    root.children[1].text = None;
    assert!(matches!(Config::parse(&root), Err(ConfigError::EmptyCommandJail)));
    let mut root = valid_root();
    root.children[2].text = None;
    assert!(matches!(Config::parse(&root), Err(ConfigError::EmptyCommandUnjail)));
}

#[test]
fn more_observer_errors_are_reported() {
    // no patterns element at all
    let mut root = valid_root();
    root.children[3].children[0].children.remove(0);
    assert!(matches!(Config::parse(&root), Err(ConfigError::MissingPatterns)));

    // a file element without text
    let mut root = valid_root();
    root.children[3].children[0].children[1].text = None;
    assert!(matches!(Config::parse(&root), Err(ConfigError::EmptyFile)));

    // patterns missing the hour or minute placeholder
    let mut root = valid_root();
    root.children[3].children[0].children[0].children[0].text = Some("x {ip} x".to_string());
    assert!(matches!(Config::parse(&root), Err(ConfigError::MissingHourPlaceholder)));
    let mut root = valid_root();
    root.children[3].children[0].children[0].children[0].text = Some("{h} {ip}".to_string());
    assert!(matches!(Config::parse(&root), Err(ConfigError::MissingMinutePlaceholder)));

    // missing or malformed limits
    let mut root = valid_root();
    root.children[3].children[0].attributes.remove(1);
    assert!(matches!(Config::parse(&root), Err(ConfigError::MissingLimitMinutes)));
    let mut root = valid_root();
    root.children[3].children[0].attributes[2].1 = "lots".to_string();
    assert!(matches!(Config::parse(&root), Err(ConfigError::BadLimitCount)));
}

#[test]
fn jail_time_accepts_a_leading_plus() {
    let mut root = valid_root();
    root.children[3].attributes[0].1 = "+90".to_string();
    let cfg = Config::parse(&root).unwrap();
    assert_eq!(cfg.jail_time, 90);
}

#[test]
fn first_offending_observer_decides() {
    let mut root = valid_root();
    let good = observer_el(
        "web",
        "/var/log/nginx.log",
        "5",
        "3",
        &["{hh:mm:ss}.*error.*from {ip}"],
    );
    let mut bad = observer_el("ftp", "/var/log/ftp.log", "5", "3", &["{hh:mm:ss} {ip}"]);
    bad.children[0].children[0].text = None;
    root.children[3].children.push(good);
    root.children[3].children.push(bad);
    assert!(matches!(Config::parse(&root), Err(ConfigError::MissingPatternText)));
}

#[test]
fn default_config_prefers_the_system_path() {
    assert_eq!(get_default_config(true, true).unwrap(), "/etc/heimdall.xml");
    assert_eq!(get_default_config(true, false).unwrap(), "/etc/heimdall.xml");
    assert_eq!(get_default_config(false, true).unwrap(), "heimdall.xml");
    assert!(get_default_config(false, false).is_none());
}
