use std::collections::HashMap;

use heimdall::command::build_command;
use heimdall::ip::Ipv4;
use heimdall::jail::{do_while, dojail, unjail, Executor, Hit, JailEntry};

/// Records every command invocation; `ok` decides the reported outcome.
struct Recorder {
    calls: Vec<u32>,
    ok: bool,
}

impl Executor for Recorder {
    fn execute(&mut self, ip: &Ipv4) -> bool {
        self.calls.push(ip.key());
        self.ok
    }
}

fn ip(a: u8, b: u8, c: u8, d: u8) -> Ipv4 {
    Ipv4 { o0: a, o1: b, o2: c, o3: d }
}

fn hit(addr: Ipv4) -> Hit {
    Hit { observer_name: "ssh".to_string(), ip: addr }
}

fn sorted(entries: &Vec<JailEntry>) -> bool {
    entries.windows(2).all(|w| w[0].time <= w[1].time)
}

#[test]
fn first_jail_uses_base_duration() {
    let mut entries: Vec<JailEntry> = Vec::new();
    let mut counter: HashMap<u32, u32> = HashMap::new();
    let mut rec = Recorder { calls: Vec::new(), ok: true };
    let a = ip(1, 2, 3, 4);

    let jailed = dojail(&mut entries, &mut counter, &hit(a), 1000, 60, &mut rec);
    assert!(jailed);
    assert_eq!(rec.calls, vec![a.key()]);
    assert_eq!(counter.get(&a.key()), Some(&1));
    assert_eq!(entries.len(), 1);
    assert_eq!(entries[0].time, 1060);
    assert_eq!(entries[0].ip, a);
}

#[test]
fn refresh_does_not_rejail_or_escalate() {
    let mut entries: Vec<JailEntry> = Vec::new();
    let mut counter: HashMap<u32, u32> = HashMap::new();
    let mut rec = Recorder { calls: Vec::new(), ok: true };
    let a = ip(1, 2, 3, 4);

    dojail(&mut entries, &mut counter, &hit(a), 1000, 60, &mut rec);
    let jailed = dojail(&mut entries, &mut counter, &hit(a), 1045, 60, &mut rec);

    assert!(!jailed);
    // only the first event ran a command
    assert_eq!(rec.calls.len(), 1);
    // the deadline moved to refresh-time + base, without escalation
    assert_eq!(entries.len(), 1);
    assert_eq!(entries[0].time, 1105);
    assert_eq!(counter.get(&a.key()), Some(&1));
}

#[test]
fn release_then_second_jail_escalates_sixfold() {
    let mut entries: Vec<JailEntry> = Vec::new();
    let mut counter: HashMap<u32, u32> = HashMap::new();
    let mut rec = Recorder { calls: Vec::new(), ok: true };
    let a = ip(1, 2, 3, 4);

    dojail(&mut entries, &mut counter, &hit(a), 1000, 60, &mut rec);
    // advance the clock past the deadline and run the release sweep
    do_while(&mut entries, 1120, &mut rec);
    assert_eq!(entries.len(), 0);
    assert_eq!(rec.calls.len(), 2);

    let jailed = dojail(&mut entries, &mut counter, &hit(a), 2000, 60, &mut rec);
    assert!(jailed);
    assert_eq!(counter.get(&a.key()), Some(&2));
    assert_eq!(entries[0].time, 2000 + 60 * 6);

    // and a third jail escalates by six again
    do_while(&mut entries, 3000, &mut rec);
    dojail(&mut entries, &mut counter, &hit(a), 4000, 60, &mut rec);
    assert_eq!(counter.get(&a.key()), Some(&3));
    assert_eq!(entries[0].time, 4000 + 60 * 36);
}

#[test]
fn entries_stay_sorted_by_deadline() {
    let mut entries: Vec<JailEntry> = Vec::new();
    let mut counter: HashMap<u32, u32> = HashMap::new();
    let mut rec = Recorder { calls: Vec::new(), ok: true };

    dojail(&mut entries, &mut counter, &hit(ip(1, 1, 1, 1)), 5000, 60, &mut rec);
    dojail(&mut entries, &mut counter, &hit(ip(2, 2, 2, 2)), 1000, 60, &mut rec);
    dojail(&mut entries, &mut counter, &hit(ip(3, 3, 3, 3)), 3000, 60, &mut rec);
    assert_eq!(entries.len(), 3);
    assert!(sorted(&entries));

    // refreshing the earliest entry re-sorts it to the back
    dojail(&mut entries, &mut counter, &hit(ip(2, 2, 2, 2)), 9000, 60, &mut rec);
    assert_eq!(entries.len(), 3);
    assert!(sorted(&entries));
    assert_eq!(entries[2].ip, ip(2, 2, 2, 2));
}

#[test]
fn counter_never_decreases() {
    let mut entries: Vec<JailEntry> = Vec::new();
    let mut counter: HashMap<u32, u32> = HashMap::new();
    let mut rec = Recorder { calls: Vec::new(), ok: true };
    let a = ip(9, 9, 9, 9);

    let mut last: u32 = 0;
    for round in 0..4 {
        dojail(&mut entries, &mut counter, &hit(a), 1000 + round, 1, &mut rec);
        do_while(&mut entries, i64::MAX, &mut rec);
        let now = *counter.get(&a.key()).unwrap();
        assert!(now >= last);
        last = now;
    }
    assert_eq!(last, 4);
}

#[test]
fn failed_jail_command_keeps_entry_out() {
    let mut entries: Vec<JailEntry> = Vec::new();
    let mut counter: HashMap<u32, u32> = HashMap::new();
    let mut rec = Recorder { calls: Vec::new(), ok: false };
    let a = ip(1, 2, 3, 4);

    let jailed = dojail(&mut entries, &mut counter, &hit(a), 1000, 60, &mut rec);
    assert!(jailed);
    assert_eq!(rec.calls.len(), 1);
    // the firewall rule failed to install: the address is not tracked
    assert_eq!(entries.len(), 0);
    // but the escalation counter did move
    assert_eq!(counter.get(&a.key()), Some(&1));
}

#[test]
fn failed_unjail_leaves_entry_for_next_sweep() {
    let mut entries: Vec<JailEntry> = Vec::new();
    let mut counter: HashMap<u32, u32> = HashMap::new();
    let mut rec = Recorder { calls: Vec::new(), ok: true };
    let a = ip(1, 2, 3, 4);
    dojail(&mut entries, &mut counter, &hit(a), 1000, 60, &mut rec);

    let mut failing = Recorder { calls: Vec::new(), ok: false };
    do_while(&mut entries, 5000, &mut failing);
    assert_eq!(failing.calls.len(), 1);
    assert_eq!(entries.len(), 1);

    let removed = unjail(&mut entries, 0, &mut rec);
    assert!(removed);
    assert_eq!(entries.len(), 0);
}

#[test]
fn release_sweep_only_takes_due_entries() {
    let mut entries: Vec<JailEntry> = Vec::new();
    let mut counter: HashMap<u32, u32> = HashMap::new();
    let mut rec = Recorder { calls: Vec::new(), ok: true };

    dojail(&mut entries, &mut counter, &hit(ip(1, 1, 1, 1)), 1000, 60, &mut rec);
    dojail(&mut entries, &mut counter, &hit(ip(2, 2, 2, 2)), 5000, 60, &mut rec);
    rec.calls.clear();

    do_while(&mut entries, 2000, &mut rec);
    assert_eq!(rec.calls, vec![ip(1, 1, 1, 1).key()]);
    assert_eq!(entries.len(), 1);
    assert_eq!(entries[0].ip, ip(2, 2, 2, 2));
}

#[test]
fn command_line_substitutes_ip_and_splits() {
    let a = ip(1, 2, 3, 4);
    let (program, args) = build_command("iptables -A INPUT -s {ip} -j DROP", &a);
    assert_eq!(program, "iptables");
    assert_eq!(args, vec!["-A", "INPUT", "-s", "1.2.3.4", "-j", "DROP"]);
}

#[test]
fn command_line_without_arguments() {
    let a = ip(10, 0, 0, 1);
    let (program, args) = build_command("reload-firewall", &a);
    assert_eq!(program, "reload-firewall");
    assert!(args.is_empty());
}

#[test]
fn command_line_collapses_extra_spaces() {
    let a = ip(1, 2, 3, 4);
    let (program, args) = build_command("block  {ip}   now", &a);
    assert_eq!(program, "block");
    assert_eq!(args, vec!["1.2.3.4", "now"]);
}
