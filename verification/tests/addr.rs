use heimdall::ip::{parse_ipv4_chars, Ipv4};

fn chars(s: &str) -> Vec<char> {
    s.chars().collect()
}

#[test]
fn dotted_quads_parse() {
    assert_eq!(
        parse_ipv4_chars(&chars("192.168.1.1")),
        Some(Ipv4 { o0: 192, o1: 168, o2: 1, o3: 1 })
    );
    assert_eq!(
        parse_ipv4_chars(&chars("0.0.0.0")),
        Some(Ipv4 { o0: 0, o1: 0, o2: 0, o3: 0 })
    );
    assert_eq!(
        parse_ipv4_chars(&chars("255.255.255.255")),
        Some(Ipv4 { o0: 255, o1: 255, o2: 255, o3: 255 })
    );
}

#[test]
fn malformed_addresses_do_not_parse() {
    for bad in [
        "", "1.2.3", "1.2.3.4.5", "256.1.2.3", "01.2.3.4", "1..2.3", "1.2.3.4.",
        ".1.2.3.4", "a.b.c.d", "1.2.3.-4", "fe80::1",
    ] {
        assert_eq!(parse_ipv4_chars(&chars(bad)), None, "{}", bad);
    }
}

#[test]
fn dotted_form_round_trips() {
    let a = Ipv4 { o0: 10, o1: 0, o2: 200, o3: 7 };
    let dotted = a.to_dotted();
    assert_eq!(dotted, "10.0.200.7");
    assert_eq!(parse_ipv4_chars(&chars(&dotted)), Some(a));
}

#[test]
fn key_packs_octets_most_significant_first() {
    assert_eq!(Ipv4 { o0: 1, o1: 2, o2: 3, o3: 4 }.key(), 0x01020304);
    assert_eq!(Ipv4 { o0: 255, o1: 255, o2: 255, o3: 255 }.key(), u32::MAX);
    assert_eq!(Ipv4 { o0: 0, o1: 0, o2: 0, o3: 1 }.key(), 1);
}
