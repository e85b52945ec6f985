use ip_roam::addr::Ipv4;
use ip_roam::decode::{Address, Attr};
use ip_roam::event::{find_addr, parse_addr};
use ip_roam::zone::{zone_match, Rule};

fn ip(a: u8, b: u8, c: u8, d: u8) -> Ipv4 {
    Ipv4::from_octets(a, b, c, d)
}

fn rule(min: Ipv4, max: Ipv4, proxy_in: &str, proxy_out: &str) -> Rule {
    Rule {
        ip_min: min,
        ip_max: max,
        proxy_in: proxy_in.to_string(),
        proxy_out: proxy_out.to_string(),
    }
}

#[test]
fn rule_range_is_half_open() {
    let r = rule(ip(10, 0, 0, 0), ip(10, 0, 1, 0), "home", "vpn");
    assert!(r.has(ip(10, 0, 0, 0)));
    assert!(r.has(ip(10, 0, 0, 255)));
    assert!(!r.has(ip(10, 0, 1, 0)));
    assert!(!r.has(ip(9, 255, 255, 255)));
}

#[test]
fn disjoint_rules_match_uniquely() {
    let rules = vec![
        rule(ip(10, 0, 0, 0), ip(10, 0, 1, 0), "home", "vpn"),
        rule(ip(192, 168, 0, 0), ip(192, 168, 1, 0), "office", "vpn"),
    ];
    assert_eq!(zone_match(&rules, ip(10, 0, 0, 5)), Some(0));
    assert_eq!(zone_match(&rules, ip(192, 168, 0, 9)), Some(1));
    assert_eq!(zone_match(&rules, ip(172, 16, 0, 1)), None);
}

#[test]
fn overlapping_rules_first_declared_wins() {
    let rules = vec![
        rule(ip(10, 0, 0, 0), ip(10, 0, 0, 128), "inner", "vpn"),
        rule(ip(10, 0, 0, 0), ip(10, 0, 1, 0), "outer", "vpn"),
    ];
    // Both ranges hold the address; the first-declared rule governs.
    assert_eq!(zone_match(&rules, ip(10, 0, 0, 5)), Some(0));
    // Only the second range holds this one.
    assert_eq!(zone_match(&rules, ip(10, 0, 0, 200)), Some(1));
}

#[test]
fn no_rules_no_match() {
    assert_eq!(zone_match(&Vec::new(), ip(10, 0, 0, 5)), None);
}

fn entry(a: [u8; 4], label: &str) -> Address {
    Address::decode(&vec![
        Attr::Address(vec![a[0], a[1], a[2], a[3]]),
        Attr::Label(label.to_string()),
    ])
    .unwrap()
}

#[test]
fn parse_addr_filters_by_label() {
    let am = entry([10, 0, 0, 5], "eth0");
    assert_eq!(parse_addr(&am, &"eth0".to_string()), Some(ip(10, 0, 0, 5)));
    assert_eq!(parse_addr(&am, &"wlan0".to_string()), None);
}

#[test]
fn find_addr_takes_first_matching_label() {
    let addrs = vec![
        entry([127, 0, 0, 1], "lo"),
        entry([10, 0, 0, 5], "eth0"),
        entry([10, 0, 0, 6], "eth0"),
    ];
    let name = "eth0".to_string();
    assert_eq!(find_addr(&addrs, &name), Some(ip(10, 0, 0, 5)));
    assert_eq!(find_addr(&addrs, &"ppp0".to_string()), None);
    assert_eq!(find_addr(&Vec::new(), &name), None);
}
