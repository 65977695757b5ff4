use husk::ip::{format_ip, ipv4, parse_ip};
use husk::net::{
    add_port_forward, add_vm_nat, cleanup_nat, command_line, command_outcome, command_result,
    create_tap, delete_rules, delete_tap, find_rules_by_comment, find_rules_by_comment_prefix,
    forward_tag_of, generate_mac, init_nat, list_rules, remove_all_port_forwards, remove_network,
    remove_port_forward, remove_vm_nat, run_cmd, validate_tap_name, CommandRun, IpAllocator,
    NetError, PlannedCommand,
};

fn lines(plan: &[PlannedCommand]) -> Vec<String> {
    plan.iter().map(|c| command_line(&c.command)).collect()
}

#[test]
fn ip_allocator_sequential() {
    let mut alloc = IpAllocator::new(ipv4(172, 20, 0, 0), 16);

    let (host1, guest1) = alloc.allocate().unwrap();
    assert_eq!(host1, ipv4(172, 20, 0, 1));
    assert_eq!(guest1, ipv4(172, 20, 0, 2));

    let (host2, guest2) = alloc.allocate().unwrap();
    assert_eq!(host2, ipv4(172, 20, 0, 5));
    assert_eq!(guest2, ipv4(172, 20, 0, 6));
}

#[test]
fn ip_allocator_exhaustion() {
    let mut alloc = IpAllocator::new(ipv4(10, 0, 0, 0), 30);
    assert!(alloc.allocate().is_ok());
    assert!(matches!(alloc.allocate(), Err(NetError::PoolExhausted)));
}

#[test]
fn ip_allocator_release_and_reuse() {
    let mut alloc = IpAllocator::new(ipv4(10, 0, 0, 0), 30);

    let (host, _guest) = alloc.allocate().unwrap();
    assert_eq!(host, ipv4(10, 0, 0, 1));
    assert!(alloc.allocate().is_err());

    alloc.release(host).unwrap();
    let (host2, guest2) = alloc.allocate().unwrap();
    assert_eq!(host2, ipv4(10, 0, 0, 1));
    assert_eq!(guest2, ipv4(10, 0, 0, 2));
}

#[test]
fn ip_allocator_release_reuses_lowest_index() {
    let mut alloc = IpAllocator::new(ipv4(172, 20, 0, 0), 16);

    let (host1, _) = alloc.allocate().unwrap();
    let (_host2, _) = alloc.allocate().unwrap();
    let (host3, _) = alloc.allocate().unwrap();

    alloc.release(host3).unwrap();
    alloc.release(host1).unwrap();

    let (reused, _) = alloc.allocate().unwrap();
    assert_eq!(reused, host1);
    let (reused2, _) = alloc.allocate().unwrap();
    assert_eq!(reused2, host3);
    let (fresh, _) = alloc.allocate().unwrap();
    assert_eq!(fresh, ipv4(172, 20, 0, 13));
}

#[test]
fn ip_allocator_release_not_allocated() {
    let mut alloc = IpAllocator::new(ipv4(172, 20, 0, 0), 16);
    assert!(matches!(
        alloc.release(ipv4(172, 20, 0, 1)),
        Err(NetError::NotAllocated(_))
    ));
}

#[test]
fn ip_allocator_release_wrong_range() {
    let mut alloc = IpAllocator::new(ipv4(172, 20, 0, 0), 16);
    alloc.allocate().unwrap();
    assert!(matches!(
        alloc.release(ipv4(10, 0, 0, 1)),
        Err(NetError::NotAllocated(_))
    ));
}

#[test]
fn ip_allocator_double_release() {
    let mut alloc = IpAllocator::new(ipv4(172, 20, 0, 0), 16);
    let (host, _) = alloc.allocate().unwrap();

    alloc.release(host).unwrap();
    assert!(matches!(alloc.release(host), Err(NetError::NotAllocated(_))));
}

#[test]
fn ip_allocator_release_misaligned_ip() {
    let mut alloc = IpAllocator::new(ipv4(172, 20, 0, 0), 16);
    alloc.allocate().unwrap();
    assert!(matches!(
        alloc.release(ipv4(172, 20, 0, 2)),
        Err(NetError::NotAllocated(_))
    ));
}

#[test]
fn mac_generation() {
    assert_eq!(generate_mac(0), "AA:FC:00:00:00:00");
    assert_eq!(generate_mac(1), "AA:FC:00:00:00:01");
    assert_eq!(generate_mac(256), "AA:FC:00:00:01:00");
}

#[test]
fn mac_generation_high_values() {
    assert_eq!(generate_mac(0x00FF_FFFF), "AA:FC:00:FF:FF:FF");
    assert_eq!(generate_mac(0x0100_0000), "AA:FC:00:00:00:00");
}

#[test]
fn tap_name_valid() {
    assert!(validate_tap_name("husk0").is_ok());
    assert!(validate_tap_name("tap-test_1").is_ok());
    assert!(validate_tap_name("a").is_ok());
    assert!(validate_tap_name("abcdefghijklmno").is_ok());
}

#[test]
fn tap_name_empty() {
    assert!(matches!(
        validate_tap_name(""),
        Err(NetError::InvalidTapName { .. })
    ));
}

#[test]
fn tap_name_too_long() {
    assert!(matches!(
        validate_tap_name("abcdefghijklmnop"),
        Err(NetError::InvalidTapName { .. })
    ));
}

#[test]
fn tap_name_invalid_chars() {
    assert!(matches!(
        validate_tap_name("tap.0"),
        Err(NetError::InvalidTapName { .. })
    ));
    assert!(matches!(
        validate_tap_name("tap/bad"),
        Err(NetError::InvalidTapName { .. })
    ));
    assert!(matches!(
        validate_tap_name("tap name"),
        Err(NetError::InvalidTapName { .. })
    ));
}

#[test]
fn find_rules_empty_json() {
    assert!(find_rules_by_comment("{}", "husk:tap0").is_empty());
}

#[test]
fn find_rules_invalid_json() {
    assert!(find_rules_by_comment("not json", "husk:tap0").is_empty());
}

#[test]
fn find_rules_no_matching_comment() {
    let json = r#"{"nftables": [
            {"rule": {"chain": "forward", "handle": 5, "comment": "husk:other"}}
        ]}"#;
    assert!(find_rules_by_comment(json, "husk:tap0").is_empty());
}

#[test]
fn find_rules_matching_comments() {
    let json = r#"{"nftables": [
            {"metainfo": {"version": "1.0.9"}},
            {"table": {"family": "ip", "name": "husk", "handle": 1}},
            {"chain": {"family": "ip", "table": "husk", "name": "postrouting"}},
            {"rule": {"chain": "postrouting", "handle": 3, "comment": "husk:husk5"}},
            {"rule": {"chain": "forward", "handle": 4, "comment": "husk:husk5"}},
            {"rule": {"chain": "forward", "handle": 5, "comment": "husk:husk5"}},
            {"rule": {"chain": "forward", "handle": 6, "comment": "husk:other"}}
        ]}"#;

    let rules = find_rules_by_comment(json, "husk:husk5");
    assert_eq!(rules.len(), 3);
    assert_eq!(rules[0], ("postrouting".to_string(), 3));
    assert_eq!(rules[1], ("forward".to_string(), 4));
    assert_eq!(rules[2], ("forward".to_string(), 5));
}

#[test]
fn find_rules_skips_invalid_entries() {
    let json = r#"{"nftables": [
            {"rule": {"chain": "", "handle": 5, "comment": "husk:tap0"}},
            {"rule": {"chain": "forward", "handle": 0, "comment": "husk:tap0"}},
            {"rule": {"chain": "forward", "comment": "husk:tap0"}},
            {"rule": {"chain": "forward", "handle": 7, "comment": "husk:tap0"}}
        ]}"#;

    let rules = find_rules_by_comment(json, "husk:tap0");
    assert_eq!(rules.len(), 1);
    assert_eq!(rules[0], ("forward".to_string(), 7));
}

#[test]
fn find_rules_empty_nftables_array() {
    let json = r#"{"nftables": []}"#;
    assert!(find_rules_by_comment(json, "husk:tap0").is_empty());
}

#[test]
fn find_rules_by_prefix_matches() {
    let json = r#"{"nftables": [
            {"rule": {"chain": "prerouting", "handle": 10, "comment": "husk-pf:tap0:8080"}},
            {"rule": {"chain": "forward", "handle": 11, "comment": "husk-pf:tap0:8080"}},
            {"rule": {"chain": "prerouting", "handle": 12, "comment": "husk-pf:tap0:9090"}},
            {"rule": {"chain": "forward", "handle": 13, "comment": "husk-pf:tap1:8080"}}
        ]}"#;

    let rules = find_rules_by_comment_prefix(json, "husk-pf:tap0:");
    assert_eq!(rules.len(), 3);
    assert_eq!(rules[0], ("prerouting".to_string(), 10));
    assert_eq!(rules[1], ("forward".to_string(), 11));
    assert_eq!(rules[2], ("prerouting".to_string(), 12));
}

#[test]
fn find_rules_by_prefix_no_match() {
    let json = r#"{"nftables": [
            {"rule": {"chain": "forward", "handle": 5, "comment": "husk-pf:tap1:8080"}}
        ]}"#;
    assert!(find_rules_by_comment_prefix(json, "husk-pf:tap0:").is_empty());
}

#[test]
fn find_rules_by_prefix_empty_json() {
    assert!(find_rules_by_comment_prefix("{}", "husk-pf:tap0:").is_empty());
}

#[test]
fn find_rules_by_prefix_invalid_json() {
    assert!(find_rules_by_comment_prefix("not json", "husk-pf:tap0:").is_empty());
}

#[test]
fn find_rules_by_prefix_skips_invalid_entries() {
    let json = r#"{"nftables": [
            {"rule": {"chain": "", "handle": 5, "comment": "husk-pf:tap0:80"}},
            {"rule": {"chain": "forward", "handle": 0, "comment": "husk-pf:tap0:80"}},
            {"rule": {"chain": "forward", "comment": "husk-pf:tap0:80"}},
            {"rule": {"chain": "forward", "handle": 7, "comment": "husk-pf:tap0:80"}}
        ]}"#;

    let rules = find_rules_by_comment_prefix(json, "husk-pf:tap0:");
    assert_eq!(rules.len(), 1);
    assert_eq!(rules[0], ("forward".to_string(), 7));
}

#[test]
fn port_forward_comment_tag_format() {
    let tap_name = "husk5";
    let host_port: u16 = 8080;
    let comment = forward_tag_of(tap_name, host_port);
    assert_eq!(comment, "husk-pf:husk5:8080");

    let prefix = format!("husk-pf:{tap_name}:");
    assert!(comment.starts_with(&prefix));
}

#[test]
fn addresses_are_written_and_read() {
    assert_eq!(format_ip(ipv4(172, 20, 0, 1)), "172.20.0.1");
    assert_eq!(parse_ip("172.20.0.1"), Some(ipv4(172, 20, 0, 1)));
    assert_eq!(parse_ip("0.0.0.0"), Some(0));
    assert_eq!(parse_ip("255.255.255.255"), Some(u32::MAX));
    assert_eq!(parse_ip("256.0.0.1"), None);
    assert_eq!(parse_ip("1.2.3"), None);
    assert_eq!(parse_ip("1.2.3.4.5"), None);
    assert_eq!(parse_ip("01.2.3.4"), None);
    assert_eq!(parse_ip("+1.2.3.4"), None);
    assert_eq!(parse_ip(""), None);
}

#[test]
fn tap_is_made_with_its_address() {
    let plan = create_tap("husk3", ipv4(172, 20, 0, 1)).unwrap();
    assert_eq!(
        lines(&plan),
        [
            "ip tuntap add dev husk3 mode tap",
            "ip addr add 172.20.0.1/30 dev husk3",
            "ip link set dev husk3 up",
        ]
    );
    assert!(create_tap("bad name", 1).is_err());
    assert_eq!(lines(&delete_tap("husk3")), ["ip tuntap del dev husk3 mode tap"]);
}

#[test]
fn forward_is_added_and_removed_by_its_tag() {
    let plan = lines(&add_port_forward(8080, ipv4(172, 20, 0, 2), 80, "husk3"));
    assert_eq!(plan.len(), 2);
    assert!(plan[0].contains("dport 8080"));
    assert!(plan[0].contains("172.20.0.2:80"));
    for line in &plan {
        assert!(line.contains("\"husk-pf:husk3:8080\""), "{line}");
    }
    let listing = r#"{"nftables": [
            {"rule": {"chain": "prerouting", "handle": 10, "comment": "husk-pf:husk3:8080"}},
            {"rule": {"chain": "forward", "handle": 11, "comment": "husk-pf:husk3:808"}},
            {"rule": {"chain": "forward", "handle": 12, "comment": "husk:husk3"}}
        ]}"#;
    let removal = lines(&remove_port_forward(8080, "husk3", Some(listing)));
    assert_eq!(removal.len(), 1);
    assert!(removal[0].contains("prerouting handle 10"), "{}", removal[0]);
    assert_eq!(remove_all_port_forwards("husk3", Some(listing)).len(), 2);
    assert_eq!(remove_vm_nat("husk3", Some(listing)).len(), 3);
    assert!(remove_vm_nat("husk3", None).is_empty());
}

#[test]
fn network_is_removed_with_its_port_forwards() {
    let listing = r#"{"nftables": [
            {"rule": {"chain": "postrouting", "handle": 4, "comment": "husk:husk3"}},
            {"rule": {"chain": "prerouting", "handle": 5, "comment": "husk-pf:husk3:8080"}},
            {"rule": {"chain": "forward", "handle": 6, "comment": "husk-pf:husk31:8081"}},
            {"rule": {"chain": "postrouting", "handle": 7, "comment": "husk:husk31"}}
        ]}"#;
    assert_eq!(
        lines(&remove_network("husk3", Some(listing))),
        [
            "nft delete rule ip husk prerouting handle 5",
            "nft delete rule ip husk postrouting handle 4",
            "ip tuntap del dev husk3 mode tap",
        ]
    );
    assert_eq!(lines(&remove_network("husk3", None)), ["ip tuntap del dev husk3 mode tap"]);
}

#[test]
fn nat_rules_carry_the_tag_of_the_vm() {
    for line in lines(&add_vm_nat("husk3", ipv4(172, 20, 0, 1), "eth0")) {
        assert!(line.contains("\"husk:husk3\""), "{line}");
    }
    assert!(!init_nat().is_empty());
    assert_eq!(cleanup_nat().len(), 1);
    assert_eq!(delete_rules(&[]).len(), 0);
}

#[test]
fn failed_command_is_an_error_where_it_is_required() {
    let listing = list_rules();
    assert!(command_line(&listing.command).starts_with("nft -j"));
    let mut c = create_tap("husk3", 1).unwrap().remove(0);
    c.required = true;
    let failed = || CommandRun::Ended {
        success: false,
        stdout: vec![],
        stderr: b"no permission".to_vec(),
    };
    let done = || CommandRun::Ended { success: true, stdout: b"{}\xff".to_vec(), stderr: vec![] };
    assert!(command_outcome(&c, done()).is_none());
    match command_outcome(&c, failed()) {
        Some(NetError::CommandFailed { cmd, message }) => {
            assert_eq!(cmd, "ip tuntap add dev husk3 mode tap");
            assert_eq!(message, "no permission");
        }
        _ => panic!("expected a failed command"),
    }
    assert!(matches!(
        command_outcome(&c, CommandRun::NotRun("not found".to_string())),
        Some(NetError::Io(m)) if m == "not found"
    ));
    c.required = false;
    assert!(command_outcome(&c, failed()).is_none());
    assert!(command_outcome(&c, CommandRun::NotRun("not found".to_string())).is_none());

    assert_eq!(run_cmd(&c.command, done()).unwrap(), "{}\u{fffd}");
    assert!(run_cmd(&c.command, failed()).is_err());
    let out = command_result(&c.command, true, "out".to_string(), "warning".to_string());
    assert_eq!(out.unwrap(), "out");
}

#[test]
fn network_errors_in_words() {
    assert_eq!(NetError::PoolExhausted.message(), "no addresses available in pool");
    assert!(NetError::NotAllocated(ipv4(10, 0, 0, 1)).message().contains("10.0.0.1"));
}
