use nexa::host::Platform;
use nexa::ipv4::format_ipv4;
use nexa::tun::TunBlock;
use nexa::routing::{
    add_routes, adapter_index_by_friendly_name, assign_commands, command_failure,
    netsh_set_address, remove_routes, route_added, unassign_command,
    parse_ifconfig_addresses, parse_ip_addr_addresses, tokens_of,
    block_address, block_is_taken, configure_interface, configure_start, fake_ip_claimed,
    interface_field_name, tun_block_collides, AdapterInfo, ConfigureEvent, ConfigureStep,
    UnicastAddress,
};

const A_198_18_0_1: u32 = 0xC612_0001;
const A_10_0_0_83: u32 = 0x0A00_0053;

#[test]
fn a_fake_ip_pool_claims_both_of_its_blocks() {
    let foreign = [A_198_18_0_1, A_10_0_0_83];
    assert!(fake_ip_claimed(&foreign));
    assert!(block_is_taken(0xC612_0000, &foreign));
    assert!(block_is_taken(0xC613_0000, &foreign));
    assert!(!block_is_taken(0x6464_0000, &foreign));
    // An address inside a block takes it, whichever block it is.
    assert!(block_is_taken(0x0A00_0000, &foreign));
    assert!(!block_is_taken(0x0AC8_0000, &foreign));
    assert!(!fake_ip_claimed(&[A_10_0_0_83]));
}

#[test]
fn the_unix_walk_skips_taken_blocks_and_keeps_the_first_bindable_one() {
    let foreign = [A_198_18_0_1];
    let l = Platform::Linux;
    let mut tun = TunBlock::new();
    // The fallback is read before the interface is up.
    assert_eq!(format_ipv4(tun.tun_base()), "198.18.0.0");
    let first = configure_start(l, &foreign);
    assert_eq!(first, ConfigureStep::Assign { index: 2, attempt: 1 });
    assert_eq!(block_address(2), 0x6464_00FE);
    let probe = configure_interface(l, &foreign, &mut tun, first, ConfigureEvent::Assigned(true));
    assert_eq!(probe, ConfigureStep::Probe { index: 2, attempt: 1 });
    let remove = configure_interface(l, &foreign, &mut tun, probe, ConfigureEvent::Bindable(false));
    assert_eq!(remove, ConfigureStep::Remove { index: 2 });
    let next = configure_interface(l, &foreign, &mut tun, remove, ConfigureEvent::Removed);
    assert_eq!(next, ConfigureStep::Assign { index: 3, attempt: 1 });
    let refused = configure_interface(l, &foreign, &mut tun, next, ConfigureEvent::Assigned(false));
    assert_eq!(refused, ConfigureStep::Assign { index: 4, attempt: 1 });
    let probe = configure_interface(l, &foreign, &mut tun, refused, ConfigureEvent::Assigned(true));
    assert_eq!(format_ipv4(tun.tun_base()), "198.18.0.0", "nothing is recorded before a block is kept");
    assert_eq!(configure_interface(l, &foreign, &mut tun, probe, ConfigureEvent::Bindable(true)), ConfigureStep::Done { index: 4 });
    // The block kept is the block reported from now on.
    assert_eq!(tun.tun_ip(), "10.200.0.254");
    let last = configure_interface(l, &foreign, &mut tun, ConfigureStep::Remove { index: 5 }, ConfigureEvent::Removed);
    assert_eq!(last, ConfigureStep::GiveUp);
    assert_eq!(tun.tun_ip(), "10.200.0.254", "giving up records nothing");
}

#[test]
fn windows_checks_collisions_retries_and_falls_back_to_netsh() {
    let w = Platform::Windows;
    let mut tun = TunBlock::new();
    let first = configure_start(w, &[]);
    assert_eq!(first, ConfigureStep::CheckCollision { index: 0 });
    assert_eq!(configure_interface(w, &[], &mut tun, first, ConfigureEvent::Collision(Some(true))), ConfigureStep::CheckCollision { index: 1 });
    let a1 = configure_interface(w, &[], &mut tun, first, ConfigureEvent::Collision(None));
    assert_eq!(a1, ConfigureStep::Assign { index: 0, attempt: 1 });
    let a2 = configure_interface(w, &[], &mut tun, a1, ConfigureEvent::Assigned(false));
    let a3 = configure_interface(w, &[], &mut tun, a2, ConfigureEvent::Assigned(false));
    assert_eq!(a3, ConfigureStep::Assign { index: 0, attempt: 3 });
    let netsh = configure_interface(w, &[], &mut tun, a3, ConfigureEvent::Assigned(false));
    assert_eq!(netsh, ConfigureStep::AssignWithNetsh { index: 0 });
    assert_eq!(configure_interface(w, &[], &mut tun, netsh, ConfigureEvent::Assigned(false)), ConfigureStep::Remove { index: 0 });
    let mut p = configure_interface(w, &[], &mut tun, netsh, ConfigureEvent::Assigned(true));
    for attempt in 1..20 {
        assert_eq!(p, ConfigureStep::Probe { index: 0, attempt });
        p = configure_interface(w, &[], &mut tun, p, ConfigureEvent::Bindable(false));
    }
    assert_eq!(p, ConfigureStep::Probe { index: 0, attempt: 20 });
    assert_eq!(configure_interface(w, &[], &mut tun, p, ConfigureEvent::Bindable(false)), ConfigureStep::Remove { index: 0 });
    // An event that does not belong to the step changes nothing.
    assert_eq!(configure_interface(w, &[], &mut tun, p, ConfigureEvent::Removed), p);
}

#[test]
fn a_block_collides_with_an_overlapping_adapter_that_is_up() {
    let lan = AdapterInfo {
        name: "Ethernet".to_string(),
        index: 4,
        up: true,
        unicast: vec![UnicastAddress { addr: 0x0A00_0053, prefix: 24 }],
    };
    let wide = AdapterInfo {
        name: "VPN".to_string(),
        index: 9,
        up: true,
        unicast: vec![UnicastAddress { addr: 0x0A01_0203, prefix: 8 }],
    };
    let down = AdapterInfo { name: "Wi-Fi".to_string(), up: false, ..lan.clone() };
    let tun = AdapterInfo { name: "nexa-tun".to_string(), ..lan.clone() };
    assert!(tun_block_collides(0x0A00_0000, "nexa-tun", &[lan.clone()]));
    assert!(!tun_block_collides(0x0AC8_0000, "nexa-tun", &[lan.clone()]));
    assert!(tun_block_collides(0x0AC8_0000, "nexa-tun", &[wide]));
    assert!(!tun_block_collides(0x0A00_0000, "nexa-tun", &[down, tun]));
    let host = AdapterInfo { name: "h".to_string(), index: 2, up: true, unicast: vec![UnicastAddress { addr: 0x0A00_0001, prefix: 0 }] };
    assert!(!tun_block_collides(0x0A00_0000, "nexa-tun", &[host]));
}

#[test]
fn an_interface_field_drops_its_peer_and_colon() {
    assert_eq!(interface_field_name(Some("eth0@if12:")).as_deref(), Some("eth0"));
    assert_eq!(interface_field_name(Some("nexa-tun:")).as_deref(), Some("nexa-tun"));
    assert_eq!(interface_field_name(Some("lo")).as_deref(), Some("lo"));
    assert_eq!(interface_field_name(None), None);
}

/// The conflict the candidate-block check exists for: a fake-IP VPN (Clash/mihomo) holds
/// 198.18.0.1/30 on its tunnel while our default candidate block is 198.18.0.0/24.
#[test]
fn routing_a_foreign_address_inside_a_candidate_block_is_collected() {
    let addr = |s: &str| nexa::ipv4::parse_ipv4_str(s).unwrap();

    let text = "\
lo0: flags=8049<LOOPBACK,RUNNING,MULTICAST> mtu 16384
\tinet 127.0.0.1 netmask 0xff000000
en0: flags=8863<UP,BROADCAST,SMART,RUNNING,SIMPLEX,MULTICAST> mtu 1500
\tinet 10.0.0.83 netmask 0xffffff00 broadcast 10.0.0.255
\tinet6 fe80::1%en0 prefixlen 64 scopeid 0x4
utun8: flags=8051<UP,POINTOPOINT,RUNNING,MULTICAST> mtu 9000
\tinet 198.18.0.1 --> 198.18.0.1 netmask 0xfffffffc
\tinet6 fe80::c62:9049:5746:8c61%utun8 prefixlen 64 scopeid 0x17
nexa-tun: flags=8051<UP,POINTOPOINT,RUNNING,MULTICAST> mtu 1400
\tinet 198.18.0.254 netmask 0xffffff00
";
    let foreign = parse_ifconfig_addresses(text, "nexa-tun");
    assert!(foreign.contains(&addr("198.18.0.1")));
    assert!(foreign.contains(&addr("10.0.0.83")));
    // Our own interface is excluded, and inet6 lines are not addresses here.
    assert!(!foreign.contains(&addr("198.18.0.254")));

    // `ip -o -4 addr show`: the interface and its address share one line, and the record is
    // continued with a trailing backslash.
    let oneline = "1: lo    inet 127.0.0.1/8 scope host lo\\       valid_lft forever preferred_lft forever
2: enp3s0    inet 10.0.0.83/24 brd 10.0.0.255 scope global enp3s0\\       valid_lft forever preferred_lft forever
9: tun0    inet 198.18.0.1/30 scope global tun0\\       valid_lft forever preferred_lft forever
10: nexa-tun    inet 198.18.0.254/24 scope global nexa-tun\\       valid_lft forever preferred_lft forever
";
    // Plain `ip addr show`, plus the trailing colon older iproute2 keeps even under `-o`:
    // an unindented header names the interface, indented lines carry the addresses.
    let multiline = "1: lo: <LOOPBACK,UP,LOWER_UP> mtu 65536
    inet 127.0.0.1/8 scope host lo
2: enp3s0: <BROADCAST,MULTICAST,UP,LOWER_UP> mtu 1500
    inet 10.0.0.83/24 brd 10.0.0.255 scope global enp3s0
9: tun0: <POINTOPOINT,MULTICAST,NOARP,UP,LOWER_UP> mtu 9000
    inet 198.18.0.1/30 scope global tun0
10: nexa-tun: <POINTOPOINT,MULTICAST,NOARP,UP,LOWER_UP> mtu 1400
    inet 198.18.0.254/24 scope global nexa-tun
";
    for text in [oneline, multiline] {
        let foreign = parse_ip_addr_addresses(text, "nexa-tun");
        assert!(
            foreign.contains(&addr("198.18.0.1")),
            "the conflicting foreign address was not collected: {foreign:?}"
        );
        assert!(
            foreign.contains(&addr("10.0.0.83")),
            "an unrelated LAN address was not collected: {foreign:?}"
        );
        assert!(
            !foreign.contains(&addr("198.18.0.254")),
            "our own interface must be excluded: {foreign:?}"
        );
    }
}

#[test]
fn words_are_split_at_any_whitespace() {
    let words: Vec<String> = tokens_of(&" a\tbb  c \n".chars().collect::<Vec<char>>())
        .into_iter()
        .map(|w| w.into_iter().collect())
        .collect();
    assert_eq!(words, vec!["a", "bb", "c"]);
}

#[test]
fn adapters_are_found_by_their_friendly_name() {
    let a = |name: &str, index: u32| AdapterInfo { name: name.to_string(), index, up: true, unicast: vec![] };
    let adapters = vec![a("Ethernet", 4), a("nexa-tun", 17), a("nexa-tun", 18)];
    assert_eq!(adapter_index_by_friendly_name(&adapters, "nexa-tun"), Ok(17));
    assert_eq!(
        adapter_index_by_friendly_name(&adapters, "wg0"),
        Err("no adapter with friendly name \"wg0\" was found".to_string())
    );
}

#[test]
fn routes_and_addresses_are_set_with_the_platform_tools() {
    let w = |v: Vec<String>| v.join(" ");
    assert_eq!(w(add_routes(Platform::Linux, "nexa-tun", "198.18.0.0/24").unwrap()), "ip route replace 198.18.0.0/24 dev nexa-tun");
    assert_eq!(
        w(add_routes(Platform::MacOs, "utun4", "198.18.0.0/24").unwrap()),
        "route -n add -net 198.18.0.0 -netmask 255.255.255.0 -interface utun4"
    );
    assert!(add_routes(Platform::Windows, "nexa-tun", "198.18.0.0/24").is_none());
    assert_eq!(w(remove_routes(Platform::Linux, "nexa-tun", "198.18.0.0/24").unwrap()), "ip route del 198.18.0.0/24 dev nexa-tun");
    let cmds: Vec<String> = assign_commands(Platform::Linux, "nexa-tun", 0xC612_00FE).into_iter().map(w).collect();
    assert_eq!(cmds, vec!["ip addr replace 198.18.0.254/24 dev nexa-tun", "ip link set dev nexa-tun up"]);
    let cmds: Vec<String> = assign_commands(Platform::MacOs, "utun4", 0xC612_00FE).into_iter().map(w).collect();
    assert_eq!(cmds, vec!["ifconfig utun4 inet 198.18.0.254 255.255.255.0", "ifconfig utun4 up"]);
    assert_eq!(w(unassign_command(Platform::MacOs, "utun4", 0xC612_00FE).unwrap()), "ifconfig utun4 inet 198.18.0.254 remove");
    assert_eq!(
        w(netsh_set_address("nexa-tun", 0x0A00_00FE)),
        "interface ip set address name=nexa-tun static 10.0.0.254 255.255.255.0"
    );
    assert_eq!(command_failure("ip addr replace", " RTNETLINK answers: File exists\n"), "ip addr replace failed: RTNETLINK answers: File exists");
    let out = |success: bool, stderr: &str| nexa::elevate::CommandOutput {
        success,
        code: None,
        stdout: String::new(),
        stderr: stderr.to_string(),
        status: String::new(),
    };
    assert!(route_added(Platform::MacOs, &out(false, "route: writing to routing socket: File exists")).is_ok());
    assert_eq!(route_added(Platform::Linux, &out(false, "nope\n")), Err("ip route replace failed: nope".to_string()));
    assert!(route_added(Platform::Linux, &out(true, "")).is_ok());
}
