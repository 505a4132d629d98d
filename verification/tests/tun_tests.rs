use nexa::ipv4::{format_ipv4, parse_ipv4_str};
use nexa::tun::{device_config, TUN_MTU, dns_bind_failure, is_in_candidate_block, retarget, target_arch_dir, tun_base_candidates, virtual_ip_range, wintun_candidates, TunBlock};

#[test]
fn retarget_moves_candidate_block_addresses_into_the_block_in_use() {
    let mut block = TunBlock::new();
    block.set_tun_base(tun_base_candidates()[0]);
    let base = block.tun_base();
    let moved = format_ipv4(base | 0x0000_00FE);

    // Pick a candidate block that is not the one in use (always exists: there are six).
    let other = tun_base_candidates()
        .into_iter()
        .find(|candidate| *candidate != base)
        .expect("more than one candidate block");
    let source = format_ipv4(other | 0x0000_00FE);

    assert_eq!(retarget(&format!("{source}:53"), base), format!("{moved}:53"));
    assert_eq!(retarget(&source, base), moved);
}

/// A user-chosen address outside every candidate block is none of our business.
#[test]
fn retarget_leaves_foreign_addresses_alone() {
    let base = tun_base_candidates()[0];
    assert_eq!(retarget("192.168.1.10:53", base), "192.168.1.10:53");
    assert_eq!(retarget("[::1]:53", base), "[::1]:53");
    assert_eq!(retarget("not-an-address", base), "not-an-address");
}

#[test]
fn the_configured_block_replaces_the_fallback_read_before_it() {
    let mut block = TunBlock::new();
    // Read early (as the TUN address is), before the interface is up: the fallback.
    assert_eq!(format_ipv4(block.tun_base()), "198.18.0.0");
    // Configuring found 198.18.0.0/24 unusable and settled on 198.19.0.0/24.
    block.set_tun_base(0xC613_0000);
    assert_eq!(format_ipv4(block.tun_base()), "198.19.0.0");
    assert_eq!(block.tun_ip(), "198.19.0.254");
    assert_eq!(block.tun_network(), "198.19.0.0/24");
}

#[test]
fn the_latest_record_is_reported_and_reads_do_not_move_it() {
    let mut later = TunBlock::new();
    later.set_tun_base(0x6464_0000);
    assert_eq!(later.tun_network(), "100.100.0.0/24");
    later.set_tun_base(0x0A00_0000);
    assert_eq!(later.tun_ip(), "10.0.0.254");
    assert_eq!(later.tun_network(), "10.0.0.0/24");
}

#[test]
fn addresses_read_and_render_the_same() {
    assert_eq!(parse_ipv4_str("10.200.0.254"), Some(0x0AC8_00FE));
    assert_eq!(parse_ipv4_str("010.0.0.1"), None);
    assert_eq!(parse_ipv4_str("256.0.0.1"), None);
    assert_eq!(parse_ipv4_str("1.2.3"), None);
    assert_eq!(format_ipv4(0x0AC8_00FE), "10.200.0.254");
    assert!(is_in_candidate_block(0xAC1A_0007));
    assert!(!is_in_candidate_block(0xAC1B_0007));
}

#[test]
fn wintun_is_looked_for_where_the_build_puts_it() {
    assert_eq!(target_arch_dir("x86_64"), "amd64");
    assert_eq!(target_arch_dir("aarch64"), "arm64");
    assert_eq!(target_arch_dir("riscv64"), "amd64");
    assert_eq!(
        wintun_candidates(None, Some(r"C:\nexa"), "x86_64", Some(r"D:\w.dll")),
        vec![
            r"C:\nexa\wintun.dll",
            r"C:\nexa\wintun\bin\amd64\wintun.dll",
            r"C:\nexa\resources\wintun\bin\amd64\wintun.dll",
            r"D:\w.dll",
        ]
    );
    assert_eq!(wintun_candidates(Some("B"), None, "x86", None), vec!["B"]);
}

#[test]
fn the_pool_leaves_the_device_address_alone() {
    assert_eq!(virtual_ip_range(0xC612_0000), (0xC612_0002, 0xC612_00FD));
    assert_eq!(
        dns_bind_failure("198.18.0.254:53", "in use", "nexa-tun", "198.18.0.254"),
        "Failed to bind DNS server on 198.18.0.254:53: in use. Ensure the TUN interface nexa-tun is configured with 198.18.0.254 and port 53 is free."
    );
}

#[test]
fn the_device_is_made_with_the_shared_mtu() {
    assert_eq!(TUN_MTU, 1400);
    let linux = device_config(nexa::host::Platform::Linux, "nexa-tun", None).unwrap();
    assert_eq!((linux.name.as_deref(), linux.mtu, linux.wintun_file), (Some("nexa-tun"), 1400, None));
    let mac = device_config(nexa::host::Platform::MacOs, "nexa-tun", None).unwrap();
    assert!(mac.name.is_none());
    let win = device_config(nexa::host::Platform::Windows, "nexa-tun", Some(r"C:\nexa\wintun.dll".to_string())).unwrap();
    assert_eq!(win.wintun_file.as_deref(), Some(r"C:\nexa\wintun.dll"));
    assert!(device_config(nexa::host::Platform::Windows, "nexa-tun", None).unwrap_err().starts_with("wintun.dll not found"));
}
