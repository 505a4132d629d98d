use nexa::dns_config::{
    cleanup_stale_hijack, network_services, resolv_conf, restore_dns_script, restore_system_dns,
    fallback_verified, set_dns_script, set_system_dns, DnsConfigAction, DnsConfigEvent,
};
use nexa::host::Platform;

#[test]
fn the_windows_scripts_quote_the_adapter_name() {
    let s = set_dns_script("nexa's tun", "198.18.0.254");
    assert!(s.starts_with("$tun = 'nexa''s tun';Get-NetAdapter"));
    assert!(s.contains("-ServerAddresses '198.18.0.254' -ErrorAction Stop"));
    assert!(s.contains("-ServerAddresses '::1' -ErrorAction Stop"));
    assert!(s.ends_with("($_.ServerAddresses -join ',') }"));
    let r = restore_dns_script("nexa-tun");
    assert!(r.starts_with("$tun = 'nexa-tun';"));
    assert!(r.ends_with("}};Clear-DnsClientCache"));
}

#[test]
fn stale_hijacks_are_looked_for_on_windows_only() {
    let script = cleanup_stale_hijack(Platform::Windows).unwrap();
    assert!(script.starts_with("$stale = @('198.18.0.254','198.19.0.254','100.100.0.254','172.26.0.254','10.200.0.254','10.0.0.254');"));
    assert!(script.ends_with("Write-Output ('stale adapters reset: ' + $reset.Count)"));
    assert!(cleanup_stale_hijack(Platform::Linux).is_none());
}

#[test]
fn network_services_skip_the_header_disabled_and_blank_lines() {
    let out = "An asterisk (*) denotes that a network service is disabled.\nWi-Fi\n*Bluetooth PAN\n  \nThunderbolt Bridge \r\n";
    assert_eq!(network_services(out), vec!["An asterisk (*) denotes that a network service is disabled.", "Wi-Fi", "Thunderbolt Bridge"]);
    assert_eq!(resolv_conf("198.18.0.254"), "nameserver 198.18.0.254\n");
}

#[test]
fn windows_verifies_the_switch_and_falls_back_to_netsh() {
    let w = Platform::Windows;
    assert!(matches!(set_system_dns(w, "nexa-tun", "198.18.0.254", DnsConfigEvent::Begin), DnsConfigAction::RunScript(_)));
    assert!(matches!(set_system_dns(w, "nexa-tun", "198.18.0.254", DnsConfigEvent::ScriptDone(Some("Ethernet [2]: 198.18.0.254".to_string()))), DnsConfigAction::Done(Ok(()))));
    assert!(matches!(set_system_dns(w, "nexa-tun", "198.18.0.254", DnsConfigEvent::ScriptDone(Some("Ethernet [2]: 8.8.8.8".to_string()))), DnsConfigAction::NetshSet));
    assert!(matches!(set_system_dns(w, "nexa-tun", "198.18.0.254", DnsConfigEvent::ScriptDone(None)), DnsConfigAction::NetshSet));
    assert!(matches!(
        set_system_dns(w, "nexa-tun", "198.18.0.254", DnsConfigEvent::FallbackListed(Some("8.8.8.8\n198.18.0.254,1.1.1.1".to_string()))),
        DnsConfigAction::Done(Ok(()))
    ));
    assert!(matches!(
        set_system_dns(w, "nexa-tun", "198.18.0.254", DnsConfigEvent::FallbackListed(None)),
        DnsConfigAction::Done(Err(_))
    ));
    match set_system_dns(w, "nexa-tun", "198.18.0.254", DnsConfigEvent::FallbackListed(Some("8.8.8.8".to_string()))) {
        DnsConfigAction::Done(Err(e)) => assert_eq!(e, "Failed to point system DNS at the TUN resolver 198.18.0.254 — DNS hijack is NOT in effect"),
        other => panic!("an unverified fallback fails: {other:?}"),
    }
}

#[test]
fn linux_falls_back_to_resolv_conf_and_macos_sets_every_service() {
    let l = Platform::Linux;
    assert!(matches!(set_system_dns(l, "tun0", "10.0.0.254", DnsConfigEvent::Begin), DnsConfigAction::Resolvectl));
    assert!(matches!(set_system_dns(l, "tun0", "10.0.0.254", DnsConfigEvent::ResolvectlDone(false)), DnsConfigAction::WriteResolvConf(c) if c == "nameserver 10.0.0.254\n"));
    match set_system_dns(l, "tun0", "10.0.0.254", DnsConfigEvent::ResolvConfWritten(Some("read-only".to_string()))) {
        DnsConfigAction::Done(Err(e)) => assert_eq!(e, "Failed to write /etc/resolv.conf: read-only"),
        other => panic!("{other:?}"),
    }
    let m = Platform::MacOs;
    match set_system_dns(m, "utun3", "198.18.0.254", DnsConfigEvent::ServicesListed(Ok("header\nWi-Fi\n".to_string()))) {
        DnsConfigAction::SetServices(v, server) => {
            assert_eq!(v, vec!["header", "Wi-Fi"]);
            assert_eq!(server, "198.18.0.254");
        },
        other => panic!("{other:?}"),
    }
    match restore_system_dns(m, "utun3", DnsConfigEvent::ServicesListed(Ok("Wi-Fi\n".to_string()))) {
        DnsConfigAction::SetServices(_, server) => assert_eq!(server, "Empty"),
        other => panic!("{other:?}"),
    }
    assert!(matches!(restore_system_dns(m, "utun3", DnsConfigEvent::ServicesListed(Err("gone".to_string()))), DnsConfigAction::Done(Ok(()))));
    assert!(matches!(restore_system_dns(Platform::Windows, "t", DnsConfigEvent::ScriptDone(None)), DnsConfigAction::NetshReset));
    assert!(matches!(set_system_dns(Platform::Other, "t", "1.2.3.4", DnsConfigEvent::Begin), DnsConfigAction::Done(Ok(()))));
}

#[test]
fn an_event_out_of_order_never_reads_as_success() {
    assert!(fallback_verified(Some("10.0.0.1,198.18.0.254"), "198.18.0.254"));
    assert!(!fallback_verified(None, "198.18.0.254"));
    assert!(matches!(
        set_system_dns(Platform::Windows, "nexa-tun", "198.18.0.254", DnsConfigEvent::ResolvectlDone(true)),
        DnsConfigAction::Done(Err(_))
    ));
    assert!(matches!(set_system_dns(Platform::Linux, "tun0", "10.0.0.254", DnsConfigEvent::Finished), DnsConfigAction::Done(Err(_))));
    assert!(matches!(set_system_dns(Platform::MacOs, "utun3", "198.18.0.254", DnsConfigEvent::Finished), DnsConfigAction::Done(Ok(()))));
    assert!(matches!(set_system_dns(Platform::Other, "x", "198.18.0.254", DnsConfigEvent::Begin), DnsConfigAction::Done(Ok(()))));
}
