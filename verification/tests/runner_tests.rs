use nexa::codes;
use nexa::ipc::StartProxyRequest;
use nexa::runner::{plan_service_start, require_loopback, require_tun_subnet, service_start_addresses, SocketAddress};

/// What `std::net::SocketAddr` makes of the addresses these tests use.
fn parsed(addr: &str) -> Result<SocketAddress, String> {
    match addr {
        "127.0.0.1:8080" => Ok(SocketAddress::V4 { ip: 0x7F00_0001, port: 8080 }),
        "[::1]:8080" => Ok(SocketAddress::V6 { loopback: true, ip_text: "::1".to_string(), socket_text: "[::1]:8080".to_string() }),
        "0.0.0.0:8080" => Ok(SocketAddress::V4 { ip: 0, port: 8080 }),
        "10.0.0.5:8080" => Ok(SocketAddress::V4 { ip: 0x0A00_0005, port: 8080 }),
        "198.18.0.254:53" => Ok(SocketAddress::V4 { ip: 0xC612_00FE, port: 53 }),
        "10.0.0.254:53" => Ok(SocketAddress::V4 { ip: 0x0A00_00FE, port: 53 }),
        "10.0.0.1:53" => Ok(SocketAddress::V4 { ip: 0x0A00_0001, port: 53 }),
        "100.100.0.254:53" => Ok(SocketAddress::V4 { ip: 0x6464_00FE, port: 53 }),
        "8.8.8.8:53" => Ok(SocketAddress::V4 { ip: 0x0808_0808, port: 53 }),
        "127.0.0.1:53" => Ok(SocketAddress::V4 { ip: 0x7F00_0001, port: 53 }),
        "10.0.1.1:53" => Ok(SocketAddress::V4 { ip: 0x0A00_0101, port: 53 }),
        "198.19.1.1:53" => Ok(SocketAddress::V4 { ip: 0xC613_0101, port: 53 }),
        "[::1]:53" => Ok(SocketAddress::V6 { loopback: true, ip_text: "::1".to_string(), socket_text: "[::1]:53".to_string() }),
        _ => Err("invalid socket address syntax".to_string()),
    }
}

fn loopback(addr: &str) -> Result<(), nexa::error::AppError> {
    require_loopback(addr, &parsed(addr), codes::SERVICE_LOCAL_ADDR_NOT_LOOPBACK)
}

fn tun_subnet(addr: &str) -> Result<(), nexa::error::AppError> {
    require_tun_subnet(addr, &parsed(addr))
}

#[test]
fn loopback_is_the_only_allowed_local_proxy_address() {
    assert!(loopback("127.0.0.1:8080").is_ok());
    assert!(loopback("[::1]:8080").is_ok());
    assert!(loopback("0.0.0.0:8080").is_err());
    assert!(loopback("10.0.0.5:8080").is_err());
    assert!(loopback("not-an-addr").is_err());
}

#[test]
fn the_dns_server_stays_inside_the_tun_network() {
    // The default block (198.18.0.0/24) and the legacy one (10.0.0.0/24) are both
    // candidates — a config saved against the old default keeps working.
    assert!(tun_subnet("198.18.0.254:53").is_ok());
    assert!(tun_subnet("10.0.0.254:53").is_ok());
    assert!(tun_subnet("10.0.0.1:53").is_ok());
    assert!(tun_subnet("100.100.0.254:53").is_ok());
    assert!(tun_subnet("8.8.8.8:53").is_err());
    assert!(tun_subnet("127.0.0.1:53").is_err());
    assert!(tun_subnet("10.0.1.1:53").is_err());
    assert!(tun_subnet("198.19.1.1:53").is_err());
    assert!(tun_subnet("[::1]:53").is_err());
}

#[test]
fn refusals_name_the_address_and_why() {
    let e = loopback("10.0.0.5:8080").unwrap_err();
    assert_eq!(e.code, codes::SERVICE_LOCAL_ADDR_NOT_LOOPBACK);
    assert_eq!(e.detail.as_deref(), Some("10.0.0.5:8080 is not loopback; the local proxy has nothing authenticating in front of it"));
    let e = loopback("not-an-addr").unwrap_err();
    assert_eq!(e.detail.as_deref(), Some("\"not-an-addr\" is not a host:port address (invalid socket address syntax)"));
    let e = tun_subnet("8.8.8.8:53").unwrap_err();
    assert_eq!(e.code, codes::SERVICE_DNS_ADDR_OUTSIDE_TUN);
    assert_eq!(
        e.detail.as_deref(),
        Some("8.8.8.8 is outside every candidate TUN block ([198.18.0.0, 198.19.0.0, 100.100.0.0, 172.26.0.0, 10.200.0.0, 10.0.0.0]), where the TUN DNS server answers")
    );
}

#[test]
fn a_service_start_is_validated_before_it_is_planned() {
    let req = || StartProxyRequest {
        nodes: vec![nexa::ipc::NodeInput {
            connection_type: "ticket".to_string(),
            ticket: "t".to_string(),
            endpoint_id: String::new(),
            domains: vec!["a.com".to_string()],
            two_factor: None,
        }],
        domains: vec![],
        local_addr: Some("0.0.0.0:8080".to_string()),
        dns_addr: None,
        upstream_dns: None,
        load_balancing: None,
        tun_name: None,
        use_tun: Some(true),
        relay_mode: None,
        relay_url: None,
        relay_auth_token: None,
    };
    let (local, dns) = service_start_addresses(&req());
    assert_eq!((local.as_str(), dns.as_str()), ("0.0.0.0:8080", "198.18.0.254:53"));
    let e = plan_service_start(req(), &parsed(&local), &parsed(&dns)).unwrap_err();
    assert_eq!(e.code, codes::SERVICE_LOCAL_ADDR_NOT_LOOPBACK);
    let mut ok = req();
    ok.local_addr = None;
    let c = plan_service_start(ok, &parsed("127.0.0.1:8080"), &parsed("198.18.0.254:53")).unwrap();
    assert!(c.use_tun);
}
