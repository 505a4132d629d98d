use nexa::codes;
use nexa::status::{LinkKind, ProxyMode};
use nexa::ipc::{NodeInput, StartProxyRequest};
use nexa::manager::{
    all_domains, build_node_configs, endpoint_links, two_factor_targets, running_mode, tun_exit, start_begin, start_step, StartAction, StartEvent, StartPhase, check_preconnect, plan_start, tun_dns_ip, tun_proxy_config,
    two_factor_applies, ConnectionConfig, NodeTwoFactor, ProxyLoadBalancingStrategy,
    ProxyNodeConfig, StartError,
};

fn node(kind: &str, ticket: &str, id: &str, domains: &[&str]) -> NodeInput {
    NodeInput {
        connection_type: kind.to_string(),
        ticket: ticket.to_string(),
        endpoint_id: id.to_string(),
        domains: domains.iter().map(|d| d.to_string()).collect(),
        two_factor: None,
    }
}

fn request(nodes: Vec<NodeInput>, domains: &[&str]) -> StartProxyRequest {
    StartProxyRequest {
        nodes,
        domains: domains.iter().map(|d| d.to_string()).collect(),
        local_addr: None,
        dns_addr: None,
        upstream_dns: None,
        load_balancing: None,
        tun_name: None,
        use_tun: None,
        relay_mode: None,
        relay_url: None,
        relay_auth_token: None,
    }
}

#[test]
fn global_domains_are_merged_into_every_used_node() {
    let nodes = vec![
        node("ticket", "t1", "", &["a.com"]),
        node("endpoint", "", "", &["dropped.com"]),
        node("endpoint", "", "e2", &["b.com", "g.com"]),
    ];
    let built = build_node_configs(nodes, &vec!["g.com".to_string(), "  ".to_string(), "h.com".to_string()]);
    assert_eq!(built.len(), 2);
    assert!(matches!(&built[0].connection, ConnectionConfig::Ticket(t) if t == "t1"));
    assert_eq!(built[0].domains, vec!["a.com", "g.com", "h.com"]);
    assert!(matches!(&built[1].connection, ConnectionConfig::EndpointId(e) if e == "e2"));
    assert_eq!(built[1].domains, vec!["b.com", "g.com", "h.com"]);
    assert_eq!(all_domains(&built), vec!["a.com", "g.com", "h.com", "b.com", "g.com", "h.com"]);
}

#[test]
fn a_start_without_nodes_or_with_an_unknown_strategy_is_refused() {
    assert_eq!(plan_start(request(vec![], &["a.com"]), "198.18.0.254:53").unwrap_err().code, codes::PROXY_NO_NODES);
    let mut r = request(vec![node("ticket", "t", "", &[])], &[]);
    r.load_balancing = Some("fastest".to_string());
    let e = plan_start(r, "198.18.0.254:53").unwrap_err();
    assert_eq!(e.code, codes::PROXY_INVALID_LOAD_BALANCING);
    assert_eq!(e.detail.as_deref(), Some("Unknown load balancing strategy: fastest"));
}

#[test]
fn every_absent_setting_takes_its_default() {
    let c = plan_start(request(vec![node("ticket", "t", "", &[])], &[]), "198.18.0.254:53").unwrap();
    assert_eq!(c.local_proxy_addr, "127.0.0.1:8080");
    assert_eq!(c.dns_listen_addr, "198.18.0.254:53");
    assert_eq!(c.upstream_dns, "8.8.8.8:53");
    assert_eq!(c.load_balancing, ProxyLoadBalancingStrategy::RoundRobin);
    assert_eq!(c.tun_name, "nexa-tun");
    assert!(!c.use_tun);
    assert_eq!(c.relay_mode, "pinned");
    let t = tun_proxy_config(&c);
    assert_eq!(t.dns_ip, "198.18.0.254");
    assert_eq!(t.dns.listen_addr, "198.18.0.254:53");
    assert_eq!(tun_dns_ip("10.0.0.254"), "10.0.0.254");
    assert_eq!(ProxyLoadBalancingStrategy::from_str("random"), Ok(ProxyLoadBalancingStrategy::Random));
}

#[test]
fn the_reachability_gate_names_the_real_cause() {
    assert!(check_preconnect(2, 1, true, "x".to_string()).is_ok());
    assert!(matches!(check_preconnect(2, 0, true, "a, b".to_string()), Err(StartError::TwoFactorRequired { .. })));
    let e = check_preconnect(2, 0, false, "a, b".to_string()).unwrap_err();
    assert_eq!(e.message(), "no backend is reachable: all 2 configured node(s) failed to connect (a, b)");
    assert_eq!(e.to_app_error().code, codes::PROXY_NO_REACHABLE_BACKEND);
    let none = StartError::NoReachableBackend { total: 0, unreachable_ids: String::new() };
    assert_eq!(none.message(), "no backend is configured: the configured nodes carry no domains, so there is nothing to forward");
    let tf = StartError::TwoFactorRequired { unreachable_ids: "n1".to_string() };
    assert_eq!(tf.to_app_error().code, codes::PROXY_TWO_FACTOR_REQUIRED);
    assert_eq!(StartError::Other("boom".to_string()).to_app_error().detail.as_deref(), Some("boom"));
}

#[test]
fn only_a_non_blank_secret_enables_2fa() {
    let mut n = ProxyNodeConfig { connection: ConnectionConfig::Ticket("t".to_string()), domains: vec![], two_factor: None };
    assert!(!two_factor_applies(&n));
    n.two_factor = Some(NodeTwoFactor { client_id: "c".to_string(), secret: "  ".to_string(), algorithm: "sha1".to_string() });
    assert!(!two_factor_applies(&n));
    n.two_factor = Some(NodeTwoFactor { client_id: "".to_string(), secret: "JBSW".to_string(), algorithm: "sha1".to_string() });
    assert!(two_factor_applies(&n));
}

#[test]
fn endpoint_links_follow_configuration_order_and_skip_unresolved_nodes() {
    let cfg = |c: ConnectionConfig| ProxyNodeConfig { connection: c, domains: vec![], two_factor: None };
    let nodes = vec![
        cfg(ConnectionConfig::Ticket("ticket-a".to_string())),
        cfg(ConnectionConfig::EndpointId("garbage".to_string())),
        cfg(ConnectionConfig::EndpointId("id-c".to_string())),
    ];
    let resolved = vec![Some("id-a".to_string()), None, Some("id-c".to_string())];
    let kinds = Some(vec![
        ("id-a".to_string(), LinkKind::Relay),
        ("id-a".to_string(), LinkKind::Direct),
    ]);
    let links = endpoint_links(&nodes, &resolved, &kinds);
    assert_eq!(links.len(), 2);
    assert_eq!(links[0].connection, "ticket-a");
    assert_eq!(links[0].endpoint_id, "id-a");
    assert_eq!(links[0].link, LinkKind::Direct);
    assert_eq!(links[1].connection, "id-c");
    assert_eq!(links[1].endpoint_id, "id-c");
    assert_eq!(links[1].link, LinkKind::Unknown);
}

#[test]
fn endpoint_links_are_empty_when_nothing_runs() {
    let nodes = vec![ProxyNodeConfig {
        connection: ConnectionConfig::EndpointId("id".to_string()),
        domains: vec![],
        two_factor: None,
    }];
    assert!(endpoint_links(&nodes, &vec![Some("id".to_string())], &None).is_empty());
}

#[test]
fn two_factor_is_keyed_by_resolved_backend_and_skips_blank_secrets() {
    let tf = |id: &str, secret: &str| Some(NodeTwoFactor {
        client_id: id.to_string(),
        secret: secret.to_string(),
        algorithm: "sha256".to_string(),
    });
    let node = |t| ProxyNodeConfig { connection: ConnectionConfig::EndpointId("x".to_string()), domains: vec![], two_factor: t };
    let nodes = vec![node(tf("c1", "S1")), node(tf("c2", "   ")), node(None), node(tf("c4", "S4")), node(tf("c5", "S5"))];
    let resolved = vec![
        Some("id-1".to_string()),
        Some("id-2".to_string()),
        Some("id-3".to_string()),
        None,
        Some("id-5".to_string()),
    ];
    let targets = two_factor_targets(&nodes, &resolved);
    assert_eq!(targets.len(), 2);
    assert_eq!(targets[0].endpoint_id, "id-1");
    assert_eq!(targets[0].credentials.client_id, "c1");
    assert_eq!(targets[0].credentials.secret, "S1");
    assert_eq!(targets[1].endpoint_id, "id-5");
    assert_eq!(targets[1].credentials.algorithm, "sha256");
}

#[test]
fn a_failed_tunnel_is_reported_not_replaced_and_the_mode_resets() {
    assert_eq!(running_mode(true), ProxyMode::Tun);
    assert_eq!(running_mode(false), ProxyMode::LocalProxy);
    let (ok, mode) = tun_exit(Ok(()));
    assert!(ok.is_ok());
    assert!(mode.is_none());
    let (err, mode) = tun_exit(Err("Failed to bind DNS server on 198.18.0.254:53".to_string()));
    assert!(mode.is_none());
    match err {
        Err(StartError::Other(m)) => assert_eq!(m, "TUN proxy failed: Failed to bind DNS server on 198.18.0.254:53"),
        other => panic!("unexpected {other:?}"),
    }
    let e = tun_exit(Err("x".to_string())).0.unwrap_err().to_app_error();
    assert_eq!(e.code, codes::PROXY_START_FAILED);
}

fn probed(reachable: usize, auth: bool) -> StartEvent {
    StartEvent::Probed { total: 2, reachable, any_auth_required: auth, unreachable_ids: "a, b".to_string() }
}

#[test]
fn a_start_binds_nothing_for_forwarding_before_a_backend_answers() {
    let (mut s, a) = start_begin(true);
    assert_eq!(a, StartAction::ParseRelay);
    let mut actions = vec![a];
    for _ in 0..4 {
        let (n, a) = start_step(s, StartEvent::Done);
        s = n;
        actions.push(a);
    }
    assert_eq!(actions, vec![StartAction::ParseRelay, StartAction::BindEndpoint, StartAction::BuildGroup, StartAction::ApplyTwoFactor, StartAction::Probe]);
    assert!(s.mode.is_none());
    // Nobody reachable, and one asked for credentials: refused as missing 2FA, no mode left.
    let (refused, a) = start_step(s, probed(0, true));
    assert_eq!(a, StartAction::Finish);
    assert!(refused.mode.is_none());
    let e = refused.outcome.unwrap().unwrap_err().to_app_error();
    assert_eq!(e.code, codes::PROXY_TWO_FACTOR_REQUIRED);
}

#[test]
fn a_tunnel_start_records_its_mode_while_running_and_clears_it_after() {
    let (mut s, _) = start_begin(true);
    for _ in 0..4 {
        s = start_step(s, StartEvent::Done).0;
    }
    let (s, a) = start_step(s, probed(1, false));
    assert_eq!(a, StartAction::RunTun);
    assert_eq!(s.mode, Some(ProxyMode::Tun));
    assert_eq!(s.phase, StartPhase::RunningTun);
    // An event the phase does not wait for does not start anything again.
    let (s, a) = start_step(s, StartEvent::Done);
    assert_eq!(a, StartAction::Wait);
    let (s, a) = start_step(s, StartEvent::TunEnded(Err("device gone".to_string())));
    assert_eq!(a, StartAction::Finish);
    assert!(s.mode.is_none());
    let e = s.outcome.unwrap().unwrap_err().to_app_error();
    assert_eq!(e.code, codes::PROXY_START_FAILED);
    assert_eq!(e.detail.as_deref(), Some("TUN proxy failed: device gone"));
}

#[test]
fn a_local_proxy_start_keeps_its_mode_and_a_failed_one_does_not() {
    let (mut s, _) = start_begin(false);
    for _ in 0..4 {
        s = start_step(s, StartEvent::Done).0;
    }
    let (up, a) = start_step(s, probed(2, false));
    assert_eq!(a, StartAction::StartLocalProxy);
    let (done, _) = start_step(up, StartEvent::Done);
    assert_eq!(done.mode, Some(ProxyMode::LocalProxy));
    assert!(done.outcome.unwrap().is_ok());
    let (s, _) = start_begin(false);
    let (failed, _) = start_step(s, StartEvent::Failed("relay_mode custom needs a relay_url".to_string()));
    assert!(failed.mode.is_none());
    assert_eq!(failed.outcome.unwrap().unwrap_err().to_app_error().code, codes::PROXY_START_FAILED);
}
