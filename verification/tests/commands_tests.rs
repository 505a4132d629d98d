use nexa::codes;
use nexa::commands::{
    after_service_start, log_dir_from, start_route, StartRoute,
    is_log_file_name, log_tail, newest_log, parse_invite, tail_offset, EndpointInvite,
    InviteTarget, InviteTotp, LogCandidate,
};

fn invite(target: InviteTarget) -> EndpointInvite {
    EndpointInvite {
        target,
        name: Some("Home".to_string()),
        domains: vec!["a.example".to_string(), "b.example".to_string()],
        relay: None,
        totp: None,
    }
}

#[test]
fn reads_a_node_id_invite() {
    let payload = parse_invite(Ok(invite(InviteTarget::NodeId("ab12".to_string())))).unwrap();
    assert_eq!(payload.kind, "endpoint");
    assert_eq!(payload.target, "ab12");
    assert_eq!(payload.name.as_deref(), Some("Home"));
    assert_eq!(payload.domains, vec!["a.example", "b.example"]);
    assert_eq!(payload.relay, None);
    assert!(payload.totp.is_none());
}

#[test]
fn reads_a_ticket_invite() {
    let mut i = invite(InviteTarget::Ticket("endpointabc".to_string()));
    i.name = None;
    i.domains = vec![];
    let payload = parse_invite(Ok(i)).unwrap();
    assert_eq!(payload.kind, "ticket");
    assert_eq!(payload.target, "endpointabc");
    assert!(payload.domains.is_empty());
}

#[test]
fn reads_the_2fa_half() {
    let mut i = invite(InviteTarget::NodeId("ab12".to_string()));
    // The grammar hands the secret over normalised to upper-case base32.
    i.totp = Some(InviteTotp {
        client_id: "client-001".to_string(),
        secret: "JBSWY3DPEHPK3PXP".to_string(),
        algorithm: "sha1".to_string(),
        issuer: "nexa".to_string(),
    });
    let payload = parse_invite(Ok(i)).unwrap();
    let totp = payload.totp.expect("the invite carries 2FA");
    assert_eq!(totp.client_id, "client-001");
    assert_eq!(totp.secret, "JBSWY3DPEHPK3PXP");
    assert_eq!(totp.algorithm, "sha1");
}

#[test]
fn reports_a_code_and_a_reason_when_the_link_is_not_an_invite() {
    let error = parse_invite(Err("unsupported scheme: https://example.com".to_string())).unwrap_err();

    assert_eq!(error.code, codes::INVITE_PARSE_FAILED);
    assert!(error.detail.is_some(), "the parser's reason travels as detail");
}

#[test]
fn the_log_page_shows_the_tail_of_the_newest_log() {
    assert_eq!(tail_offset(100), 0);
    assert_eq!(tail_offset(524288 + 7), 7);
    assert!(is_log_file_name("nexa.log.2024-05-01"));
    assert!(!is_log_file_name("other.log"));
    let c = |name: &str, is_file: bool, modified: Option<u64>| LogCandidate { name: name.to_string(), is_file, modified };
    let files = vec![
        c("nexa.log.1", true, Some(5)),
        c("nexa.log.2", true, Some(9)),
        c("nexa.log.dir", false, Some(99)),
        c("other", true, Some(50)),
        c("nexa.log.3", true, Some(9)),
    ];
    assert_eq!(newest_log(&files), Some(4));
    assert_eq!(newest_log(&vec![c("x", true, Some(1))]), None);
    let content = "a\nb\nc\r\nd";
    assert_eq!(log_tail(content, Some(2)), vec!["c", "d"]);
    assert_eq!(log_tail(content, None), vec!["a", "b", "c", "d"]);
    assert_eq!(log_tail("", Some(3)), Vec::<String>::new());
}

#[test]
fn a_tunnel_is_never_silently_replaced_by_a_local_proxy() {
    assert!(matches!(start_route(Some(true), Some(true), false), StartRoute::Refuse(e) if e.code == codes::PROXY_TUN_UNAVAILABLE));
    assert!(matches!(start_route(Some(true), Some(true), true), StartRoute::ViaService));
    assert!(matches!(start_route(None, None, false), StartRoute::InProcess));
    let failed = || Err(nexa::error::AppError::new(codes::SERVICE_UNAVAILABLE));
    assert!(matches!(after_service_start(true, failed()), Some(Err(e)) if e.code == codes::SERVICE_UNAVAILABLE));
    assert!(after_service_start(false, failed()).is_none());
    assert!(matches!(after_service_start(false, Ok(())), Some(Ok(()))));
}

#[test]
fn logs_go_under_appdata_or_the_temp_directory() {
    assert_eq!(
        log_dir_from(nexa::host::Platform::Windows, Some(r"C:\Users\a\AppData\Roaming"), r"C:\Temp"),
        r"C:\Users\a\AppData\Roaming\nexa\logs"
    );
    assert_eq!(log_dir_from(nexa::host::Platform::Linux, None, "/tmp"), "/tmp/nexa");
    assert_eq!(log_dir_from(nexa::host::Platform::Linux, None, "/tmp/"), "/tmp/nexa");
}
