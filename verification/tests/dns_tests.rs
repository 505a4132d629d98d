use nexa::dns::{
    build_dns_response, build_empty_dns_response, decide_dns, domain_matches, fallback_upstreams,
    hijack_reply, parse_dns_query, should_proxy_domain, upstream_list, DnsDecision, DnsParseError,
    forward_start, forward_step, ForwardAction, ForwardEvent, ForwardStep,
};

/// A query for `name` (labels as given) of type `qtype`, transaction id 0x1234.
fn query(labels: &[&[u8]], qtype: u16) -> Vec<u8> {
    let mut q = vec![0x12, 0x34, 0x01, 0x00, 0x00, 0x01, 0, 0, 0, 0, 0, 0];
    for l in labels {
        q.push(l.len() as u8);
        q.extend_from_slice(l);
    }
    q.push(0);
    q.extend_from_slice(&qtype.to_be_bytes());
    q.extend_from_slice(&[0x00, 0x01]);
    q
}

#[test]
fn a_query_reads_as_its_id_name_type_and_question() {
    let data = query(&[b"www", b"example", b"com"], 1);
    let q = parse_dns_query(&data).unwrap();
    assert_eq!(q.id, 0x1234);
    assert_eq!(q.domain, "www.example.com");
    assert_eq!(q.qtype, 1);
    assert_eq!(q.question_section, data[12..].to_vec());
}

#[test]
fn every_malformed_query_is_refused_for_its_own_reason() {
    assert_eq!(parse_dns_query(&[0u8; 11]).unwrap_err(), DnsParseError::TooShort);
    let mut no_question = query(&[b"a"], 1);
    no_question[5] = 0;
    assert_eq!(parse_dns_query(&no_question).unwrap_err(), DnsParseError::NoQuestion);
    let full = query(&[b"abc"], 1);
    assert_eq!(parse_dns_query(&full[..14]).unwrap_err(), DnsParseError::LabelOutOfBounds);
    assert_eq!(parse_dns_query(&full[..16]).unwrap_err(), DnsParseError::Truncated);
    assert_eq!(parse_dns_query(&full[..19]).unwrap_err(), DnsParseError::TypeTruncated);
    let bad = query(&[&[0xff, 0xfe]], 1);
    assert_eq!(parse_dns_query(&bad).unwrap_err(), DnsParseError::InvalidLabel);
}

#[test]
fn the_root_name_is_empty() {
    let q = parse_dns_query(&query(&[], 28)).unwrap();
    assert_eq!(q.domain, "");
    assert_eq!(q.qtype, 28);
}

#[test]
fn a_hijacked_a_query_is_answered_with_the_virtual_address() {
    let data = query(&[b"fn", b"example", b"com"], 1);
    let q = parse_dns_query(&data).unwrap();
    let reply = build_dns_response(&data, &q, 0xC612_0005);
    let question = &data[12..];
    assert_eq!(&reply[..12], &[0x12, 0x34, 0x81, 0x80, 0, 1, 0, 1, 0, 0, 0, 0]);
    assert_eq!(&reply[12..12 + question.len()], question);
    assert_eq!(
        &reply[12 + question.len()..],
        &[0xC0, 0x0C, 0, 1, 0, 1, 0, 0, 0, 60, 0, 4, 198, 18, 0, 5]
    );
    // The reply still reads as the query it answers.
    let back = parse_dns_query(&reply).unwrap();
    assert_eq!((back.id, back.domain.as_str(), back.qtype), (q.id, q.domain.as_str(), q.qtype));
    assert_eq!(back.question_section, q.question_section);
}

#[test]
fn other_record_types_get_an_empty_answer() {
    let data = query(&[b"example", b"com"], 28);
    let q = parse_dns_query(&data).unwrap();
    let empty = build_empty_dns_response(&q);
    assert_eq!(&empty[..12], &[0x12, 0x34, 0x81, 0x80, 0, 1, 0, 0, 0, 0, 0, 0]);
    assert_eq!(&empty[12..], &data[12..]);
    assert_eq!(hijack_reply(&data, &q, 1), empty);
    let a = parse_dns_query(&query(&[b"example", b"com"], 1)).unwrap();
    assert_eq!(hijack_reply(&data, &a, 0x0A00_00FE).len(), 12 + a.question_section.len() + 16);
}

#[test]
fn domains_match_by_suffix_and_case_insensitively() {
    let domains = vec!["example.com".to_string(), "*.Corp.Example".to_string(), ".svc.local".to_string()];
    assert!(should_proxy_domain("example.com", &domains));
    assert!(should_proxy_domain("fn.example.com", &domains));
    assert!(should_proxy_domain("WWW.EXAMPLE.COM", &domains));
    assert!(!should_proxy_domain("badexample.com", &domains));
    assert!(should_proxy_domain("a.corp.example", &domains));
    assert!(should_proxy_domain("corp.example", &domains));
    assert!(should_proxy_domain("db.svc.local", &domains));
    assert!(!should_proxy_domain("example.org", &domains));
    assert!(!should_proxy_domain("example.com", &[]));
    assert!(domain_matches("a.b.c", "b.c"));
    assert!(!domain_matches("ab.c", "b.c"));
}

#[test]
fn packets_are_dropped_hijacked_or_forwarded() {
    let domains = vec!["example.com".to_string()];
    assert!(matches!(decide_dns(&[1, 2, 3], &domains), DnsDecision::Ignore));
    assert!(matches!(decide_dns(&query(&[b"x", b"example", b"com"], 1), &domains), DnsDecision::Hijack(q) if q.domain == "x.example.com"));
    assert!(matches!(decide_dns(&query(&[b"example", b"org"], 1), &domains), DnsDecision::Forward));
}

#[test]
fn upstreams_are_tried_configured_first_without_repeats() {
    assert_eq!(fallback_upstreams(), vec!["223.5.5.5:53", "114.114.114.114:53", "1.1.1.1:53"]);
    assert_eq!(upstream_list("8.8.8.8:53"), vec!["8.8.8.8:53", "223.5.5.5:53", "114.114.114.114:53", "1.1.1.1:53"]);
    assert_eq!(upstream_list("1.1.1.1:53"), vec!["1.1.1.1:53", "223.5.5.5:53", "114.114.114.114:53"]);
}

fn v4(ip: u32, port: u16) -> nexa::runner::SocketAddress {
    nexa::runner::SocketAddress::V4 { ip, port }
}

#[test]
fn forwarding_tries_upstreams_in_order_and_relays_only_the_queried_reply() {
    let ups = upstream_list("8.8.8.8:53");
    let (s, a) = forward_start(&ups);
    assert!(matches!(&a, ForwardAction::Query(u) if u == "8.8.8.8:53"));
    // The configured upstream is unreachable: the first fallback is next.
    let (s, a) = forward_step(&ups, s, ForwardEvent::NotSent);
    assert!(matches!(&a, ForwardAction::Query(u) if u == "223.5.5.5:53"));
    let (s, a) = forward_step(&ups, s, ForwardEvent::Sent(v4(0xDF05_0505, 53)));
    assert!(matches!(a, ForwardAction::Listen));
    // A datagram from elsewhere is never relayed; the next upstream is tried instead.
    let (s, a) = forward_step(&ups, s, ForwardEvent::Received(v4(0x0A00_0001, 53)));
    assert!(matches!(&a, ForwardAction::Query(u) if u == "114.114.114.114:53"));
    let (s, _) = forward_step(&ups, s, ForwardEvent::Sent(v4(0x7272_7272, 53)));
    let (s, a) = forward_step(&ups, s, ForwardEvent::Received(v4(0x7272_7272, 53)));
    assert!(matches!(a, ForwardAction::RelayToClient));
    let (s, a) = forward_step(&ups, s, ForwardEvent::Received(v4(0x7272_7272, 53)));
    assert!(matches!(a, ForwardAction::Stop), "relayed at most once");
    assert!(matches!(s, ForwardStep::Relayed));
    // Every upstream timing out ends the forwarding.
    let (mut s, _) = forward_start(&ups);
    for _ in 0..ups.len() {
        s = forward_step(&ups, s, ForwardEvent::NotSent).0;
    }
    assert!(matches!(s, ForwardStep::Exhausted));
}
