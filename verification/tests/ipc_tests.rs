use nexa::codes;
use nexa::ipc::{
    auth_outcome, finish_line, line_chunk, links_reply, node_id_reply, read_failure_text,
    session_step, status_reply, ChunkStep, ClientLine, IpcClient, IpcMessage, IpcResponse,
    SessionAction, MAX_IPC_LINE,
};
use nexa::status::{EndpointLink, LinkKind, ProxyMode, ProxyModeKind};

#[test]
fn nothing_is_served_before_the_token() {
    assert!(matches!(session_step(false, ClientLine::Message(IpcMessage::GetStatus)), SessionAction::ReplyAndClose(IpcResponse::Error(e)) if e.code == codes::SERVICE_UNAUTHORIZED));
    assert!(matches!(session_step(false, ClientLine::Message(IpcMessage::Auth("t".to_string()))), SessionAction::CheckToken(t) if t == "t"));
    assert!(matches!(session_step(false, ClientLine::Malformed("eof".to_string())), SessionAction::Close));
    assert!(matches!(session_step(false, ClientLine::Unreadable("too long".to_string())), SessionAction::Close));
    assert!(matches!(session_step(true, ClientLine::Malformed("bad json".to_string())), SessionAction::Reply(IpcResponse::Error(e)) if e.code == codes::SERVICE_MALFORMED_REQUEST && e.detail.as_deref() == Some("bad json")));
    assert!(matches!(session_step(true, ClientLine::Message(IpcMessage::StopProxy)), SessionAction::Serve(IpcMessage::StopProxy)));
    assert!(matches!(session_step(true, ClientLine::Message(IpcMessage::Auth("again".to_string()))), SessionAction::Reply(IpcResponse::Accepted)));
    assert!(matches!(session_step(true, ClientLine::Closed), SessionAction::Close));
}

#[test]
fn a_token_is_accepted_only_when_published() {
    let known = vec!["a".to_string(), "b".to_string()];
    let (action, ok) = auth_outcome(&known, "b");
    assert!(ok && matches!(action, SessionAction::Reply(IpcResponse::Accepted)));
    let (action, ok) = auth_outcome(&known, "c");
    assert!(!ok && matches!(action, SessionAction::ReplyAndClose(IpcResponse::Error(e)) if e.code == codes::SERVICE_UNAUTHORIZED));
    let (action, ok) = auth_outcome(&[], "c");
    assert!(!ok);
    match action {
        SessionAction::ReplyAndClose(IpcResponse::Error(e)) => {
            assert_eq!(e.code, codes::SERVICE_IPC_TOKEN);
            assert_eq!(e.detail.as_deref(), Some("no desktop session has published an IPC token"));
        },
        other => panic!("{other:?}"),
    }
}

#[test]
fn one_line_is_returned_without_its_terminator() {
    let data = b"{\"GetStatus\":null}\r\nrest";
    match line_chunk(0, data) {
        ChunkStep::Take { end, complete } => {
            assert_eq!(end, 20);
            assert!(complete);
            let mut buf = data[..end].to_vec();
            finish_line(&mut buf);
            assert_eq!(buf, b"{\"GetStatus\":null}".to_vec());
        },
        other => panic!("{other:?}"),
    }
}

#[test]
fn a_truncated_line_is_handed_back_at_end_of_stream() {
    let data = b"{\"GetStatus\":null}";
    assert_eq!(line_chunk(0, data), ChunkStep::Take { end: data.len(), complete: false });
    let mut buf = data.to_vec();
    finish_line(&mut buf);
    assert_eq!(buf, data.to_vec());
}

#[test]
fn an_oversized_ipc_line_is_refused_without_buffering_it() {
    let chunk = vec![b'x'; 100];
    assert_eq!(line_chunk(MAX_IPC_LINE - 50, &chunk), ChunkStep::TooLong(MAX_IPC_LINE + 50));
    assert_eq!(line_chunk(MAX_IPC_LINE - 100, &chunk), ChunkStep::Take { end: 100, complete: false });
    assert_eq!(
        read_failure_text(Some(65636), ""),
        "IPC line exceeded the 65536 byte limit after 65636 bytes"
    );
    assert_eq!(read_failure_text(None, "reset"), "IPC read failed: reset");
}

#[test]
fn the_service_answers_status_node_and_links() {
    assert!(matches!(status_reply(false, None), IpcResponse::Status(s) if !s.running && s.mode == ProxyModeKind::Stopped));
    assert!(matches!(status_reply(true, None), IpcResponse::Status(s) if !s.running && s.mode == ProxyModeKind::Starting));
    assert!(matches!(status_reply(true, Some(ProxyMode::Tun)), IpcResponse::Status(s) if s.running && s.mode == ProxyModeKind::Tun));
    assert!(matches!(node_id_reply(false, None), IpcResponse::Error(e) if e.code == codes::PROXY_NOT_RUNNING));
    assert!(matches!(node_id_reply(true, None), IpcResponse::Error(e) if e.code == codes::PROXY_NODE_ID_UNAVAILABLE));
    assert!(matches!(node_id_reply(true, Some("n1".to_string())), IpcResponse::NodeId(id) if id == "n1"));
    assert!(matches!(links_reply(None), IpcResponse::EndpointLinks(v) if v.is_empty()));
    let link = EndpointLink { connection: "node1ticket".to_string(), endpoint_id: "0123456789abcdef".to_string(), link: LinkKind::Relay };
    assert!(matches!(links_reply(Some(vec![link])), IpcResponse::EndpointLinks(v) if v.len() == 1 && v[0].link == LinkKind::Relay));
}

#[test]
fn the_client_reads_each_answer_for_what_it_asked() {
    assert!(IpcClient::expect_ok(IpcResponse::Accepted, "Ok").is_ok());
    let wrong = IpcClient::expect_ok(IpcResponse::NodeId("x".to_string()), "NodeId(\"x\")").unwrap_err();
    assert_eq!(wrong.code, codes::SERVICE_MALFORMED_RESPONSE);
    assert_eq!(wrong.detail.as_deref(), Some("unexpected response: NodeId(\"x\")"));
    let err = IpcClient::expect_status(IpcResponse::Error(nexa::error::AppError::new(codes::PROXY_NOT_RUNNING)), "").unwrap_err();
    assert_eq!(err.code, codes::PROXY_NOT_RUNNING);
    assert_eq!(IpcClient::expect_node_id(IpcResponse::NodeId("abc".to_string()), "").unwrap(), "abc");
    assert!(IpcClient::expect_links(IpcResponse::EndpointLinks(vec![]), "").unwrap().is_empty());
    assert_eq!(IpcClient::no_answer().code, codes::SERVICE_IO_ERROR);
}
