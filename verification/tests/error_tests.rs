use nexa::codes;
use nexa::error::AppError;

#[test]
fn empty_detail_is_dropped() {
    assert_eq!(AppError::with_detail(codes::SERVICE_FAILED, "").detail, None);
    assert_eq!(
        AppError::with_detail(codes::SERVICE_FAILED, "boom").detail,
        Some("boom".to_string())
    );
}

#[test]
fn a_cause_is_carried_as_the_detail() {
    let e = AppError::cause(codes::SERVICE_IPC_TOKEN, "permission denied");
    assert_eq!(e.code, "service.ipc_token");
    assert_eq!(e.detail.as_deref(), Some("permission denied"));
    assert_eq!(AppError::new(codes::PROXY_NO_NODES).detail, None);
    assert_eq!(AppError::new(codes::PROXY_NO_NODES).code, "proxy.no_nodes");
}
