use nexa::status::{proxy_status, ProxyMode, ProxyModeKind, ProxyStatus};

#[test]
fn only_a_live_mode_is_running() {
    assert_eq!(ProxyStatus::starting(), ProxyStatus { running: false, mode: ProxyModeKind::Starting });
    assert_eq!(ProxyStatus::stopped(), ProxyStatus { running: false, mode: ProxyModeKind::Stopped });
    assert_eq!(ProxyStatus::running_with(ProxyMode::LocalProxy), ProxyStatus { running: true, mode: ProxyModeKind::LocalProxy });
    assert_eq!(proxy_status(false, Some(ProxyMode::Tun)), ProxyStatus::stopped());
    assert_eq!(proxy_status(true, None), ProxyStatus::starting());
    assert_eq!(proxy_status(true, Some(ProxyMode::Tun)).mode, ProxyModeKind::Tun);
    assert_eq!(ProxyModeKind::from(ProxyMode::Tun), ProxyModeKind::Tun);
}
