//! Status payloads shared by the command surface and the service IPC channel: one definition,
//! reported identically by both backends.
use vstd::prelude::*;

verus! {

/// How a running proxy forwards traffic.
#[derive(Debug, Clone, Copy, PartialEq, Eq, Structural)]
pub enum ProxyMode {
    Tun,
    LocalProxy,
}

/// How the proxy is currently forwarding traffic, as the UI shows it on one status line:
/// the two live modes, or the absence of one.
#[derive(Debug, Clone, Copy, PartialEq, Eq, Structural)]
pub enum ProxyModeKind {
    Tun,
    LocalProxy,
    Starting,
    Stopped,
}

/// The kind a live mode is reported as.
pub open spec fn kind_of(mode: ProxyMode) -> ProxyModeKind {
    match mode {
        ProxyMode::Tun => ProxyModeKind::Tun,
        ProxyMode::LocalProxy => ProxyModeKind::LocalProxy,
    }
}

impl From<ProxyMode> for ProxyModeKind {
    fn from(mode: ProxyMode) -> (k: Self) {
        match mode {
            ProxyMode::Tun => ProxyModeKind::Tun,
            ProxyMode::LocalProxy => ProxyModeKind::LocalProxy,
        }
    }
}

impl vstd::std_specs::convert::FromSpecImpl<ProxyMode> for ProxyModeKind {
    open spec fn obeys_from_spec() -> bool {
        true
    }

    open spec fn from_spec(v: ProxyMode) -> Self {
        kind_of(v)
    }
}

/// The answer to a status request.
#[derive(Debug, Clone, Copy, PartialEq, Eq, Structural)]
pub struct ProxyStatus {
    /// Whether traffic is actually being forwarded.
    pub running: bool,
    pub mode: ProxyModeKind,
}

impl ProxyStatus {
    /// The manager exists and is bringing the tunnel up: nothing is forwarded yet, so this is
    /// not running.
    pub fn starting() -> (s: Self)
        ensures
            s == (ProxyStatus { running: false, mode: ProxyModeKind::Starting }),
    {
        ProxyStatus { running: false, mode: ProxyModeKind::Starting }
    }

    /// No manager at all: never started, or stopped.
    pub fn stopped() -> (s: Self)
        ensures
            s == (ProxyStatus { running: false, mode: ProxyModeKind::Stopped }),
    {
        ProxyStatus { running: false, mode: ProxyModeKind::Stopped }
    }

    /// The manager has reached a live mode.
    pub fn running_with(mode: ProxyMode) -> (s: Self)
        ensures
            s == (ProxyStatus { running: true, mode: kind_of(mode) }),
    {
        ProxyStatus { running: true, mode: ProxyModeKind::from(mode) }
    }
}

/// The status a backend reports: no registered manager is stopped, a registered manager
/// without a mode yet is starting, and one with a mode runs in it.
pub open spec fn spec_status(registered: bool, mode: Option<ProxyMode>) -> ProxyStatus {
    if !registered {
        ProxyStatus { running: false, mode: ProxyModeKind::Stopped }
    } else {
        match mode {
            Some(m) => ProxyStatus { running: true, mode: kind_of(m) },
            None => ProxyStatus { running: false, mode: ProxyModeKind::Starting },
        }
    }
}

/// The status of a backend that has (`registered`) or has not a proxy manager, whose current
/// mode is `mode`.
pub fn proxy_status(registered: bool, mode: Option<ProxyMode>) -> (s: ProxyStatus)
    ensures
        s == spec_status(registered, mode),
{
    if !registered {
        ProxyStatus::stopped()
    } else {
        match mode {
            Some(m) => ProxyStatus::running_with(m),
            None => ProxyStatus::starting(),
        }
    }
}

/// A status claims `running` exactly when a registered manager has reached a live mode, and
/// then names that mode; every other state is reported as not running.
pub proof fn law_running_means_live_mode(registered: bool, mode: Option<ProxyMode>)
    ensures
        spec_status(registered, mode).running <==> (registered && mode is Some),
        spec_status(registered, mode).running ==> spec_status(registered, mode).mode == kind_of(
            mode->0,
        ),
        !registered ==> spec_status(registered, mode).mode == ProxyModeKind::Stopped,
{
}

/// How a node currently reaches its backend.
#[derive(Debug, Clone, Copy, PartialEq, Eq, Structural)]
pub enum LinkKind {
    Direct,
    Relay,
    /// The backend has no selected path yet.
    Unknown,
}

/// How one configured node reaches its backend.
#[derive(Debug, Clone)]
pub struct EndpointLink {
    /// The ticket or endpoint ID exactly as the node was configured.
    pub connection: String,
    /// The backend's endpoint ID.
    pub endpoint_id: String,
    pub link: LinkKind,
}

} // verus!
