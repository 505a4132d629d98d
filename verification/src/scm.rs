//! How `nexa-service` answers the Windows service control manager: the status it reports in
//! each state and what it does with each control it is sent.
//!
//! The control handler runs on a thread of its own and only flags a stop; the service loop
//! owns the tunnel and brings it down.
use vstd::prelude::*;

verus! {

/// How long the control manager is asked to wait for a shutdown before it decides the service
/// hung, in seconds.
pub const STOP_WAIT_HINT_SECS: u64 = 30;

/// The states the service reports.
#[derive(Debug, Clone, Copy, PartialEq, Eq, Structural)]
pub enum ScmState {
    Running,
    StopPending,
    Stopped,
}

/// The controls the service accepts while in a state.
#[derive(Debug, Clone, Copy, PartialEq, Eq, Structural)]
pub struct AcceptedControls {
    pub stop: bool,
    pub shutdown: bool,
    pub preshutdown: bool,
}

/// What is reported to the control manager for a state.
#[derive(Debug, Clone, Copy, PartialEq, Eq, Structural)]
pub struct StatusReport {
    pub state: ScmState,
    pub accepted: AcceptedControls,
    /// The time granted for the transition, in seconds; 0 outside a pending state.
    pub wait_hint_secs: u64,
}

/// The report for `state`: a stopping or stopped service accepts no further control (another
/// stop arriving mid-shutdown would only race the teardown) and only a stopping one asks for
/// time; a running one accepts stop, shutdown and preshutdown, so machine shutdown reaches the
/// teardown that restores system DNS.
pub open spec fn spec_status_report(state: ScmState) -> StatusReport {
    let none = AcceptedControls { stop: false, shutdown: false, preshutdown: false };
    match state {
        ScmState::Running => StatusReport {
            state,
            accepted: AcceptedControls { stop: true, shutdown: true, preshutdown: true },
            wait_hint_secs: 0,
        },
        ScmState::StopPending => StatusReport { state, accepted: none, wait_hint_secs: STOP_WAIT_HINT_SECS },
        ScmState::Stopped => StatusReport { state, accepted: none, wait_hint_secs: 0 },
    }
}

/// The status reported for `state`.
pub fn status_report(state: ScmState) -> (r: StatusReport)
    ensures
        r == spec_status_report(state),
{
    let none = AcceptedControls { stop: false, shutdown: false, preshutdown: false };
    match state {
        ScmState::Running => StatusReport {
            state,
            accepted: AcceptedControls { stop: true, shutdown: true, preshutdown: true },
            wait_hint_secs: 0,
        },
        ScmState::StopPending => StatusReport { state, accepted: none, wait_hint_secs: STOP_WAIT_HINT_SECS },
        ScmState::Stopped => StatusReport { state, accepted: none, wait_hint_secs: 0 },
    }
}

/// A control sent by the control manager.
#[derive(Debug, Clone, Copy, PartialEq, Eq, Structural)]
pub enum ScmControl {
    Stop,
    Shutdown,
    Preshutdown,
    Interrogate,
    /// Any other control.
    Other,
}

/// The answer given to a control.
#[derive(Debug, Clone, Copy, PartialEq, Eq, Structural)]
pub enum ControlReply {
    NoError,
    NotImplemented,
}

/// What the handler does with a control: whether it flags a stop, and its answer.
pub open spec fn spec_handle_control(c: ScmControl) -> (bool, ControlReply) {
    match c {
        ScmControl::Stop | ScmControl::Shutdown | ScmControl::Preshutdown => (true, ControlReply::NoError),
        ScmControl::Interrogate => (false, ControlReply::NoError),
        ScmControl::Other => (false, ControlReply::NotImplemented),
    }
}

/// Handles a control: stop, shutdown and preshutdown flag a stop (preshutdown is the early
/// warning, and the teardown is the slow work it exists for); interrogate is answered; any
/// other control is not implemented.
pub fn handle_control(c: ScmControl) -> (r: (bool, ControlReply))
    ensures
        r == spec_handle_control(c),
{
    match c {
        ScmControl::Stop | ScmControl::Shutdown | ScmControl::Preshutdown => (true, ControlReply::NoError),
        ScmControl::Interrogate => (false, ControlReply::NoError),
        ScmControl::Other => (false, ControlReply::NotImplemented),
    }
}

/// Whether `a` lists `c`.
pub open spec fn accepts(a: AcceptedControls, c: ScmControl) -> bool {
    match c {
        ScmControl::Stop => a.stop,
        ScmControl::Shutdown => a.shutdown,
        ScmControl::Preshutdown => a.preshutdown,
        _ => false,
    }
}

/// The handler flags a stop for exactly the controls a running service says it accepts, and a
/// service on its way down accepts none of them.
pub proof fn law_stop_controls_match_what_is_accepted(c: ScmControl)
    ensures
        spec_handle_control(c).0 <==> accepts(spec_status_report(ScmState::Running).accepted, c),
        !accepts(spec_status_report(ScmState::StopPending).accepted, c),
        !accepts(spec_status_report(ScmState::Stopped).accepted, c),
{
}

} // verus!
