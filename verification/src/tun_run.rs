//! The order in which TUN mode comes up and goes down.
//!
//! The device is created, its interface configured and routed; the local DNS server binds to
//! the interface address (which only exists once the interface is configured), and only then
//! is system DNS pointed at it; the packet stack runs until it is stopped or dies; then
//! system DNS is restored, the DNS server stopped, the routes removed and the stack shut down,
//! in that order. The I/O of each step is done by the caller, which reports how it went.
use vstd::prelude::*;

verus! {

/// Where a TUN run is.
#[derive(Debug, Clone, Copy, PartialEq, Eq, Structural)]
pub enum TunPhase {
    CreatingDevice,
    Configuring,
    AddingRoutes,
    BindingDns,
    /// Binding the same DNS server on `[::1]:53`; best effort.
    BindingDnsV6,
    Hijacking,
    StartingStack,
    Running,
    Restoring,
    StoppingDns,
    RemovingRoutes,
    StoppingStack,
    Exiting,
}

/// Why a run failed.
#[derive(Debug, Clone)]
pub enum TunFailure {
    /// A step before DNS was switched failed, with its rendered reason.
    Step(String),
    /// The packet stack could not be started.
    StackStart,
}

/// A TUN run: its phase, what has been brought up, and how it ends.
#[derive(Debug)]
pub struct TunRunState {
    pub phase: TunPhase,
    /// The local DNS server is bound.
    pub dns_bound: bool,
    /// System DNS was (attempted to be) pointed at the TUN.
    pub hijacked: bool,
    /// System DNS was restored.
    pub restored: bool,
    /// The DNS server tasks were stopped.
    pub dns_stopped: bool,
    /// The packet stack was started.
    pub stack_started: bool,
    /// How the run ends: `None` for a clean stop.
    pub failure: Option<TunFailure>,
}

/// What the caller does next.
#[derive(Debug, Clone, Copy, PartialEq, Eq, Structural)]
pub enum TunAction {
    CreateDevice,
    /// Walk the candidate blocks (see `routing::configure_interface`).
    ConfigureInterface,
    AddRoutes,
    BindDns,
    BindDnsV6,
    HijackSystemDns,
    StartStack,
    /// Poll the stop flag and the stack.
    Wait,
    RestoreSystemDns,
    /// Flag the DNS server stopped and wait for its tasks.
    StopDns,
    RemoveRoutes,
    StopStack,
    /// Return the run's outcome (`failure`).
    Finish,
}

/// What came of the last action.
#[derive(Debug, Clone)]
pub enum TunRunEvent {
    Done,
    Failed(String),
    /// One poll while running: whether a stop was asked for, and whether the stack stopped on
    /// its own.
    Tick { stop_requested: bool, stack_stopped: bool },
}

/// The action a phase is waiting on.
pub open spec fn pending_action(ph: TunPhase) -> TunAction {
    match ph {
        TunPhase::CreatingDevice => TunAction::CreateDevice,
        TunPhase::Configuring => TunAction::ConfigureInterface,
        TunPhase::AddingRoutes => TunAction::AddRoutes,
        TunPhase::BindingDns => TunAction::BindDns,
        TunPhase::BindingDnsV6 => TunAction::BindDnsV6,
        TunPhase::Hijacking => TunAction::HijackSystemDns,
        TunPhase::StartingStack => TunAction::StartStack,
        TunPhase::Running => TunAction::Wait,
        TunPhase::Restoring => TunAction::RestoreSystemDns,
        TunPhase::StoppingDns => TunAction::StopDns,
        TunPhase::RemovingRoutes => TunAction::RemoveRoutes,
        TunPhase::StoppingStack => TunAction::StopStack,
        TunPhase::Exiting => TunAction::Finish,
    }
}

/// The phases in which the DNS server is bound and system DNS has not been switched yet.
pub open spec fn before_hijack(ph: TunPhase) -> bool {
    ph == TunPhase::CreatingDevice || ph == TunPhase::Configuring || ph == TunPhase::AddingRoutes
        || ph == TunPhase::BindingDns || ph == TunPhase::BindingDnsV6 || ph == TunPhase::Hijacking
}

/// What each phase implies about what has been brought up and taken down.
pub open spec fn tun_run_wf(s: TunRunState) -> bool {
    &&& (s.phase == TunPhase::CreatingDevice || s.phase == TunPhase::Configuring || s.phase
        == TunPhase::AddingRoutes || s.phase == TunPhase::BindingDns) ==> !s.dns_bound
    &&& !before_hijack(s.phase) && s.phase != TunPhase::Exiting ==> s.dns_bound && s.hijacked
    &&& (s.phase == TunPhase::BindingDnsV6 || s.phase == TunPhase::Hijacking) ==> s.dns_bound
    &&& before_hijack(s.phase) ==> !s.hijacked && !s.restored && !s.dns_stopped && !s.stack_started
        && s.failure is None
    &&& (s.phase == TunPhase::StartingStack || s.phase == TunPhase::Running) ==> !s.restored
        && !s.dns_stopped
    &&& s.phase == TunPhase::StartingStack ==> !s.stack_started && s.failure is None
    &&& s.phase == TunPhase::Running ==> s.stack_started && s.failure is None
    &&& s.phase == TunPhase::Restoring ==> !s.restored && !s.dns_stopped
    &&& s.phase == TunPhase::StoppingDns ==> s.restored && !s.dns_stopped
    &&& (s.phase == TunPhase::RemovingRoutes || s.phase == TunPhase::StoppingStack) ==> s.restored
        && s.dns_stopped
    &&& s.phase == TunPhase::StoppingStack ==> s.stack_started
    &&& s.phase == TunPhase::Exiting && s.hijacked ==> s.restored && s.dns_stopped
    &&& s.phase == TunPhase::Exiting && !s.hijacked ==> s.failure is Some
}

/// `s` moved to phase `ph`.
pub open spec fn at(s: TunRunState, ph: TunPhase) -> TunRunState {
    TunRunState { phase: ph, ..s }
}

/// The step of a TUN run in `s` once `event` came of the action it was waiting on.
///
/// A failure up to binding the DNS server ends the run with that failure; binding on `[::1]`
/// is best effort, and so is switching system DNS (a failed switch may have changed some
/// adapters, so it is restored all the same). A stack that does not start ends the run as
/// failed, through the cleanup; a running stack runs until a stop is asked for or it stops on
/// its own. The cleanup steps run whatever their outcome, and the stack is only shut down
/// when it was started. An event a phase does not wait for changes nothing.
pub open spec fn spec_tun_run_step(s: TunRunState, event: TunRunEvent) -> (TunRunState, TunAction) {
    match (s.phase, event) {
        (TunPhase::CreatingDevice, TunRunEvent::Done) => (at(s, TunPhase::Configuring), TunAction::ConfigureInterface),
        (TunPhase::Configuring, TunRunEvent::Done) => (at(s, TunPhase::AddingRoutes), TunAction::AddRoutes),
        (TunPhase::AddingRoutes, TunRunEvent::Done) => (at(s, TunPhase::BindingDns), TunAction::BindDns),
        (TunPhase::BindingDns, TunRunEvent::Done) => (
            TunRunState { phase: TunPhase::BindingDnsV6, dns_bound: true, ..s },
            TunAction::BindDnsV6,
        ),
        (TunPhase::CreatingDevice, TunRunEvent::Failed(e))
        | (TunPhase::Configuring, TunRunEvent::Failed(e))
        | (TunPhase::AddingRoutes, TunRunEvent::Failed(e))
        | (TunPhase::BindingDns, TunRunEvent::Failed(e)) => (
            TunRunState { phase: TunPhase::Exiting, failure: Some(TunFailure::Step(e)), ..s },
            TunAction::Finish,
        ),
        (TunPhase::BindingDnsV6, TunRunEvent::Done) | (TunPhase::BindingDnsV6, TunRunEvent::Failed(_)) =>
            (at(s, TunPhase::Hijacking), TunAction::HijackSystemDns),
        (TunPhase::Hijacking, TunRunEvent::Done) | (TunPhase::Hijacking, TunRunEvent::Failed(_)) => (
            TunRunState { phase: TunPhase::StartingStack, hijacked: true, ..s },
            TunAction::StartStack,
        ),
        (TunPhase::StartingStack, TunRunEvent::Done) => (
            TunRunState { phase: TunPhase::Running, stack_started: true, ..s },
            TunAction::Wait,
        ),
        (TunPhase::StartingStack, TunRunEvent::Failed(_)) => (
            TunRunState { phase: TunPhase::Restoring, failure: Some(TunFailure::StackStart), ..s },
            TunAction::RestoreSystemDns,
        ),
        (TunPhase::Running, TunRunEvent::Tick { stop_requested, stack_stopped }) => if stop_requested
            || stack_stopped {
            (at(s, TunPhase::Restoring), TunAction::RestoreSystemDns)
        } else {
            (s, TunAction::Wait)
        },
        (TunPhase::Restoring, TunRunEvent::Done) | (TunPhase::Restoring, TunRunEvent::Failed(_)) => (
            TunRunState { phase: TunPhase::StoppingDns, restored: true, ..s },
            TunAction::StopDns,
        ),
        (TunPhase::StoppingDns, TunRunEvent::Done) | (TunPhase::StoppingDns, TunRunEvent::Failed(_)) => (
            TunRunState { phase: TunPhase::RemovingRoutes, dns_stopped: true, ..s },
            TunAction::RemoveRoutes,
        ),
        (TunPhase::RemovingRoutes, TunRunEvent::Done) | (TunPhase::RemovingRoutes, TunRunEvent::Failed(_)) =>
            if s.stack_started {
            (at(s, TunPhase::StoppingStack), TunAction::StopStack)
        } else {
            (at(s, TunPhase::Exiting), TunAction::Finish)
        },
        (TunPhase::StoppingStack, TunRunEvent::Done) | (TunPhase::StoppingStack, TunRunEvent::Failed(_)) =>
            (at(s, TunPhase::Exiting), TunAction::Finish),
        _ => (s, pending_action(s.phase)),
    }
}

/// A run before anything was done: it creates the device first.
pub fn tun_run_start() -> (r: (TunRunState, TunAction))
    ensures
        r.0 == (TunRunState {
            phase: TunPhase::CreatingDevice,
            dns_bound: false,
            hijacked: false,
            restored: false,
            dns_stopped: false,
            stack_started: false,
            failure: None,
        }),
        r.1 == TunAction::CreateDevice,
        tun_run_wf(r.0),
{
    (
        TunRunState {
            phase: TunPhase::CreatingDevice,
            dns_bound: false,
            hijacked: false,
            restored: false,
            dns_stopped: false,
            stack_started: false,
            failure: None,
        },
        TunAction::CreateDevice,
    )
}


/// One step of a TUN run: the next state and what the caller does next. System DNS is only
/// ever switched once the DNS server is bound, and a run that switched it only finishes once
/// it was restored and the DNS server stopped.
pub fn tun_run_step(s: TunRunState, event: TunRunEvent) -> (r: (TunRunState, TunAction))
    requires
        tun_run_wf(s),
    ensures
        r == spec_tun_run_step(s, event),
        tun_run_wf(r.0),
        r.1 == TunAction::HijackSystemDns ==> s.dns_bound && r.0.dns_bound,
        r.1 == TunAction::Finish && r.0.hijacked ==> r.0.restored && r.0.dns_stopped,
        s.hijacked && r.0.phase == TunPhase::Exiting ==> r.0.restored && r.0.dns_stopped,
{
    let TunRunState { phase, dns_bound, hijacked, restored, dns_stopped, stack_started, failure } = s;
    let same = |ph: TunPhase, failure: Option<TunFailure>| -> (t: TunRunState)
        ensures
            t == (TunRunState { phase: ph, dns_bound, hijacked, restored, dns_stopped, stack_started, failure }),
    {
        TunRunState { phase: ph, dns_bound, hijacked, restored, dns_stopped, stack_started, failure }
    };
    match (phase, event) {
        (TunPhase::CreatingDevice, TunRunEvent::Done) => (same(TunPhase::Configuring, failure), TunAction::ConfigureInterface),
        (TunPhase::Configuring, TunRunEvent::Done) => (same(TunPhase::AddingRoutes, failure), TunAction::AddRoutes),
        (TunPhase::AddingRoutes, TunRunEvent::Done) => (same(TunPhase::BindingDns, failure), TunAction::BindDns),
        (TunPhase::BindingDns, TunRunEvent::Done) => (
            TunRunState { phase: TunPhase::BindingDnsV6, dns_bound: true, hijacked, restored, dns_stopped, stack_started, failure },
            TunAction::BindDnsV6,
        ),
        (TunPhase::CreatingDevice, TunRunEvent::Failed(e))
        | (TunPhase::Configuring, TunRunEvent::Failed(e))
        | (TunPhase::AddingRoutes, TunRunEvent::Failed(e))
        | (TunPhase::BindingDns, TunRunEvent::Failed(e)) => (
            same(TunPhase::Exiting, Some(TunFailure::Step(e))),
            TunAction::Finish,
        ),
        (TunPhase::BindingDnsV6, TunRunEvent::Done) | (TunPhase::BindingDnsV6, TunRunEvent::Failed(_)) =>
            (same(TunPhase::Hijacking, failure), TunAction::HijackSystemDns),
        (TunPhase::Hijacking, TunRunEvent::Done) | (TunPhase::Hijacking, TunRunEvent::Failed(_)) => (
            TunRunState { phase: TunPhase::StartingStack, dns_bound, hijacked: true, restored, dns_stopped, stack_started, failure },
            TunAction::StartStack,
        ),
        (TunPhase::StartingStack, TunRunEvent::Done) => (
            TunRunState { phase: TunPhase::Running, dns_bound, hijacked, restored, dns_stopped, stack_started: true, failure },
            TunAction::Wait,
        ),
        (TunPhase::StartingStack, TunRunEvent::Failed(_)) => (
            same(TunPhase::Restoring, Some(TunFailure::StackStart)),
            TunAction::RestoreSystemDns,
        ),
        (TunPhase::Running, TunRunEvent::Tick { stop_requested, stack_stopped }) => if stop_requested
            || stack_stopped {
            (same(TunPhase::Restoring, failure), TunAction::RestoreSystemDns)
        } else {
            (same(TunPhase::Running, failure), TunAction::Wait)
        },
        (TunPhase::Restoring, TunRunEvent::Done) | (TunPhase::Restoring, TunRunEvent::Failed(_)) => (
            TunRunState { phase: TunPhase::StoppingDns, dns_bound, hijacked, restored: true, dns_stopped, stack_started, failure },
            TunAction::StopDns,
        ),
        (TunPhase::StoppingDns, TunRunEvent::Done) | (TunPhase::StoppingDns, TunRunEvent::Failed(_)) => (
            TunRunState { phase: TunPhase::RemovingRoutes, dns_bound, hijacked, restored, dns_stopped: true, stack_started, failure },
            TunAction::RemoveRoutes,
        ),
        (TunPhase::RemovingRoutes, TunRunEvent::Done) | (TunPhase::RemovingRoutes, TunRunEvent::Failed(_)) =>
            if stack_started {
            (same(TunPhase::StoppingStack, failure), TunAction::StopStack)
        } else {
            (same(TunPhase::Exiting, failure), TunAction::Finish)
        },
        (TunPhase::StoppingStack, TunRunEvent::Done) | (TunPhase::StoppingStack, TunRunEvent::Failed(_)) =>
            (same(TunPhase::Exiting, failure), TunAction::Finish),
        (ph, _) => {
            let a = match ph {
                TunPhase::CreatingDevice => TunAction::CreateDevice,
                TunPhase::Configuring => TunAction::ConfigureInterface,
                TunPhase::AddingRoutes => TunAction::AddRoutes,
                TunPhase::BindingDns => TunAction::BindDns,
                TunPhase::BindingDnsV6 => TunAction::BindDnsV6,
                TunPhase::Hijacking => TunAction::HijackSystemDns,
                TunPhase::StartingStack => TunAction::StartStack,
                TunPhase::Running => TunAction::Wait,
                TunPhase::Restoring => TunAction::RestoreSystemDns,
                TunPhase::StoppingDns => TunAction::StopDns,
                TunPhase::RemovingRoutes => TunAction::RemoveRoutes,
                TunPhase::StoppingStack => TunAction::StopStack,
                TunPhase::Exiting => TunAction::Finish,
            };
            (same(ph, failure), a)
        },
    }
}

/// System DNS is switched only after the DNS socket is bound: in a run that keeps to its
/// phases, the step that asks for the switch starts from a state with the server bound.
pub proof fn law_dns_switched_only_after_bind(s: TunRunState, event: TunRunEvent)
    requires
        tun_run_wf(s),
    ensures
        tun_run_wf(spec_tun_run_step(s, event).0),
        spec_tun_run_step(s, event).1 == TunAction::HijackSystemDns ==> s.dns_bound,
{
}

/// Every exit after a switch passes through restoring system DNS and stopping the DNS server:
/// once a run has switched system DNS, any steps it takes keep the switch recorded, and when
/// it finishes it has restored system DNS and stopped the DNS tasks.
pub proof fn law_exit_after_switch_restores(s: TunRunState, events: Seq<TunRunEvent>)
    requires
        tun_run_wf(s),
    ensures
        tun_run_wf(run_events(s, events)),
        s.hijacked ==> run_events(s, events).hijacked,
        run_events(s, events).hijacked && run_events(s, events).phase == TunPhase::Exiting
            ==> run_events(s, events).restored && run_events(s, events).dns_stopped,
    decreases events.len(),
{
    if events.len() > 0 {
        law_exit_after_switch_restores(s, events.drop_last());
    }
}

/// The state after the events `events`, in order, starting from `s`.
pub open spec fn run_events(s: TunRunState, events: Seq<TunRunEvent>) -> TunRunState
    decreases events.len(),
{
    if events.len() == 0 {
        s
    } else {
        spec_tun_run_step(run_events(s, events.drop_last()), events.last()).0
    }
}

/// The message a failed run renders as.
pub open spec fn failure_message(f: TunFailure) -> Seq<char> {
    match f {
        TunFailure::Step(e) => e@,
        TunFailure::StackStart => "Failed to start the smoltcp TUN stack (see the log above)"@,
    }
}

impl TunFailure {
    /// The failure as text.
    pub fn message(&self) -> (m: String)
        ensures
            m@ == failure_message(*self),
    {
        match self {
            TunFailure::Step(e) => String::from_str(e.as_str()),
            TunFailure::StackStart => String::from_str("Failed to start the smoltcp TUN stack (see the log above)"),
        }
    }
}


/// Each step of a run comes right after the one it depends on: the interface is configured
/// once the device exists, routes are added once it is configured, the DNS server is bound
/// once routes are in, the stack starts once system DNS was switched; on the way down the DNS
/// server stops only after system DNS was restored, routes are removed only after that, the
/// stack is shut down last and only when it was started; a run finishes only from its end
/// phase, and a run that failed before the switch never touched system DNS.
pub proof fn law_tun_run_order(s: TunRunState, event: TunRunEvent)
    requires
        tun_run_wf(s),
    ensures
        ({
            let (n, a) = spec_tun_run_step(s, event);
            &&& a == TunAction::ConfigureInterface ==> (s.phase == TunPhase::CreatingDevice || s.phase == TunPhase::Configuring)
            &&& a == TunAction::AddRoutes ==> (s.phase == TunPhase::Configuring || s.phase == TunPhase::AddingRoutes)
            &&& a == TunAction::BindDns ==> (s.phase == TunPhase::AddingRoutes || s.phase == TunPhase::BindingDns)
            &&& a == TunAction::StartStack ==> n.hijacked && n.dns_bound
            &&& a == TunAction::Wait ==> n.stack_started && !n.restored
            &&& a == TunAction::StopDns ==> n.restored && !n.dns_stopped
            &&& a == TunAction::RemoveRoutes ==> n.restored && n.dns_stopped
            &&& a == TunAction::StopStack ==> n.stack_started && n.dns_stopped
            &&& a == TunAction::Finish ==> n.phase == TunPhase::Exiting
            &&& s.failure is None ==> (n.failure matches Some(TunFailure::Step(_)) ==> !n.hijacked)
            &&& (a == TunAction::RestoreSystemDns || a == TunAction::StopDns || a == TunAction::RemoveRoutes) ==> n.hijacked
        }),
{
}

} // verus!
