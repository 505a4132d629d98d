use nexa::tun_run::{tun_run_start, tun_run_step, TunAction, TunFailure, TunPhase, TunRunEvent, TunRunState};

fn step(s: TunRunState, e: TunRunEvent) -> (TunRunState, TunAction) {
    tun_run_step(s, e)
}

#[test]
fn a_tun_run_comes_up_in_order_and_goes_down_in_order() {
    let (s, a) = tun_run_start();
    assert_eq!(a, TunAction::CreateDevice);
    let mut s = s;
    let mut seen = vec![a];
    for e in [TunRunEvent::Done, TunRunEvent::Done, TunRunEvent::Done, TunRunEvent::Done] {
        let (n, a) = step(s, e);
        s = n;
        seen.push(a);
    }
    assert!(s.dns_bound);
    // [::1] is best effort: a failure there still goes on to switch system DNS.
    let (n, a) = step(s, TunRunEvent::Failed("address in use".to_string()));
    seen.push(a);
    let (n, a) = step(n, TunRunEvent::Done);
    seen.push(a);
    let (n, a) = step(n, TunRunEvent::Done);
    seen.push(a);
    let (n, a) = step(n, TunRunEvent::Tick { stop_requested: false, stack_stopped: false });
    assert_eq!(a, TunAction::Wait);
    let (mut s, a) = step(n, TunRunEvent::Tick { stop_requested: true, stack_stopped: false });
    seen.push(a);
    for _ in 0..4 {
        let (n, a) = step(s, TunRunEvent::Done);
        s = n;
        seen.push(a);
    }
    assert_eq!(
        seen,
        vec![
            TunAction::CreateDevice,
            TunAction::ConfigureInterface,
            TunAction::AddRoutes,
            TunAction::BindDns,
            TunAction::BindDnsV6,
            TunAction::HijackSystemDns,
            TunAction::StartStack,
            TunAction::Wait,
            TunAction::RestoreSystemDns,
            TunAction::StopDns,
            TunAction::RemoveRoutes,
            TunAction::StopStack,
            TunAction::Finish,
        ]
    );
    assert_eq!(s.phase, TunPhase::Exiting);
    assert!(s.hijacked && s.restored && s.dns_stopped);
    assert!(s.failure.is_none());
}

#[test]
fn a_dns_bind_failure_ends_the_run_before_system_dns_is_touched() {
    let (mut s, _) = tun_run_start();
    for _ in 0..3 {
        s = step(s, TunRunEvent::Done).0;
    }
    let (s, a) = step(s, TunRunEvent::Failed("Failed to bind DNS server".to_string()));
    assert_eq!(a, TunAction::Finish);
    assert!(!s.hijacked && !s.dns_bound);
    match s.failure {
        Some(TunFailure::Step(e)) => assert_eq!(e, "Failed to bind DNS server"),
        other => panic!("unexpected outcome {other:?}"),
    }
}

#[test]
fn a_stack_that_does_not_start_still_restores_system_dns() {
    let (mut s, _) = tun_run_start();
    for _ in 0..6 {
        s = step(s, TunRunEvent::Done).0;
    }
    assert!(s.hijacked);
    let (s, a) = step(s, TunRunEvent::Failed("no stack".to_string()));
    assert_eq!(a, TunAction::RestoreSystemDns);
    let (s, a) = step(s, TunRunEvent::Failed("restore failed".to_string()));
    assert_eq!(a, TunAction::StopDns);
    let (s, a) = step(s, TunRunEvent::Done);
    assert_eq!(a, TunAction::RemoveRoutes);
    // The stack never started, so there is nothing to shut down.
    let (s, a) = step(s, TunRunEvent::Done);
    assert_eq!(a, TunAction::Finish);
    assert!(s.restored && s.dns_stopped);
    let f = s.failure.expect("the run failed");
    assert_eq!(f.message(), "Failed to start the smoltcp TUN stack (see the log above)");
}

#[test]
fn a_stack_that_stops_on_its_own_winds_the_run_down() {
    let (mut s, _) = tun_run_start();
    for _ in 0..7 {
        s = step(s, TunRunEvent::Done).0;
    }
    assert_eq!(s.phase, TunPhase::Running);
    // An event the phase does not wait for changes nothing.
    let (s, a) = step(s, TunRunEvent::Done);
    assert_eq!((s.phase, a), (TunPhase::Running, TunAction::Wait));
    let (s, a) = step(s, TunRunEvent::Tick { stop_requested: false, stack_stopped: true });
    assert_eq!((s.phase, a), (TunPhase::Restoring, TunAction::RestoreSystemDns));
}
