use nexa::scm::{handle_control, status_report, ControlReply, ScmControl, ScmState, STOP_WAIT_HINT_SECS};

#[test]
fn running_service_accepts_stop_shutdown_and_preshutdown() {
    let r = status_report(ScmState::Running);
    assert!(r.accepted.stop && r.accepted.shutdown && r.accepted.preshutdown);
    assert_eq!(r.wait_hint_secs, 0);
}

#[test]
fn stopping_service_accepts_nothing_and_asks_for_time() {
    let r = status_report(ScmState::StopPending);
    assert!(!r.accepted.stop && !r.accepted.shutdown && !r.accepted.preshutdown);
    assert_eq!(r.wait_hint_secs, STOP_WAIT_HINT_SECS);
    assert_eq!(STOP_WAIT_HINT_SECS, 30);
    let s = status_report(ScmState::Stopped);
    assert!(!s.accepted.stop);
    assert_eq!(s.wait_hint_secs, 0);
}

#[test]
fn controls_are_answered_as_documented() {
    for c in [ScmControl::Stop, ScmControl::Shutdown, ScmControl::Preshutdown] {
        assert_eq!(handle_control(c), (true, ControlReply::NoError));
    }
    assert_eq!(handle_control(ScmControl::Interrogate), (false, ControlReply::NoError));
    assert_eq!(handle_control(ScmControl::Other), (false, ControlReply::NotImplemented));
}

#[test]
fn stop_is_flagged_exactly_for_accepted_controls() {
    let accepted = status_report(ScmState::Running).accepted;
    for (c, listed) in [
        (ScmControl::Stop, accepted.stop),
        (ScmControl::Shutdown, accepted.shutdown),
        (ScmControl::Preshutdown, accepted.preshutdown),
        (ScmControl::Interrogate, false),
        (ScmControl::Other, false),
    ] {
        assert_eq!(handle_control(c).0, listed);
    }
}
