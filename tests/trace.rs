use memtrace::trace::{Action, TraceController, TraceError, TraceEvent, TraceState};

fn attached_and_stopped() -> TraceController {
    let mut c = TraceController::new();
    assert_eq!(c.on_event(TraceEvent::AttachSucceeded), Action::AwaitInitialStop);
    assert_eq!(c.on_event(TraceEvent::Stopped), Action::Resume);
    assert_eq!(c.state(), TraceState::AwaitingEntryStop);
    c
}

#[test]
fn stops_alternate_starting_with_entry() {
    for n in 0..12usize {
        let mut c = attached_and_stopped();
        let mut decodes = 0;
        for i in 0..n {
            let a = c.on_event(TraceEvent::Stopped);
            if i % 2 == 0 {
                assert_eq!(a, Action::Resume);
            } else {
                assert_eq!(a, Action::DecodeAndResume);
                decodes += 1;
            }
        }
        assert_eq!(decodes, n / 2);
    }
}

#[test]
fn attach_failure_is_attach_error() {
    let mut c = TraceController::new();
    assert_eq!(c.on_event(TraceEvent::AttachFailed), Action::Fail(TraceError::AttachError));
    assert_eq!(c.state(), TraceState::Failed);
    assert_eq!(c.on_event(TraceEvent::Stopped), Action::Finish);
}

#[test]
fn exit_before_first_stop_is_already_exited() {
    let mut c = TraceController::new();
    c.on_event(TraceEvent::AttachSucceeded);
    let a = c.on_event(TraceEvent::TargetExited);
    assert_eq!(a, Action::Fail(TraceError::AlreadyExitedError));
    assert_ne!(a, Action::Fail(TraceError::AttachError));
    assert_eq!(c.state(), TraceState::Exited);
}

#[test]
fn exit_during_trace_finishes() {
    let mut c = attached_and_stopped();
    c.on_event(TraceEvent::Stopped);
    assert_eq!(c.on_event(TraceEvent::TargetExited), Action::Finish);
    assert_eq!(c.state(), TraceState::Exited);
}

#[test]
fn cancel_detaches() {
    let mut c = attached_and_stopped();
    assert_eq!(c.on_event(TraceEvent::Canceled), Action::Detach);
    assert_eq!(c.state(), TraceState::Detached);
}
