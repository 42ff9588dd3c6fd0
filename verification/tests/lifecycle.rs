use game_server::lifecycle::{ControlLoop, ControllerState, LoopAction, LoopEvent, LoopStep};

fn at_step(step: LoopStep) -> ControlLoop {
    let mut l = ControlLoop::new();
    let events = [
        LoopEvent::Polled(false),
        LoopEvent::Progressed(Ok(())),
        LoopEvent::BroadcastDone(Ok(())),
        LoopEvent::Received,
    ];
    for e in events {
        if l.step() == step {
            break;
        }
        l.advance(e);
    }
    assert_eq!(l.step(), step);
    l
}

#[test]
fn loop_starts_running_at_the_poll() {
    let l = ControlLoop::new();
    assert_eq!(l.state(), ControllerState::Running);
    assert_eq!(l.step(), LoopStep::Poll);
}

#[test]
fn quiet_tick_goes_round() {
    let mut l = ControlLoop::new();
    assert_eq!(l.advance(LoopEvent::Polled(false)), LoopAction::Advance);
    assert_eq!(l.advance(LoopEvent::Progressed(Ok(()))), LoopAction::Broadcast);
    assert_eq!(l.advance(LoopEvent::BroadcastDone(Ok(()))), LoopAction::Await);
    assert_eq!(l.advance(LoopEvent::TimedOut), LoopAction::Poll);
    assert_eq!(l.state(), ControllerState::Running);
    assert_eq!(l.step(), LoopStep::Poll);
}

#[test]
fn intent_is_dispatched_before_the_next_tick() {
    let mut l = at_step(LoopStep::Await);
    assert_eq!(l.advance(LoopEvent::Received), LoopAction::Dispatch);
    assert_eq!(l.step(), LoopStep::Dispatch);
    assert_eq!(l.advance(LoopEvent::Dispatched(Ok(()))), LoopAction::Poll);
    assert_eq!(l.step(), LoopStep::Poll);
}

#[test]
fn refused_intent_does_not_stop_the_loop() {
    let mut l = at_step(LoopStep::Dispatch);
    let refusal = Err("cannot have duplicate client addresses, got [a]".to_string());
    assert_eq!(l.advance(LoopEvent::Dispatched(refusal)), LoopAction::Poll);
    assert_eq!(l.state(), ControllerState::Running);
}

#[test]
fn raised_flag_ends_the_loop_without_error() {
    let mut l = ControlLoop::new();
    assert_eq!(l.advance(LoopEvent::Polled(true)), LoopAction::Exit(Ok(())));
    assert_eq!(l.state(), ControllerState::Stopped);
}

#[test]
fn cancellation_waits_for_the_tick_to_finish() {
    let mut l = at_step(LoopStep::Advance);
    l.request_cancel();
    assert_eq!(l.state(), ControllerState::Cancelling);
    assert_eq!(l.step(), LoopStep::Advance);
    assert_eq!(l.advance(LoopEvent::Progressed(Ok(()))), LoopAction::Broadcast);
    assert_eq!(l.advance(LoopEvent::BroadcastDone(Ok(()))), LoopAction::Await);
    assert_eq!(l.advance(LoopEvent::TimedOut), LoopAction::Poll);
    assert_eq!(l.state(), ControllerState::Cancelling);
    assert_eq!(l.advance(LoopEvent::Polled(false)), LoopAction::Exit(Ok(())));
    assert_eq!(l.state(), ControllerState::Stopped);
}

#[test]
fn broadcast_failure_is_fatal() {
    let mut l = at_step(LoopStep::Broadcast);
    let failure = Err("no recipients".to_string());
    assert_eq!(
        l.advance(LoopEvent::BroadcastDone(failure)),
        LoopAction::Exit(Err("no recipients".to_string()))
    );
    assert_eq!(l.state(), ControllerState::Stopped);
}

#[test]
fn failure_to_advance_is_fatal() {
    let mut l = at_step(LoopStep::Advance);
    assert_eq!(
        l.advance(LoopEvent::Progressed(Err("clock".to_string()))),
        LoopAction::Exit(Err("clock".to_string()))
    );
    assert_eq!(l.state(), ControllerState::Stopped);
}

#[test]
fn lost_queue_is_fatal() {
    let mut l = at_step(LoopStep::Await);
    assert_eq!(
        l.advance(LoopEvent::Disconnected),
        LoopAction::Exit(Err("update channel disconnected".to_string()))
    );
    assert_eq!(l.state(), ControllerState::Stopped);
}

#[test]
fn stopped_loop_stays_stopped() {
    let mut l = ControlLoop::new();
    l.advance(LoopEvent::Polled(true));
    for e in [
        LoopEvent::Polled(false),
        LoopEvent::Progressed(Ok(())),
        LoopEvent::BroadcastDone(Ok(())),
        LoopEvent::Received,
        LoopEvent::TimedOut,
        LoopEvent::Disconnected,
        LoopEvent::Dispatched(Ok(())),
    ] {
        assert_eq!(l.advance(e), LoopAction::Halted);
        assert_eq!(l.state(), ControllerState::Stopped);
    }
    l.request_cancel();
    assert_eq!(l.state(), ControllerState::Stopped);
}

#[test]
fn event_out_of_turn_changes_nothing() {
    let mut l = at_step(LoopStep::Broadcast);
    assert_eq!(l.advance(LoopEvent::Polled(true)), LoopAction::Broadcast);
    assert_eq!(l.advance(LoopEvent::Disconnected), LoopAction::Broadcast);
    assert_eq!(l.advance(LoopEvent::Progressed(Err("x".to_string()))), LoopAction::Broadcast);
    assert_eq!(l.state(), ControllerState::Running);
    assert_eq!(l.step(), LoopStep::Broadcast);
    let mut l = at_step(LoopStep::Poll);
    assert_eq!(l.advance(LoopEvent::TimedOut), LoopAction::Poll);
    let mut l = at_step(LoopStep::Await);
    assert_eq!(l.advance(LoopEvent::Dispatched(Ok(()))), LoopAction::Await);
    let mut l = at_step(LoopStep::Dispatch);
    assert_eq!(l.advance(LoopEvent::Received), LoopAction::Dispatch);
    let mut l = at_step(LoopStep::Advance);
    assert_eq!(l.advance(LoopEvent::BroadcastDone(Ok(()))), LoopAction::Advance);
}
