use sine_wave::driver::{Action, DriverState, SinkEvent};

#[test]
fn loop_starts_streaming() {
    assert_eq!(DriverState::start(), DriverState::Streaming);
}

#[test]
fn accepted_block_keeps_streaming() {
    assert_eq!(
        DriverState::Streaming.step(SinkEvent::Accepted),
        (DriverState::Streaming, Action::SendNextBlock)
    );
}

#[test]
fn refused_block_is_fatal() {
    assert_eq!(
        DriverState::Streaming.step(SinkEvent::WriteFailed),
        (DriverState::Failed, Action::Halt)
    );
}

#[test]
fn stop_request_ends_the_loop() {
    assert_eq!(
        DriverState::Streaming.step(SinkEvent::StopRequested),
        (DriverState::Stopped, Action::Halt)
    );
}

#[test]
fn halted_states_stay_halted() {
    for state in [DriverState::Stopped, DriverState::Failed] {
        for event in [SinkEvent::Accepted, SinkEvent::StopRequested, SinkEvent::WriteFailed] {
            assert_eq!(state.step(event), (state, Action::Halt));
        }
    }
}

#[test]
fn blocks_are_sent_until_the_first_failure() {
    let events = [
        SinkEvent::Accepted,
        SinkEvent::Accepted,
        SinkEvent::WriteFailed,
        SinkEvent::Accepted,
    ];
    let mut state = DriverState::start();
    let mut sent = 1;
    for event in events {
        let (next, action) = state.step(event);
        state = next;
        if action == Action::SendNextBlock {
            sent += 1;
        }
    }
    assert_eq!(sent, 3);
    assert_eq!(state, DriverState::Failed);
}
