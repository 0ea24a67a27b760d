use latency_probe::supervisor::{sup_step, SupEvent, SupState};

#[test]
fn two_refusals_then_accept() {
    // the server refuses the first two attempts, then accepts: exactly two
    // backoff waits, then measuring
    let events = [
        SupEvent::ConnectFailed,
        SupEvent::BackoffElapsed,
        SupEvent::ConnectFailed,
        SupEvent::BackoffElapsed,
        SupEvent::ConnectOk,
    ];
    let mut state = SupState::Connecting;
    let mut backoffs = 0;
    for e in events {
        let next = sup_step(state, e);
        if next == SupState::BackingOff && state != SupState::BackingOff {
            backoffs += 1;
        }
        state = next;
    }
    assert_eq!(backoffs, 2);
    assert_eq!(state, SupState::Measuring);
}

#[test]
fn loop_failure_backs_off_and_retries() {
    let s = sup_step(SupState::Measuring, SupEvent::LoopFailed);
    assert_eq!(s, SupState::BackingOff);
    let s = sup_step(s, SupEvent::BackoffElapsed);
    assert_eq!(s, SupState::Connecting);
}

#[test]
fn clean_finish_stops() {
    let s = sup_step(SupState::Measuring, SupEvent::LoopFinished);
    assert_eq!(s, SupState::Stopped);
}

#[test]
fn stray_events_change_nothing() {
    assert_eq!(sup_step(SupState::Connecting, SupEvent::LoopFailed), SupState::Connecting);
    assert_eq!(sup_step(SupState::Stopped, SupEvent::ConnectOk), SupState::Stopped);
    assert_eq!(sup_step(SupState::BackingOff, SupEvent::ConnectFailed), SupState::BackingOff);
}
