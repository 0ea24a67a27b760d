//! The client's reconnect supervisor as a state machine.
//!
//! The shell drives it: in `Connecting` it attempts to open a connection,
//! in `Measuring` it runs the round-trip loop, in `BackingOff` it sleeps the
//! configured fixed backoff, and in `Stopped` it exits. Each attempt's
//! outcome comes back as an event, and `sup_step` decides the next state.
//! The machine retries forever by design: no failure event leads to
//! `Stopped`, only a round-trip loop that ends cleanly does.

use vstd::prelude::*;

verus! {

/// Where the reconnect supervisor stands.
#[derive(Clone, Copy, Debug, PartialEq, Eq, Structural)]
pub enum SupState {
    /// Attempting to open a connection to the server.
    Connecting,
    /// A connection is up; the round-trip loop is running on it.
    Measuring,
    /// Waiting out the fixed backoff delay before the next attempt.
    BackingOff,
    /// The round-trip loop ended cleanly; the supervisor is done.
    Stopped,
}

/// What the shell reports back to the supervisor.
#[derive(Clone, Copy, Debug, PartialEq, Eq, Structural)]
pub enum SupEvent {
    /// A connection attempt succeeded.
    ConnectOk,
    /// A connection attempt failed.
    ConnectFailed,
    /// The round-trip loop ended with a connection-level failure.
    LoopFailed,
    /// The round-trip loop ended cleanly, on an external stop.
    LoopFinished,
    /// The backoff delay has been waited out.
    BackoffElapsed,
}

/// The transition relation: a successful connection starts measuring, any
/// connection-level failure backs off, a waited-out backoff reconnects, and
/// only a cleanly finished loop stops. An event that does not belong to the
/// state changes nothing.
pub open spec fn spec_sup_step(s: SupState, e: SupEvent) -> SupState {
    match (s, e) {
        (SupState::Connecting, SupEvent::ConnectOk) => SupState::Measuring,
        (SupState::Connecting, SupEvent::ConnectFailed) => SupState::BackingOff,
        (SupState::Measuring, SupEvent::LoopFailed) => SupState::BackingOff,
        (SupState::Measuring, SupEvent::LoopFinished) => SupState::Stopped,
        (SupState::BackingOff, SupEvent::BackoffElapsed) => SupState::Connecting,
        _ => s,
    }
}

/// Advance the supervisor by one reported event.
pub fn sup_step(s: SupState, e: SupEvent) -> (r: SupState)
    ensures
        r == spec_sup_step(s, e),
{
    match (s, e) {
        (SupState::Connecting, SupEvent::ConnectOk) => SupState::Measuring,
        (SupState::Connecting, SupEvent::ConnectFailed) => SupState::BackingOff,
        (SupState::Measuring, SupEvent::LoopFailed) => SupState::BackingOff,
        (SupState::Measuring, SupEvent::LoopFinished) => SupState::Stopped,
        (SupState::BackingOff, SupEvent::BackoffElapsed) => SupState::Connecting,
        _ => s,
    }
}

/// The state after a whole sequence of events, applied in order.
pub open spec fn spec_sup_run(s: SupState, es: Seq<SupEvent>) -> SupState
    decreases es.len(),
{
    if es.len() == 0 {
        s
    } else {
        spec_sup_run(spec_sup_step(s, es.first()), es.drop_first())
    }
}

/// How often a run enters the backoff state, which is exactly how often the
/// shell waits out one backoff delay.
pub open spec fn spec_backoff_count(s: SupState, es: Seq<SupEvent>) -> nat
    decreases es.len(),
{
    if es.len() == 0 {
        0
    } else {
        (if spec_sup_step(s, es.first()) == SupState::BackingOff && s != SupState::BackingOff {
            1 as nat
        } else {
            0 as nat
        }) + spec_backoff_count(spec_sup_step(s, es.first()), es.drop_first())
    }
}

/// The supervisor retries forever by design: no connection-level failure
/// ever stops it. It comes to a stop exactly when the round-trip loop ends
/// cleanly, or when it is already stopped.
pub proof fn lemma_only_clean_finish_stops(s: SupState, e: SupEvent)
    ensures
        spec_sup_step(s, e) == SupState::Stopped <==> (s == SupState::Stopped || (s
            == SupState::Measuring && e == SupEvent::LoopFinished)),
{
}

/// The events of a server that refuses the first `k` connection attempts and
/// accepts the next one.
pub open spec fn spec_refusals_then_accept(k: nat) -> Seq<SupEvent>
    decreases k,
{
    if k == 0 {
        seq![SupEvent::ConnectOk]
    } else {
        seq![SupEvent::ConnectFailed, SupEvent::BackoffElapsed] + spec_refusals_then_accept(
            (k - 1) as nat,
        )
    }
}

/// When the server refuses the first `k` connection attempts and then
/// accepts, a supervisor that starts connecting waits out exactly `k`
/// backoff delays and then proceeds to measuring.
pub proof fn lemma_supervisor_retries(k: nat)
    ensures
        spec_sup_run(SupState::Connecting, spec_refusals_then_accept(k)) == SupState::Measuring,
        spec_backoff_count(SupState::Connecting, spec_refusals_then_accept(k)) == k,
    decreases k,
{
    let es = spec_refusals_then_accept(k);
    if k == 0 {
        assert(es.drop_first() =~= Seq::<SupEvent>::empty());
        assert(spec_sup_run(SupState::Connecting, es) == spec_sup_run(
            SupState::Measuring,
            es.drop_first(),
        ));
        assert(spec_sup_run(SupState::Measuring, Seq::<SupEvent>::empty()) == SupState::Measuring);
        assert(spec_backoff_count(SupState::Connecting, es) == spec_backoff_count(
            SupState::Measuring,
            es.drop_first(),
        ));
        assert(spec_backoff_count(SupState::Measuring, Seq::<SupEvent>::empty()) == 0);
    } else {
        let tail = spec_refusals_then_accept((k - 1) as nat);
        lemma_supervisor_retries((k - 1) as nat);
        assert(es.first() == SupEvent::ConnectFailed);
        let after_fail = es.drop_first();
        assert(after_fail =~= seq![SupEvent::BackoffElapsed] + tail);
        assert(after_fail.first() == SupEvent::BackoffElapsed);
        assert(after_fail.drop_first() =~= tail);
        assert(spec_sup_run(SupState::Connecting, es) == spec_sup_run(
            SupState::BackingOff,
            after_fail,
        ));
        assert(spec_sup_run(SupState::BackingOff, after_fail) == spec_sup_run(
            SupState::Connecting,
            tail,
        ));
        assert(spec_backoff_count(SupState::Connecting, es) == 1 + spec_backoff_count(
            SupState::BackingOff,
            after_fail,
        ));
        assert(spec_backoff_count(SupState::BackingOff, after_fail) == spec_backoff_count(
            SupState::Connecting,
            tail,
        ));
    }
}

} // verus!
