use latency_probe::reporter::{compute_until_even_interval_nanos, reporter_tick, CancelSignal,
    TickOutcome};

#[test]
fn cancellation_wins_over_data() {
    // a reporter woken by the cancellation signal exits without a report,
    // whatever the snapshot holds
    let r = reporter_tick(true, 5, 1000, 400, 1_000_000_000);
    assert_eq!(r, TickOutcome::Cancelled);
    let r = reporter_tick(true, 0, 0, 0, 1_000_000_000);
    assert_eq!(r, TickOutcome::Cancelled);
}

#[test]
fn empty_snapshot_reports_no_data() {
    let r = reporter_tick(false, 0, 0, 0, 60_000_000_000);
    assert_eq!(r, TickOutcome::NoData);
}

#[test]
fn report_carries_count_rate_max_average() {
    // 5 echoes over one second: 5.000 per second; average 1000/5
    let r = reporter_tick(false, 5, 1000, 400, 1_000_000_000);
    assert_eq!(
        r,
        TickOutcome::Report { echos: 5, rate_milli: 5000, max_time_ns: 400, avg_time_ns: 200 }
    );
    // 3 echoes over two seconds: 1.500 per second; average rounds down
    let r = reporter_tick(false, 3, 1000, 500, 2_000_000_000);
    assert_eq!(
        r,
        TickOutcome::Report { echos: 3, rate_milli: 1500, max_time_ns: 500, avg_time_ns: 333 }
    );
}

#[test]
fn cancel_signal_is_monotone() {
    let mut sig = CancelSignal::new();
    assert!(!sig.is_set());
    sig.stop();
    assert!(sig.is_set());
    sig.stop();
    assert!(sig.is_set());
}

#[test]
fn wait_until_even_interval() {
    assert_eq!(compute_until_even_interval_nanos(250, 100), 50);
    assert_eq!(compute_until_even_interval_nanos(0, 100), 100);
    assert_eq!(compute_until_even_interval_nanos(99, 100), 1);
    // a boundary waits a whole interval for the next one
    assert_eq!(compute_until_even_interval_nanos(100, 100), 100);
}
