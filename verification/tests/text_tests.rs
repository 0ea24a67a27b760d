use latency_probe::text::{duration_display, duration_to_human, single_line_error};

#[test]
fn human_form_decomposes_units() {
    assert_eq!(duration_to_human(1_234_567_890, 2), "1s234ms567u890ns");
    assert_eq!(duration_to_human(100_500_000, 2), "100ms500u");
    assert_eq!(duration_to_human(5, 2), "5ns");
    assert_eq!(duration_to_human(0, 2), "");
    // a count equal to a unit's base skips that unit, strictly-greater scan
    assert_eq!(duration_to_human(1_000, 2), "1000ns");
}

#[test]
fn human_form_budget_shrinks_on_small_pieces() {
    // a piece below 11 spends the budget; with a budget of one the scan
    // stops right after it
    assert_eq!(duration_to_human(5, 1), "5ns");
    assert_eq!(duration_to_human(2_000_000_005, 1), "2s5ns");
}

#[test]
fn display_form_counts_pieces() {
    assert_eq!(duration_display(1_234_567_890, 2), "1s234ms");
    assert_eq!(duration_display(1_234_567_890, 3), "1s234ms567u");
    assert_eq!(duration_display(1_234_567_890, 1), "1s");
    assert_eq!(duration_display(42, 2), "42ns");
    assert_eq!(duration_display(0, 2), "");
}

#[test]
fn error_text_becomes_one_line() {
    assert_eq!(single_line_error("plain"), "plain");
    assert_eq!(single_line_error("a\nb"), "a b");
    // a newline plus three indent spaces collapses to one space
    assert_eq!(single_line_error("cause:\n   inner"), "cause: inner");
    // two indent runs collapse independently
    assert_eq!(single_line_error("x        y"), "x  y");
    assert_eq!(single_line_error(""), "");
}
