use latency_probe::round::{classify, client_round, Breach};
use latency_probe::stat::Stat;

#[test]
fn thresholds_are_strict() {
    let info = 1_000_000_000u64;
    let warn = 15_000_000_000u64;
    // exactly at a threshold earns nothing from it
    assert_eq!(classify(info, info, warn), None);
    assert_eq!(classify(warn, info, warn), Some(Breach::Info));
    // one nanosecond above does
    assert_eq!(classify(info + 1, info, warn), Some(Breach::Info));
    assert_eq!(classify(warn + 1, info, warn), Some(Breach::Warn));
    assert_eq!(classify(0, info, warn), None);
}

#[test]
fn client_round_records_and_classifies() {
    let mut stat = Stat::new();
    let breach = client_round(&mut stat, 2_000_000_000, 1_000_000_000, 15_000_000_000);
    assert_eq!(breach, Some(Breach::Info));
    let breach = client_round(&mut stat, 20_000_000_000, 1_000_000_000, 15_000_000_000);
    assert_eq!(breach, Some(Breach::Warn));
    let breach = client_round(&mut stat, 500, 1_000_000_000, 15_000_000_000);
    assert_eq!(breach, None);
    let (echos, tot, max) = stat.snap_shot();
    assert_eq!(echos, 3);
    assert_eq!(tot, 22_000_000_500);
    assert_eq!(max, 20_000_000_000);
}
