use latency_probe::stat::Stat;

#[test]
fn accumulates_count_sum_and_max() {
    let mut stat = Stat::new();
    let times = [5u64, 10, 7];
    for t in times {
        stat.update(t);
    }
    let (echos, tot, max) = stat.snap_shot();
    assert_eq!(echos, 3);
    assert_eq!(tot, 22);
    assert_eq!(max, 10);
    // the snapshot reset everything as one unit
    assert_eq!(stat.echos(), 0);
    assert_eq!(stat.tot_time_ns(), 0);
    assert_eq!(stat.max_time_ns(), 0);
}

#[test]
fn second_snapshot_reports_no_data() {
    let mut stat = Stat::new();
    stat.update(100);
    let first = stat.snap_shot();
    assert_eq!(first, (1, 100, 100));
    let second = stat.snap_shot();
    assert_eq!(second, (0, 0, 0));
}

#[test]
fn max_needs_strict_increase() {
    let mut stat = Stat::new();
    stat.update(5);
    stat.update(5);
    stat.update(4);
    let (echos, tot, max) = stat.snap_shot();
    assert_eq!(echos, 3);
    assert_eq!(tot, 14);
    assert_eq!(max, 5);
}

#[test]
fn getters_match_updates() {
    let mut stat = Stat::new();
    stat.update(8);
    stat.update(2);
    assert_eq!(stat.echos(), 2);
    assert_eq!(stat.tot_time_ns(), 10);
    assert_eq!(stat.max_time_ns(), 8);
}
