use latency_probe::codec::{decode, encode, server_step, TimePacket};
use latency_probe::reporter::{reporter_tick, TickOutcome};
use latency_probe::round::client_round;
use latency_probe::stat::Stat;

// Five probe rounds through the codec and the accumulator, the wire work
// simulated in place of sockets: the snapshot counts all five, its maximum
// covers every elapsed time, and the average is a valid non-negative value.
#[test]
fn five_rounds_end_to_end() {
    let mut stat = Stat::new();
    let elapsed = [3_000_000u64, 9_000_000, 4_000_000, 7_000_000, 2_000_000];
    let info = 5_000_000u64;
    let warn = 8_000_000u64;
    let mut breaches = 0;
    for (i, e) in elapsed.iter().enumerate() {
        // client sends a probe...
        let sent = TimePacket { send_time: 1000 + i as u64, resp_time: None };
        let wire = encode(&sent);
        // ...the server echoes it with a response stamp...
        let echoed_wire = server_step(&wire, 2000 + i as u64).unwrap();
        let echoed = decode(&echoed_wire).unwrap();
        assert_eq!(echoed.send_time, sent.send_time);
        assert_eq!(echoed.resp_time, Some(2000 + i as u64));
        // ...and the client records the locally measured elapsed time
        if client_round(&mut stat, *e, info, warn).is_some() {
            breaches += 1;
        }
    }
    assert_eq!(breaches, 2);
    let (echos, tot, max) = stat.snap_shot();
    assert_eq!(echos, 5);
    for e in elapsed {
        assert!(max >= e);
    }
    assert_eq!(tot, 25_000_000);
    let avg = tot / 5;
    assert_eq!(avg, 5_000_000);
    // the reporter turns the same snapshot into one report line
    let tick = reporter_tick(false, echos, tot, max, 1_000_000_000);
    assert_eq!(
        tick,
        TickOutcome::Report { echos: 5, rate_milli: 5000, max_time_ns: 9_000_000, avg_time_ns: 5_000_000 }
    );
}
