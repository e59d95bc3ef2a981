use ccp_copa::rtt_window::RTTWindow;

#[test]
fn empty_window_has_no_base_rtt() {
    let mut w = RTTWindow::new();
    assert_eq!(w.get_base_rtt(), u32::MAX);
    assert_eq!(w.get_srtt(), 0);
    assert_eq!(w.num_tcp_detect_samples(), 0);
    assert_eq!(w.len(), 0);
    assert!(!w.did_base_rtt_change());
    assert!(!w.tcp_detected());
}

#[test]
fn first_sample_sets_base_and_smoothed_rtt() {
    let mut w = RTTWindow::new();
    w.new_rtt_sample(16000, 5);
    assert_eq!(w.get_base_rtt(), 16000);
    assert_eq!(w.get_srtt(), 16000);
    assert_eq!(w.len(), 1);
    assert_eq!(w.num_tcp_detect_samples(), 1);
}

#[test]
fn change_flag_is_cleared_by_reading_it() {
    let mut w = RTTWindow::new();
    w.new_rtt_sample(16000, 5);
    assert!(w.did_base_rtt_change());
    assert!(!w.did_base_rtt_change());
    // A sample that is no smaller leaves the base RTT and the flag alone.
    w.new_rtt_sample(16000, 10);
    assert!(!w.did_base_rtt_change());
    w.new_rtt_sample(17000, 15);
    assert!(!w.did_base_rtt_change());
    assert_eq!(w.get_base_rtt(), 16000);
}

#[test]
fn smoothed_rtt_weighs_the_sample_by_a_sixteenth() {
    let mut w = RTTWindow::new();
    w.new_rtt_sample(16000, 1);
    w.new_rtt_sample(32000, 2);
    // (15 · 16000 + 32000) / 16
    assert_eq!(w.get_srtt(), 17000);
    w.new_rtt_sample(100, 3);
    // (15 · 17000 + 100) / 16 = 15943.75
    assert_eq!(w.get_srtt(), 15943);
}

#[test]
fn base_rtt_drop() {
    let mut w = RTTWindow::new();
    let mut now: u64 = 0;
    while now < 1_000_000 {
        now += 25_000;
        w.new_rtt_sample(50_000, now);
        assert_eq!(w.get_base_rtt(), 50_000);
        assert_eq!(w.did_base_rtt_change(), now == 25_000);
    }
    now += 25_000;
    w.new_rtt_sample(30_000, now);
    assert_eq!(w.get_base_rtt(), 30_000);
    assert!(w.did_base_rtt_change());
    assert!(!w.did_base_rtt_change());
}

#[test]
fn history_is_thirty_smoothed_rtts() {
    // With every RTT 50 ms the smoothed RTT is 50 ms, and history reaches
    // 1.5 s back: 60 samples spaced 25 ms, and the newest.
    let mut w = RTTWindow::new();
    for k in 1..=200u64 {
        w.new_rtt_sample(50_000, 25_000 * k);
        let expected = if k <= 61 { k } else { 61 };
        assert_eq!(w.len() as u64, expected);
        assert_eq!(w.get_base_rtt(), 50_000);
    }
}

#[test]
fn history_is_at_most_ten_seconds() {
    // Thirty smoothed RTTs of 1 s would be 30 s: the bound of 10 s holds.
    let mut w = RTTWindow::new();
    for k in 1..=30u64 {
        w.new_rtt_sample(1_000_000, 1_000_000 * k);
        let expected = if k <= 11 { k } else { 11 };
        assert_eq!(w.len() as u64, expected);
    }
}

#[test]
fn the_one_sample_left_is_never_dropped() {
    let mut w = RTTWindow::new();
    w.new_rtt_sample(1000, 0);
    // The smoothed RTT is 1 ms, so history reaches 30 ms back; the next
    // sample comes a minute later and drops the first.
    w.new_rtt_sample(1000, 60_000_000);
    assert_eq!(w.len(), 1);
    // A sample with an older time is itself the newest: it stays, and
    // the one before it, though stale, is at the head and goes.
    w.new_rtt_sample(2000, 70_000_000);
    assert_eq!(w.len(), 1);
    assert_eq!(w.get_base_rtt(), 2000);
}

#[test]
fn base_rtt_is_found_anew_when_its_sample_leaves() {
    // RTTs of 1000 and 1010 keep the smoothed RTT at 1000, so history is
    // 30 ms. The first sample leaves once a sample comes more than 30 ms
    // after it.
    let mut w = RTTWindow::new();
    w.new_rtt_sample(1000, 0);
    assert!(w.did_base_rtt_change());
    for k in 1..=3u64 {
        w.new_rtt_sample(1010, 10_000 * k);
        assert_eq!(w.get_srtt(), 1000);
        assert_eq!(w.get_base_rtt(), 1000);
        assert_eq!(w.len() as u64, k + 1);
        assert!(!w.did_base_rtt_change());
    }
    w.new_rtt_sample(1010, 40_000);
    assert_eq!(w.len(), 4);
    assert_eq!(w.get_base_rtt(), 1010);
    assert!(w.did_base_rtt_change());
    assert!(!w.did_base_rtt_change());
}

#[test]
fn flag_is_set_when_a_sample_equal_to_the_base_leaves() {
    // Every RTT is the base RTT. When the oldest leaves, the base RTT is
    // found anew, and the flag says so though the value is the same.
    let mut w = RTTWindow::new();
    w.new_rtt_sample(1000, 0);
    assert!(w.did_base_rtt_change());
    w.new_rtt_sample(1000, 20_000);
    assert!(!w.did_base_rtt_change());
    w.new_rtt_sample(1000, 40_000);
    assert_eq!(w.len(), 2);
    assert_eq!(w.get_base_rtt(), 1000);
    assert!(w.did_base_rtt_change());
}

#[test]
fn probe_counts_follow_the_retained_probes() {
    // The base RTT is 1 ms, so a probe closes whenever more than 2 ms have
    // passed: here with every sample. The first probe counts as a rise.
    let mut w = RTTWindow::new();
    w.new_rtt_sample(1000, 0);
    assert_eq!((w.get_num_increase(), w.get_num_decrease()), (1, 0));
    // Minimum of the probe just ended: 1000; of the one before: none.
    w.new_rtt_sample(1010, 10_000);
    assert_eq!((w.get_num_increase(), w.get_num_decrease()), (1, 1));
    // 1010 against 1000: a rise.
    w.new_rtt_sample(1010, 20_000);
    assert_eq!((w.get_num_increase(), w.get_num_decrease()), (2, 1));
    // 1010 against 1010: none.
    w.new_rtt_sample(1005, 30_000);
    assert_eq!((w.get_num_increase(), w.get_num_decrease()), (2, 2));
    // 1005 against 1010: none.
    w.new_rtt_sample(1005, 40_000);
    assert_eq!((w.get_num_increase(), w.get_num_decrease()), (2, 3));
    assert_eq!(w.num_tcp_detect_samples(), 5);
}

#[test]
fn no_probe_closes_within_two_base_rtts() {
    let mut w = RTTWindow::new();
    w.new_rtt_sample(50_000, 1_000);
    assert_eq!(w.num_tcp_detect_samples(), 1);
    // Exactly two base RTTs after the last probe: not yet.
    w.new_rtt_sample(50_000, 101_000);
    assert_eq!(w.num_tcp_detect_samples(), 1);
    w.new_rtt_sample(50_000, 101_001);
    assert_eq!(w.num_tcp_detect_samples(), 2);
}

#[test]
fn at_most_forty_probes_are_kept() {
    let mut w = RTTWindow::new();
    for k in 0..100u64 {
        // RTTs rise and fall in turn, so that rises and others both occur.
        let rtt: u32 = if k % 4 < 2 { 1000 } else { 1010 };
        w.new_rtt_sample(rtt, 10_000 * k);
        let expected = if k < 40 { k + 1 } else { 40 };
        assert_eq!(w.num_tcp_detect_samples() as u64, expected);
        assert_eq!(
            w.get_num_increase() + w.get_num_decrease(),
            w.num_tcp_detect_samples()
        );
    }
    // Of any four probes in a row one is a rise (1010 after 1000), but for
    // the first, which counts as one too and has left by now.
    assert_eq!((w.get_num_increase(), w.get_num_decrease()), (10, 30));
}

#[test]
fn standing_queue_is_detected() {
    // One sample at the base RTT of 50 ms, then RTTs of 100 and 150 ms in
    // turn: the smoothed RTT settles near 125 ms.
    let mut w = RTTWindow::new();
    w.new_rtt_sample(50_000, 0);
    let mut k: u64 = 0;
    while 25_000 * k < 500_000 {
        k += 1;
        let rtt: u32 = if k % 2 == 0 { 100_000 } else { 150_000 };
        w.new_rtt_sample(rtt, 25_000 * k);
    }
    // The base sample is still within ten smoothed RTTs of the newest.
    assert_eq!(w.get_base_rtt(), 50_000);
    assert!(!w.tcp_detected());
    while 25_000 * k < 2_000_000 {
        k += 1;
        let rtt: u32 = if k % 2 == 0 { 100_000 } else { 150_000 };
        w.new_rtt_sample(rtt, 25_000 * k);
    }
    // Now it is not, but it is retained: the smallest recent RTT, 100 ms,
    // lies above 50 ms + (150 ms - 50 ms) / 10 + 100 us.
    assert_eq!(w.get_base_rtt(), 50_000);
    assert!(w.num_tcp_detect_samples() >= 10);
    assert!(w.tcp_detected());
    while 25_000 * k < 5_000_000 {
        k += 1;
        let rtt: u32 = if k % 2 == 0 { 100_000 } else { 150_000 };
        w.new_rtt_sample(rtt, 25_000 * k);
    }
    // The base sample has left: against a base RTT of 100 ms nothing queues.
    assert_eq!(w.get_base_rtt(), 100_000);
    assert!(!w.tcp_detected());
}

#[test]
fn detection_threshold_is_exact() {
    // Base RTT 1000, recent RTTs up to 2000: the threshold is
    // 1000 + (2000 - 1000) / 10 + 100 = 1200.
    let mut at = RTTWindow::new();
    at.new_rtt_sample(1000, 0);
    at.new_rtt_sample(2000, 21_000);
    at.new_rtt_sample(1200, 22_000);
    assert_eq!(at.get_base_rtt(), 1000);
    assert!(!at.tcp_detected());

    let mut above = RTTWindow::new();
    above.new_rtt_sample(1000, 0);
    above.new_rtt_sample(2000, 21_000);
    above.new_rtt_sample(1201, 22_000);
    assert_eq!(above.get_base_rtt(), 1000);
    assert!(above.tcp_detected());
}

#[test]
fn horizon_includes_its_first_instant() {
    // The smoothed RTT stays 1000, so the horizon is 10 ms. A sample taken
    // exactly 10 ms before the newest is within it.
    let mut w = RTTWindow::new();
    w.new_rtt_sample(1000, 10_000);
    w.new_rtt_sample(1015, 15_000);
    w.new_rtt_sample(1015, 20_000);
    assert_eq!(w.get_srtt(), 1000);
    assert!(!w.tcp_detected());
    // One microsecond later it is not: 1015 > 1000 + (1015 - 1000) / 10 + 100
    // does not hold either, so take a larger queue.
    let mut v = RTTWindow::new();
    v.new_rtt_sample(1000, 10_000);
    v.new_rtt_sample(1500, 15_000);
    v.new_rtt_sample(1500, 20_000);
    // (15 · 1000 + 1500) / 16 = 1031, then (15 · 1031 + 1500) / 16 = 1060:
    // the horizon starts at 20000 - 10600 = 9400, and the base sample is in.
    assert_eq!(v.get_srtt(), 1060);
    assert!(!v.tcp_detected());
    v.new_rtt_sample(1500, 21_000);
    // (15 · 1060 + 1500) / 16 = 1087: the horizon starts at 10130, the base
    // sample is out, and 1500 > 1000 + 500 / 10 + 100.
    assert_eq!(v.get_srtt(), 1087);
    assert!(v.tcp_detected());
}

#[test]
fn samples_of_zero_do_not_panic() {
    let mut w = RTTWindow::new();
    w.new_rtt_sample(0, 0);
    w.new_rtt_sample(0, 0);
    w.new_rtt_sample(5, u64::MAX);
    w.new_rtt_sample(u32::MAX, 3);
    assert_eq!(w.get_base_rtt(), w.get_base_rtt());
    let _ = w.tcp_detected();
    assert!(w.len() >= 1);
}
