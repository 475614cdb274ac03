use rustler_core::socket::stats::ServerStats;

#[test]
fn new_stats_start_at_zero() {
    let stats = ServerStats::new();
    assert_eq!(stats.total_clients(), 0);
    assert_eq!(stats.current_clients(), 0);
}

#[test]
fn accepting_counts_in_both_counters() {
    let mut stats = ServerStats::new();
    stats.inc_current_clients();
    stats.inc_current_clients();
    assert_eq!(stats.current_clients(), 2);
    assert_eq!(stats.total_clients(), 2);
}

#[test]
fn leaving_keeps_the_total() {
    let mut stats = ServerStats::new();
    stats.inc_current_clients();
    stats.inc_current_clients();
    stats.dec_current_clients();
    assert_eq!(stats.current_clients(), 1);
    assert_eq!(stats.total_clients(), 2);
}

#[test]
fn leaving_below_zero_wraps_around() {
    let mut stats = ServerStats::new();
    stats.dec_current_clients();
    assert_eq!(stats.current_clients(), u64::MAX);
    assert_eq!(stats.total_clients(), 0);
}
