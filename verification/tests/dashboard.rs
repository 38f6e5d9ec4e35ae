use ip_bypass_plus_frag::addr::{IpAddr, Ipv4Addr, Ipv6Addr, SocketAddr};
use ip_bypass_plus_frag::dashboard::{
    connection_display_rank, connection_row_style, find_record, prune_connection_records,
    traffic_direction, visible_rows, ConnStatus, ConnectionRecord, DashboardInfo, DashboardState,
    FilterStatus, IpRow, RateSample, Snapshot, Tally, TrafficDirection, MAX_RECORDS,
};
use ip_bypass_plus_frag::flow::BypassOutcome;
use ip_bypass_plus_frag::format::Span;
use ip_bypass_plus_frag::menu::Key;
use ip_bypass_plus_frag::proxy::{IpPoolEntry, ProxyEvent, RelayEndReason};
use ip_bypass_plus_frag::scan::Color;

const SECOND: u64 = 1_000_000_000;

fn ip(n: u32) -> IpAddr {
    IpAddr::V4(Ipv4Addr { bits: n })
}

fn accepted(src_port: u16, upstream: u32) -> ProxyEvent {
    ProxyEvent::ConnectionAccepted {
        peer: SocketAddr { ip: ip(1), port: src_port },
        src_port,
        upstream_ip: ip(upstream),
    }
}

fn bypassed(src_port: u16) -> ProxyEvent {
    ProxyEvent::BypassComplete { src_port, outcome: BypassOutcome::FakeDataAcked }
}

fn failed(src_port: u16) -> ProxyEvent {
    ProxyEvent::BypassComplete { src_port, outcome: BypassOutcome::UnexpectedClose }
}

fn finished(src_port: u16, c2s_bytes: u64, s2c_bytes: u64, reason: RelayEndReason) -> ProxyEvent {
    ProxyEvent::RelayFinished { src_port, c2s_bytes, s2c_bytes, reason }
}

fn progress(src_port: u16, c2s_bytes: u64, s2c_bytes: u64) -> ProxyEvent {
    ProxyEvent::RelayProgress { src_port, c2s_bytes, s2c_bytes }
}

fn single() -> DashboardInfo {
    DashboardInfo::IpBypassPlus { ip: ip(9) }
}

fn pool() -> DashboardInfo {
    DashboardInfo::IpBypassPlusPool {
        active_ip: ip(7),
        pool: vec![
            IpPoolEntry { ip: ip(7), score: 70 },
            IpPoolEntry { ip: ip(8), score: 60 },
        ],
    }
}

fn record(port: u16, status: ConnStatus) -> ConnectionRecord {
    ConnectionRecord {
        started_at: 0,
        start_instant: 0,
        end_instant: None,
        src_port: port,
        peer: SocketAddr { ip: ip(1), port },
        upstream_ip: ip(9),
        status,
        status_changed_at: 0,
        c2s_bytes: 0,
        s2c_bytes: 0,
        rate: None,
        last_snapshot: None,
    }
}

fn ports(records: &[ConnectionRecord]) -> Vec<u16> {
    records.iter().map(|r| r.src_port).collect()
}

#[test]
fn view_starts_empty() {
    let state = DashboardState::new(&pool(), 5);
    assert_eq!(state.active_ip, Some(ip(7)));
    assert_eq!(state.pool_ips, vec![ip(7), ip(8)]);
    assert_eq!(state.start, 5);
    assert!(state.auto_scroll);
    assert_eq!(state.filter, FilterStatus::default());
    assert_eq!(state.title(), " ZeroDPI — Running ");
    assert!(DashboardState::new(&single(), 0).pool_ips.is_empty());
}

#[test]
fn connection_runs_its_course() {
    let mut state = DashboardState::new(&single(), 0);
    state.apply_event(&accepted(50, 9), 10, 1000);
    assert_eq!((state.total, state.active), (1, 1));
    let r = state.records[0];
    assert_eq!(r.status, ConnStatus::Connecting);
    assert_eq!((r.started_at, r.start_instant, r.end_instant), (1000, 10, None));
    state.apply_event(&bypassed(50), 20, 1000);
    assert_eq!(state.bypasses_ok, 1);
    assert_eq!(state.records[0].status, ConnStatus::Relaying);
    assert_eq!(state.records[0].status_changed_at, 20);
    state.apply_event(&progress(50, 100, 200), SECOND, 1000);
    assert_eq!(state.records[0].rate, None);
    assert_eq!(
        state.records[0].last_snapshot,
        Some(Snapshot { at: SECOND, c2s_bytes: 100, s2c_bytes: 200 })
    );
    state.apply_event(&progress(50, 150, 150), 2 * SECOND, 1000);
    assert_eq!(
        state.records[0].rate,
        Some(RateSample { c2s_bytes: 50, s2c_bytes: 0, nanos: SECOND })
    );
    assert_eq!(state.live_transfer_totals(), (150, 150));
    state.apply_event(&finished(50, 300, 400, RelayEndReason::Completed), 3 * SECOND, 1000);
    let r = state.records[0];
    assert_eq!(r.status, ConnStatus::Done);
    assert_eq!((r.c2s_bytes, r.s2c_bytes, r.rate), (300, 400, None));
    assert_eq!(r.end_instant, Some(3 * SECOND));
    assert_eq!((state.active, state.total_c2s, state.total_s2c), (0, 300, 400));
    assert_eq!(state.cumulative_conns.get(&ip(9)), 1);
    assert_eq!(state.cumulative_up.get(&ip(9)), 300);
    assert_eq!(state.cumulative_down.get(&ip(9)), 400);
    assert_eq!(state.live_transfer_totals(), (300, 400));
    assert_eq!(r.duration(99 * SECOND), Span::Seconds(3 * SECOND - 10));
}

#[test]
fn short_times_count_as_a_millisecond() {
    let mut state = DashboardState::new(&single(), 0);
    state.apply_event(&accepted(50, 9), 0, 0);
    state.apply_event(&progress(50, 10, 0), 1000, 0);
    state.apply_event(&progress(50, 30, 0), 1001, 0);
    assert_eq!(
        state.records[0].rate,
        Some(RateSample { c2s_bytes: 20, s2c_bytes: 0, nanos: 1_000_000 })
    );
}

#[test]
fn failures_are_counted() {
    let mut state = DashboardState::new(&single(), 0);
    state.apply_event(&accepted(1, 9), 0, 0);
    state.apply_event(&failed(1), 5, 0);
    assert_eq!((state.bypasses_failed, state.active), (1, 0));
    assert_eq!(state.records[0].status, ConnStatus::Failed);
    assert_eq!(state.records[0].end_instant, Some(5));
    let error = ProxyEvent::ConnectionError { src_port: 2, error: "x".to_string() };
    state.apply_event(&error, 6, 0);
    assert_eq!((state.bypasses_failed, state.active, state.total), (2, 0, 1));
    state.apply_event(&accepted(3, 9), 7, 0);
    state.apply_event(&finished(3, 0, 0, RelayEndReason::MaxLifetime), 8, 0);
    assert_eq!(state.records[0].status, ConnStatus::Rotated);
}

#[test]
fn counts_add_up_over_a_history() {
    let mut state = DashboardState::new(&pool(), 0);
    let error = ProxyEvent::ConnectionError { src_port: 53, error: "e".to_string() };
    let events = [
        accepted(50, 7),
        accepted(51, 8),
        bypassed(50),
        accepted(52, 7),
        failed(51),
        finished(50, 3, 4, RelayEndReason::Completed),
        accepted(53, 9),
        error,
        bypassed(52),
        ProxyEvent::IpTargetChanged { ip: ip(8) },
        accepted(54, 8),
    ];
    let mut before = (0, 0, 0, 0, 0);
    for event in &events {
        state.apply_event(event, 0, 0);
        let after = (
            state.total,
            state.bypasses_ok,
            state.bypasses_failed,
            state.total_c2s,
            state.total_s2c,
        );
        assert!(before.0 <= after.0 && before.1 <= after.1 && before.2 <= after.2);
        assert!(before.3 <= after.3 && before.4 <= after.4);
        before = after;
    }
    assert_eq!(before, (5, 2, 2, 3, 4));
    let of = |n| state.cumulative_conns.get(&ip(n));
    assert_eq!((of(7), of(8), of(9), of(6)), (2, 2, 1, 0));
}

#[test]
fn bytes_of_unknown_connections_count_in_total_only() {
    let mut state = DashboardState::new(&single(), 0);
    state.apply_event(&finished(77, 5, 6, RelayEndReason::Completed), 0, 0);
    assert_eq!((state.total_c2s, state.total_s2c), (5, 6));
    assert_eq!(state.cumulative_up.get(&ip(9)), 0);
}

#[test]
fn target_changes_are_taken_in() {
    let mut state = DashboardState::new(&single(), 0);
    let started = ProxyEvent::ListenerStarted {
        mode: "ip_bypass_plus".to_string(),
        listen_addr: SocketAddr { ip: ip(1), port: 1 },
    };
    state.apply_event(&started, 0, 0);
    assert_eq!(state.active_ip, Some(ip(9)));
    state.apply_event(&ProxyEvent::IpTargetChanged { ip: ip(4) }, 0, 0);
    assert_eq!(state.active_ip, Some(ip(4)));
}

#[test]
fn newest_connection_of_a_port_changes() {
    let mut state = DashboardState::new(&single(), 0);
    state.apply_event(&accepted(5, 8), 0, 0);
    state.apply_event(&accepted(6, 8), 0, 0);
    state.apply_event(&accepted(5, 9), 0, 0);
    state.apply_event(&bypassed(5), 0, 0);
    assert_eq!(ports(&state.records), vec![5, 6, 5]);
    assert_eq!(state.records[0].status, ConnStatus::Relaying);
    assert_eq!(state.records[2].status, ConnStatus::Connecting);
    assert_eq!(find_record(&state.records, 6), Some(1));
    assert_eq!(find_record(&state.records, 7), None);
}

#[test]
fn full_counters_refuse_events() {
    let mut state = DashboardState::new(&single(), 0);
    state.apply_event(&accepted(5, 9), 0, 0);
    assert!(state.can_take(&finished(5, u64::MAX, 0, RelayEndReason::Completed)));
    state.total_c2s = 1;
    assert!(!state.can_take(&finished(5, u64::MAX, 0, RelayEndReason::Completed)));
    assert!(state.can_take(&finished(5, 7, 7, RelayEndReason::Completed)));
    state.bypasses_ok = u64::MAX;
    assert!(!state.can_take(&bypassed(5)));
    assert!(state.can_take(&failed(5)));
    state.bypasses_failed = u64::MAX;
    assert!(!state.can_take(&failed(5)));
    state.total = u64::MAX;
    assert!(!state.can_take(&accepted(5, 9)));
}

#[test]
fn pruning_drops_the_oldest_that_are_over() {
    let mut records: Vec<ConnectionRecord> =
        (0..MAX_RECORDS as u16).map(|p| record(p, ConnStatus::Relaying)).collect();
    records.push(record(1000, ConnStatus::Done));
    records.push(record(1001, ConnStatus::Connecting));
    records[3].status = ConnStatus::Failed;
    prune_connection_records(&mut records);
    assert_eq!(records.len(), MAX_RECORDS);
    assert!(!ports(&records).contains(&1000));
    assert!(!ports(&records).contains(&3));
    assert!(ports(&records).contains(&1001));
    let mut active: Vec<ConnectionRecord> =
        (0..300u16).map(|p| record(p, ConnStatus::Connecting)).collect();
    prune_connection_records(&mut active);
    assert_eq!(active.len(), 300);
    let mut over: Vec<ConnectionRecord> =
        (0..300u16).map(|p| record(p, ConnStatus::Done)).collect();
    prune_connection_records(&mut over);
    assert_eq!(ports(&over), (0..200).collect::<Vec<u16>>());
}

#[test]
fn view_is_pruned_after_every_event() {
    let mut state = DashboardState::new(&single(), 0);
    for port in 0..250u16 {
        state.apply_event(&accepted(port, 9), 0, 0);
        state.apply_event(&failed(port), 0, 0);
    }
    assert_eq!(state.records.len(), MAX_RECORDS);
    assert_eq!(state.records[0].src_port, 249);
    assert_eq!(state.total, 250);
}

#[test]
fn relaying_connections_come_first() {
    let mut state = DashboardState::new(&single(), 0);
    state.records = vec![
        record(1, ConnStatus::Done),
        record(2, ConnStatus::Failed),
        record(3, ConnStatus::Relaying),
        record(4, ConnStatus::Connecting),
        record(5, ConnStatus::Relaying),
    ];
    state.records[1].status_changed_at = 3 * SECOND;
    assert_eq!(
        ports(&state.ordered_connection_records(5 * SECOND)),
        vec![3, 5, 2, 1, 4]
    );
    assert_eq!(connection_display_rank(&state.records[0], 4 * SECOND - 1), 1);
    assert_eq!(connection_display_rank(&state.records[0], 4 * SECOND), 2);
    state.filter = FilterStatus::Failed;
    assert_eq!(ports(&state.ordered_connection_records(0)), vec![2]);
    state.filter = FilterStatus::All;
    state.pool_ips = vec![ip(8)];
    assert!(state.ordered_connection_records(0).is_empty());
    state.records[4].upstream_ip = ip(8);
    assert_eq!(ports(&state.ordered_connection_records(0)), vec![5]);
}

#[test]
fn filters_follow_each_other_and_match() {
    let all = FilterStatus::All;
    assert_eq!(all.next(), FilterStatus::Active);
    assert_eq!(all.next().next(), FilterStatus::Done);
    assert_eq!(all.next().next().next(), FilterStatus::Failed);
    assert_eq!(all.next().next().next().next(), all);
    assert_eq!(FilterStatus::Active.label(), "Active");
    assert_eq!(all.label(), "All");
    assert!(FilterStatus::Active.matches(&ConnStatus::Connecting));
    assert!(!FilterStatus::Active.matches(&ConnStatus::Done));
    assert!(FilterStatus::Done.matches(&ConnStatus::Rotated));
    assert!(FilterStatus::Failed.matches(&ConnStatus::Failed));
    assert!(all.matches(&ConnStatus::Failed));
}

#[test]
fn statuses_have_labels_and_colours() {
    for (status, label, color) in [
        (ConnStatus::Connecting, "Connecting", Color::Yellow),
        (ConnStatus::Relaying, "Relaying", Color::Cyan),
        (ConnStatus::Done, "Done", Color::Green),
        (ConnStatus::Rotated, "Rotated", Color::Magenta),
        (ConnStatus::Failed, "Failed", Color::Red),
    ] {
        assert_eq!(status.label(), label);
        assert_eq!(status.style(), color);
    }
}

#[test]
fn directions_and_backgrounds() {
    let relaying = ConnStatus::Relaying;
    assert_eq!(traffic_direction(&ConnStatus::Done, true, true), None);
    assert_eq!(traffic_direction(&relaying, true, true), Some(TrafficDirection::Bidirectional));
    assert_eq!(traffic_direction(&relaying, true, false), Some(TrafficDirection::Upload));
    assert_eq!(traffic_direction(&relaying, false, true), Some(TrafficDirection::Download));
    assert_eq!(traffic_direction(&relaying, false, false), Some(TrafficDirection::Idle));
    let r = record(1, relaying);
    assert_eq!(connection_row_style(&r, true, false), Some(22));
    assert_eq!(connection_row_style(&r, false, true), Some(24));
    assert_eq!(connection_row_style(&r, true, true), Some(29));
    assert_eq!(connection_row_style(&r, false, false), None);
    assert_eq!(connection_row_style(&record(1, ConnStatus::Connecting), false, false), Some(58));
    assert_eq!(connection_row_style(&record(1, ConnStatus::Failed), true, true), Some(52));
    assert_eq!(connection_row_style(&record(1, ConnStatus::Done), true, true), None);
}

#[test]
fn rows_show_what_each_address_carried() {
    let info = pool();
    let mut state = DashboardState::new(&info, 0);
    state.apply_event(&accepted(1, 7), 0, 0);
    state.apply_event(&accepted(2, 7), 0, 0);
    state.apply_event(&accepted(3, 8), 0, 0);
    state.apply_event(&finished(3, 10, 20, RelayEndReason::Completed), 0, 0);
    assert_eq!(
        state.ip_rows(&info),
        vec![
            IpRow {
                ip: ip(7),
                score: 70,
                connections: 2,
                up_bytes: 0,
                down_bytes: 0,
                current: true,
            },
            IpRow {
                ip: ip(8),
                score: 60,
                connections: 1,
                up_bytes: 10,
                down_bytes: 20,
                current: false,
            },
        ]
    );
    let info = single();
    let mut state = DashboardState::new(&info, 0);
    assert_eq!(state.ip_rows(&info)[0].ip, ip(9));
    state.active_ip = None;
    assert_eq!(state.ip_rows(&info)[0].ip, ip(0));
    assert!(!state.ip_rows(&info)[0].current);
    assert_eq!(DashboardState::table_title(2), " IP Stats — 2 IPs round-robin ");
    assert_eq!(DashboardState::pool_label(10), "10 (round-robin)");
    state.channel_closed = true;
    assert_eq!(state.title(), " ZeroDPI — Stopped ");
}

#[test]
fn tallies_keep_families_apart() {
    let mut tally = Tally::new();
    tally.increase(ip(1), 5);
    tally.increase(IpAddr::V6(Ipv6Addr { bits: 1 }), 7);
    tally.increase(ip(1), 6);
    assert_eq!(tally.get(&ip(1)), 11);
    assert_eq!(tally.get(&IpAddr::V6(Ipv6Addr { bits: 1 })), 7);
    assert_eq!(tally.get(&ip(2)), 0);
}

#[test]
fn keys_scroll_the_view() {
    let mut state = DashboardState::new(&single(), 0);
    state.records = (0..30u16).map(|p| record(p, ConnStatus::Done)).collect();
    assert!(!state.on_key(Key::Down, 10));
    assert_eq!((state.scroll_offset, state.auto_scroll), (1, false));
    state.on_key(Key::PageDown, 10);
    assert_eq!(state.scroll_offset, 11);
    state.on_key(Key::PageDown, 100);
    assert_eq!(state.scroll_offset, 29);
    state.on_key(Key::Char('j'), 10);
    assert_eq!(state.scroll_offset, 29);
    state.on_key(Key::Char('k'), 10);
    assert_eq!(state.scroll_offset, 28);
    state.on_key(Key::PageUp, 10);
    assert_eq!(state.scroll_offset, 18);
    state.on_key(Key::Home, 10);
    assert_eq!(state.scroll_offset, 0);
    state.on_key(Key::Up, 10);
    assert_eq!(state.scroll_offset, 0);
    state.on_key(Key::End, 10);
    assert_eq!(state.scroll_offset, 29);
    state.on_key(Key::Char('a'), 10);
    assert_eq!((state.scroll_offset, state.auto_scroll), (0, true));
    state.on_key(Key::Char(' '), 10);
    assert!(!state.auto_scroll);
    state.scroll_offset = 4;
    state.on_key(Key::Tab, 10);
    assert_eq!((state.filter, state.scroll_offset), (FilterStatus::Active, 0));
    assert_eq!(state.filtered_len(), 0);
    state.on_key(Key::End, 10);
    assert_eq!(state.scroll_offset, 0);
    state.on_key(Key::Other, 10);
    assert_eq!(state.filter, FilterStatus::Active);
}

#[test]
fn keys_leave_the_view() {
    let mut state = DashboardState::new(&single(), 0);
    for key in [Key::Char('q'), Key::Char('Q'), Key::Esc, Key::Control('c')] {
        assert!(state.on_key(key, 10));
    }
    assert!(!state.on_key(Key::Char('c'), 10));
}

#[test]
fn view_follows_new_events() {
    let mut state = DashboardState::new(&single(), 0);
    state.scroll_offset = 3;
    state.follow(false);
    assert_eq!(state.scroll_offset, 3);
    state.follow(true);
    assert_eq!(state.scroll_offset, 0);
    state.scroll_offset = 3;
    state.auto_scroll = false;
    state.follow(true);
    assert_eq!(state.scroll_offset, 3);
}

#[test]
fn rows_fit_the_screen() {
    assert_eq!(visible_rows(None), 10);
    assert_eq!(visible_rows(Some(5)), 1);
    assert_eq!(visible_rows(Some(15)), 1);
    assert_eq!(visible_rows(Some(40)), 26);
}
