use ip_bypass_plus_frag::addr::{IpAddr, Ipv4Addr, Ipv6Addr};
use ip_bypass_plus_frag::config::Config;
use ip_bypass_plus_frag::flow::{BypassOutcome, FlowKey, FlowState};
use ip_bypass_plus_frag::proxy::{
    active_target, client_write, configured_relay_max_lifetime, current_bypass_progress,
    listen_text, method_segments_first_client_hello, pool_target, route, upstream_flow_key,
    BypassProgress, ConnectionSettings, IpPool, IpPoolEntry, Route, Target, CONNECT_PORT,
};

fn v4(n: u32) -> IpAddr {
    IpAddr::V4(Ipv4Addr { bits: n })
}

fn pool(n: u32) -> IpPool {
    IpPool::new((1..=n).map(|i| IpPoolEntry { ip: v4(i), score: i as u8 }).collect())
}

fn defaults() -> Config {
    Config::with_defaults("127.0.0.1".to_string(), 40443)
}

#[test]
fn pool_goes_round() {
    let mut pool = pool(3);
    assert_eq!(pool.len(), 3);
    assert_eq!(pool.entries()[2], IpPoolEntry { ip: v4(3), score: 3 });
    let seen: Vec<Option<IpAddr>> = (0..7).map(|_| pool.next()).collect();
    assert_eq!(
        seen,
        vec![1, 2, 3, 1, 2, 3, 1].into_iter().map(|i| Some(v4(i))).collect::<Vec<_>>()
    );
}

#[test]
fn empty_pool_has_no_turn() {
    let mut pool = pool(0);
    assert_eq!(pool.next(), None);
    assert_eq!(pool_target(&mut pool), Target::PoolEmpty);
}

#[test]
fn pool_targets_are_ipv4() {
    let v6 = Ipv6Addr { bits: 1 };
    let mut pool = IpPool::new(vec![
        IpPoolEntry { ip: IpAddr::V6(v6), score: 1 },
        IpPoolEntry { ip: v4(9), score: 1 },
    ]);
    assert_eq!(pool_target(&mut pool), Target::PoolIpv6(v6));
    assert_eq!(pool_target(&mut pool), Target::Connect(Ipv4Addr { bits: 9 }));
    assert_eq!(active_target(v4(4)), Target::Connect(Ipv4Addr { bits: 4 }));
    assert_eq!(active_target(IpAddr::V6(v6)), Target::ActiveIpv6(v6));
}

#[test]
fn settings_follow_the_configuration() {
    let mut cfg = defaults();
    let settings = ConnectionSettings::from_config(&cfg).unwrap();
    assert_eq!(settings.bypass_timeout, 20);
    assert_eq!(settings.max_lifetime, None);
    assert!(!settings.segment_first_client_hello);
    cfg.RELAY_MAX_LIFETIME_SECS = 30;
    cfg.BYPASS_METHOD = "tls_record_frag".to_string();
    assert_eq!(configured_relay_max_lifetime(&cfg), Some(30));
    let settings = ConnectionSettings::from_config(&cfg).unwrap();
    assert_eq!(settings.max_lifetime, Some(30));
    assert!(settings.segment_first_client_hello);
    cfg.TLS_FRAG_PACKETS = "x".to_string();
    assert_eq!(
        ConnectionSettings::from_config(&cfg).unwrap_err().message,
        "TLS_FRAG_PACKETS is invalid: 'x' is not a valid packet index"
    );
}

#[test]
fn routes_go_by_method() {
    let mut cfg = defaults();
    assert_eq!(route(&cfg), Route::Segment);
    cfg.BYPASS_METHOD = "tls_record_frag".to_string();
    assert_eq!(route(&cfg), Route::Intercept);
    assert!(method_segments_first_client_hello("tls_record_frag"));
    assert!(!method_segments_first_client_hello("tls_frag"));
}

#[test]
fn progress_prefers_the_outcome() {
    let mut flow = FlowState::new();
    assert_eq!(current_bypass_progress(&flow), None);
    flow.waiting_for_data = true;
    assert_eq!(current_bypass_progress(&flow), Some(BypassProgress::ReadyForData));
    flow.outcome = Some(BypassOutcome::FakeDataAcked);
    assert_eq!(
        current_bypass_progress(&flow),
        Some(BypassProgress::Complete(BypassOutcome::FakeDataAcked))
    );
}

#[test]
fn upstream_flows_go_to_the_tls_port() {
    let a = Ipv4Addr { bits: 1 };
    let b = Ipv4Addr { bits: 2 };
    assert_eq!(CONNECT_PORT, 443);
    assert_eq!(
        upstream_flow_key(a, 5000, b),
        FlowKey { src_ip: a, src_port: 5000, dst_ip: b, dst_port: 443 }
    );
}

#[test]
fn listening_address_is_written_out() {
    assert_eq!(listen_text(&defaults()), "127.0.0.1:40443");
}

#[test]
fn client_data_is_what_was_read() {
    assert_eq!(client_write(vec![1, 2, 3, 0, 0], 3), Some(vec![1, 2, 3]));
    assert_eq!(client_write(vec![0; 4], 0), None);
}
