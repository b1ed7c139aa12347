use saf_relay::liveness::{AverageLatency, LivenessConfig, LivenessState, MetadataKey};

#[test]
fn state_new() {
    let state = LivenessState::new();
    assert_eq!(state.pings_received(), 0);
    assert_eq!(state.pongs_received(), 0);
    assert_eq!(state.pings_sent(), 0);
    assert_eq!(state.pongs_sent(), 0);
}

#[test]
fn getters() {
    let mut state = LivenessState::new();
    for _ in 0..5 {
        state.inc_pings_received();
    }
    assert_eq!(state.pings_received(), 5);
    assert_eq!(state.pongs_received(), 0);
    assert_eq!(state.pings_sent(), 0);
    assert_eq!(state.pongs_sent(), 0);
}

#[test]
fn inc_pings_sent() {
    let mut state = LivenessState::new();
    assert_eq!(state.pings_sent(), 0);
    assert_eq!(state.inc_pings_sent(), 0);
    assert_eq!(state.pings_sent(), 1);
}

#[test]
fn inc_pongs_sent() {
    let mut state = LivenessState::new();
    assert_eq!(state.pongs_sent(), 0);
    assert_eq!(state.inc_pongs_sent(), 0);
    assert_eq!(state.pongs_sent(), 1);
}

#[test]
fn inc_pings_received() {
    let mut state = LivenessState::new();
    assert_eq!(state.pings_received(), 0);
    assert_eq!(state.inc_pings_received(), 0);
    assert_eq!(state.pings_received(), 1);
}

#[test]
fn inc_pongs_received() {
    let mut state = LivenessState::new();
    assert_eq!(state.pongs_received(), 0);
    assert_eq!(state.inc_pongs_received(), 0);
    assert_eq!(state.pongs_received(), 1);
}

#[test]
fn record_pong() {
    let mut state = LivenessState::new();

    let node_id = vec![0u8; 13];
    state.add_inflight_ping(node_id.clone());

    let latency = state.record_pong(&node_id).unwrap();
    assert!(latency < 5);
}

#[test]
fn set_pong_metadata_entry() {
    let mut state = LivenessState::new();
    state.set_pong_metadata_entry(MetadataKey::ChainMetadata, b"dummy-data".to_vec());
    assert_eq!(
        state.pong_metadata().get(&(MetadataKey::ChainMetadata as i32)).unwrap(),
        b"dummy-data"
    );
}

#[test]
fn record_pong_at_gives_elapsed_latency() {
    let mut state = LivenessState::new();
    let node_id = vec![7u8; 13];
    state.add_inflight_ping_at(node_id.clone(), 1_000);
    assert_eq!(state.record_pong_at(&node_id, 1_250), Some(250));
    assert_eq!(state.get_avg_latency_ms(&node_id), Some(250));
    state.add_inflight_ping_at(node_id.clone(), 2_000);
    assert_eq!(state.record_pong_at(&node_id, 2_050), Some(150));
    assert_eq!(state.pongs_received(), 2);
}

#[test]
fn record_pong_without_ping_counts_only() {
    let mut state = LivenessState::new();
    let node_id = vec![7u8; 13];
    assert_eq!(state.record_pong_at(&node_id, 10), None);
    assert_eq!(state.pongs_received(), 1);
    assert_eq!(state.get_avg_latency_ms(&node_id), None);
}

#[test]
fn stale_inflight_pings_are_forgotten() {
    let mut state = LivenessState::new();
    let old = vec![1u8; 13];
    let new = vec![2u8; 13];
    state.add_inflight_ping_at(old.clone(), 0);
    state.add_inflight_ping_at(new.clone(), 20_001);
    assert_eq!(state.record_pong_at(&old, 20_002), None);
    assert_eq!(state.record_pong_at(&new, 20_011), Some(10));
}

#[test]
fn average_latency_empty_is_zero() {
    let avg = AverageLatency::new(3);
    assert_eq!(avg.calc_average(), 0);
}

#[test]
fn average_latency_mean_rounds_down() {
    let mut avg = AverageLatency::new(3);
    avg.add_sample(10);
    avg.add_sample(21);
    assert_eq!(avg.calc_average(), 15);
}

#[test]
fn average_latency_window_drops_oldest() {
    let mut avg = AverageLatency::new(2);
    avg.add_sample(100);
    avg.add_sample(10);
    avg.add_sample(20);
    assert_eq!(avg.calc_average(), 15);
}

#[test]
fn average_latency_caps_samples() {
    let mut avg = AverageLatency::new(2);
    avg.add_sample(u64::MAX);
    avg.add_sample(u64::MAX);
    assert_eq!(avg.calc_average(), u32::MAX);
}

#[test]
fn average_latency_zero_window_keeps_nothing() {
    let mut avg = AverageLatency::new(0);
    avg.add_sample(5);
    assert_eq!(avg.calc_average(), 0);
}

#[test]
fn liveness_config_default() {
    let config = LivenessConfig::default();
    assert_eq!(config.auto_ping_interval, None);
    assert!(config.enable_auto_join);
    assert!(config.enable_auto_stored_message_request);
}
