//! The control loop's gate order, the time-sync latch, and the
//! end-to-end tick scenario.

use sensor_node::link::LinkState;
use sensor_node::tick::{SupervisorLoop, TickOutcome, TickPhase};
use sensor_node::timegate::{TimeSyncGate, TimeSyncStatus};
use sensor_node::types::{metrics_query_range, Climate, HttpResponseBody, Topic};

#[test]
fn link_gate_failure_skips_tick_and_requests_reconnect() {
    let mut m = SupervisorLoop::new();
    let reconnect = m.on_link_status(false);
    assert!(reconnect);
    assert_eq!(m.link_state, LinkState::Degraded);
    assert_eq!(m.phase, TickPhase::Done(TickOutcome::SkippedLink));
    assert_eq!(m.sensor_reads_this_tick, 0);
    assert_eq!(m.uploads_this_tick, 0);
}

#[test]
fn time_gate_failure_skips_before_sensor() {
    let mut m = SupervisorLoop::new();
    assert!(!m.on_link_status(true));
    assert_eq!(m.link_state, LinkState::Connected);
    m.on_time_status(TimeSyncStatus::Pending);
    assert_eq!(m.phase, TickPhase::Done(TickOutcome::SkippedTime));
    assert_eq!(m.sensor_reads_this_tick, 0);
    assert_eq!(m.uploads_this_tick, 0);
}

#[test]
fn data_not_ready_is_a_quiet_skip() {
    let mut m = SupervisorLoop::new();
    m.on_link_status(true);
    m.on_time_status(TimeSyncStatus::Completed);
    m.on_data_ready(false);
    assert_eq!(m.phase, TickPhase::Done(TickOutcome::SkippedNoData));
    assert_eq!(m.sensor_reads_this_tick, 0);
    assert_eq!(m.uploads_this_tick, 0);
}

#[test]
fn time_latch_survives_later_pending_reports() {
    let mut m = SupervisorLoop::new();
    m.on_link_status(true);
    m.on_time_status(TimeSyncStatus::Completed);
    m.on_data_ready(false);
    // Next tick: the source regressed to Pending, but the latch holds.
    m.start_tick();
    m.on_link_status(true);
    m.on_time_status(TimeSyncStatus::Pending);
    assert_eq!(m.phase, TickPhase::AwaitDataReady);
    assert!(m.time_gate.latched);
}

#[test]
fn time_gate_unit_latch() {
    let mut g = TimeSyncGate::new();
    assert!(!g.is_time_trustworthy());
    g.observe(TimeSyncStatus::Pending);
    assert!(!g.is_time_trustworthy());
    g.observe(TimeSyncStatus::Completed);
    assert!(g.is_time_trustworthy());
    g.observe(TimeSyncStatus::Pending);
    assert!(g.is_time_trustworthy());
}

#[test]
fn full_tick_produces_one_envelope() {
    let mut m = SupervisorLoop::new();
    assert!(!m.on_link_status(true));
    m.on_time_status(TimeSyncStatus::Completed);
    m.on_data_ready(true);
    let sample = Climate { temperature_centi: 2250, humidity_centi: 4100, co2_ppm: 650 };
    let mac = vec![0x24, 0x6f, 0x28, 0x01, 0x02, 0x03];
    let env = m.on_measurement(sample, 1700000000, mac.clone());
    assert_eq!(m.phase, TickPhase::Done(TickOutcome::Sampled));
    assert_eq!(m.uploads_this_tick, 1);
    assert_eq!(m.sensor_reads_this_tick, 1);
    match env.topic {
        Topic::Climate(c) => {
            assert_eq!(c.temperature_centi, 2250);
            assert_eq!(c.humidity_centi, 4100);
            assert_eq!(c.co2_ppm, 650);
        },
    }
    assert_eq!(env.timestamp, 1700000000);
    assert_eq!(env.device_id, mac);
}

#[test]
fn response_body_wraps_message() {
    let b = HttpResponseBody::new(b"Climate data inserted".to_vec());
    assert_eq!(b.message, b"Climate data inserted".to_vec());
}

#[test]
fn metrics_query_range_defaults() {
    assert_eq!(metrics_query_range(None, None, 99), (0, 99));
    assert_eq!(metrics_query_range(Some(5), None, 99), (5, 99));
    assert_eq!(metrics_query_range(Some(5), Some(7), 99), (5, 7));
}
