//! Establishing the link, and the sensor's startup sequence.

use sensor_node::link::{
    choose_channel, make_config, LinkError, LinkPhase, LinkState, LinkSupervisor, ScanEntry,
};
use sensor_node::sensor::{SensorError, SensorInit, SensorInitPhase};

fn scan_results() -> Vec<ScanEntry> {
    vec![
        ScanEntry { name: b"neighbour".to_vec(), channel: 3 },
        ScanEntry { name: b"home".to_vec(), channel: 6 },
        ScanEntry { name: b"home".to_vec(), channel: 11 },
    ]
}

#[test]
fn known_network_channel_is_remembered() {
    assert_eq!(choose_channel(&scan_results(), &b"home".to_vec()), Some(6));
    assert_eq!(choose_channel(&scan_results(), &b"absent".to_vec()), None);
    assert_eq!(choose_channel(&Vec::new(), &b"home".to_vec()), None);
}

#[test]
fn fallback_access_point_uses_channel_one() {
    let c = make_config(b"home".to_vec(), b"pw".to_vec(), None);
    assert_eq!(c.ap_channel, 1);
    assert_eq!(c.ap_name, b"aptest".to_vec());
    let c = make_config(b"home".to_vec(), b"pw".to_vec(), Some(6));
    assert_eq!(c.ap_channel, 6);
}

#[test]
fn start_timeout_fails_the_attempt() {
    let mut s = LinkSupervisor::new();
    s.on_scan(&scan_results(), b"home".to_vec(), b"pw".to_vec());
    s.on_start_issued();
    s.on_start_wait(false);
    assert_eq!(s.phase, LinkPhase::Failed);
    assert_eq!(s.error, Some(LinkError::StartTimeout));
    assert_eq!(s.state, LinkState::Disconnected);
}

#[test]
fn missing_lease_fails_the_attempt() {
    let mut s = LinkSupervisor::new();
    s.on_scan(&scan_results(), b"home".to_vec(), b"pw".to_vec());
    s.on_start_issued();
    s.on_start_wait(true);
    s.on_connect_wait(true, false);
    assert_eq!(s.phase, LinkPhase::Failed);
    assert_eq!(s.error, Some(LinkError::ConnectTimeout));
}

#[test]
fn lost_echoes_fail_the_probe() {
    let mut s = LinkSupervisor::new();
    s.on_scan(&scan_results(), b"home".to_vec(), b"pw".to_vec());
    s.on_start_issued();
    s.on_start_wait(true);
    s.on_connect_wait(true, true);
    s.on_probe(4, 3);
    assert_eq!(s.phase, LinkPhase::Failed);
    assert_eq!(s.error, Some(LinkError::GatewayUnreachable));
}

#[test]
fn clean_startup_reaches_ready() {
    let mut s = LinkSupervisor::new();
    s.on_scan(&scan_results(), b"home".to_vec(), b"pw".to_vec());
    let cfg = s.config.as_ref().unwrap();
    assert_eq!(cfg.client_channel, Some(6));
    assert_eq!(cfg.ap_channel, 6);
    s.on_start_issued();
    s.on_start_wait(true);
    s.on_connect_wait(true, true);
    s.on_probe(4, 4);
    assert_eq!(s.phase, LinkPhase::Ready);
    assert_eq!(s.state, LinkState::Connected);
    assert_eq!(s.error, None);
}

#[test]
fn sensor_self_test_failure_is_fatal() {
    let mut s = SensorInit::new();
    s.on_woken();
    s.on_stop_outcome(true);
    s.on_reinit_outcome(true);
    s.on_serial(Some(0x1122334455));
    s.on_self_test_outcome(false);
    assert_eq!(s.phase, SensorInitPhase::Failed);
    assert_eq!(s.error, Some(SensorError::SelfTestFailed));
}

#[test]
fn sensor_initialization_runs_in_order() {
    let mut s = SensorInit::new();
    s.on_woken();
    s.on_stop_outcome(true);
    s.on_reinit_outcome(true);
    s.on_serial(Some(0x1122334455));
    s.on_self_test_outcome(true);
    s.on_start_periodic_outcome(true);
    assert_eq!(s.phase, SensorInitPhase::Ready);
    assert_eq!(s.serial, Some(0x1122334455));
    assert_eq!(s.error, None);
}

#[test]
fn sensor_stop_failure_is_fatal() {
    let mut s = SensorInit::new();
    s.on_woken();
    s.on_stop_outcome(false);
    assert_eq!(s.phase, SensorInitPhase::Failed);
    assert_eq!(s.error, Some(SensorError::StopMeasurementFailed));
}
