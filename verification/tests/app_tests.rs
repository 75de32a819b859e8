use iec104sim_core::master::MasterState;
use iec104sim_core::master_app::{
    connection_id, connection_info, control_kind, master_config_from_request, parse_single_command_value, take_connection_id,
    ControlKind, CreateConnectionRequest,
};
use iec104sim_core::config::MasterConnectionConfig;
use iec104sim_core::update::{is_snoozed, should_check, TimeSpan, UtcTime};

fn at(secs: i64) -> UtcTime {
    UtcTime { secs, nanos: 0 }
}

#[test]
fn connection_ids() {
    assert_eq!(connection_id(1), "conn_1");
    assert_eq!(connection_id(42), "conn_42");
}

#[test]
fn request_defaults() {
    let req = CreateConnectionRequest {
        target_address: "10.0.0.2".to_string(),
        port: 2404,
        common_address: None,
        timeout_ms: None,
        use_tls: None,
        ca_file: None,
        cert_file: Some("c.pem".to_string()),
        key_file: None,
        accept_invalid_certs: Some(true),
    };
    let c = master_config_from_request(req);
    assert_eq!(c.target_address, "10.0.0.2");
    assert_eq!(c.common_address, 1);
    assert_eq!(c.timeout_ms, 3000);
    assert!(!c.tls.enabled);
    assert_eq!(c.tls.cert_file, "c.pem");
    assert!(c.tls.ca_file.is_empty());
    assert!(c.tls.accept_invalid_certs);
    let info = connection_info("conn_1".to_string(), &c, MasterState::Disconnected);
    assert_eq!(info.state, "Disconnected");
    assert_eq!(info.port, 2404);
    let d = MasterConnectionConfig::default();
    assert_eq!(d.target_address, "127.0.0.1");
    assert_eq!(d.timeout_ms, 3000);
}

#[test]
fn control_values() {
    assert_eq!(parse_single_command_value("ON").unwrap(), true);
    assert_eq!(parse_single_command_value("0").unwrap(), false);
    assert_eq!(parse_single_command_value("true").unwrap(), true);
    assert_eq!(parse_single_command_value("yes").unwrap_err(), "invalid bool: yes");
    assert_eq!(control_kind("single"), Some(ControlKind::Single));
    assert_eq!(control_kind("setpoint_float"), Some(ControlKind::SetpointFloat));
    assert_eq!(control_kind("triple"), None);
}

#[test]
fn should_check_when_no_prior_check() {
    assert!(should_check(None, at(1_777_370_400), TimeSpan { secs: 6 * 3600, nanos: 0 }));
}

#[test]
fn should_skip_within_throttle_window() {
    assert!(!should_check(Some(at(1_777_363_200)), at(1_777_370_400), TimeSpan { secs: 6 * 3600, nanos: 0 }));
}

#[test]
fn should_check_after_throttle_window() {
    assert!(should_check(Some(at(1_777_345_200)), at(1_777_370_400), TimeSpan { secs: 6 * 3600, nanos: 0 }));
}

#[test]
fn snoozed_when_same_version_within_window() {
    assert!(is_snoozed(Some("1.0.9"), Some(at(1_777_420_800)), "1.0.9", at(1_777_370_400)));
}

#[test]
fn not_snoozed_after_window_expires() {
    assert!(!is_snoozed(Some("1.0.9"), Some(at(1_777_366_800)), "1.0.9", at(1_777_370_400)));
}

#[test]
fn not_snoozed_for_different_version() {
    assert!(!is_snoozed(Some("1.0.9"), Some(at(1_777_420_800)), "1.0.10", at(1_777_370_400)));
}

#[test]
fn connection_ids_are_handed_out_once() {
    let mut next = 1u32;
    assert_eq!(take_connection_id(&mut next), "conn_1");
    assert_eq!(take_connection_id(&mut next), "conn_2");
    assert_eq!(next, 3);
    let mut next = 9u32;
    assert_eq!(take_connection_id(&mut next), "conn_9");
    assert_eq!(take_connection_id(&mut next), "conn_10");
}
