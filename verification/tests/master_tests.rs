use chrono::{Datelike, Timelike};
use iec104sim_core::data_point::{DataPointMap, DataPointValue};
use iec104sim_core::frame::parse_apci;
use iec104sim_core::master::{
    build_clock_sync_command, build_counter_read_command, build_double_command, build_gi_command, build_setpoint_float_command,
    build_single_command, clock_sync_frame, log_frame, parse_and_store_asdu, process_received_frame,
    read_asdu_objects, split_frames, LinkEvent, MasterConfig, MasterError, MasterState, TlsConfig,
};
use iec104sim_core::clock::UtcNow;
use iec104sim_core::types::AsduTypeId;

#[test]
fn test_master_config_default() {
    let config = MasterConfig::default();
    assert_eq!(config.port, 2404);
    assert_eq!(config.common_address, 1);
    assert!(!config.tls.enabled);
}

#[test]
fn test_tls_config_default() {
    let tls = TlsConfig::default();
    assert!(!tls.enabled);
    assert!(tls.ca_file.is_empty());
    assert!(tls.cert_file.is_empty());
    assert!(tls.key_file.is_empty());
    assert!(!tls.accept_invalid_certs);
}

#[test]
fn test_build_gi_command() {
    let frame = build_gi_command(1);
    assert_eq!(frame[0], 0x68);
    assert_eq!(frame[6], 100);
    assert_eq!(frame[8], 6);
}

#[test]
fn test_build_single_command() {
    let frame = build_single_command(1, 100, true, false);
    assert_eq!(frame[6], 45);
    assert_eq!(frame[12], 100);
    assert_eq!(frame[15], 0x01);
}

#[test]
fn command_frames_exact_bytes() {
    assert_eq!(build_gi_command(0x1234), vec![0x68, 0x0E, 0, 0, 0, 0, 100, 1, 6, 0, 0x34, 0x12, 0, 0, 0, 0x14]);
    assert_eq!(build_counter_read_command(1), vec![0x68, 0x0E, 0, 0, 0, 0, 101, 1, 6, 0, 1, 0, 0, 0, 0, 0x05]);
    assert_eq!(
        build_single_command(1, 0x030201, false, true),
        vec![0x68, 0x0E, 0, 0, 0, 0, 45, 1, 6, 0, 1, 0, 1, 2, 3, 0x80]
    );
    assert_eq!(
        build_double_command(2, 7, 6, true),
        vec![0x68, 0x0E, 0, 0, 0, 0, 46, 1, 6, 0, 2, 0, 7, 0, 0, 0x82]
    );
    assert_eq!(
        build_setpoint_float_command(1, 5, 1.5f32.to_bits()),
        vec![0x68, 0x12, 0, 0, 0, 0, 50, 1, 6, 0, 1, 0, 5, 0, 0, 0x00, 0x00, 0xC0, 0x3F, 0x00]
    );
}

#[test]
fn clock_sync_frame_fields() {
    let t = UtcNow { unix_millis: 0, subsec_millis: 250, second: 12, minute: 34, hour: 5, day: 28, month: 4, year: 2026 };
    let f = clock_sync_frame(3, &t);
    // 12 s 250 ms = 12250 = 0x2FDA
    assert_eq!(f, vec![0x68, 0x14, 0, 0, 0, 0, 103, 1, 6, 0, 3, 0, 0, 0, 0, 0xDA, 0x2F, 34, 5, 28, 4, 26]);
    let far = UtcNow { year: 70000, ..t };
    assert_eq!(clock_sync_frame(3, &far)[21], 24);
}

#[test]
fn link_transitions() {
    assert!(matches!(MasterState::Connected.on_event(LinkEvent::Connect), Err(MasterError::AlreadyConnected)));
    assert!(matches!(MasterState::Disconnected.on_event(LinkEvent::Connect), Ok((MasterState::Connecting, None))));
    assert!(matches!(MasterState::Connecting.on_event(LinkEvent::TcpConnectFailed), Ok((MasterState::Error, None))));
    assert!(matches!(MasterState::Disconnected.on_event(LinkEvent::Disconnect), Err(MasterError::NotConnected)));
    assert!(matches!(MasterState::Connected.on_event(LinkEvent::PeerClosed), Ok((MasterState::Disconnected, None))));
}

#[test]
fn established_link_sends_startdt_act() {
    let (next, send) = MasterState::Connecting.on_event(LinkEvent::Established).unwrap();
    assert_eq!(next, MasterState::Connected);
    assert_eq!(send, Some(vec![0x68, 0x04, 0x07, 0x00, 0x00, 0x00]));
}

#[test]
fn disconnect_sends_stopdt_act() {
    for s in [MasterState::Connected, MasterState::Connecting, MasterState::Error] {
        let (next, send) = s.on_event(LinkEvent::Disconnect).unwrap();
        assert_eq!(next, MasterState::Disconnected);
        assert_eq!(send, Some(vec![0x68, 0x04, 0x13, 0x00, 0x00, 0x00]));
    }
}

#[test]
fn reconnect_after_peer_close() {
    let (s, send) = MasterState::Connected.on_event(LinkEvent::PeerClosed).unwrap();
    assert_eq!(s, MasterState::Disconnected);
    assert!(send.is_none());
    assert!(matches!(s.on_event(LinkEvent::Connect), Ok((MasterState::Connecting, None))));
    let (s, send) = MasterState::Connecting.on_event(LinkEvent::Established).unwrap();
    assert_eq!(s, MasterState::Connected);
    assert_eq!(send, Some(vec![0x68, 0x04, 0x07, 0x00, 0x00, 0x00]));
}

#[test]
fn split_frames_finds_frames_and_skips_noise() {
    let data = [0x00, 0x68, 0x04, 0x43, 0, 0, 0, 0xFF, 0x68, 0x04, 0x01, 0, 0, 0, 0x68, 0x10, 1];
    assert_eq!(split_frames(&data), vec![(1, 6), (8, 6)]);
    assert_eq!(split_frames(&[]), vec![]);
    assert_eq!(split_frames(&[0x68]), vec![]);
}

#[test]
fn asdu_objects_of_each_type() {
    // two single points, second with the value bit set
    let sp = [0x68, 0x12, 0, 0, 0, 0, 1, 2, 3, 0, 1, 0, 10, 0, 0, 0x00, 11, 0, 0, 0x01];
    assert_eq!(
        read_asdu_objects(&sp),
        vec![(10, DataPointValue::SinglePoint { value: false }), (11, DataPointValue::SinglePoint { value: true })]
    );
    // scaled value -2, normalized
    let sc = [0x68, 0x10, 0, 0, 0, 0, 11, 1, 3, 0, 1, 0, 5, 0, 0, 0xFE, 0xFF, 0];
    assert_eq!(read_asdu_objects(&sc), vec![(5, DataPointValue::Scaled { value: -2 })]);
    // integrated total with carry and sequence 3
    let it = [0x68, 0x12, 0, 0, 0, 0, 15, 1, 3, 0, 1, 0, 7, 0, 0, 0x10, 0, 0, 0, 0x23];
    assert_eq!(
        read_asdu_objects(&it),
        vec![(7, DataPointValue::IntegratedTotal { value: 16, carry: true, sequence: 3 })]
    );
    // object count says 3 but only one fits
    let short = [0x68, 0x0E, 0, 0, 0, 0, 3, 3, 3, 0, 1, 0, 1, 0, 0, 0x02];
    assert_eq!(read_asdu_objects(&short), vec![(1, DataPointValue::DoublePoint { value: 2 })]);
    // unknown type
    let unk = [0x68, 0x0E, 0, 0, 0, 0, 99, 1, 3, 0, 1, 0, 1, 0, 0, 0x02];
    assert_eq!(read_asdu_objects(&unk), vec![]);
}

#[test]
fn store_asdu_points_and_log() {
    let mut map = DataPointMap::new();
    let sp = [0x68, 0x12, 0, 0, 0, 0, 1, 2, 3, 0, 9, 0, 10, 0, 0, 0x00, 11, 0, 0, 0x01];
    let log = parse_and_store_asdu(&sp, &mut map, 1234);
    assert_eq!(log.label, "M_SP_NA_1");
    assert_eq!(log.detail, "M_SP_NA_1 CA=9 n=2 COT=3");
    assert_eq!(map.len(), 2);
    let p = map.get(11).unwrap();
    assert_eq!(p.value, DataPointValue::SinglePoint { value: true });
    assert_eq!(p.asdu_type, AsduTypeId::MSpNa1);
    assert_eq!(p.timestamp, Some(1234));
}

#[test]
fn process_received_frames() {
    let mut map = DataPointMap::new();
    let test_act = [0x68, 0x04, 0x43, 0, 0, 0];
    let r = process_received_frame(&test_act, &mut map).unwrap();
    assert_eq!(r.reply, Some(vec![0x68, 0x04, 0x83, 0, 0, 0]));
    assert_eq!(r.log.unwrap().detail, "U TESTFR ACT");
    let start_con = [0x68, 0x04, 0x0B, 0, 0, 0];
    assert_eq!(process_received_frame(&start_con, &mut map).unwrap().reply, None);
    let i = [0x68, 0x0E, 0, 0, 0, 0, 3, 1, 3, 0, 1, 0, 1, 0, 0, 0x02];
    let r = process_received_frame(&i, &mut map).unwrap();
    assert_eq!(r.reply, Some(vec![0x68, 0x04, 0x01, 0, 0, 0]));
    assert_eq!(map.get(1).unwrap().value, DataPointValue::DoublePoint { value: 2 });
    let stamp = r.stamped_at.unwrap();
    assert!(stamp > 0);
    assert_eq!(map.get(1).unwrap().timestamp, Some(stamp));
    let s = [0x68, 0x04, 0x01, 0, 0, 0];
    let r = process_received_frame(&s, &mut map).unwrap();
    assert!(r.reply.is_none() && r.log.is_none() && r.stamped_at.is_none());
}

#[test]
fn log_frame_summaries() {
    assert_eq!(log_frame(&[0x68, 0x04, 0x07, 0, 0, 0]).unwrap(), "U STARTDT ACT");
    assert!(log_frame(&[0x00]).is_none());
    assert!(parse_apci(&build_gi_command(1)).is_ok());
}

#[test]
fn clock_sync_command_carries_the_reading() {
    let (f, t) = build_clock_sync_command(4).unwrap();
    assert_eq!(f, clock_sync_frame(4, &t));
    assert_eq!(f[6], 103);
    assert!(t.unix_millis > 0 && t.month >= 1 && t.month <= 12);
    assert_eq!(t.unix_millis % 1000, t.subsec_millis as i64);
}

#[test]
fn clock_reading_fields_describe_one_instant() {
    let (_, t) = build_clock_sync_command(1).unwrap();
    let ms = t.unix_millis;
    assert_eq!(t.subsec_millis as i64, ms % 1000);
    assert_eq!(t.second as i64, ms / 1000 % 60);
    assert_eq!(t.minute as i64, ms / 60_000 % 60);
    assert_eq!(t.hour as i64, ms / 3_600_000 % 24);
    let c = chrono::DateTime::from_timestamp_millis(ms).unwrap();
    assert_eq!((t.year, t.month, t.day), (c.year(), c.month(), c.day()));
    assert_eq!((t.hour, t.minute, t.second), (c.hour(), c.minute(), c.second()));
}
