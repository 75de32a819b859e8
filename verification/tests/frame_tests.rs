use iec104sim_core::data_point::DataPointValue;
use iec104sim_core::types::DataCategory;
use iec104sim_core::frame::{format_frame_summary, format_hex, parse_apci, FrameError, FrameType, UFrameKind};

#[test]
fn test_parse_u_frame_startdt_act() {
    let data = [0x68, 0x04, 0x07, 0x00, 0x00, 0x00];
    let frame = parse_apci(&data).unwrap();
    assert_eq!(frame, FrameType::UFrame { kind: UFrameKind::StartDtAct });
}

#[test]
fn test_parse_u_frame_startdt_con() {
    let data = [0x68, 0x04, 0x0B, 0x00, 0x00, 0x00];
    let frame = parse_apci(&data).unwrap();
    assert_eq!(frame, FrameType::UFrame { kind: UFrameKind::StartDtCon });
}

#[test]
fn test_parse_s_frame() {
    // S-frame with recv_seq=5: ctrl3=0x0A (5<<1), ctrl4=0x00
    let data = [0x68, 0x04, 0x01, 0x00, 0x0A, 0x00];
    let frame = parse_apci(&data).unwrap();
    assert_eq!(frame, FrameType::SFrame { recv_seq: 5 });
}

#[test]
fn test_parse_too_short() {
    let data = [0x68, 0x04, 0x07];
    assert!(parse_apci(&data).is_err());
}

#[test]
fn frame_test_format_hex() {
    assert_eq!(format_hex(&[0x68, 0x04, 0x07, 0x00]), "68 04 07 00");
}

#[test]
fn parse_rejects_bad_start_byte() {
    let data = [0x69, 0x04, 0x07, 0x00, 0x00, 0x00];
    assert_eq!(parse_apci(&data), Err(FrameError::InvalidStartByte(0x69)));
}

#[test]
fn parse_rejects_unknown_u_frame() {
    let data = [0x68, 0x04, 0x03, 0x00, 0x00, 0x00];
    assert_eq!(parse_apci(&data), Err(FrameError::UnknownUFrame(0x03)));
}

#[test]
fn parse_all_u_frame_kinds() {
    let kinds = [
        (0x07u8, UFrameKind::StartDtAct),
        (0x0B, UFrameKind::StartDtCon),
        (0x13, UFrameKind::StopDtAct),
        (0x23, UFrameKind::StopDtCon),
        (0x43, UFrameKind::TestFrAct),
        (0x83, UFrameKind::TestFrCon),
    ];
    for (code, kind) in kinds {
        let data = [0x68, 0x04, code, 0x00, 0x00, 0x00];
        assert_eq!(parse_apci(&data), Ok(FrameType::UFrame { kind }));
    }
}

#[test]
fn parse_i_frame_sequence_numbers_and_asdu() {
    // send seq 3 (ctrl1 = 3<<1 = 6), recv seq 300 (ctrl3 = (300 & 0x7F)<<1, ctrl4 = 300>>7)
    let data = [0x68, 0x0E, 0x06, 0x00, 0x58, 0x02, 100, 0x01, 6, 0x00, 0x34, 0x12, 0, 0, 0, 0x14];
    assert_eq!(
        parse_apci(&data),
        Ok(FrameType::IFrame { send_seq: 3, recv_seq: 300, asdu_type: 100, cause: 6, common_address: 0x1234 })
    );
}

#[test]
fn parse_short_i_frame_has_no_asdu() {
    let data = [0x68, 0x04, 0x02, 0x00, 0x04, 0x00];
    assert_eq!(
        parse_apci(&data),
        Ok(FrameType::IFrame { send_seq: 1, recv_seq: 2, asdu_type: 0, cause: 0, common_address: 0 })
    );
}

#[test]
fn parse_i_frame_of_ten_bytes_reads_last_byte_for_address() {
    // with 10 bytes both address bytes are taken from index 9
    let data = [0x68, 0x08, 0x00, 0x00, 0x00, 0x00, 1, 1, 3, 0x02];
    assert_eq!(
        parse_apci(&data),
        Ok(FrameType::IFrame { send_seq: 0, recv_seq: 0, asdu_type: 1, cause: 3, common_address: 0x0202 })
    );
}

#[test]
fn summary_of_each_frame_kind() {
    let i = FrameType::IFrame { send_seq: 1, recv_seq: 2, asdu_type: 100, cause: 7, common_address: 5 };
    assert_eq!(format_frame_summary(&i), "I [S=1 R=2] C_IC_NA_1 actcon CA=5");
    let unknown = FrameType::IFrame { send_seq: 0, recv_seq: 0, asdu_type: 200, cause: 99, common_address: 65535 };
    assert_eq!(format_frame_summary(&unknown), "I [S=0 R=0] Type200 CoT99 CA=65535");
    assert_eq!(format_frame_summary(&FrameType::SFrame { recv_seq: 12 }), "S [R=12]");
    assert_eq!(format_frame_summary(&FrameType::UFrame { kind: UFrameKind::TestFrCon }), "U TESTFR CON");
}

#[test]
fn u_frame_kind_names() {
    assert_eq!(UFrameKind::StartDtAct.name(), "STARTDT ACT");
    assert_eq!(UFrameKind::StopDtCon.name(), "STOPDT CON");
}

#[test]
fn format_hex_of_empty_and_single() {
    assert_eq!(format_hex(&[]), "");
    assert_eq!(format_hex(&[0xAB]), "AB");
}

#[test]
fn data_category_names_and_value_display() {
    assert_eq!(DataCategory::SinglePoint.name(), "Single Point");
    assert_eq!(DataCategory::IntegratedTotals.name(), "Integrated Totals");
    assert_eq!(DataPointValue::SinglePoint { value: true }.display(), Some("ON".to_string()));
    assert_eq!(DataPointValue::SinglePoint { value: false }.display(), Some("OFF".to_string()));
    assert_eq!(DataPointValue::DoublePoint { value: 2 }.display(), Some("2".to_string()));
    assert_eq!(DataPointValue::Scaled { value: -1000 }.display(), Some("-1000".to_string()));
    assert_eq!(DataPointValue::Scaled { value: i16::MIN }.display(), Some("-32768".to_string()));
    assert_eq!(
        DataPointValue::IntegratedTotal { value: 12345, carry: true, sequence: 3 }.display(),
        Some("12345".to_string())
    );
    assert_eq!(DataPointValue::NoValue.display(), Some("-".to_string()));
    assert_eq!(DataPointValue::Normalized { raw: 5 }.display(), None);
    assert_eq!(DataPointValue::ShortFloat { bits: 0 }.display(), None);
}
