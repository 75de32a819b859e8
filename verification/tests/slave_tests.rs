use iec104sim_core::data_point::{DataPoint, DataPointValue, InformationObjectDef};
use iec104sim_core::master::{build_double_command, build_gi_command, build_setpoint_float_command, build_single_command, read_asdu_objects};
use iec104sim_core::slave::{
    build_i_frame, drawn_value, handle_block, handle_block_now, interrogation_frames, PointDraw, ServerState, SlaveAction, SlaveError, SlaveTransportConfig,
    Station, StationTable,
};
use iec104sim_core::frame::UFrameKind;
use iec104sim_core::types::{AsduTypeId, DataCategory};

#[test]
fn test_station_creation() {
    let station = Station::new(1, "测试站");
    assert_eq!(station.common_address, 1);
    assert_eq!(station.name, "测试站");
    assert!(station.data_points.is_empty());
}

#[test]
fn test_station_with_default_points() {
    let station = Station::with_default_points(1, "站1", 10);
    // 6 categories x 10 = 60 points
    assert_eq!(station.data_points.len(), 60);
    assert_eq!(station.object_defs.len(), 60);
}

#[test]
fn test_station_add_remove_point() {
    let mut station = Station::new(1, "测试");
    let def = InformationObjectDef {
        ioa: 100,
        asdu_type: AsduTypeId::MSpNa1,
        category: DataCategory::SinglePoint,
        name: "测试点".to_string(),
        comment: String::new(),
    };

    station.add_point(def.clone()).unwrap();
    assert_eq!(station.data_points.len(), 1);

    // Duplicate should fail
    assert!(station.add_point(def).is_err());

    // Remove
    station.remove_point(100).unwrap();
    assert!(station.data_points.is_empty());

    // Remove again should fail
    assert!(station.remove_point(100).is_err());
}

#[test]
fn default_points_layout() {
    let station = Station::with_default_points(7, "s", 2);
    let sorted = station.data_points.all_sorted();
    let ioas: Vec<u32> = sorted.iter().map(|p| p.ioa).collect();
    assert_eq!(ioas, (1..=12).collect::<Vec<u32>>());
    assert_eq!(station.data_points.get(1).unwrap().asdu_type, AsduTypeId::MSpNa1);
    assert_eq!(station.data_points.get(4).unwrap().asdu_type, AsduTypeId::MDpNa1);
    assert_eq!(station.data_points.get(12).unwrap().value, DataPointValue::IntegratedTotal { value: 0, carry: false, sequence: 0 });
    assert_eq!(station.object_defs[5].category, DataCategory::NormalizedMeasured);
    assert!(station.object_defs[5].name.is_empty());
}

#[test]
fn remove_point_keeps_other_definitions_in_order() {
    let mut station = Station::with_default_points(1, "s", 1);
    station.remove_point(3).unwrap();
    let ioas: Vec<u32> = station.object_defs.iter().map(|d| d.ioa).collect();
    assert_eq!(ioas, vec![1, 2, 4, 5, 6]);
    assert!(matches!(station.remove_point(3), Err(SlaveError::IoaNotFound(3))));
    let def = InformationObjectDef { ioa: 2, asdu_type: AsduTypeId::MSpNa1, category: DataCategory::SinglePoint, name: String::new(), comment: String::new() };
    assert!(matches!(station.add_point(def), Err(SlaveError::DuplicateIoa(2))));
}

#[test]
fn build_i_frame_layout() {
    let f = build_i_frame(1, 20, &[0x01, 0x00], &[0x0A, 0x00, 0x00], &[0x01]);
    assert_eq!(f, vec![0x68, 14, 0, 0, 0, 0, 1, 1, 20, 0, 1, 0, 0x0A, 0, 0, 1]);
}

#[test]
fn station_table_add_remove() {
    let mut table = StationTable::new();
    table.add_station(Station::new(1, "站1")).unwrap();
    assert!(matches!(table.add_station(Station::new(1, "重复")), Err(SlaveError::DuplicateStation(1))));
    let removed = table.remove_station(1).unwrap();
    assert_eq!(removed.common_address, 1);
    assert!(matches!(table.remove_station(1), Err(SlaveError::StationNotFound(1))));
}

#[test]
fn server_state_start_stop() {
    assert!(matches!(ServerState::Stopped.start(), Ok(ServerState::Running)));
    assert!(matches!(ServerState::Running.start(), Err(SlaveError::AlreadyRunning)));
    assert!(matches!(ServerState::Running.stop(), Ok(ServerState::Stopped)));
    assert!(matches!(ServerState::Stopped.stop(), Err(SlaveError::NotRunning)));
    let t = SlaveTransportConfig::default();
    assert_eq!(t.bind_address, "0.0.0.0");
    assert_eq!(t.port, 2404);
}

#[test]
fn u_frames_are_confirmed() {
    let mut table = StationTable::new();
    for (act, con) in [(0x07u8, 0x0Bu8), (0x13, 0x23), (0x43, 0x83)] {
        let r = handle_block(&mut table, &[0x68, 0x04, act, 0, 0, 0], 0);
        assert_eq!(r.frames, vec![vec![0x68, 0x04, con, 0, 0, 0]]);
    }
    let r = handle_block(&mut table, &[0x68, 0x04, 0x07, 0, 0, 0], 0);
    assert_eq!(r.action, SlaveAction::ConfirmU { kind: UFrameKind::StartDtAct });
    assert!(handle_block(&mut table, &[0x68, 0x04, 0x0B, 0, 0, 0], 0).frames.is_empty());
}

#[test]
fn general_interrogation_reply() {
    let mut table = StationTable::new();
    let mut st = Station::new(1, "s");
    st.data_points.insert(DataPoint::with_value(10, AsduTypeId::MSpNa1, DataPointValue::SinglePoint { value: true }));
    st.data_points.insert(DataPoint::with_value(5, AsduTypeId::MMeNb1, DataPointValue::Scaled { value: -2 }));
    table.add_station(st).unwrap();
    let gi = build_gi_command(1);
    let r = handle_block(&mut table, &gi, 0);
    assert_eq!(r.action, SlaveAction::Interrogation { ca: 1 });
    assert_eq!(r.frames.len(), 4);
    assert_eq!(r.frames[0][8], 7);
    assert_eq!(r.frames[3][8], 10);
    // points come in increasing address order and read back as sent
    assert_eq!(read_asdu_objects(&r.frames[1]), vec![(5, DataPointValue::Scaled { value: -2 })]);
    assert_eq!(read_asdu_objects(&r.frames[2]), vec![(10, DataPointValue::SinglePoint { value: true })]);
    // unknown station: only confirmation and termination
    let r = handle_block(&mut table, &build_gi_command(2), 0);
    assert_eq!(r.frames.len(), 2);
}

#[test]
fn commands_update_points() {
    let mut table = StationTable::new();
    table.add_station(Station::with_default_points(1, "s", 2)).unwrap();
    let r = handle_block(&mut table, &build_single_command(1, 2, true, false), 99);
    assert_eq!(r.action, SlaveAction::SingleCommand { ca: 1, ioa: 2, value: true });
    assert_eq!(r.frames.len(), 3);
    assert_eq!(r.frames[0][8], 7);
    // the point written back spontaneously (cause 3) with its new value
    assert_eq!(r.frames[1], vec![0x68, 0x0E, 0, 0, 0, 0, 1, 1, 3, 0, 1, 0, 2, 0, 0, 1]);
    assert_eq!(read_asdu_objects(&r.frames[1]), vec![(2, DataPointValue::SinglePoint { value: true })]);
    assert_eq!(r.frames[2][8], 10);
    let block = build_single_command(1, 2, true, false);
    let mut term = block.clone();
    term[8] = 10;
    assert_eq!(r.frames[2], term);
    let p = table.get(1).unwrap().data_points.get(2).unwrap();
    assert_eq!(p.value, DataPointValue::SinglePoint { value: true });
    assert_eq!(p.timestamp, Some(99));
    let r = handle_block(&mut table, &build_double_command(1, 3, 2, true), 100);
    assert_eq!(r.frames.len(), 3);
    assert_eq!(read_asdu_objects(&r.frames[1]), vec![(3, DataPointValue::DoublePoint { value: 2 })]);
    assert_eq!(r.frames[2][8], 10);
    assert_eq!(table.get(1).unwrap().data_points.get(3).unwrap().value, DataPointValue::DoublePoint { value: 2 });
    let r = handle_block(&mut table, &build_setpoint_float_command(1, 9, 0x3FC00000), 101);
    assert_eq!(r.frames.len(), 3);
    assert_eq!(r.frames[1][8], 3);
    assert_eq!(r.frames[2][8], 10);
    assert_eq!(table.get(1).unwrap().data_points.get(9).unwrap().value, DataPointValue::ShortFloat { bits: 0x3FC00000 });
    // a command to a missing point changes nothing but is still confirmed and terminated
    let r = handle_block(&mut table, &build_single_command(1, 500, true, false), 102);
    assert_eq!(r.frames.len(), 2);
    assert!(table.get(1).unwrap().data_points.get(500).is_none());
}

#[test]
fn unknown_asdu_is_not_answered() {
    let mut table = StationTable::new();
    let block = [0x68, 0x0E, 0, 0, 0, 0, 101, 1, 6, 0, 1, 0, 0, 0, 0, 5];
    let r = handle_block(&mut table, &block, 0);
    assert_eq!(r.action, SlaveAction::UnknownAsdu { asdu_type: 101, ca: 1, cause: 6 });
    assert!(r.frames.is_empty());
}

#[test]
fn interrogation_frames_skip_points_without_value() {
    let mut st = Station::new(3, "s");
    st.data_points.insert(DataPoint::new(1, AsduTypeId::CScNa1));
    st.data_points.insert(DataPoint::new(2, AsduTypeId::MMeNc1));
    let frames = interrogation_frames(&st);
    assert_eq!(frames.len(), 1);
    assert_eq!(frames[0][6], 13);
}

fn draw(i: u32) -> PointDraw {
    PointDraw {
        single: i % 2 == 0,
        double: 2,
        normalized_raw: -(i as i16),
        scaled: 7 * i as i16,
        float_bits: 0x4000_0000 + i,
        total: 1000 + i as i32,
    }
}

#[test]
fn drawn_values_follow_the_category() {
    let d = draw(3);
    assert_eq!(drawn_value(AsduTypeId::MSpNa1, &d), DataPointValue::SinglePoint { value: false });
    assert_eq!(drawn_value(AsduTypeId::MDpNa1, &d), DataPointValue::DoublePoint { value: 2 });
    assert_eq!(drawn_value(AsduTypeId::MMeNa1, &d), DataPointValue::Normalized { raw: -3 });
    assert_eq!(drawn_value(AsduTypeId::MMeNb1, &d), DataPointValue::Scaled { value: 21 });
    assert_eq!(drawn_value(AsduTypeId::MMeNc1, &d), DataPointValue::ShortFloat { bits: 0x4000_0003 });
    assert_eq!(
        drawn_value(AsduTypeId::MItNa1, &d),
        DataPointValue::IntegratedTotal { value: 1003, carry: false, sequence: 0 }
    );
    assert_eq!(drawn_value(AsduTypeId::CScNa1, &d), DataPointValue::NoValue);
}

#[test]
fn apply_draws_sets_each_defined_point() {
    let mut st = Station::with_default_points(1, "s", 2);
    let draws: Vec<PointDraw> = (0..12).map(draw).collect();
    st.apply_draws(&draws);
    assert_eq!(st.data_points.len(), 12);
    assert_eq!(st.object_defs.len(), 12);
    // definition i is the point at IOA i + 1
    assert_eq!(st.data_points.get(1).unwrap().value, DataPointValue::SinglePoint { value: true });
    assert_eq!(st.data_points.get(4).unwrap().value, DataPointValue::DoublePoint { value: 2 });
    assert_eq!(st.data_points.get(6).unwrap().value, DataPointValue::Normalized { raw: -5 });
    assert_eq!(st.data_points.get(8).unwrap().value, DataPointValue::Scaled { value: 49 });
    assert_eq!(st.data_points.get(10).unwrap().value, DataPointValue::ShortFloat { bits: 0x4000_0009 });
    assert_eq!(
        st.data_points.get(12).unwrap().value,
        DataPointValue::IntegratedTotal { value: 1011, carry: false, sequence: 0 }
    );
    assert_eq!(st.data_points.get(12).unwrap().timestamp, None);
}

#[test]
fn points_and_definitions_stay_one_to_one() {
    let mut st = Station::with_default_points(1, "s", 2);
    st.remove_point(3).unwrap();
    let def = InformationObjectDef {
        ioa: 40,
        asdu_type: AsduTypeId::MMeNb1,
        category: DataCategory::ScaledMeasured,
        name: String::new(),
        comment: String::new(),
    };
    st.add_point(def).unwrap();
    let ioas: Vec<u32> = st.object_defs.iter().map(|d| d.ioa).collect();
    assert_eq!(ioas, vec![1, 2, 4, 5, 6, 7, 8, 9, 10, 11, 12, 40]);
    let keys: Vec<u32> = st.data_points.all_sorted().iter().map(|p| p.ioa).collect();
    assert_eq!(keys, ioas);
}

#[test]
fn station_clone_keeps_points() {
    let st = Station::with_default_points(7, "copy", 1);
    let c = st.clone();
    assert_eq!(c.common_address, 7);
    assert_eq!(c.data_points.all_sorted(), st.data_points.all_sorted());
    assert_eq!(c.object_defs.len(), 6);
}

#[test]
fn changed_point_is_reported_spontaneously() {
    let mut table = StationTable::new();
    table.add_station(Station::with_default_points(2, "s", 1)).unwrap();
    let f = table.change_point_value(2, 4, DataPointValue::Scaled { value: -5 }, 77).unwrap();
    assert_eq!(f, vec![0x68, 0x10, 0, 0, 0, 0, 11, 1, 3, 0, 2, 0, 4, 0, 0, 0xFB, 0xFF, 0]);
    let p = table.get(2).unwrap().data_points.get(4).unwrap();
    assert_eq!(p.value, DataPointValue::Scaled { value: -5 });
    assert_eq!(p.timestamp, Some(77));
    assert_eq!(read_asdu_objects(&f), vec![(4, DataPointValue::Scaled { value: -5 })]);
    // a missing point or station is not reported and changes nothing
    assert!(table.change_point_value(2, 99, DataPointValue::Scaled { value: 1 }, 78).is_none());
    assert!(table.change_point_value(3, 4, DataPointValue::Scaled { value: 1 }, 78).is_none());
    // a point without a monitored value is changed but not reported
    assert!(table.change_point_value(2, 1, DataPointValue::NoValue, 79).is_none());
    assert_eq!(table.get(2).unwrap().data_points.get(1).unwrap().value, DataPointValue::NoValue);
    let (f, now) = table.change_point_value_now(2, 1, DataPointValue::SinglePoint { value: true }).unwrap();
    assert!(now > 0);
    assert_eq!(f.unwrap()[8], 3);
    assert_eq!(table.get(2).unwrap().data_points.get(1).unwrap().timestamp, Some(now));
}

#[test]
fn handle_block_now_reads_the_clock_for_commands_only() {
    let mut table = StationTable::new();
    table.add_station(Station::with_default_points(1, "s", 1)).unwrap();
    let (r, now) = handle_block_now(&mut table, &build_gi_command(1)).unwrap();
    assert_eq!(now, 0);
    assert_eq!(r.action, SlaveAction::Interrogation { ca: 1 });
    let (r, now) = handle_block_now(&mut table, &build_single_command(1, 1, true, false)).unwrap();
    assert!(now > 0);
    assert_eq!(r.frames.len(), 3);
    assert_eq!(table.get(1).unwrap().data_points.get(1).unwrap().timestamp, Some(now));
}
