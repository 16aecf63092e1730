use imu_core::bus::BusId;
use imu_core::export::{export_file_name, export_path, samples_csv};
use imu_core::protocol::{
    ErrorFrame, HeartbeatFrame, HelloFrame, OrientationFrame, ProbeResultFrame, SampleFrame,
    TopologyFrame, WireFormat, WireFrame, WireHeader,
};
use imu_core::sample::RawSample;
use imu_core::types::{
    ImuCapabilities, ImuDescriptor, ImuError, ImuId, ImuKind, ImuLocation, Quaternion,
};
use imu_core::viewer::{
    push_capped, ErrorEntry, RecordingChange, ReplayChange, StatusChange, ViewerSession, ERROR_LIMIT,
};

fn header(seq: u32) -> WireHeader {
    WireHeader {
        protocol_version: 1,
        format: WireFormat::Json,
        system_id: 1,
        session_id: 9,
        seq,
        uptime_ms: seq * 10,
    }
}

fn id(sensor_id: u16) -> ImuId {
    ImuId { system_id: 1, sensor_id }
}

fn sample(seq: u32, sensor_id: u16, index: u32) -> WireFrame {
    WireFrame::Sample(SampleFrame {
        header: header(seq),
        imu_id: id(sensor_id),
        imu_kind: ImuKind::Qmi8658A,
        sample_index: index,
        timestamp_us: 1_000 * index as u64,
        sample: RawSample { accel: [1, -2, 3], gyro: [-4, 5, -6], temp: None },
        status_bits: 3,
    })
}

fn descriptor(sensor_id: u16, label: &str) -> ImuDescriptor {
    ImuDescriptor {
        id: id(sensor_id),
        bus_id: BusId(0),
        kind: ImuKind::Icm42688Hxy,
        location: ImuLocation::Slot(sensor_id as u8),
        label: String::from(label),
        capabilities: ImuCapabilities::default(),
    }
}

fn topology(seq: u32, imus: Vec<ImuDescriptor>) -> WireFrame {
    WireFrame::Topology(TopologyFrame { header: header(seq), buses: Vec::new(), imus })
}

fn error(seq: u32, message: &str) -> WireFrame {
    WireFrame::Error(ErrorFrame {
        header: header(seq),
        imu_id: None,
        error: ImuError::DataNotReady,
        message: String::from(message),
    })
}

#[test]
fn new_session_is_empty() {
    let s = ViewerSession::new();
    assert!(s.topology().is_empty());
    assert!(s.latest_samples().is_empty());
    assert!(s.errors().is_empty());
    assert_eq!(s.last_seq(), None);
    assert_eq!(s.selected_imu(), None);
    assert!(!s.is_recording());
    assert!(!s.is_replaying());
}

#[test]
fn sample_registers_unknown_sensor() {
    let mut s = ViewerSession::new();
    assert_eq!(s.handle_frame(sample(7, 4, 1), true), None);
    assert_eq!(s.last_seq(), Some(7));
    assert_eq!(s.selected_imu(), Some(id(4)));
    assert_eq!(s.topology().len(), 1);
    let d = &s.topology()[0];
    assert_eq!(d.label, "imu-4");
    assert_eq!(d.location, ImuLocation::Index(4));
    assert_eq!(d.kind, ImuKind::Qmi8658A);
    assert_eq!(d.bus_id, BusId(0));
    s.handle_frame(sample(8, 4, 2), true);
    s.handle_frame(sample(9, 5, 1), true);
    assert_eq!(s.latest_samples().len(), 2);
    assert_eq!(s.latest_samples()[0].sample_index, 2);
    assert_eq!(s.selected_imu(), Some(id(4)));
    assert_eq!(s.topology().len(), 2);
}

#[test]
fn topology_replaces_the_known_sensors() {
    let mut s = ViewerSession::new();
    s.handle_frame(sample(1, 9, 1), true);
    s.handle_frame(
        topology(2, vec![descriptor(1, "a"), descriptor(2, "b"), descriptor(1, "c")]),
        true,
    );
    let labels: Vec<&str> = s.topology().iter().map(|d| d.label.as_str()).collect();
    assert_eq!(labels, vec!["c", "b"]);
    s.handle_frame(sample(3, 2, 1), true);
    assert_eq!(s.topology().len(), 2);
}

#[test]
fn errors_keep_the_latest_thirty_two() {
    let mut s = ViewerSession::new();
    for i in 0..40u32 {
        let status = s.handle_frame(error(i, &format!("e{}", i)), true);
        assert_eq!(status, Some(StatusChange::DeviceError(ImuError::DataNotReady)));
    }
    assert_eq!(s.errors().len(), ERROR_LIMIT);
    assert_eq!(
        s.errors()[0],
        ErrorEntry::Device { error: ImuError::DataNotReady, message: String::from("e8") }
    );
    assert_eq!(
        s.errors()[ERROR_LIMIT - 1],
        ErrorEntry::Device { error: ImuError::DataNotReady, message: String::from("e39") }
    );
}

#[test]
fn only_failed_probes_are_errors() {
    let mut s = ViewerSession::new();
    let probe = |seq: u32, success: bool| {
        WireFrame::ProbeResult(ProbeResultFrame {
            header: header(seq),
            imu_id: id(1),
            driver_name: String::from("QMI8658A"),
            detected_kind: ImuKind::Qmi8658A,
            success,
            error: if success { None } else { Some(ImuError::ChipNotFound) },
            profile: None,
        })
    };
    s.handle_frame(probe(1, true), true);
    assert!(s.errors().is_empty());
    s.handle_frame(probe(2, false), true);
    assert_eq!(
        s.errors()[0],
        ErrorEntry::Probe {
            driver_name: String::from("QMI8658A"),
            error: Some(ImuError::ChipNotFound)
        }
    );
    assert_eq!(s.last_seq(), Some(2));
}

#[test]
fn hello_heartbeat_and_orientation() {
    let mut s = ViewerSession::new();
    let status = s.handle_frame(
        WireFrame::Hello(HelloFrame { header: header(4), system_label: String::from("board") }),
        true,
    );
    assert_eq!(
        status,
        Some(StatusChange::Streaming { format: WireFormat::Json, session_id: 9, uptime_ms: 40 })
    );
    s.handle_frame(WireFrame::Heartbeat(HeartbeatFrame { header: header(5), active_imus: 3 }), true);
    assert_eq!(s.active_imus(), 3);
    let orientation = |seq: u32, w: u32| {
        WireFrame::Orientation(OrientationFrame {
            header: header(seq),
            imu_id: id(2),
            imu_kind: ImuKind::Bmi270,
            sample_index: seq,
            timestamp_us: 0,
            quaternion: Quaternion { w, x: 0, y: 0, z: 0 },
        })
    };
    s.handle_frame(orientation(6, 1), true);
    s.handle_frame(orientation(7, 2), true);
    assert_eq!(s.latest_orientations().len(), 1);
    assert_eq!(s.latest_orientations()[0].quaternion.w, 2);
    assert_eq!(s.last_seq(), Some(7));
}

#[test]
fn recording_captures_frames_while_on() {
    let mut s = ViewerSession::new();
    s.handle_frame(sample(1, 1, 1), true);
    assert_eq!(s.toggle_recording(), RecordingChange::Started);
    s.handle_frame(sample(2, 1, 2), true);
    s.handle_frame(sample(3, 1, 3), false);
    s.handle_frame(error(4, "boom"), true);
    assert_eq!(s.recorded_frames().to_vec(), vec![sample(2, 1, 2), error(4, "boom")]);
    assert_eq!(s.toggle_recording(), RecordingChange::Stopped { frames: 2 });
    s.handle_frame(sample(5, 1, 4), true);
    assert_eq!(s.recorded_frames().len(), 2);
    assert_eq!(s.toggle_recording(), RecordingChange::Started);
    assert!(s.recorded_frames().is_empty());
}

#[test]
fn replay_rebuilds_the_live_view() {
    let frames = vec![
        WireFrame::Hello(HelloFrame { header: header(0), system_label: String::from("b") }),
        topology(1, vec![descriptor(1, "one")]),
        sample(2, 1, 1),
        sample(3, 2, 1),
        error(4, "late"),
        sample(5, 1, 2),
    ];
    let mut live = ViewerSession::new();
    for f in &frames {
        live.handle_frame(f.clone(), true);
    }

    let mut s = ViewerSession::new();
    s.handle_frame(sample(90, 7, 1), true);
    assert_eq!(s.toggle_replay(), ReplayChange::NothingLoaded);
    assert_eq!(s.load_replay(frames.clone()), 6);
    assert_eq!(s.toggle_replay(), ReplayChange::Started);
    assert!(s.topology().is_empty());
    assert!(s.is_replaying());
    assert_eq!(
        s.step_replay(),
        Some(StatusChange::Streaming { format: WireFormat::Json, session_id: 9, uptime_ms: 0 })
    );
    assert_eq!(s.replay_cursor(), 4);
    assert_eq!(s.step_replay(), Some(StatusChange::ReplayFinished));
    assert!(!s.is_replaying());
    assert_eq!(s.step_replay(), None);

    assert_eq!(s.topology(), live.topology());
    assert_eq!(s.latest_samples(), live.latest_samples());
    assert_eq!(s.errors(), live.errors());
    assert_eq!(s.last_seq(), live.last_seq());
    assert_eq!(s.selected_imu(), live.selected_imu());
    assert!(s.recorded_frames().is_empty());
}

#[test]
fn replay_can_be_stopped() {
    let mut s = ViewerSession::new();
    s.load_replay(vec![sample(1, 1, 1); 10]);
    assert_eq!(s.toggle_replay(), ReplayChange::Started);
    assert_eq!(s.step_replay(), None);
    assert_eq!(s.toggle_replay(), ReplayChange::Stopped);
    assert_eq!(s.step_replay(), None);
    assert_eq!(s.replay_cursor(), 4);
    assert_eq!(s.replay_len(), 10);
}

#[test]
fn selecting_a_sensor() {
    let mut s = ViewerSession::new();
    s.select_imu(Some(id(3)));
    assert_eq!(s.selected_imu(), Some(id(3)));
    s.handle_frame(sample(1, 1, 1), true);
    assert_eq!(s.selected_imu(), Some(id(3)));
    s.reset_session_view();
    assert_eq!(s.selected_imu(), None);
    assert_eq!(s.last_seq(), None);
}

#[test]
fn csv_lists_sample_frames() {
    let frames = vec![sample(2, 1, 5), error(3, "x"), sample(4, 2, 6)];
    let csv = samples_csv(&frames, &Vec::new()).unwrap();
    assert_eq!(
        csv,
        "system_id,sensor_id,seq,sample_index,timestamp_us,ax,ay,az,gx,gy,gz,status_bits,qw,qx,qy,qz\n\
         1,1,2,5,5000,1,-2,3,-4,5,-6,3,,,,\n\
         1,2,4,6,6000,1,-2,3,-4,5,-6,3,,,,\n"
    );
}

fn orientation(seq: u32, sensor_id: u16, index: u32) -> WireFrame {
    WireFrame::Orientation(OrientationFrame {
        header: header(seq),
        imu_id: id(sensor_id),
        imu_kind: ImuKind::Qmi8658A,
        sample_index: index,
        timestamp_us: 7,
        quaternion: Quaternion { w: 1.0f32.to_bits(), x: 0, y: 0, z: (-0.5f32).to_bits() },
    })
}

#[test]
fn csv_lists_orientation_frames_with_quaternion_columns() {
    let frames = vec![sample(2, 1, 5), orientation(3, 1, 5), orientation(4, 2, 9)];
    let cells: Vec<String> = ["1", "0", "0", "-0.5", "0.25", "0.5", "0.75", "1"]
        .iter()
        .map(|c| String::from(*c))
        .collect();
    let csv = samples_csv(&frames, &cells).unwrap();
    assert_eq!(
        csv,
        "system_id,sensor_id,seq,sample_index,timestamp_us,ax,ay,az,gx,gy,gz,status_bits,qw,qx,qy,qz\n\
         1,1,2,5,5000,1,-2,3,-4,5,-6,3,,,,\n\
         1,1,3,5,7,,,,,,,,1,0,0,-0.5\n\
         1,2,4,9,7,,,,,,,,0.25,0.5,0.75,1\n"
    );
    for line in csv.lines() {
        assert_eq!(line.split(',').count(), 16);
    }
    let short = samples_csv(&vec![orientation(1, 1, 1)], &vec![String::from("1")]).unwrap();
    assert!(short.ends_with("1,1,1,1,7,,,,,,,,1,,,\n"));
}

#[test]
fn csv_of_extreme_values() {
    let frame = WireFrame::Sample(SampleFrame {
        header: header(u32::MAX),
        imu_id: ImuId { system_id: 65535, sensor_id: 0 },
        imu_kind: ImuKind::Unknown,
        sample_index: 0,
        timestamp_us: u64::MAX,
        sample: RawSample { accel: [i16::MIN, 0, i16::MAX], gyro: [-1, 10, -10], temp: None },
        status_bits: 65535,
    });
    let csv = samples_csv(&vec![frame], &Vec::new()).unwrap();
    let line = csv.lines().nth(1).unwrap();
    assert_eq!(
        line,
        "65535,0,4294967295,0,18446744073709551615,-32768,0,32767,-1,10,-10,65535,,,,"
    );
}

#[test]
fn csv_without_samples_or_orientations_is_none() {
    assert_eq!(samples_csv(&vec![error(1, "x")], &Vec::new()), None);
    assert_eq!(samples_csv(&Vec::new(), &Vec::new()), None);
    assert!(samples_csv(&vec![orientation(1, 1, 1)], &Vec::new()).is_some());
}

#[test]
fn export_names_are_stamped() {
    assert_eq!(export_file_name("imu-samples", 1700000000, "csv"), "imu-samples-1700000000.csv");
    assert_eq!(export_file_name("", 0, ""), "-0.");
    let path = export_path("imu-recording", "jsonl");
    let stamp = path
        .strip_prefix("imu-recording-")
        .and_then(|rest| rest.strip_suffix(".jsonl"))
        .unwrap();
    assert!(!stamp.is_empty() && stamp.bytes().all(|b| b.is_ascii_digit()));
}

#[test]
fn capped_history_keeps_the_latest() {
    let mut v: Vec<u32> = Vec::new();
    for i in 0..300u32 {
        push_capped(&mut v, i, 256);
    }
    assert_eq!(v.len(), 256);
    assert_eq!(v[0], 44);
    assert_eq!(v[255], 299);
    let mut w = vec![1, 2, 3, 4];
    push_capped(&mut w, 5, 2);
    assert_eq!(w, vec![4, 5]);
    push_capped(&mut w, 6, 0);
    assert!(w.is_empty());
}

#[test]
fn next_replay_batch_follows_the_cursor() {
    let mut s = ViewerSession::new();
    assert_eq!(s.next_replay_batch(), (0, 0));
    s.load_replay(vec![sample(1, 1, 1); 6]);
    assert_eq!(s.next_replay_batch(), (0, 0));
    s.toggle_replay();
    assert_eq!(s.next_replay_batch(), (0, 4));
    s.step_replay();
    assert_eq!(s.next_replay_batch(), (4, 6));
    assert_eq!(s.replay_frames().len(), 6);
    s.step_replay();
    assert_eq!(s.next_replay_batch(), (6, 6));
}
