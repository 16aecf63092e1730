use imu_core::bus::{BusId, BusMode, BusProfile};
use imu_core::protocol::{
    BusDescriptor, SampleFrame, WireFormat, WireFrame, WireHeader, MAX_BUSES_PER_SYSTEM,
    MAX_IMUS_PER_SYSTEM, PROTOCOL_VERSION,
};
use imu_core::sample::RawSample;
use imu_core::transport::{heapless_string, SessionRuntime};
use imu_core::types::{ImuCapabilities, ImuDescriptor, ImuError, ImuId, ImuKind, ImuLocation};

fn descriptor(sensor_id: u16) -> ImuDescriptor {
    ImuDescriptor {
        id: ImuId { system_id: 1, sensor_id },
        bus_id: BusId(0),
        kind: ImuKind::Qmi8658A,
        location: ImuLocation::Slot(sensor_id as u8),
        label: format!("slot-{}", sensor_id),
        capabilities: ImuCapabilities::default(),
    }
}

#[test]
fn headers_carry_identity_and_consecutive_sequence_numbers() {
    let mut runtime = SessionRuntime::new(3, 77, WireFormat::Binary);
    let first = runtime.header(100);
    let second = runtime.header(250);
    assert_eq!(
        first,
        WireHeader {
            protocol_version: PROTOCOL_VERSION,
            format: WireFormat::Binary,
            system_id: 3,
            session_id: 77,
            seq: 0,
            uptime_ms: 100,
        }
    );
    assert_eq!(second.seq, 1);
    assert_eq!(second.uptime_ms, 250);
}

#[test]
fn every_frame_advances_the_sequence() {
    let mut runtime = SessionRuntime::new(1, 5, WireFormat::Json);
    let hello = runtime.hello(1, "board");
    let beat = runtime.heartbeat(2, 3);
    let next = runtime.header(3);
    assert_eq!(hello.header().seq, 0);
    assert_eq!(beat.header().seq, 1);
    assert_eq!(next.seq, 2);
    match beat {
        WireFrame::Heartbeat(f) => assert_eq!(f.active_imus, 3),
        other => panic!("unexpected frame {:?}", other),
    }
}

#[test]
fn hello_label_is_cut_to_thirty_two_bytes() {
    let mut runtime = SessionRuntime::new(1, 5, WireFormat::Json);
    let long = "abcdefghijklmnopqrstuvwxyz0123456789";
    match runtime.hello(0, long) {
        WireFrame::Hello(f) => assert_eq!(f.system_label, "abcdefghijklmnopqrstuvwxyz012345"),
        other => panic!("unexpected frame {:?}", other),
    }
}

#[test]
fn truncation_never_splits_a_character() {
    assert_eq!(heapless_string::<4>("héllo"), "hél");
    assert_eq!(heapless_string::<2>("héllo"), "h");
    assert_eq!(heapless_string::<3>("€uro"), "€");
    assert_eq!(heapless_string::<2>("€uro"), "");
    assert_eq!(heapless_string::<8>("short"), "short");
}

#[test]
fn error_message_is_cut_to_ninety_six_bytes() {
    let mut runtime = SessionRuntime::new(1, 5, WireFormat::Json);
    let message = "x".repeat(120);
    match runtime.error(0, None, ImuError::ConfigError, &message) {
        WireFrame::Error(f) => {
            assert_eq!(f.message.len(), 96);
            assert_eq!(f.error, ImuError::ConfigError);
            assert_eq!(f.imu_id, None);
        }
        other => panic!("unexpected frame {:?}", other),
    }
}

#[test]
fn topology_keeps_the_first_buses_and_sensors() {
    let mut runtime = SessionRuntime::new(1, 5, WireFormat::Json);
    let buses: Vec<BusDescriptor> = (0..10)
        .map(|i| BusDescriptor { bus_id: BusId(i), label: format!("bus-{}", i) })
        .collect();
    let imus: Vec<ImuDescriptor> = (1..=20).map(descriptor).collect();
    match runtime.topology(9, buses.clone(), imus.clone()) {
        WireFrame::Topology(f) => {
            assert_eq!(f.buses, buses[..MAX_BUSES_PER_SYSTEM].to_vec());
            assert_eq!(f.imus, imus[..MAX_IMUS_PER_SYSTEM].to_vec());
            assert_eq!(f.header.uptime_ms, 9);
        }
        other => panic!("unexpected frame {:?}", other),
    }
}

#[test]
fn probe_result_and_sample_frames_carry_their_fields() {
    let mut runtime = SessionRuntime::new(2, 8, WireFormat::Binary);
    let profile = BusProfile::new(3, BusMode::Mode3, 1_000);
    let id = ImuId { system_id: 2, sensor_id: 4 };
    match runtime.probe_result(5, id, "QMI8658A", ImuKind::Qmi8658A, true, None, Some(profile)) {
        WireFrame::ProbeResult(f) => {
            assert_eq!(f.driver_name, "QMI8658A");
            assert_eq!(f.imu_id, id);
            assert!(f.success);
            assert_eq!(f.profile, Some(profile));
            assert_eq!(f.header.seq, 0);
        }
        other => panic!("unexpected frame {:?}", other),
    }
    let raw = RawSample { accel: [1, -2, 3], gyro: [-4, 5, -6], temp: None };
    let frame = runtime.sample(6, id, ImuKind::Qmi8658A, 42, 123_456, raw, 0x0003);
    assert_eq!(
        frame,
        WireFrame::Sample(SampleFrame {
            header: WireHeader {
                protocol_version: PROTOCOL_VERSION,
                format: WireFormat::Binary,
                system_id: 2,
                session_id: 8,
                seq: 1,
                uptime_ms: 6,
            },
            imu_id: id,
            imu_kind: ImuKind::Qmi8658A,
            sample_index: 42,
            timestamp_us: 123_456,
            sample: raw,
            status_bits: 3,
        })
    );
}

#[test]
fn bus_profile_new_keeps_its_fields() {
    let p = BusProfile::new(7, BusMode::Mode1, 500);
    assert_eq!(p.id, 7);
    assert_eq!(p.mode, BusMode::Mode1);
    assert_eq!(p.frequency_khz, 500);
}

#[test]
fn session_identity_is_readable() {
    let runtime = SessionRuntime::new(4, 99, WireFormat::Json);
    assert_eq!(runtime.system_id(), 4);
    assert_eq!(runtime.session_id(), 99);
    assert_eq!(runtime.format(), WireFormat::Json);
}
