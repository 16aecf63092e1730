use imu_core::bus::{BusId, BusMode, BusProfile, ImuBus, ImuTargetId};
use imu_core::driver::ImuDriver;
use imu_core::drivers::hxy42688::Hxy42688Driver;
use imu_core::drivers::qmi8658::{read_i16_le, read_sample, Qmi8658Driver};
use imu_core::drivers::{hxy42688_descriptor, qmi8658_descriptor, DriverRef};
use imu_core::sample::RawSample;
use imu_core::scripted::{BusRecord, ScriptedBus};
use imu_core::types::{DriverResourceKey, ImuConfig, ImuError, ImuKind};
use imu_core::driver::DriverResources;

struct NoResources;

impl DriverResources for NoResources {
    fn bytes(&self, _key: DriverResourceKey) -> Option<&[u8]> {
        None
    }
}

const TARGET: ImuTargetId = ImuTargetId { bus_id: BusId(0), target_index: 2 };

fn writes(bus: &ScriptedBus) -> Vec<(u8, Vec<u8>)> {
    bus.log
        .iter()
        .filter_map(|r| match r {
            BusRecord::Write { reg, data, .. } => Some((*reg, data.clone())),
            _ => None,
        })
        .collect()
}

#[test]
fn hxy_probe_accepts_chip_id_and_com_cfg() {
    let mut bus = ScriptedBus::new(vec![0x6A, 0x50]);
    assert_eq!(Hxy42688Driver.probe(&mut bus, TARGET), Ok(true));
    assert_eq!(bus.operation_count(), 2);
}

#[test]
fn hxy_probe_retries_then_gives_up() {
    let mut bus = ScriptedBus::new(vec![0x6A, 0x00, 0x47, 0x50, 0xFF, 0xFF]);
    assert_eq!(Hxy42688Driver.probe(&mut bus, TARGET), Ok(false));
    let delays = bus.log.iter().filter(|r| matches!(r, BusRecord::Delay { ms: 5 })).count();
    assert_eq!(delays, 3);
}

#[test]
fn hxy_probe_succeeds_on_second_attempt() {
    let mut bus = ScriptedBus::new(vec![0x00, 0x50, 0x6A, 0x50]);
    assert_eq!(Hxy42688Driver.probe(&mut bus, TARGET), Ok(true));
    assert_eq!(bus.operation_count(), 5);
}

#[test]
fn probe_reports_bus_errors() {
    let mut bus = ScriptedBus::new(vec![0x6A]);
    assert_eq!(Hxy42688Driver.probe(&mut bus, TARGET), Err(ImuError::CommunicationError));
}

#[test]
fn qmi_probe_accepts_both_identities() {
    let mut bus = ScriptedBus::new(vec![0x05, 0x00]);
    assert_eq!(Qmi8658Driver.probe(&mut bus, TARGET), Ok(true));
    let mut bus = ScriptedBus::new(vec![0x3E, 0x3E]);
    assert_eq!(Qmi8658Driver.probe(&mut bus, TARGET), Ok(true));
    let mut bus = ScriptedBus::new(vec![0x3E, 0x68, 0x3E, 0x68, 0x3E, 0x68]);
    assert_eq!(Qmi8658Driver.probe(&mut bus, TARGET), Ok(false));
}

#[test]
fn hxy_configure_writes_its_sequence() {
    let mut bus = ScriptedBus::new(vec![]);
    let cfg = ImuConfig::default();
    assert_eq!(Hxy42688Driver.configure(&mut bus, TARGET, &cfg, &NoResources), Ok(()));
    assert_eq!(
        writes(&bus),
        vec![
            (0x7D, vec![0x0E]),
            (0x40, vec![0xA8]),
            (0x41, vec![0x02]),
            (0x42, vec![0xA9]),
            (0x43, vec![0x00]),
        ]
    );
    assert_eq!(bus.log[1], BusRecord::Delay { ms: 10 });
}

#[test]
fn configure_stops_at_first_failed_write() {
    let mut bus = ScriptedBus::with_write_limit(vec![], 2);
    let cfg = ImuConfig::default();
    assert_eq!(
        Qmi8658Driver.configure(&mut bus, TARGET, &cfg, &NoResources),
        Err(ImuError::CommunicationError)
    );
    assert_eq!(bus.operation_count(), 3);
}

#[test]
fn qmi_reset_and_configure() {
    let mut bus = ScriptedBus::new(vec![]);
    let cfg = ImuConfig::default();
    assert_eq!(Qmi8658Driver.reset(&mut bus, TARGET), Ok(()));
    assert_eq!(Qmi8658Driver.configure(&mut bus, TARGET, &cfg, &NoResources), Ok(()));
    assert_eq!(
        writes(&bus),
        vec![
            (0x60, vec![0xB0]),
            (0x02, vec![0x20]),
            (0x03, vec![0x06]),
            (0x04, vec![0x76]),
            (0x06, vec![0x00]),
            (0x08, vec![0x03]),
        ]
    );
    assert_eq!(bus.log[1], BusRecord::Delay { ms: 20 });
    assert_eq!(*bus.log.last().unwrap(), BusRecord::Delay { ms: 50 });
}

#[test]
fn hxy_reset_does_nothing() {
    let mut bus = ScriptedBus::new(vec![]);
    assert_eq!(Hxy42688Driver.reset(&mut bus, TARGET), Ok(()));
    assert_eq!(bus.operation_count(), 0);
}

#[test]
fn hxy_reads_big_endian_block() {
    let mut bus = ScriptedBus::new(vec![
        0x01, 0x00, 0x01, 0xFF, 0xFF, 0x80, 0x00, 0x7F, 0xFF, 0x00, 0x10, 0x12, 0x34,
    ]);
    assert_eq!(
        Hxy42688Driver.read_raw(&mut bus, TARGET),
        Ok(RawSample { accel: [1, -1, -32768], gyro: [32767, 16, 0x1234], temp: None })
    );
}

#[test]
fn hxy_without_data_ready_reports_it() {
    let mut bus = ScriptedBus::new(vec![0x04]);
    assert_eq!(Hxy42688Driver.read_raw(&mut bus, TARGET), Err(ImuError::DataNotReady));
    assert_eq!(bus.operation_count(), 1);
}

#[test]
fn qmi_reads_little_endian_words() {
    let mut bus = ScriptedBus::new(vec![0x34, 0x12]);
    assert_eq!(read_i16_le(&mut bus, TARGET, 0x35), Ok(0x1234));
    let mut bus = ScriptedBus::new(vec![0x00, 0x80]);
    assert_eq!(read_i16_le(&mut bus, TARGET, 0x35), Ok(-32768));
    let mut bus = ScriptedBus::new(vec![1, 0, 2, 0, 3, 0, 0xFF, 0xFF, 5, 0, 6, 0]);
    assert_eq!(
        read_sample(&mut bus, TARGET),
        Ok(RawSample { accel: [1, 2, 3], gyro: [-1, 5, 6], temp: None })
    );
    match &bus.log[1] {
        BusRecord::Read { reg, .. } => assert_eq!(*reg, 0x36),
        other => panic!("unexpected record {:?}", other),
    }
}

#[test]
fn qmi_read_waits_for_both_ready_bits() {
    let mut script = vec![0x01, 0x02, 0x03];
    script.extend_from_slice(&[1, 0, 2, 0, 3, 0, 4, 0, 5, 0, 6, 0]);
    let mut bus = ScriptedBus::new(script);
    assert_eq!(
        Qmi8658Driver.read_raw(&mut bus, TARGET),
        Ok(RawSample { accel: [1, 2, 3], gyro: [4, 5, 6], temp: None })
    );
    let delays = bus.log.iter().filter(|r| matches!(r, BusRecord::Delay { ms: 1 })).count();
    assert_eq!(delays, 2);
}

#[test]
fn qmi_read_gives_up_waiting_after_ten_polls() {
    let mut script = vec![0u8; 10];
    script.extend_from_slice(&[1, 0, 2, 0, 3, 0, 4, 0, 5, 0, 6, 0]);
    let mut bus = ScriptedBus::new(script);
    assert_eq!(
        Qmi8658Driver.read_raw(&mut bus, TARGET),
        Ok(RawSample { accel: [1, 2, 3], gyro: [4, 5, 6], temp: None })
    );
    assert_eq!(bus.operation_count(), 10 + 10 + 12);
}

#[test]
fn driver_ref_dispatches_to_its_driver() {
    assert_eq!(DriverRef::Hxy42688.kind(), ImuKind::Icm42688Hxy);
    assert_eq!(DriverRef::Qmi8658.kind(), ImuKind::Qmi8658A);
    assert_eq!(hxy42688_descriptor().name, "ICM-42688-HXY");
    assert_eq!(qmi8658_descriptor().driver, DriverRef::Qmi8658);
    let caps = DriverRef::Qmi8658.capabilities();
    assert_eq!(caps.supported_accel_ranges[0].map(|r| r.0), Some(2));
}

#[test]
fn scripted_bus_logs_profiles() {
    let mut bus = ScriptedBus::new(vec![]);
    let profile = BusProfile::new(1, BusMode::Mode3, 100);
    assert_eq!(bus.apply_profile(TARGET, profile), Ok(()));
    assert_eq!(bus.log[0], BusRecord::Profile { target: TARGET, profile, result: Ok(()) });
}

#[test]
fn scripted_bus_reads_from_its_cursor() {
    let mut bus = ScriptedBus::new(vec![1, 2, 3]);
    let mut two = [0u8; 2];
    assert_eq!(bus.read_regs(TARGET, 0x10, 0, &mut two), Ok(()));
    assert_eq!(two, [1, 2]);
    assert_eq!(bus.cursor, 2);
    let mut more = [9u8; 2];
    assert_eq!(bus.read_regs(TARGET, 0x10, 0, &mut more), Err(ImuError::CommunicationError));
    assert_eq!(more, [9, 9]);
    assert_eq!(bus.cursor, 2);
}
