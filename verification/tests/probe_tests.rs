use imu_core::bus::{BusId, BusMode, BusProfile, ImuTargetId};
use imu_core::driver::DriverResources;
use imu_core::drivers::{hxy42688_descriptor, qmi8658_descriptor, CandidateDriver, DriverRef};
use imu_core::probe::{
    bmi270_profiles, dump_profile, dump_profiles, poll_bmi270, probe_first_matching, find_candidate_name, probe_snapshot, Detected, InitReport, ProbeConfig,
    Runtime, StreamReport,
};
use imu_core::sample::RawSample;
use imu_core::scripted::{BusRecord, ScriptedBus};
use imu_core::types::{DriverResourceKey, ImuConfig, ImuError, ImuKind};

struct NoResources;

impl DriverResources for NoResources {
    fn bytes(&self, _key: DriverResourceKey) -> Option<&[u8]> {
        None
    }
}

const TARGET: ImuTargetId = ImuTargetId { bus_id: BusId(0), target_index: 3 };

fn profile() -> BusProfile {
    BusProfile::new(0, BusMode::Mode0, 1_000)
}

fn slot(expected: ImuKind) -> ProbeConfig {
    ProbeConfig {
        label: "slot-4",
        expected,
        target: TARGET,
        candidates: vec![
            CandidateDriver { descriptor: hxy42688_descriptor(), profiles: vec![profile()] },
            CandidateDriver { descriptor: qmi8658_descriptor(), profiles: vec![profile()] },
        ],
    }
}

#[test]
fn new_runtime_has_nothing_detected() {
    let config = slot(ImuKind::Qmi8658A);
    let runtime = Runtime::new(&config);
    assert!(runtime.detected.is_none());
    assert_eq!(runtime.sample_index, 0);
    assert_eq!(runtime.config.label, "slot-4");
}

#[test]
fn answering_driver_is_initialised_and_detected() {
    let config = slot(ImuKind::Qmi8658A);
    let mut runtime = Runtime::new(&config);
    let mut bus = ScriptedBus::new(vec![]);
    let report = runtime.initialize(
        &mut bus,
        Ok(Some((DriverRef::Qmi8658, profile()))),
        &ImuConfig::default(),
        &NoResources,
    );
    assert_eq!(
        report,
        InitReport::Detected {
            name: "QMI8658A",
            kind: ImuKind::Qmi8658A,
            profile: profile(),
            mismatch: false
        }
    );
    assert_eq!(
        runtime.detected,
        Some(Detected { name: "QMI8658A", driver: DriverRef::Qmi8658, profile: profile() })
    );
    // Reset (one write, one delay) and configuration (five writes, one delay).
    assert_eq!(bus.operation_count(), 8);
}

#[test]
fn unexpected_sensor_is_flagged() {
    let config = slot(ImuKind::Icm42688Pc);
    let mut runtime = Runtime::new(&config);
    let mut bus = ScriptedBus::new(vec![]);
    let report = runtime.initialize(
        &mut bus,
        Ok(Some((DriverRef::Hxy42688, profile()))),
        &ImuConfig::default(),
        &NoResources,
    );
    assert_eq!(
        report,
        InitReport::Detected {
            name: "ICM-42688-HXY",
            kind: ImuKind::Icm42688Hxy,
            profile: profile(),
            mismatch: true
        }
    );
}

#[test]
fn failed_configuration_leaves_slot_undetected() {
    let config = slot(ImuKind::Qmi8658A);
    let mut runtime = Runtime::new(&config);
    let mut bus = ScriptedBus::with_write_limit(vec![], 3);
    let report = runtime.initialize(
        &mut bus,
        Ok(Some((DriverRef::Qmi8658, profile()))),
        &ImuConfig::default(),
        &NoResources,
    );
    assert_eq!(
        report,
        InitReport::InitFailed { kind: ImuKind::Qmi8658A, error: ImuError::CommunicationError }
    );
    assert!(runtime.detected.is_none());
}

#[test]
fn failed_reset_skips_configuration() {
    let config = slot(ImuKind::Qmi8658A);
    let mut runtime = Runtime::new(&config);
    let mut bus = ScriptedBus::with_write_limit(vec![], 0);
    let report = runtime.initialize(
        &mut bus,
        Ok(Some((DriverRef::Qmi8658, profile()))),
        &ImuConfig::default(),
        &NoResources,
    );
    assert_eq!(
        report,
        InitReport::InitFailed { kind: ImuKind::Qmi8658A, error: ImuError::CommunicationError }
    );
    assert_eq!(bus.operation_count(), 1);
}

#[test]
fn nothing_found_or_probe_error() {
    let config = slot(ImuKind::Qmi8658A);
    let mut runtime = Runtime::new(&config);
    let mut bus = ScriptedBus::new(vec![]);
    let cfg = ImuConfig::default();
    assert_eq!(runtime.initialize(&mut bus, Ok(None), &cfg, &NoResources), InitReport::Unavailable);
    assert_eq!(
        runtime.initialize(&mut bus, Err(ImuError::InvalidTarget), &cfg, &NoResources),
        InitReport::ProbeError(ImuError::InvalidTarget)
    );
    assert_eq!(bus.operation_count(), 0);
    assert_eq!(runtime.stream_step(&mut bus), StreamReport::Idle);
}

#[test]
fn driver_without_candidate_is_unknown() {
    let candidates = vec![CandidateDriver { descriptor: hxy42688_descriptor(), profiles: vec![] }];
    assert_eq!(find_candidate_name(&candidates, DriverRef::Qmi8658), "unknown");
    assert_eq!(find_candidate_name(&candidates, DriverRef::Hxy42688), "ICM-42688-HXY");
}

#[test]
fn streaming_numbers_samples() {
    let config = slot(ImuKind::Qmi8658A);
    let mut runtime = Runtime::new(&config);
    runtime.detected =
        Some(Detected { name: "QMI8658A", driver: DriverRef::Qmi8658, profile: profile() });
    let mut script = vec![0x03];
    script.extend_from_slice(&[1, 0, 2, 0, 3, 0, 4, 0, 5, 0, 6, 0]);
    let mut bus = ScriptedBus::new(script);
    assert_eq!(
        runtime.stream_step(&mut bus),
        StreamReport::Sample {
            index: 1,
            raw: RawSample { accel: [1, 2, 3], gyro: [4, 5, 6], temp: None }
        }
    );
    assert_eq!(bus.log[0], BusRecord::Profile { target: TARGET, profile: profile(), result: Ok(()) });
    assert_eq!(runtime.stream_step(&mut bus), StreamReport::SampleFailed(ImuError::CommunicationError));
    assert_eq!(runtime.sample_index, 1);
}

#[test]
fn sample_numbers_wrap() {
    let config = slot(ImuKind::Icm42688Hxy);
    let mut runtime = Runtime::new(&config);
    runtime.sample_index = u32::MAX;
    runtime.detected =
        Some(Detected { name: "ICM-42688-HXY", driver: DriverRef::Hxy42688, profile: profile() });
    let mut script = vec![0x01];
    script.extend_from_slice(&[0; 12]);
    let mut bus = ScriptedBus::new(script);
    assert_eq!(
        runtime.stream_step(&mut bus),
        StreamReport::Sample { index: 0, raw: RawSample { accel: [0; 3], gyro: [0; 3], temp: None } }
    );
}

#[test]
fn snapshot_reads_both_modes() {
    let mut bus = ScriptedBus::new(vec![1, 2, 3, 4, 5, 6, 7]);
    let snapshot = probe_snapshot(&mut bus, TARGET);
    assert_eq!(snapshot.mode0, [Some(1), Some(2), Some(3), Some(4), Some(5)]);
    assert_eq!(snapshot.mode3, [Some(6), Some(7), None, None, None]);
    assert_eq!(bus.operation_count(), 12);
    match &bus.log[6] {
        BusRecord::Profile { profile, .. } => assert_eq!(profile.mode, BusMode::Mode3),
        other => panic!("unexpected record {:?}", other),
    }
    match &bus.log[5] {
        BusRecord::Read { reg, dummy_bytes, .. } => assert_eq!((*reg, *dummy_bytes), (0x00, 1)),
        other => panic!("unexpected record {:?}", other),
    }
}

#[test]
fn profile_dump_reads_with_dummy_bytes() {
    let mut bus = ScriptedBus::new(vec![0x24, 0x24, 0x24, 0x00, 0x01, 0x02]);
    let p = BusProfile::new(5, BusMode::Mode3, 1_000);
    assert_eq!(
        dump_profile(&mut bus, TARGET, p),
        [Some(0x24), Some(0x24), Some(0x24), Some(0x00), Some(0x01), Some(0x02)]
    );
    assert_eq!(bus.log[1], BusRecord::Delay { ms: 2 });
    match &bus.log[4] {
        BusRecord::Read { reg, dummy_bytes, .. } => assert_eq!((*reg, *dummy_bytes), (0x00, 2)),
        other => panic!("unexpected record {:?}", other),
    }
}

#[test]
fn search_tries_candidates_and_profiles_in_order() {
    let m0 = BusProfile::new(0, BusMode::Mode0, 1_000);
    let m3 = BusProfile::new(3, BusMode::Mode3, 1_000);
    let candidates = vec![
        CandidateDriver { descriptor: hxy42688_descriptor(), profiles: vec![m0, m3] },
        CandidateDriver { descriptor: qmi8658_descriptor(), profiles: vec![m0] },
    ];
    // HXY under mode 0 and mode 3: three rejected rounds each; then the
    // QMI8658A answers.
    let mut script = vec![0u8; 12];
    script.extend_from_slice(&[0x05, 0x00]);
    let mut bus = ScriptedBus::new(script);
    assert_eq!(
        probe_first_matching(&mut bus, TARGET, &candidates),
        Ok(Some((DriverRef::Qmi8658, m0)))
    );
    let profiles: Vec<BusProfile> = bus
        .log
        .iter()
        .filter_map(|r| match r {
            BusRecord::Profile { profile, .. } => Some(*profile),
            _ => None,
        })
        .collect();
    assert_eq!(profiles, vec![m0, m3, m0]);
}

#[test]
fn search_without_answer_or_with_bus_error() {
    let m0 = BusProfile::new(0, BusMode::Mode0, 1_000);
    let candidates =
        vec![CandidateDriver { descriptor: qmi8658_descriptor(), profiles: vec![m0] }];
    let mut bus = ScriptedBus::new(vec![0u8; 6]);
    assert_eq!(probe_first_matching(&mut bus, TARGET, &candidates), Ok(None));
    let mut bus = ScriptedBus::new(vec![]);
    assert_eq!(
        probe_first_matching(&mut bus, TARGET, &candidates),
        Err(ImuError::CommunicationError)
    );
    let mut bus = ScriptedBus::new(vec![]);
    assert_eq!(probe_first_matching(&mut bus, TARGET, &Vec::new()), Ok(None));
    assert_eq!(bus.operation_count(), 0);
}

#[test]
fn profile_dumps_and_polls() {
    let profiles = vec![BusProfile::new(0, BusMode::Mode0, 100), BusProfile::new(3, BusMode::Mode3, 100)];
    let mut bus = ScriptedBus::new((1..=9).collect());
    let dumps = dump_profiles(&mut bus, TARGET, &profiles);
    assert_eq!(dumps.len(), 2);
    assert_eq!(dumps[0], [Some(1), Some(2), Some(3), Some(4), Some(5), Some(6)]);
    assert_eq!(dumps[1], [Some(7), Some(8), Some(9), None, None, None]);
    assert_eq!(bus.operation_count(), 16);
    let mut bus = ScriptedBus::new(vec![0x24, 0x01]);
    assert_eq!(poll_bmi270(&mut bus, TARGET, profiles[0]), [Some(0x24), Some(0x01), None]);
    match &bus.log[3] {
        BusRecord::Read { reg, dummy_bytes, .. } => assert_eq!((*reg, *dummy_bytes), (0x7C, 1)),
        other => panic!("unexpected record {:?}", other),
    }
}

#[test]
fn bmi270_profiles_walk_both_modes_and_clocks() {
    let p = bmi270_profiles();
    let seen: Vec<(u8, BusMode, u32)> = p.iter().map(|p| (p.id, p.mode, p.frequency_khz)).collect();
    assert_eq!(
        seen,
        vec![
            (0, BusMode::Mode0, 100),
            (1, BusMode::Mode0, 500),
            (2, BusMode::Mode0, 1_000),
            (3, BusMode::Mode3, 100),
            (4, BusMode::Mode3, 500),
            (5, BusMode::Mode3, 1_000),
        ]
    );
}
