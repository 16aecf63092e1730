//! The bring-up runtime of a probing board: per slot, initialise the driver
//! that answered and stream its raw samples; plus the register snapshot
//! printed before probing.

use vstd::prelude::*;
use crate::bus::{read_reg_event, BusEvent, BusMode, BusProfile, ImuBus, ImuTargetId};
use crate::driver::{
    delta, extends, is_reg_read, lemma_extends_append, lemma_reg_read_event, reg_value,
    DriverResources, ImuDriver,
};
use crate::drivers::{
    configure_outcome, driver_kind, driver_probe_outcome, read_outcome, reset_outcome,
    CandidateDriver, DriverRef,
};
use crate::sample::RawSample;
use crate::types::{ImuConfig, ImuError, ImuKind};

verus! {

/// The SPI clock used while taking a register snapshot.
pub const SNAPSHOT_FREQ_KHZ: u32 = 1_000;

/// One slot of the board: its label, the sensor expected there, the bus
/// target that reaches it and the drivers to try.
pub struct ProbeConfig {
    pub label: &'static str,
    pub expected: ImuKind,
    pub target: ImuTargetId,
    pub candidates: Vec<CandidateDriver>,
}

/// The driver that answered on a slot, under its display name, and the
/// bus profile it answered with.
#[derive(Clone, Copy, Debug, PartialEq, Eq)]
pub struct Detected {
    pub name: &'static str,
    pub driver: DriverRef,
    pub profile: BusProfile,
}

/// The state of one slot while the board runs.
pub struct Runtime<'a> {
    pub config: &'a ProbeConfig,
    pub detected: Option<Detected>,
    pub sample_index: u32,
}

/// How initialising a slot went.
#[derive(Clone, Copy, Debug, PartialEq, Eq)]
pub enum InitReport {
    /// Probing failed on the bus.
    ProbeError(ImuError),
    /// No candidate answered.
    Unavailable,
    /// The driver answered but its reset or configuration failed.
    InitFailed { kind: ImuKind, error: ImuError },
    /// The driver answered and is configured; `mismatch` is set when it is
    /// not the sensor the slot expects.
    Detected { name: &'static str, kind: ImuKind, profile: BusProfile, mismatch: bool },
}

/// What one streaming step of a slot did.
#[derive(Clone, Copy, Debug, PartialEq, Eq)]
pub enum StreamReport {
    /// Nothing was detected on the slot.
    Idle,
    /// Switching to the detected profile failed.
    ProfileFailed(ImuError),
    /// Reading the sample failed.
    SampleFailed(ImuError),
    /// A sample was read; `index` is its number on this slot.
    Sample { index: u32, raw: RawSample },
}

/// The display name of `d` among `candidates`: that of the first candidate
/// with this driver, or `unknown`.
pub open spec fn candidate_name(candidates: Seq<CandidateDriver>, d: DriverRef) -> Seq<char>
    decreases candidates.len(),
{
    if candidates.len() == 0 {
        "unknown"@
    } else if candidates[0].descriptor.driver == d {
        candidates[0].descriptor.name@
    } else {
        candidate_name(candidates.drop_first(), d)
    }
}

/// Resetting then configuring with `d` left `events` and reported
/// `result`: either the reset failed, leaving all the events, or it
/// succeeded on a prefix and the configuration left the rest.
pub open spec fn init_outcome(
    d: DriverRef,
    target: ImuTargetId,
    events: Seq<BusEvent>,
    result: Result<(), ImuError>,
) -> bool {
    ||| result is Err && reset_outcome(d, target, events, result)
    ||| exists|k: int|
        0 <= k <= events.len() && #[trigger] reset_outcome(d, target, events.take(k), Ok(()))
            && configure_outcome(d, target, events.skip(k), result)
}

/// `x + 1`, wrapping around at `u32::MAX`.
pub open spec fn wrapping_next(x: u32) -> u32 {
    if x == u32::MAX {
        0
    } else {
        (x + 1) as u32
    }
}

/// Finds the display name of `driver` among `candidates`.
pub fn find_candidate_name(candidates: &Vec<CandidateDriver>, driver: DriverRef) -> (name:
    &'static str)
    ensures
        name@ == candidate_name(candidates@, driver),
{
    let mut i: usize = 0;
    assert(candidates@.skip(0) =~= candidates@);
    while i < candidates.len()
        invariant
            i <= candidates@.len(),
            candidate_name(candidates@.skip(i as int), driver) == candidate_name(candidates@, driver),
        decreases candidates@.len() - i,
    {
        assert(candidates@.skip(i as int).drop_first() =~= candidates@.skip(i + 1));
        if candidates[i].descriptor.driver == driver {
            return candidates[i].descriptor.name;
        }
        i = i + 1;
    }
    assert(candidates@.skip(i as int).len() == 0);
    proof {
        reveal_strlit("unknown");
    }
    "unknown"
}

impl<'a> Runtime<'a> {
    /// A slot with nothing detected and no sample read yet.
    pub fn new(config: &'a ProbeConfig) -> (runtime: Self)
        ensures
            runtime.config == config,
            runtime.detected is None,
            runtime.sample_index == 0,
    {
        Runtime { config, detected: None, sample_index: 0 }
    }

    /// Initialises the slot from what probing found: the driver that
    /// answered and its profile, none, or a bus error. A driver that
    /// answered is reset and configured; when both succeed it becomes the
    /// slot's detected driver, named after the first candidate that lists
    /// it.
    pub fn initialize<B: ImuBus, R: DriverResources>(
        &mut self,
        bus: &mut B,
        found: Result<Option<(DriverRef, BusProfile)>, ImuError>,
        imu_config: &ImuConfig,
        resources: &R,
    ) -> (report: InitReport)
        ensures
            final(self).config == old(self).config,
            final(self).sample_index == old(self).sample_index,
            extends(old(bus).trace(), final(bus).trace()),
            match found {
                Err(e) => report == InitReport::ProbeError(e) && final(bus).trace() == old(
                    bus,
                ).trace() && final(self).detected == old(self).detected,
                Ok(None) => report == InitReport::Unavailable && final(bus).trace() == old(
                    bus,
                ).trace() && final(self).detected == old(self).detected,
                Ok(Some((d, profile))) => match report {
                    InitReport::InitFailed { kind, error } => kind == driver_kind(d)
                        && init_outcome(
                        d,
                        old(self).config.target,
                        delta(old(bus).trace(), final(bus).trace()),
                        Err(error),
                    ) && final(self).detected == old(self).detected,
                    InitReport::Detected { name, kind, profile: p, mismatch } => init_outcome(
                        d,
                        old(self).config.target,
                        delta(old(bus).trace(), final(bus).trace()),
                        Ok(()),
                    ) && name@ == candidate_name(old(self).config.candidates@, d) && kind
                        == driver_kind(d) && p == profile && mismatch == (kind
                        != old(self).config.expected) && final(self).detected == Some(
                        Detected { name, driver: d, profile },
                    ),
                    _ => false,
                },
            },
    {
        let ghost before = bus.trace();
        match found {
            Err(e) => {
                proof {
                    crate::driver::lemma_extends_same(before);
                }
                InitReport::ProbeError(e)
            },
            Ok(None) => {
                proof {
                    crate::driver::lemma_extends_same(before);
                }
                InitReport::Unavailable
            },
            Ok(Some((driver, profile))) => {
                let target = self.config.target;
                let reset = driver.reset(bus, target);
                let ghost mid = bus.trace();
                proof {
                    assert(mid =~= before + delta(before, mid));
                }
                match reset {
                    Err(error) => {
                        InitReport::InitFailed { kind: driver.kind(), error }
                    },
                    Ok(()) => {
                        let configured = driver.configure(bus, target, imu_config, resources);
                        let ghost after = bus.trace();
                        proof {
                            let d1 = delta(before, mid);
                            let d2 = delta(mid, after);
                            assert(after =~= mid + d2);
                            assert(after =~= before + (d1 + d2));
                            lemma_extends_append(before, d1 + d2);
                            let all = delta(before, after);
                            assert(all.take(d1.len() as int) =~= d1);
                            assert(all.skip(d1.len() as int) =~= d2);
                            assert(reset_outcome(driver, target, all.take(d1.len() as int), Ok(())));
                        }
                        match configured {
                            Err(error) => InitReport::InitFailed { kind: driver.kind(), error },
                            Ok(()) => {
                                let name = find_candidate_name(&self.config.candidates, driver);
                                let kind = driver.kind();
                                self.detected = Some(Detected { name, driver, profile });
                                InitReport::Detected {
                                    name,
                                    kind,
                                    profile,
                                    mismatch: kind != self.config.expected,
                                }
                            },
                        }
                    },
                }
            },
        }
    }

    /// One streaming step of the slot: switch the bus to the detected
    /// driver's profile, then read a sample, numbering it.
    pub fn stream_step<B: ImuBus>(&mut self, bus: &mut B) -> (report: StreamReport)
        ensures
            final(self).config == old(self).config,
            final(self).detected == old(self).detected,
            extends(old(bus).trace(), final(bus).trace()),
            match old(self).detected {
                None => report is Idle && final(bus).trace() == old(bus).trace()
                    && final(self).sample_index == old(self).sample_index,
                Some(det) => {
                    let events = delta(old(bus).trace(), final(bus).trace());
                    &&& events.len() >= 1
                    &&& events[0] matches BusEvent::Profile { target, profile, result }
                    &&& target == old(self).config.target
                    &&& profile == det.profile
                    &&& match result {
                        Err(e) => report == StreamReport::ProfileFailed(e) && events.len() == 1
                            && final(self).sample_index == old(self).sample_index,
                        Ok(()) => match report {
                            StreamReport::SampleFailed(e) => read_outcome(
                                det.driver,
                                target,
                                events.skip(1),
                                Err(e),
                            ) && final(self).sample_index == old(self).sample_index,
                            StreamReport::Sample { index, raw } => read_outcome(
                                det.driver,
                                target,
                                events.skip(1),
                                Ok(raw),
                            ) && index == wrapping_next(old(self).sample_index)
                                && final(self).sample_index == index,
                            _ => false,
                        },
                    }
                },
            },
    {
        let ghost before = bus.trace();
        match self.detected {
            None => {
                proof {
                    crate::driver::lemma_extends_same(before);
                }
                StreamReport::Idle
            },
            Some(det) => {
                let target = self.config.target;
                let switched = bus.apply_profile(target, det.profile);
                let ghost mid = bus.trace();
                proof {
                    lemma_extends_append(before, seq![mid.last()]);
                    assert(mid =~= before + seq![mid.last()]);
                }
                match switched {
                    Err(e) => StreamReport::ProfileFailed(e),
                    Ok(()) => {
                        let read = det.driver.read_raw(bus, target);
                        let ghost after = bus.trace();
                        proof {
                            let d2 = delta(mid, after);
                            assert(after =~= mid + d2);
                            assert(after =~= before + (seq![mid.last()] + d2));
                            lemma_extends_append(before, seq![mid.last()] + d2);
                            assert((seq![mid.last()] + d2).skip(1) =~= d2);
                        }
                        match read {
                            Err(e) => StreamReport::SampleFailed(e),
                            Ok(raw) => {
                                self.sample_index = self.sample_index.wrapping_add(1);
                                StreamReport::Sample { index: self.sample_index, raw }
                            },
                        }
                    },
                }
            },
        }
    }
}

/// Register reads taken on a target before probing, in SPI mode 0 and in
/// mode 3: registers 0x00, 0x01, 0x05 and 0x75 without dummy byte, and
/// 0x00 after one dummy byte. A failed read is `None`.
#[derive(Clone, Copy, Debug, PartialEq, Eq)]
pub struct ProbeSnapshot {
    pub mode0: [Option<u8>; 5],
    pub mode3: [Option<u8>; 5],
}

/// The registers a snapshot reads, as (register, dummy bytes).
pub open spec fn snapshot_reg(i: int) -> (u8, usize) {
    if i == 0 {
        (0x00u8, 0usize)
    } else if i == 1 {
        (0x01u8, 0usize)
    } else if i == 2 {
        (0x05u8, 0usize)
    } else if i == 3 {
        (0x75u8, 0usize)
    } else {
        (0x00u8, 1usize)
    }
}

/// The byte a read gave, or `None` when it failed.
pub open spec fn read_byte(ev: BusEvent) -> Option<u8> {
    match reg_value(ev) {
        Ok(b) => Some(b),
        Err(_) => None,
    }
}

/// The events of one snapshot pass: the switch to `profile`, then the five
/// snapshot reads, whose bytes are `values`.
pub open spec fn snapshot_pass(
    target: ImuTargetId,
    profile: BusProfile,
    values: [Option<u8>; 5],
    events: Seq<BusEvent>,
) -> bool {
    &&& events.len() == 6
    &&& events[0] matches BusEvent::Profile { target: t, profile: p, .. }
    &&& t == target
    &&& p == profile
    &&& forall|i: int|
        0 <= i < 5 ==> is_reg_read(
            #[trigger] events[i + 1],
            target,
            snapshot_reg(i).0,
            snapshot_reg(i).1,
        ) && values[i] == read_byte(events[i + 1])
}

fn read_opt<B: ImuBus>(bus: &mut B, target: ImuTargetId, reg: u8, dummy: usize) -> (value: Option<u8>)
    ensures
        final(bus).trace() == old(bus).trace().push(final(bus).trace().last()),
        is_reg_read(final(bus).trace().last(), target, reg, dummy),
        value == read_byte(final(bus).trace().last()),
{
    let r = bus.read_reg(target, reg, dummy);
    proof {
        lemma_reg_read_event(target, reg, dummy, r);
    }
    match r {
        Ok(b) => Some(b),
        Err(_) => None,
    }
}

fn snapshot_in<B: ImuBus>(bus: &mut B, target: ImuTargetId, profile: BusProfile) -> (values: [Option<
    u8,
>; 5])
    ensures
        extends(old(bus).trace(), final(bus).trace()),
        snapshot_pass(target, profile, values, delta(old(bus).trace(), final(bus).trace())),
{
    let ghost t0 = bus.trace();
    let _ = bus.apply_profile(target, profile);
    let ghost e0 = bus.trace().last();
    let r0 = read_opt(bus, target, 0x00, 0);
    let ghost e1 = bus.trace().last();
    let r1 = read_opt(bus, target, 0x01, 0);
    let ghost e2 = bus.trace().last();
    let r2 = read_opt(bus, target, 0x05, 0);
    let ghost e3 = bus.trace().last();
    let r3 = read_opt(bus, target, 0x75, 0);
    let ghost e4 = bus.trace().last();
    let r4 = read_opt(bus, target, 0x00, 1);
    let ghost e5 = bus.trace().last();
    let values = [r0, r1, r2, r3, r4];
    proof {
        let added = seq![e0, e1, e2, e3, e4, e5];
        assert(bus.trace() =~= t0 + added);
        lemma_extends_append(t0, added);
        assert forall|i: int| 0 <= i < 5 implies is_reg_read(
            #[trigger] added[i + 1],
            target,
            snapshot_reg(i).0,
            snapshot_reg(i).1,
        ) && values[i] == read_byte(added[i + 1]) by {
            if i == 0 {
            } else if i == 1 {
            } else if i == 2 {
            } else if i == 3 {
            } else {
            }
        }
    }
    values
}

/// Reads the snapshot registers of `target` in mode 0, then in mode 3,
/// both at the snapshot clock.
pub fn probe_snapshot<B: ImuBus>(bus: &mut B, target: ImuTargetId) -> (snapshot: ProbeSnapshot)
    ensures
        extends(old(bus).trace(), final(bus).trace()),
        delta(old(bus).trace(), final(bus).trace()).len() == 12,
        snapshot_pass(
            target,
            BusProfile { id: 0, mode: BusMode::Mode0, frequency_khz: SNAPSHOT_FREQ_KHZ },
            snapshot.mode0,
            delta(old(bus).trace(), final(bus).trace()).take(6),
        ),
        snapshot_pass(
            target,
            BusProfile { id: 3, mode: BusMode::Mode3, frequency_khz: SNAPSHOT_FREQ_KHZ },
            snapshot.mode3,
            delta(old(bus).trace(), final(bus).trace()).skip(6),
        ),
{
    let ghost t0 = bus.trace();
    let mode0 = snapshot_in(
        bus,
        target,
        BusProfile { id: 0, mode: BusMode::Mode0, frequency_khz: SNAPSHOT_FREQ_KHZ },
    );
    let ghost t1 = bus.trace();
    let mode3 = snapshot_in(
        bus,
        target,
        BusProfile { id: 3, mode: BusMode::Mode3, frequency_khz: SNAPSHOT_FREQ_KHZ },
    );
    proof {
        let t2 = bus.trace();
        let d1 = delta(t0, t1);
        let d2 = delta(t1, t2);
        assert(t1 =~= t0 + d1);
        assert(t2 =~= t1 + d2);
        assert(t2 =~= t0 + (d1 + d2));
        lemma_extends_append(t0, d1 + d2);
        assert(delta(t0, t2).take(6) =~= d1);
        assert(delta(t0, t2).skip(6) =~= d2);
    }
    ProbeSnapshot { mode0, mode3 }
}

/// The registers a profile dump reads, as (register, dummy bytes):
/// register 0x00 with zero, one and two dummy bytes, register 0x01, and
/// registers 0x21 and 0x7C after one dummy byte.
pub open spec fn dump_reg(i: int) -> (u8, usize) {
    if i == 0 {
        (0x00u8, 0usize)
    } else if i == 1 {
        (0x00u8, 1usize)
    } else if i == 2 {
        (0x00u8, 2usize)
    } else if i == 3 {
        (0x01u8, 0usize)
    } else if i == 4 {
        (0x21u8, 1usize)
    } else {
        (0x7Cu8, 1usize)
    }
}

/// The pause after switching profiles before a dump reads.
pub const DUMP_SETTLE_MS: u64 = 2;

/// The events of one dump of `target` under `profile`: the profile switch,
/// the settling pause, then the six dump reads, whose bytes are `values`.
pub open spec fn dump_pass(
    target: ImuTargetId,
    profile: BusProfile,
    values: [Option<u8>; 6],
    events: Seq<BusEvent>,
) -> bool {
    &&& events.len() == 8
    &&& events[0] matches BusEvent::Profile { target: t, profile: p, .. }
    &&& t == target
    &&& p == profile
    &&& events[1] == (BusEvent::Delay { ms: DUMP_SETTLE_MS })
    &&& forall|i: int|
        0 <= i < 6 ==> is_reg_read(#[trigger] events[i + 2], target, dump_reg(i).0, dump_reg(i).1)
            && values[i] == read_byte(events[i + 2])
}

/// Switches `target` to `profile`, waits `DUMP_SETTLE_MS`, then reads the
/// dump registers. A failed read is `None`.
pub fn dump_profile<B: ImuBus>(bus: &mut B, target: ImuTargetId, profile: BusProfile) -> (values: [Option<
    u8,
>; 6])
    ensures
        extends(old(bus).trace(), final(bus).trace()),
        dump_pass(target, profile, values, delta(old(bus).trace(), final(bus).trace())),
{
    let ghost t0 = bus.trace();
    let _ = bus.apply_profile(target, profile);
    let ghost e0 = bus.trace().last();
    bus.delay_ms(DUMP_SETTLE_MS);
    let ghost e1 = bus.trace().last();
    let r0 = read_opt(bus, target, 0x00, 0);
    let ghost e2 = bus.trace().last();
    let r1 = read_opt(bus, target, 0x00, 1);
    let ghost e3 = bus.trace().last();
    let r2 = read_opt(bus, target, 0x00, 2);
    let ghost e4 = bus.trace().last();
    let r3 = read_opt(bus, target, 0x01, 0);
    let ghost e5 = bus.trace().last();
    let r4 = read_opt(bus, target, 0x21, 1);
    let ghost e6 = bus.trace().last();
    let r5 = read_opt(bus, target, 0x7C, 1);
    let ghost e7 = bus.trace().last();
    let values = [r0, r1, r2, r3, r4, r5];
    proof {
        let added = seq![e0, e1, e2, e3, e4, e5, e6, e7];
        assert(bus.trace() =~= t0 + added);
        lemma_extends_append(t0, added);
        assert forall|i: int| 0 <= i < 6 implies is_reg_read(
            #[trigger] added[i + 2],
            target,
            dump_reg(i).0,
            dump_reg(i).1,
        ) && values[i] == read_byte(added[i + 2]) by {
            if i == 0 {
            } else if i == 1 {
            } else if i == 2 {
            } else if i == 3 {
            } else if i == 4 {
            } else {
            }
        }
    }
    values
}

/// The profiles the BMI270 bring-up walks through: modes 0 and 3, each at
/// 100 kHz, 500 kHz and 1 MHz.
pub open spec fn spec_bmi270_profiles() -> Seq<BusProfile> {
    seq![
        BusProfile { id: 0, mode: BusMode::Mode0, frequency_khz: 100 },
        BusProfile { id: 1, mode: BusMode::Mode0, frequency_khz: 500 },
        BusProfile { id: 2, mode: BusMode::Mode0, frequency_khz: 1_000 },
        BusProfile { id: 3, mode: BusMode::Mode3, frequency_khz: 100 },
        BusProfile { id: 4, mode: BusMode::Mode3, frequency_khz: 500 },
        BusProfile { id: 5, mode: BusMode::Mode3, frequency_khz: 1_000 },
    ]
}

/// The profiles the BMI270 bring-up walks through, in order.
pub fn bmi270_profiles() -> (profiles: Vec<BusProfile>)
    ensures
        profiles@ == spec_bmi270_profiles(),
{
    let mut v: Vec<BusProfile> = Vec::new();
    v.push(BusProfile::new(0, BusMode::Mode0, 100));
    v.push(BusProfile::new(1, BusMode::Mode0, 500));
    v.push(BusProfile::new(2, BusMode::Mode0, 1_000));
    v.push(BusProfile::new(3, BusMode::Mode3, 100));
    v.push(BusProfile::new(4, BusMode::Mode3, 500));
    v.push(BusProfile::new(5, BusMode::Mode3, 1_000));
    assert(v@ =~= spec_bmi270_profiles());
    v
}

/// Dumps `target` under each of `profiles` in turn.
pub fn dump_profiles<B: ImuBus>(bus: &mut B, target: ImuTargetId, profiles: &Vec<BusProfile>) -> (dumps:
    Vec<[Option<u8>; 6]>)
    ensures
        extends(old(bus).trace(), final(bus).trace()),
        dumps@.len() == profiles@.len(),
        delta(old(bus).trace(), final(bus).trace()).len() == 8 * profiles@.len(),
        forall|k: int|
            0 <= k < profiles@.len() ==> dump_pass(
                target,
                profiles@[k],
                #[trigger] dumps@[k],
                delta(old(bus).trace(), final(bus).trace()).subrange(8 * k, 8 * k + 8),
            ),
{
    let ghost start = bus.trace();
    proof {
        crate::driver::lemma_extends_same(start);
    }
    let mut dumps: Vec<[Option<u8>; 6]> = Vec::new();
    let mut n: usize = 0;
    while n < profiles.len()
        invariant
            n <= profiles@.len(),
            dumps@.len() == n,
            start == old(bus).trace(),
            extends(start, bus.trace()),
            delta(start, bus.trace()).len() == 8 * n,
            forall|k: int|
                0 <= k < n ==> dump_pass(
                    target,
                    profiles@[k],
                    #[trigger] dumps@[k],
                    delta(start, bus.trace()).subrange(8 * k, 8 * k + 8),
                ),
        decreases profiles@.len() - n,
    {
        let ghost done = delta(start, bus.trace());
        let ghost mid = bus.trace();
        let values = dump_profile(bus, target, profiles[n]);
        proof {
            let mine = delta(mid, bus.trace());
            assert(mid =~= start + done);
            assert(bus.trace() =~= mid + mine);
            assert(bus.trace() =~= start + (done + mine));
            lemma_extends_append(start, done + mine);
            let all = done + mine;
            assert forall|k: int| 0 <= k < n + 1 implies dump_pass(
                target,
                profiles@[k],
                #[trigger] dumps@.push(values)[k],
                all.subrange(8 * k, 8 * k + 8),
            ) by {
                if k < n {
                    assert(all.subrange(8 * k, 8 * k + 8) =~= done.subrange(8 * k, 8 * k + 8));
                } else {
                    assert(all.subrange(8 * k, 8 * k + 8) =~= mine);
                }
            }
        }
        dumps.push(values);
        n = n + 1;
    }
    dumps
}

/// The registers the BMI270 poll reads, all after one dummy byte: chip
/// id (0x00), status (0x21) and power control (0x7C).
pub open spec fn poll_reg(i: int) -> u8 {
    if i == 0 {
        0x00u8
    } else if i == 1 {
        0x21u8
    } else {
        0x7Cu8
    }
}

/// One BMI270 poll: switch `target` to `profile`, then read the chip id,
/// status and power control registers after one dummy byte each. A failed
/// read is `None`.
pub fn poll_bmi270<B: ImuBus>(bus: &mut B, target: ImuTargetId, profile: BusProfile) -> (values: [Option<
    u8,
>; 3])
    ensures
        extends(old(bus).trace(), final(bus).trace()),
        ({
            let events = delta(old(bus).trace(), final(bus).trace());
            &&& events.len() == 4
            &&& events[0] matches BusEvent::Profile { target: t, profile: p, .. }
            &&& t == target
            &&& p == profile
            &&& forall|i: int|
                0 <= i < 3 ==> is_reg_read(#[trigger] events[i + 1], target, poll_reg(i), 1)
                    && values[i] == read_byte(events[i + 1])
        }),
{
    let ghost t0 = bus.trace();
    let _ = bus.apply_profile(target, profile);
    let ghost e0 = bus.trace().last();
    let r0 = read_opt(bus, target, 0x00, 1);
    let ghost e1 = bus.trace().last();
    let r1 = read_opt(bus, target, 0x21, 1);
    let ghost e2 = bus.trace().last();
    let r2 = read_opt(bus, target, 0x7C, 1);
    let ghost e3 = bus.trace().last();
    let values = [r0, r1, r2];
    proof {
        let added = seq![e0, e1, e2, e3];
        assert(bus.trace() =~= t0 + added);
        lemma_extends_append(t0, added);
        assert forall|i: int| 0 <= i < 3 implies is_reg_read(
            #[trigger] added[i + 1],
            target,
            poll_reg(i),
            1,
        ) && values[i] == read_byte(added[i + 1]) by {
            if i == 0 {
            } else if i == 1 {
            } else {
            }
        }
    }
    values
}

/// The (driver, bus profile) pairs a search tries, in order: the profiles
/// of the first candidate, then those of the next, and so on.
pub open spec fn search_attempts(candidates: Seq<CandidateDriver>) -> Seq<(DriverRef, BusProfile)>
    decreases candidates.len(),
{
    if candidates.len() == 0 {
        Seq::empty()
    } else {
        search_attempts(candidates.drop_last()) + candidates.last().profiles@.map_values(
            |p: BusProfile| (candidates.last().descriptor.driver, p),
        )
    }
}

/// Trying `attempts` in order on `target` left `events` and reported
/// `result`. Each attempt switches the bus to its profile, then runs its
/// driver's identification. A failed switch or identification ends the
/// search with its error, a recognised chip ends it with that driver and
/// profile, and a chip that is not recognised moves on to the next
/// attempt; when none is left the result is `Ok(None)`.
pub open spec fn search_outcome(
    target: ImuTargetId,
    attempts: Seq<(DriverRef, BusProfile)>,
    events: Seq<BusEvent>,
    result: Result<Option<(DriverRef, BusProfile)>, ImuError>,
) -> bool
    decreases attempts.len(),
{
    if attempts.len() == 0 {
        events.len() == 0 && result == Ok::<Option<(DriverRef, BusProfile)>, ImuError>(None)
    } else {
        let d = attempts[0].0;
        let p = attempts[0].1;
        &&& events.len() >= 1
        &&& events[0] matches BusEvent::Profile { target: t, profile: q, result: switched }
        &&& t == target
        &&& q == p
        &&& match switched {
            Err(e) => events.len() == 1 && result == Err::<
                Option<(DriverRef, BusProfile)>,
                ImuError,
            >(e),
            Ok(()) => exists|k: int, probed: Result<bool, ImuError>|
                1 <= k <= events.len() && #[trigger] driver_probe_outcome(
                    d,
                    target,
                    events.subrange(1, k),
                    probed,
                ) && match probed {
                    Err(e) => k == events.len() && result == Err::<
                        Option<(DriverRef, BusProfile)>,
                        ImuError,
                    >(e),
                    Ok(true) => k == events.len() && result == Ok::<
                        Option<(DriverRef, BusProfile)>,
                        ImuError,
                    >(Some((d, p))),
                    Ok(false) => search_outcome(target, attempts.drop_first(), events.skip(k), result),
                },
        }
    }
}

/// A search whose first attempts found nothing continues as the search of
/// the remaining attempts.
pub proof fn lemma_search_append(
    target: ImuTargetId,
    first: Seq<(DriverRef, BusProfile)>,
    first_events: Seq<BusEvent>,
    rest: Seq<(DriverRef, BusProfile)>,
    rest_events: Seq<BusEvent>,
    result: Result<Option<(DriverRef, BusProfile)>, ImuError>,
)
    requires
        search_outcome(target, first, first_events, Ok(None)),
        search_outcome(target, rest, rest_events, result),
    ensures
        search_outcome(target, first + rest, first_events + rest_events, result),
    decreases first.len(),
{
    if first.len() == 0 {
        assert(first + rest =~= rest);
        assert(first_events + rest_events =~= rest_events);
    } else {
        let all = first + rest;
        let evs = first_events + rest_events;
        let d = first[0].0;
        let p = first[0].1;
        assert(all[0] == first[0]);
        assert(evs[0] == first_events[0]);
        let (k, probed) = choose|k: int, probed: Result<bool, ImuError>|
            1 <= k <= first_events.len() && #[trigger] driver_probe_outcome(
                d,
                target,
                first_events.subrange(1, k),
                probed,
            ) && match probed {
                Err(e) => k == first_events.len() && Ok::<
                    Option<(DriverRef, BusProfile)>,
                    ImuError,
                >(None) == Err::<Option<(DriverRef, BusProfile)>, ImuError>(e),
                Ok(true) => k == first_events.len() && Ok::<
                    Option<(DriverRef, BusProfile)>,
                    ImuError,
                >(None) == Ok::<Option<(DriverRef, BusProfile)>, ImuError>(Some((d, p))),
                Ok(false) => search_outcome(
                    target,
                    first.drop_first(),
                    first_events.skip(k),
                    Ok(None),
                ),
            };
        lemma_search_append(
            target,
            first.drop_first(),
            first_events.skip(k),
            rest,
            rest_events,
            result,
        );
        assert(all.drop_first() =~= first.drop_first() + rest);
        assert(evs.skip(k) =~= first_events.skip(k) + rest_events);
        assert(evs.subrange(1, k) =~= first_events.subrange(1, k));
        assert(driver_probe_outcome(d, target, evs.subrange(1, k), probed));
    }
}

/// Tries the candidates in order, each with its profiles in order, and
/// returns the first driver that recognises its chip, with the profile it
/// answered with; a failed profile switch or identification ends the
/// search with its error.
pub fn probe_first_matching<B: ImuBus>(
    bus: &mut B,
    target: ImuTargetId,
    candidates: &Vec<CandidateDriver>,
) -> (result: Result<Option<(DriverRef, BusProfile)>, ImuError>)
    ensures
        extends(old(bus).trace(), final(bus).trace()),
        search_outcome(
            target,
            search_attempts(candidates@),
            delta(old(bus).trace(), final(bus).trace()),
            result,
        ),
{
    let mut attempts: Vec<(DriverRef, BusProfile)> = Vec::new();
    let mut c: usize = 0;
    while c < candidates.len()
        invariant
            c <= candidates@.len(),
            attempts@ == search_attempts(candidates@.take(c as int)),
        decreases candidates@.len() - c,
    {
        let driver = candidates[c].descriptor.driver;
        let profiles = &candidates[c].profiles;
        let ghost base = attempts@;
        let mut q: usize = 0;
        while q < profiles.len()
            invariant
                q <= profiles@.len(),
                profiles == &candidates@[c as int].profiles,
                driver == candidates@[c as int].descriptor.driver,
                attempts@ == base + profiles@.take(q as int).map_values(
                    |p: BusProfile| (driver, p),
                ),
            decreases profiles@.len() - q,
        {
            attempts.push((driver, profiles[q]));
            assert(attempts@ =~= base + profiles@.take(q + 1).map_values(
                |p: BusProfile| (driver, p),
            ));
            q = q + 1;
        }
        proof {
            let taken = candidates@.take(c + 1);
            assert(taken.drop_last() =~= candidates@.take(c as int));
            assert(taken.last() == candidates@[c as int]);
            assert(profiles@.take(q as int) =~= profiles@);
        }
        c = c + 1;
    }
    assert(candidates@.take(candidates@.len() as int) =~= candidates@);
    let ghost start = bus.trace();
    proof {
        crate::driver::lemma_extends_same(start);
        assert(attempts@.take(0) =~= Seq::<(DriverRef, BusProfile)>::empty());
    }
    let mut n: usize = 0;
    while n < attempts.len()
        invariant
            n <= attempts@.len(),
            attempts@ == search_attempts(candidates@),
            start == old(bus).trace(),
            extends(start, bus.trace()),
            search_outcome(target, attempts@.take(n as int), delta(start, bus.trace()), Ok(None)),
        decreases attempts@.len() - n,
    {
        let (driver, profile) = attempts[n];
        let ghost done = delta(start, bus.trace());
        let ghost mid0 = bus.trace();
        let switched = bus.apply_profile(target, profile);
        let ghost ev = bus.trace().last();
        proof {
            assert(bus.trace() =~= mid0.push(ev));
        }
        let rest_attempts = Ghost(attempts@.skip(n as int));
        proof {
            assert(rest_attempts@[0] == attempts@[n as int]);
            assert(attempts@.take(n as int) + rest_attempts@ =~= attempts@);
        }
        match switched {
            Err(e) => {
                proof {
                    let mine = seq![ev];
                    assert(search_outcome(target, rest_attempts@, mine, Err(e)));
                    lemma_search_append(target, attempts@.take(n as int), done, rest_attempts@, mine, Err(e));
                    assert(bus.trace() =~= start + (done + mine));
                    lemma_extends_append(start, done + mine);
                }
                return Err(e);
            },
            Ok(()) => {},
        }
        let ghost mid1 = bus.trace();
        let probed = driver.probe(bus, target);
        let ghost after = bus.trace();
        let ghost probe_events = delta(mid1, after);
        let ghost mine = seq![ev] + probe_events;
        proof {
            assert(after =~= mid1 + probe_events);
            assert(after =~= start + (done + mine));
            lemma_extends_append(start, done + mine);
            assert(mine.subrange(1, mine.len() as int) =~= probe_events);
            assert(driver_probe_outcome(driver, target, mine.subrange(1, mine.len() as int), probed));
        }
        match probed {
            Err(e) => {
                proof {
                    assert(search_outcome(target, rest_attempts@, mine, Err(e)));
                    lemma_search_append(target, attempts@.take(n as int), done, rest_attempts@, mine, Err(e));
                }
                return Err(e);
            },
            Ok(true) => {
                proof {
                    let r = Ok::<Option<(DriverRef, BusProfile)>, ImuError>(Some((driver, profile)));
                    assert(search_outcome(target, rest_attempts@, mine, r));
                    lemma_search_append(target, attempts@.take(n as int), done, rest_attempts@, mine, r);
                }
                return Ok(Some((driver, profile)));
            },
            Ok(false) => {
                proof {
                    let one = seq![attempts@[n as int]];
                    let none = Ok::<Option<(DriverRef, BusProfile)>, ImuError>(None);
                    assert(mine.skip(mine.len() as int) =~= Seq::<BusEvent>::empty());
                    assert(one.drop_first() =~= Seq::<(DriverRef, BusProfile)>::empty());
                    assert(search_outcome(target, one.drop_first(), mine.skip(mine.len() as int), none));
                    assert(search_outcome(target, one, mine, none));
                    lemma_search_append(target, attempts@.take(n as int), done, one, mine, none);
                    assert(attempts@.take(n as int) + one =~= attempts@.take(n + 1));
                    assert(delta(start, bus.trace()) =~= done + mine);
                }
            },
        }
        n = n + 1;
    }
    proof {
        assert(attempts@.take(n as int) =~= attempts@);
    }
    Ok(None)
}

} // verus!
