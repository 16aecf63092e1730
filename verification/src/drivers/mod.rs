//! Register-level drivers for the supported sensors, and the descriptors
//! a board uses to list which drivers may sit behind each target.

pub mod hxy42688;
pub mod qmi8658;

use vstd::prelude::*;
use crate::bus::{BusEvent, BusProfile, ImuBus, ImuTargetId};
use crate::driver::{
    block_value, delta, extends, is_reg_read, lemma_extends_same, probe_outcome, probe_split,
    reg_value, rejected_attempt, script_outcome, DriverResources, ImuDriver,
};
use crate::sample::RawSample;
use crate::types::{ImuCapabilities, ImuConfig, ImuError, ImuKind};
use self::hxy42688::{hxy_accept, hxy_capabilities, hxy_configure_steps, hxy_read_outcome, Hxy42688Driver};
use self::qmi8658::{qmi_accept, qmi_capabilities, qmi_configure_steps, qmi_read_outcome, qmi_reset_steps, Qmi8658Driver};

verus! {

/// One of the drivers this crate provides.
#[derive(Clone, Copy, Debug, PartialEq, Eq, Structural)]
pub enum DriverRef {
    Hxy42688,
    Qmi8658,
}

/// A driver under a display name.
#[derive(Clone, Copy, Debug)]
pub struct DriverDescriptor {
    pub name: &'static str,
    pub driver: DriverRef,
}

/// A driver to try on a target, and the bus profiles to try it with.
#[derive(Clone, Debug)]
pub struct CandidateDriver {
    pub descriptor: DriverDescriptor,
    pub profiles: Vec<BusProfile>,
}

/// The descriptor of the ICM-42688-HXY driver.
pub fn hxy42688_descriptor() -> (d: DriverDescriptor)
    ensures
        d.driver == DriverRef::Hxy42688,
        d.name@ == "ICM-42688-HXY"@,
{
    DriverDescriptor { name: "ICM-42688-HXY", driver: DriverRef::Hxy42688 }
}

/// The descriptor of the QMI8658A driver.
pub fn qmi8658_descriptor() -> (d: DriverDescriptor)
    ensures
        d.driver == DriverRef::Qmi8658,
        d.name@ == "QMI8658A"@,
{
    DriverDescriptor { name: "QMI8658A", driver: DriverRef::Qmi8658 }
}

/// The sensor kind a driver handles.
pub open spec fn driver_kind(d: DriverRef) -> ImuKind {
    match d {
        DriverRef::Hxy42688 => ImuKind::Icm42688Hxy,
        DriverRef::Qmi8658 => ImuKind::Qmi8658A,
    }
}

/// An identification run by `d` on `target` left `events` and reported
/// `result`: up to three rounds of two register reads, 5 ms apart.
pub open spec fn driver_probe_outcome(
    d: DriverRef,
    target: ImuTargetId,
    events: Seq<BusEvent>,
    result: Result<bool, ImuError>,
) -> bool {
    match d {
        DriverRef::Hxy42688 => probe_outcome(
            target,
            hxy42688::REG_WHO_AM_I,
            hxy42688::REG_COM_CFG,
            hxy_accept(),
            3,
            5,
            events,
            result,
        ),
        DriverRef::Qmi8658 => probe_outcome(
            target,
            qmi8658::REG_WHO_AM_I,
            qmi8658::REG_REVISION_ID,
            qmi_accept(),
            3,
            5,
            events,
            result,
        ),
    }
}

/// A sample read by `d` on `target` left `events` and reported `result`.
pub open spec fn read_outcome(
    d: DriverRef,
    target: ImuTargetId,
    events: Seq<BusEvent>,
    result: Result<RawSample, ImuError>,
) -> bool {
    match d {
        DriverRef::Hxy42688 => hxy_read_outcome(target, events, result),
        DriverRef::Qmi8658 => qmi_read_outcome(target, events, result),
    }
}

/// What a driver reports its sensor can do.
pub open spec fn driver_capabilities(d: DriverRef) -> ImuCapabilities {
    match d {
        DriverRef::Hxy42688 => hxy_capabilities(),
        DriverRef::Qmi8658 => qmi_capabilities(),
    }
}

/// A reset by `d` of `target` left `events` and reported `result`: the
/// ICM-42688-HXY needs none and does nothing; the QMI8658A runs its reset
/// sequence.
pub open spec fn reset_outcome(
    d: DriverRef,
    target: ImuTargetId,
    events: Seq<BusEvent>,
    result: Result<(), ImuError>,
) -> bool {
    match d {
        DriverRef::Hxy42688 => events.len() == 0 && result == Ok::<(), ImuError>(()),
        DriverRef::Qmi8658 => script_outcome(target, qmi_reset_steps(), events, result),
    }
}

/// A configuration by `d` of `target` left `events` and reported `result`:
/// the driver's configuration sequence ran.
pub open spec fn configure_outcome(
    d: DriverRef,
    target: ImuTargetId,
    events: Seq<BusEvent>,
    result: Result<(), ImuError>,
) -> bool {
    match d {
        DriverRef::Hxy42688 => script_outcome(target, hxy_configure_steps(), events, result),
        DriverRef::Qmi8658 => script_outcome(target, qmi_configure_steps(), events, result),
    }
}

impl ImuDriver for DriverRef {
    fn kind(&self) -> (kind: ImuKind)
        ensures
            kind == driver_kind(*self),
    {
        match self {
            DriverRef::Hxy42688 => Hxy42688Driver.kind(),
            DriverRef::Qmi8658 => Qmi8658Driver.kind(),
        }
    }

    fn probe<B: ImuBus>(&self, bus: &mut B, target: ImuTargetId) -> (result: Result<bool, ImuError>)
        ensures
            driver_probe_outcome(*self, target, delta(old(bus).trace(), final(bus).trace()), result),
    {
        match self {
            DriverRef::Hxy42688 => Hxy42688Driver.probe(bus, target),
            DriverRef::Qmi8658 => Qmi8658Driver.probe(bus, target),
        }
    }

    fn reset<B: ImuBus>(&self, bus: &mut B, target: ImuTargetId) -> (result: Result<(), ImuError>)
        ensures
            reset_outcome(*self, target, delta(old(bus).trace(), final(bus).trace()), result),
    {
        match self {
            DriverRef::Hxy42688 => {
                proof {
                    lemma_extends_same(bus.trace());
                }
                Hxy42688Driver.reset(bus, target)
            },
            DriverRef::Qmi8658 => Qmi8658Driver.reset(bus, target),
        }
    }

    fn configure<B: ImuBus, R: DriverResources>(
        &self,
        bus: &mut B,
        target: ImuTargetId,
        config: &ImuConfig,
        resources: &R,
    ) -> (result: Result<(), ImuError>)
        ensures
            configure_outcome(*self, target, delta(old(bus).trace(), final(bus).trace()), result),
    {
        match self {
            DriverRef::Hxy42688 => Hxy42688Driver.configure(bus, target, config, resources),
            DriverRef::Qmi8658 => Qmi8658Driver.configure(bus, target, config, resources),
        }
    }

    fn read_raw<B: ImuBus>(&self, bus: &mut B, target: ImuTargetId) -> (result: Result<
        RawSample,
        ImuError,
    >)
        ensures
            read_outcome(*self, target, delta(old(bus).trace(), final(bus).trace()), result),
    {
        match self {
            DriverRef::Hxy42688 => Hxy42688Driver.read_raw(bus, target),
            DriverRef::Qmi8658 => Qmi8658Driver.read_raw(bus, target),
        }
    }

    fn capabilities(&self) -> (caps: ImuCapabilities)
        ensures
            caps == driver_capabilities(*self),
    {
        match self {
            DriverRef::Hxy42688 => Hxy42688Driver.capabilities(),
            DriverRef::Qmi8658 => Qmi8658Driver.capabilities(),
        }
    }
}

/// A first identification round that reads `0x05` from the QMI8658A's
/// identity register (0x00) recognises the chip, whatever its revision
/// register (0x01) holds: the run ends there with `Ok(true)`.
pub proof fn lemma_qmi_recognises_chip_id(
    target: ImuTargetId,
    events: Seq<BusEvent>,
    result: Result<bool, ImuError>,
)
    requires
        driver_probe_outcome(DriverRef::Qmi8658, target, events, result),
        events.len() >= 2,
        is_reg_read(events[0], target, 0x00, 0),
        reg_value(events[0]) == Ok::<u8, ImuError>(0x05),
        is_reg_read(events[1], target, 0x01, 0),
        reg_value(events[1]) is Ok,
    ensures
        result == Ok::<bool, ImuError>(true),
        events.len() == 2,
{
    lemma_first_round_accepted(
        target,
        qmi8658::REG_WHO_AM_I,
        qmi8658::REG_REVISION_ID,
        qmi_accept(),
        events,
        result,
    );
}

/// A first identification round that reads `0x6A` from the
/// ICM-42688-HXY's identity register (0x01) and `0x50` from its COM_CFG
/// register (0x05) recognises the chip: the run ends there with
/// `Ok(true)`.
pub proof fn lemma_hxy_recognises_chip_id(
    target: ImuTargetId,
    events: Seq<BusEvent>,
    result: Result<bool, ImuError>,
)
    requires
        driver_probe_outcome(DriverRef::Hxy42688, target, events, result),
        events.len() >= 2,
        is_reg_read(events[0], target, 0x01, 0),
        reg_value(events[0]) == Ok::<u8, ImuError>(0x6A),
        is_reg_read(events[1], target, 0x05, 0),
        reg_value(events[1]) == Ok::<u8, ImuError>(0x50),
    ensures
        result == Ok::<bool, ImuError>(true),
        events.len() == 2,
{
    lemma_first_round_accepted(
        target,
        hxy42688::REG_WHO_AM_I,
        hxy42688::REG_COM_CFG,
        hxy_accept(),
        events,
        result,
    );
}

/// In a three-round identification run whose first two reads succeed with
/// values `accept` recognises, the run ends after them with `Ok(true)`.
proof fn lemma_first_round_accepted(
    target: ImuTargetId,
    reg_a: u8,
    reg_b: u8,
    accept: spec_fn(u8, u8) -> bool,
    events: Seq<BusEvent>,
    result: Result<bool, ImuError>,
)
    requires
        probe_outcome(target, reg_a, reg_b, accept, 3, 5, events, result),
        events.len() >= 2,
        reg_value(events[0]) is Ok,
        reg_value(events[1]) is Ok,
        accept(reg_value(events[0])->Ok_0, reg_value(events[1])->Ok_0),
    ensures
        result == Ok::<bool, ImuError>(true),
        events.len() == 2,
{
    let done = choose|done: int| #[trigger] probe_split(target, reg_a, reg_b, accept, 3, 5, events, done, result);
    if done > 0 {
        let a: int = 0;
        assert(rejected_attempt(target, reg_a, reg_b, accept, 5, events.subrange(3 * a, 3 * a + 3)));
        assert(events.subrange(3 * a, 3 * a + 3)[0] == events[0]);
        assert(events.subrange(3 * a, 3 * a + 3)[1] == events[1]);
    }
    assert(events.skip(0) =~= events);
}

/// The two's-complement value of the big-endian 16-bit word `hi:lo`.
pub open spec fn be_word(hi: u8, lo: u8) -> int {
    let v = hi as int * 256 + lo as int;
    if v >= 32768 {
        v - 65536
    } else {
        v
    }
}

/// Axis `k` of a sample: accel x, y, z for 0 to 2, gyro x, y, z for 3 to 5.
pub open spec fn axis(s: RawSample, k: int) -> int {
    if k < 3 {
        s.accel[k] as int
    } else {
        s.gyro[k - 3] as int
    }
}

/// An ICM-42688-HXY sample that was read comes from two reads: the data
/// status register (0x0B), then a 12-byte block starting at the first data
/// register ACC_XH (0x0C); its six axes are the block's big-endian words in
/// order (accel x, y, z, gyro x, y, z).
pub proof fn lemma_hxy_sample_from_data_block(
    target: ImuTargetId,
    events: Seq<BusEvent>,
    sample: RawSample,
)
    requires
        read_outcome(DriverRef::Hxy42688, target, events, Ok(sample)),
    ensures
        events.len() == 2,
        is_reg_read(events[0], target, 0x0B, 0),
        events[1] matches BusEvent::Read { target: t, reg: r, dummy_bytes: d, len: n, result: Ok(bytes) }
            && t == target && r == 0x0Cu8 && d == 0 && n == 12 && bytes.len() == 12 && (forall|
            k: int,
        |
            0 <= k < 6 ==> #[trigger] axis(sample, k) == be_word(bytes[2 * k], bytes[2 * k + 1])),
        sample.temp is None,
{
    let bytes = block_value(events[1])->Ok_0;
    assert forall|k: int| 0 <= k < 6 implies #[trigger] axis(sample, k) == be_word(
        bytes[2 * k],
        bytes[2 * k + 1],
    ) by {
        if k == 0 {
        } else if k == 1 {
        } else if k == 2 {
        } else if k == 3 {
        } else if k == 4 {
        } else {
        }
    }
}

} // verus!
