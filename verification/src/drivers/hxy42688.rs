//! Driver for the ICM-42688-HXY (HXY register map).

use vstd::prelude::*;
use crate::bus::{BusEvent, ImuBus, ImuTargetId};
use crate::driver::{
    lemma_extends_append, lemma_extends_same,
    block_value, delta, extends, is_block_read, is_reg_read, lemma_probe_close, lemma_probe_round,
    lemma_reg_read_event, probe_outcome, reg_value, rejected_attempt, run_script, script_outcome,
    DriverResources, ImuDriver, ScriptStep,
};
use crate::sample::{spec_sample_from_be, word_from_be, RawSample};
use crate::types::{ImuCapabilities, ImuConfig, ImuError, ImuKind, RangeDps, RangeG};

verus! {

pub const CHIP_ID: u8 = 0x6A;
pub const COM_CFG_DEFAULT: u8 = 0x50;

pub const REG_WHO_AM_I: u8 = 0x01;
pub const REG_COM_CFG: u8 = 0x05;
pub const REG_DATA_STAT: u8 = 0x0B;
pub const REG_ACC_XH: u8 = 0x0C;
pub const REG_ACC_CONF: u8 = 0x40;
pub const REG_ACC_RANGE: u8 = 0x41;
pub const REG_GYR_CONF: u8 = 0x42;
pub const REG_GYR_RANGE: u8 = 0x43;
pub const REG_PWR_CTRL: u8 = 0x7D;

/// The chip answers with `CHIP_ID` in WHO_AM_I and the reset value of COM_CFG.
pub open spec fn hxy_accept() -> spec_fn(u8, u8) -> bool {
    |id: u8, com_cfg: u8| id == CHIP_ID && com_cfg == COM_CFG_DEFAULT
}

/// The power-up and range programming sequence.
pub open spec fn hxy_configure_steps() -> Seq<ScriptStep> {
    seq![
        ScriptStep::Write { reg: REG_PWR_CTRL, value: 0x0E },
        ScriptStep::Delay { ms: 10 },
        ScriptStep::Write { reg: REG_ACC_CONF, value: 0xA8 },
        ScriptStep::Write { reg: REG_ACC_RANGE, value: 0x02 },
        ScriptStep::Write { reg: REG_GYR_CONF, value: 0xA9 },
        ScriptStep::Write { reg: REG_GYR_RANGE, value: 0x00 },
        ScriptStep::Delay { ms: 5 },
    ]
}

/// One sample read: the data-status register, then, when either data-ready
/// bit is set, a 12-byte big-endian block from ACC_XH. With neither bit set
/// the result is `DataNotReady`.
pub open spec fn hxy_read_outcome(
    target: ImuTargetId,
    events: Seq<BusEvent>,
    result: Result<RawSample, ImuError>,
) -> bool {
    &&& events.len() >= 1
    &&& is_reg_read(events[0], target, REG_DATA_STAT, 0)
    &&& match reg_value(events[0]) {
        Err(e) => events.len() == 1 && result == Err::<RawSample, ImuError>(e),
        Ok(status) => if status & 0x03 == 0 {
            events.len() == 1 && result == Err::<RawSample, ImuError>(ImuError::DataNotReady)
        } else {
            &&& events.len() == 2
            &&& is_block_read(events[1], target, REG_ACC_XH, 0, 12)
            &&& match block_value(events[1]) {
                Err(e) => result == Err::<RawSample, ImuError>(e),
                Ok(bytes) => result == Ok::<RawSample, ImuError>(spec_sample_from_be(bytes)),
            }
        },
    }
}

/// What the driver reports the sensor can do.
pub open spec fn hxy_capabilities() -> ImuCapabilities {
    ImuCapabilities {
        has_temp: false,
        supports_fifo: false,
        supports_data_ready_interrupt: false,
        supported_accel_ranges: [Some(RangeG(4)), Some(RangeG(8)), Some(RangeG(16)), None],
        supported_gyro_ranges: [
            Some(RangeDps(250)),
            Some(RangeDps(500)),
            Some(RangeDps(1000)),
            Some(RangeDps(2000)),
        ],
    }
}

pub struct Hxy42688Driver;

impl ImuDriver for Hxy42688Driver {
    fn kind(&self) -> (kind: ImuKind)
        ensures
            kind == ImuKind::Icm42688Hxy,
    {
        ImuKind::Icm42688Hxy
    }

    fn probe<B: ImuBus>(&self, bus: &mut B, target: ImuTargetId) -> (result: Result<bool, ImuError>)
        ensures
            probe_outcome(
                target,
                REG_WHO_AM_I,
                REG_COM_CFG,
                hxy_accept(),
                3,
                5,
                delta(old(bus).trace(), final(bus).trace()),
                result,
            ),
    {
        let ghost start = bus.trace();
        proof {
            lemma_extends_same(start);
        }
        let mut attempt: usize = 0;
        while attempt < 3
            invariant
                attempt <= 3,
                start == old(bus).trace(),
                extends(start, bus.trace()),
                delta(start, bus.trace()).len() == 3 * attempt,
                forall|a: int|
                    0 <= a < attempt ==> #[trigger] rejected_attempt(
                        target,
                        REG_WHO_AM_I,
                        REG_COM_CFG,
                        hxy_accept(),
                        5,
                        delta(start, bus.trace()).subrange(3 * a, 3 * a + 3),
                    ),
            decreases 3 - attempt,
        {
            let ghost before = bus.trace();
            let ghost done = delta(start, before);
            let r_id = bus.read_reg(target, REG_WHO_AM_I, 0);
            proof {
                lemma_reg_read_event(target, REG_WHO_AM_I, 0, r_id);
            }
            let id = match r_id {
                Ok(v) => v,
                Err(e) => {
                    proof {
                        let rest = seq![bus.trace().last()];
                        assert(bus.trace() =~= start + (done + rest));
                        lemma_extends_append(start, done + rest);
                        lemma_probe_close(target, REG_WHO_AM_I, REG_COM_CFG, hxy_accept(), 3, 5,
                            attempt as int, done, rest, Err(e));
                    }
                    return Err(e);
                },
            };
            let ghost after_id = bus.trace();
            let r_cfg = bus.read_reg(target, REG_COM_CFG, 0);
            proof {
                lemma_reg_read_event(target, REG_COM_CFG, 0, r_cfg);
            }
            let com_cfg = match r_cfg {
                Ok(v) => v,
                Err(e) => {
                    proof {
                        let rest = seq![after_id.last(), bus.trace().last()];
                        assert(bus.trace() =~= start + (done + rest));
                        lemma_extends_append(start, done + rest);
                        lemma_probe_close(target, REG_WHO_AM_I, REG_COM_CFG, hxy_accept(), 3, 5,
                            attempt as int, done, rest, Err(e));
                    }
                    return Err(e);
                },
            };
            let ghost after_cfg = bus.trace();
            if id == CHIP_ID && com_cfg == COM_CFG_DEFAULT {
                proof {
                    let rest = seq![after_id.last(), bus.trace().last()];
                    assert(bus.trace() =~= start + (done + rest));
                    lemma_extends_append(start, done + rest);
                    lemma_probe_close(target, REG_WHO_AM_I, REG_COM_CFG, hxy_accept(), 3, 5,
                        attempt as int, done, rest, Ok(true));
                }
                return Ok(true);
            }
            bus.delay_ms(5);
            proof {
                let round = seq![after_id.last(), after_cfg.last(), bus.trace().last()];
                assert(bus.trace() =~= start + (done + round));
                lemma_extends_append(start, done + round);
                assert(rejected_attempt(target, REG_WHO_AM_I, REG_COM_CFG, hxy_accept(), 5, round));
                lemma_probe_round(target, REG_WHO_AM_I, REG_COM_CFG, hxy_accept(), 5,
                    attempt as int, done, round);
            }
            attempt = attempt + 1;
        }
        proof {
            let done = delta(start, bus.trace());
            assert(bus.trace() =~= start + done);
            assert(done + seq![] =~= done);
            lemma_probe_close(target, REG_WHO_AM_I, REG_COM_CFG, hxy_accept(), 3, 5, 3, done,
                seq![], Ok(false));
        }
        Ok(false)
    }

    fn reset<B: ImuBus>(&self, bus: &mut B, target: ImuTargetId) -> (result: Result<(), ImuError>)
        ensures
            final(bus).trace() == old(bus).trace(),
            result == Ok::<(), ImuError>(()),
    {
        proof {
            lemma_extends_same(bus.trace());
        }
        Ok(())
    }

    fn configure<B: ImuBus, R: DriverResources>(
        &self,
        bus: &mut B,
        target: ImuTargetId,
        config: &ImuConfig,
        resources: &R,
    ) -> (result: Result<(), ImuError>)
        ensures
            script_outcome(
                target,
                hxy_configure_steps(),
                delta(old(bus).trace(), final(bus).trace()),
                result,
            ),
    {
        let steps: [ScriptStep; 7] = [
            ScriptStep::Write { reg: REG_PWR_CTRL, value: 0x0E },
            ScriptStep::Delay { ms: 10 },
            ScriptStep::Write { reg: REG_ACC_CONF, value: 0xA8 },
            ScriptStep::Write { reg: REG_ACC_RANGE, value: 0x02 },
            ScriptStep::Write { reg: REG_GYR_CONF, value: 0xA9 },
            ScriptStep::Write { reg: REG_GYR_RANGE, value: 0x00 },
            ScriptStep::Delay { ms: 5 },
        ];
        assert(steps@ =~= hxy_configure_steps());
        run_script(bus, target, &steps)
    }

    fn read_raw<B: ImuBus>(&self, bus: &mut B, target: ImuTargetId) -> (result: Result<
        RawSample,
        ImuError,
    >)
        ensures
            hxy_read_outcome(target, delta(old(bus).trace(), final(bus).trace()), result),
    {
        let ghost start = bus.trace();
        let r_status = bus.read_reg(target, REG_DATA_STAT, 0);
        proof {
            lemma_reg_read_event(target, REG_DATA_STAT, 0, r_status);
            assert(bus.trace() =~= start + seq![bus.trace().last()]);
            lemma_extends_append(start, seq![bus.trace().last()]);
        }
        let status = match r_status {
            Ok(v) => v,
            Err(e) => {
                return Err(e);
            },
        };
        if status & 0x03 == 0 {
            return Err(ImuError::DataNotReady);
        }
        let ghost after_status = bus.trace();
        let mut buf: [u8; 12] = [0u8; 12];
        let r = bus.read_regs(target, REG_ACC_XH, 0, &mut buf);
        proof {
            assert(bus.trace() =~= start + seq![after_status.last(), bus.trace().last()]);
            lemma_extends_append(start, seq![after_status.last(), bus.trace().last()]);
        }
        match r {
            Err(e) => Err(e),
            Ok(_) => {
                let sample = RawSample {
                    accel: [
                        word_from_be(buf[0], buf[1]),
                        word_from_be(buf[2], buf[3]),
                        word_from_be(buf[4], buf[5]),
                    ],
                    gyro: [
                        word_from_be(buf[6], buf[7]),
                        word_from_be(buf[8], buf[9]),
                        word_from_be(buf[10], buf[11]),
                    ],
                    temp: None,
                };
                assert(sample == spec_sample_from_be(buf@));
                Ok(sample)
            },
        }
    }

    fn capabilities(&self) -> (caps: ImuCapabilities)
        ensures
            caps == hxy_capabilities(),
    {
        ImuCapabilities {
            has_temp: false,
            supports_fifo: false,
            supports_data_ready_interrupt: false,
            supported_accel_ranges: [Some(RangeG(4)), Some(RangeG(8)), Some(RangeG(16)), None],
            supported_gyro_ranges: [
                Some(RangeDps(250)),
                Some(RangeDps(500)),
                Some(RangeDps(1000)),
                Some(RangeDps(2000)),
            ],
        }
    }
}

} // verus!
