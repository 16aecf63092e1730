//! Driver for the QMI8658A.

use vstd::prelude::*;
use crate::bus::{BusEvent, ImuBus, ImuTargetId};
use crate::driver::{
    byte_reads_outcome, delta, extends, good_reads, is_reg_read, lemma_extends_append,
    lemma_extends_same, lemma_probe_close, lemma_probe_round, lemma_reg_read_event, probe_outcome,
    read_bytes, reg_value, rejected_attempt, run_script, script_outcome, DriverResources, ImuDriver,
    ScriptStep,
};
use crate::sample::{spec_sample_from_le, spec_word, word_from_le, RawSample};
use crate::types::{ImuCapabilities, ImuConfig, ImuError, ImuKind, RangeDps, RangeG};

verus! {

pub const CHIP_ID: u8 = 0x05;
pub const CHIP_ID_ALT: u8 = 0x3E;
pub const REVISION_ID: u8 = 0x68;

pub const REG_WHO_AM_I: u8 = 0x00;
pub const REG_REVISION_ID: u8 = 0x01;
pub const REG_CTRL1: u8 = 0x02;
pub const REG_CTRL2: u8 = 0x03;
pub const REG_CTRL3: u8 = 0x04;
pub const REG_CTRL5: u8 = 0x06;
pub const REG_CTRL7: u8 = 0x08;
pub const REG_STATUS0: u8 = 0x2E;
pub const REG_AX_L: u8 = 0x35;
pub const REG_RESET: u8 = 0x60;

/// The chip answers with `CHIP_ID`, or with `CHIP_ID_ALT` in both the
/// identity and the revision register.
pub open spec fn qmi_accept() -> spec_fn(u8, u8) -> bool {
    |id: u8, revision: u8| id == CHIP_ID || (id == CHIP_ID_ALT && revision == CHIP_ID_ALT)
}

/// The soft reset: the reset command, then 20 ms for the chip to restart.
pub open spec fn qmi_reset_steps() -> Seq<ScriptStep> {
    seq![ScriptStep::Write { reg: REG_RESET, value: 0xB0 }, ScriptStep::Delay { ms: 20 }]
}

/// The control register programming, then 50 ms for the outputs to settle.
pub open spec fn qmi_configure_steps() -> Seq<ScriptStep> {
    seq![
        ScriptStep::Write { reg: REG_CTRL1, value: 0x20 },
        ScriptStep::Write { reg: REG_CTRL2, value: 0x06 },
        ScriptStep::Write { reg: REG_CTRL3, value: 0x76 },
        ScriptStep::Write { reg: REG_CTRL5, value: 0x00 },
        ScriptStep::Write { reg: REG_CTRL7, value: 0x03 },
        ScriptStep::Delay { ms: 50 },
    ]
}

/// Reading a little-endian word from `low_reg` and `low_reg + 1`.
pub open spec fn word_outcome(
    target: ImuTargetId,
    low_reg: u8,
    events: Seq<BusEvent>,
    result: Result<i16, ImuError>,
) -> bool {
    &&& byte_reads_outcome(target, low_reg, 2, events, result)
    &&& result matches Ok(w) ==> w == spec_word(read_bytes(events)[1], read_bytes(events)[0])
}

/// Reading the twelve data registers from AX_L, one byte at a time, and
/// assembling little-endian words: accel x, y, z, then gyro x, y, z.
pub open spec fn sample_outcome(
    target: ImuTargetId,
    events: Seq<BusEvent>,
    result: Result<RawSample, ImuError>,
) -> bool {
    &&& byte_reads_outcome(target, REG_AX_L, 12, events, result)
    &&& result matches Ok(s) ==> s == spec_sample_from_le(read_bytes(events))
}

/// A poll that found the data not ready, followed by a 1 ms wait.
pub open spec fn idle_poll(target: ImuTargetId, events: Seq<BusEvent>) -> bool {
    &&& events.len() == 2
    &&& is_reg_read(events[0], target, REG_STATUS0, 0)
    &&& reg_value(events[0]) matches Ok(status) && status & 0x03 != 0x03
    &&& events[1] == BusEvent::Delay { ms: 1 }
}

/// After `polls` idle polls: with polls left, one more status read whose
/// failure ends the read, and whose data-ready bits lead to the sample;
/// with none left, the sample is read regardless.
pub open spec fn poll_tail(
    target: ImuTargetId,
    polls: int,
    rest: Seq<BusEvent>,
    result: Result<RawSample, ImuError>,
) -> bool {
    if polls == 10 {
        sample_outcome(target, rest, result)
    } else {
        &&& rest.len() >= 1
        &&& is_reg_read(rest[0], target, REG_STATUS0, 0)
        &&& match reg_value(rest[0]) {
            Err(e) => rest.len() == 1 && result == Err::<RawSample, ImuError>(e),
            Ok(status) => status & 0x03 == 0x03 && sample_outcome(target, rest.drop_first(), result),
        }
    }
}

/// The first `polls` rounds of `events` are idle polls and the rest ends
/// the read as `poll_tail` describes.
pub open spec fn poll_split(
    target: ImuTargetId,
    events: Seq<BusEvent>,
    polls: int,
    result: Result<RawSample, ImuError>,
) -> bool {
    &&& 0 <= polls <= 10
    &&& events.len() >= 2 * polls
    &&& forall|p: int| 0 <= p < polls ==> #[trigger] idle_poll(target, events.subrange(2 * p, 2 * p + 2))
    &&& poll_tail(target, polls, events.skip(2 * polls), result)
}

/// Up to ten status polls, 1 ms apart, waiting for both data-ready bits;
/// then the sample registers are read whether or not they came up.
pub open spec fn qmi_read_outcome(
    target: ImuTargetId,
    events: Seq<BusEvent>,
    result: Result<RawSample, ImuError>,
) -> bool {
    exists|polls: int| #[trigger] poll_split(target, events, polls, result)
}

/// Reads a little-endian word from `low_reg` (low byte) and `low_reg + 1`.
pub fn read_i16_le<B: ImuBus>(bus: &mut B, target: ImuTargetId, low_reg: u8) -> (result: Result<
    i16,
    ImuError,
>)
    requires
        low_reg < 255,
    ensures
        extends(old(bus).trace(), final(bus).trace()),
        word_outcome(target, low_reg, delta(old(bus).trace(), final(bus).trace()), result),
{
    let ghost start = bus.trace();
    let r_low = bus.read_reg(target, low_reg, 0);
    proof {
        lemma_reg_read_event(target, low_reg, 0, r_low);
    }
    let ghost after_low = bus.trace();
    let low = match r_low {
        Ok(v) => v,
        Err(e) => {
            proof {
                let d = seq![after_low.last()];
                assert(bus.trace() =~= start + d);
                lemma_extends_append(start, d);
                assert(d.drop_last() =~= Seq::<BusEvent>::empty());
            }
            return Err(e);
        },
    };
    let r_high = bus.read_reg(target, low_reg + 1, 0);
    proof {
        lemma_reg_read_event(target, (low_reg + 1) as u8, 0, r_high);
        let d = seq![after_low.last(), bus.trace().last()];
        assert(bus.trace() =~= start + d);
        lemma_extends_append(start, d);
        assert(d.drop_last() =~= seq![after_low.last()]);
        assert(good_reads(target, low_reg, d.drop_last()));
    }
    match r_high {
        Ok(high) => {
            proof {
                let d = seq![after_low.last(), bus.trace().last()];
                assert(good_reads(target, low_reg, d));
                assert(read_bytes(d)[0] == low);
                assert(read_bytes(d)[1] == high);
            }
            Ok(word_from_le(low, high))
        },
        Err(e) => Err(e),
    }
}

/// Reads the six data words (accel x, y, z, gyro x, y, z) register by
/// register, stopping at the first failed read.
pub fn read_sample<B: ImuBus>(bus: &mut B, target: ImuTargetId) -> (result: Result<
    RawSample,
    ImuError,
>)
    ensures
        extends(old(bus).trace(), final(bus).trace()),
        sample_outcome(target, delta(old(bus).trace(), final(bus).trace()), result),
{
    let ghost start = bus.trace();
    proof {
        lemma_extends_same(start);
    }
    let mut words: [i16; 6] = [0i16; 6];
    let mut k: usize = 0;
    while k < 6
        invariant
            k <= 6,
            start == old(bus).trace(),
            extends(start, bus.trace()),
            delta(start, bus.trace()).len() == 2 * k,
            good_reads(target, REG_AX_L, delta(start, bus.trace())),
            forall|j: int|
                0 <= j < k ==> #[trigger] words@[j] == spec_word(
                    read_bytes(delta(start, bus.trace()))[2 * j + 1],
                    read_bytes(delta(start, bus.trace()))[2 * j],
                ),
        decreases 6 - k,
    {
        let ghost before = bus.trace();
        let ghost done = delta(start, before);
        let reg = REG_AX_L + 2 * (k as u8);
        let r = read_i16_le(bus, target, reg);
        proof {
            let part = delta(before, bus.trace());
            assert(bus.trace() =~= before + part);
            assert(bus.trace() =~= start + (done + part));
            lemma_extends_append(start, done + part);
        }
        match r {
            Ok(w) => {
                proof {
                    let part = delta(before, bus.trace());
                    let all = done + part;
                    assert forall|i: int| 0 <= i < all.len() implies is_reg_read(
                        #[trigger] all[i],
                        target,
                        (REG_AX_L + i) as u8,
                        0,
                    ) && reg_value(all[i]) is Ok by {
                        if i >= done.len() {
                            assert(all[i] == part[i - done.len()]);
                        }
                    }
                    assert forall|j: int| 0 <= j < k + 1 implies #[trigger] words@.update(
                        k as int,
                        w,
                    )[j] == spec_word(read_bytes(all)[2 * j + 1], read_bytes(all)[2 * j]) by {
                        if j < k {
                            assert(read_bytes(all)[2 * j + 1] == read_bytes(done)[2 * j + 1]);
                            assert(read_bytes(all)[2 * j] == read_bytes(done)[2 * j]);
                        } else {
                            assert(read_bytes(all)[2 * j + 1] == read_bytes(part)[1]);
                            assert(read_bytes(all)[2 * j] == read_bytes(part)[0]);
                        }
                    }
                }
                words[k] = w;
            },
            Err(e) => {
                proof {
                    let part = delta(before, bus.trace());
                    let all = done + part;
                    assert(all.drop_last() =~= done + part.drop_last());
                    assert forall|i: int| 0 <= i < all.drop_last().len() implies is_reg_read(
                        #[trigger] all.drop_last()[i],
                        target,
                        (REG_AX_L + i) as u8,
                        0,
                    ) && reg_value(all.drop_last()[i]) is Ok by {
                        if i >= done.len() {
                            assert(all.drop_last()[i] == part.drop_last()[i - done.len()]);
                        }
                    }
                    assert(all.last() == part.last());
                }
                return Err(e);
            },
        }
        k = k + 1;
    }
    let sample = RawSample {
        accel: [words[0], words[1], words[2]],
        gyro: [words[3], words[4], words[5]],
        temp: None,
    };
    proof {
        let all = delta(start, bus.trace());
        assert(words@[0] == spec_word(read_bytes(all)[1], read_bytes(all)[0]));
        assert(words@[1] == spec_word(read_bytes(all)[3], read_bytes(all)[2]));
        assert(words@[2] == spec_word(read_bytes(all)[5], read_bytes(all)[4]));
        assert(words@[3] == spec_word(read_bytes(all)[7], read_bytes(all)[6]));
        assert(words@[4] == spec_word(read_bytes(all)[9], read_bytes(all)[8]));
        assert(words@[5] == spec_word(read_bytes(all)[11], read_bytes(all)[10]));
    }
    Ok(sample)
}

/// What the driver reports the sensor can do.
pub open spec fn qmi_capabilities() -> ImuCapabilities {
    ImuCapabilities {
        has_temp: false,
        supports_fifo: false,
        supports_data_ready_interrupt: false,
        supported_accel_ranges: [Some(RangeG(2)), Some(RangeG(4)), Some(RangeG(8)), Some(RangeG(16))],
        supported_gyro_ranges: [
            Some(RangeDps(250)),
            Some(RangeDps(500)),
            Some(RangeDps(1000)),
            Some(RangeDps(2000)),
        ],
    }
}

pub struct Qmi8658Driver;

impl ImuDriver for Qmi8658Driver {
    fn kind(&self) -> (kind: ImuKind)
        ensures
            kind == ImuKind::Qmi8658A,
    {
        ImuKind::Qmi8658A
    }

    fn probe<B: ImuBus>(&self, bus: &mut B, target: ImuTargetId) -> (result: Result<bool, ImuError>)
        ensures
            probe_outcome(
                target,
                REG_WHO_AM_I,
                REG_REVISION_ID,
                qmi_accept(),
                3,
                5,
                delta(old(bus).trace(), final(bus).trace()),
                result,
            ),
    {
        let ghost start = bus.trace();
        proof {
            lemma_extends_same(start);
        }
        let mut attempt: usize = 0;
        while attempt < 3
            invariant
                attempt <= 3,
                start == old(bus).trace(),
                extends(start, bus.trace()),
                delta(start, bus.trace()).len() == 3 * attempt,
                forall|a: int|
                    0 <= a < attempt ==> #[trigger] rejected_attempt(
                        target,
                        REG_WHO_AM_I,
                        REG_REVISION_ID,
                        qmi_accept(),
                        5,
                        delta(start, bus.trace()).subrange(3 * a, 3 * a + 3),
                    ),
            decreases 3 - attempt,
        {
            let ghost before = bus.trace();
            let ghost done = delta(start, before);
            let r_id = bus.read_reg(target, REG_WHO_AM_I, 0);
            proof {
                lemma_reg_read_event(target, REG_WHO_AM_I, 0, r_id);
            }
            let id = match r_id {
                Ok(v) => v,
                Err(e) => {
                    proof {
                        let rest = seq![bus.trace().last()];
                        assert(bus.trace() =~= start + (done + rest));
                        lemma_extends_append(start, done + rest);
                        lemma_probe_close(target, REG_WHO_AM_I, REG_REVISION_ID, qmi_accept(), 3, 5,
                            attempt as int, done, rest, Err(e));
                    }
                    return Err(e);
                },
            };
            let ghost after_id = bus.trace();
            let r_cfg = bus.read_reg(target, REG_REVISION_ID, 0);
            proof {
                lemma_reg_read_event(target, REG_REVISION_ID, 0, r_cfg);
            }
            let revision = match r_cfg {
                Ok(v) => v,
                Err(e) => {
                    proof {
                        let rest = seq![after_id.last(), bus.trace().last()];
                        assert(bus.trace() =~= start + (done + rest));
                        lemma_extends_append(start, done + rest);
                        lemma_probe_close(target, REG_WHO_AM_I, REG_REVISION_ID, qmi_accept(), 3, 5,
                            attempt as int, done, rest, Err(e));
                    }
                    return Err(e);
                },
            };
            let ghost after_cfg = bus.trace();
            if id == CHIP_ID || (id == CHIP_ID_ALT && revision == CHIP_ID_ALT) {
                proof {
                    let rest = seq![after_id.last(), bus.trace().last()];
                    assert(bus.trace() =~= start + (done + rest));
                    lemma_extends_append(start, done + rest);
                    lemma_probe_close(target, REG_WHO_AM_I, REG_REVISION_ID, qmi_accept(), 3, 5,
                        attempt as int, done, rest, Ok(true));
                }
                return Ok(true);
            }
            bus.delay_ms(5);
            proof {
                let round = seq![after_id.last(), after_cfg.last(), bus.trace().last()];
                assert(bus.trace() =~= start + (done + round));
                lemma_extends_append(start, done + round);
                assert(rejected_attempt(target, REG_WHO_AM_I, REG_REVISION_ID, qmi_accept(), 5, round));
                lemma_probe_round(target, REG_WHO_AM_I, REG_REVISION_ID, qmi_accept(), 5,
                    attempt as int, done, round);
            }
            attempt = attempt + 1;
        }
        proof {
            let done = delta(start, bus.trace());
            assert(bus.trace() =~= start + done);
            assert(done + seq![] =~= done);
            lemma_probe_close(target, REG_WHO_AM_I, REG_REVISION_ID, qmi_accept(), 3, 5, 3, done,
                seq![], Ok(false));
        }
        Ok(false)
    }

    fn reset<B: ImuBus>(&self, bus: &mut B, target: ImuTargetId) -> (result: Result<(), ImuError>)
        ensures
            script_outcome(target, qmi_reset_steps(), delta(old(bus).trace(), final(bus).trace()), result),
    {
        let steps: [ScriptStep; 2] = [
            ScriptStep::Write { reg: REG_RESET, value: 0xB0 },
            ScriptStep::Delay { ms: 20 },
        ];
        assert(steps@ =~= qmi_reset_steps());
        run_script(bus, target, &steps)
    }

    fn configure<B: ImuBus, R: DriverResources>(
        &self,
        bus: &mut B,
        target: ImuTargetId,
        config: &ImuConfig,
        resources: &R,
    ) -> (result: Result<(), ImuError>)
        ensures
            script_outcome(
                target,
                qmi_configure_steps(),
                delta(old(bus).trace(), final(bus).trace()),
                result,
            ),
    {
        let steps: [ScriptStep; 6] = [
            ScriptStep::Write { reg: REG_CTRL1, value: 0x20 },
            ScriptStep::Write { reg: REG_CTRL2, value: 0x06 },
            ScriptStep::Write { reg: REG_CTRL3, value: 0x76 },
            ScriptStep::Write { reg: REG_CTRL5, value: 0x00 },
            ScriptStep::Write { reg: REG_CTRL7, value: 0x03 },
            ScriptStep::Delay { ms: 50 },
        ];
        assert(steps@ =~= qmi_configure_steps());
        run_script(bus, target, &steps)
    }

    fn read_raw<B: ImuBus>(&self, bus: &mut B, target: ImuTargetId) -> (result: Result<
        RawSample,
        ImuError,
    >)
        ensures
            qmi_read_outcome(target, delta(old(bus).trace(), final(bus).trace()), result),
    {
        let ghost start = bus.trace();
        proof {
            lemma_extends_same(start);
        }
        let mut polls: usize = 0;
        while polls < 10
            invariant
                polls <= 10,
                start == old(bus).trace(),
                extends(start, bus.trace()),
                delta(start, bus.trace()).len() == 2 * polls,
                forall|p: int|
                    0 <= p < polls ==> #[trigger] idle_poll(
                        target,
                        delta(start, bus.trace()).subrange(2 * p, 2 * p + 2),
                    ),
            decreases 10 - polls,
        {
            let ghost before = bus.trace();
            let ghost done = delta(start, before);
            let r_status = bus.read_reg(target, REG_STATUS0, 0);
            proof {
                lemma_reg_read_event(target, REG_STATUS0, 0, r_status);
            }
            let ghost after_status = bus.trace();
            let status = match r_status {
                Ok(v) => v,
                Err(e) => {
                    proof {
                        let rest = seq![after_status.last()];
                        assert(bus.trace() =~= start + (done + rest));
                        lemma_extends_append(start, done + rest);
                        lemma_poll_close(target, polls as int, done, rest, Err(e));
                    }
                    return Err(e);
                },
            };
            if status & 0x03 == 0x03 {
                let r = read_sample(bus, target);
                proof {
                    let part = delta(after_status, bus.trace());
                    assert(bus.trace() =~= after_status + part);
                    let rest = seq![after_status.last()] + part;
                    assert(bus.trace() =~= start + (done + rest));
                    lemma_extends_append(start, done + rest);
                    assert(rest.drop_first() =~= part);
                    lemma_poll_close(target, polls as int, done, rest, r);
                }
                return r;
            }
            bus.delay_ms(1);
            proof {
                let round = seq![after_status.last(), bus.trace().last()];
                assert(bus.trace() =~= start + (done + round));
                lemma_extends_append(start, done + round);
                assert(idle_poll(target, round));
                lemma_poll_round(target, polls as int, done, round);
            }
            polls = polls + 1;
        }
        let ghost before = bus.trace();
        let ghost done = delta(start, before);
        let r = read_sample(bus, target);
        proof {
            let part = delta(before, bus.trace());
            assert(bus.trace() =~= before + part);
            assert(before =~= start + done);
            assert(bus.trace() =~= start + (done + part));
            lemma_extends_append(start, done + part);
            lemma_poll_close(target, 10, done, part, r);
        }
        r
    }

    fn capabilities(&self) -> (caps: ImuCapabilities)
        ensures
            caps == qmi_capabilities(),
    {
        ImuCapabilities {
            has_temp: false,
            supports_fifo: false,
            supports_data_ready_interrupt: false,
            supported_accel_ranges: [
                Some(RangeG(2)),
                Some(RangeG(4)),
                Some(RangeG(8)),
                Some(RangeG(16)),
            ],
            supported_gyro_ranges: [
                Some(RangeDps(250)),
                Some(RangeDps(500)),
                Some(RangeDps(1000)),
                Some(RangeDps(2000)),
            ],
        }
    }
}

proof fn lemma_poll_round(target: ImuTargetId, polls: int, events: Seq<BusEvent>, round: Seq<BusEvent>)
    requires
        0 <= polls,
        events.len() == 2 * polls,
        forall|p: int| 0 <= p < polls ==> #[trigger] idle_poll(target, events.subrange(2 * p, 2 * p + 2)),
        idle_poll(target, round),
    ensures
        (events + round).len() == 2 * (polls + 1),
        forall|p: int|
            0 <= p < polls + 1 ==> #[trigger] idle_poll(
                target,
                (events + round).subrange(2 * p, 2 * p + 2),
            ),
{
    let all = events + round;
    assert forall|p: int| 0 <= p < polls + 1 implies #[trigger] idle_poll(
        target,
        all.subrange(2 * p, 2 * p + 2),
    ) by {
        if p < polls {
            assert(all.subrange(2 * p, 2 * p + 2) =~= events.subrange(2 * p, 2 * p + 2));
        } else {
            assert(all.subrange(2 * p, 2 * p + 2) =~= round);
        }
    }
}

proof fn lemma_poll_close(
    target: ImuTargetId,
    polls: int,
    events: Seq<BusEvent>,
    rest: Seq<BusEvent>,
    result: Result<RawSample, ImuError>,
)
    requires
        0 <= polls <= 10,
        events.len() == 2 * polls,
        forall|p: int| 0 <= p < polls ==> #[trigger] idle_poll(target, events.subrange(2 * p, 2 * p + 2)),
        poll_tail(target, polls, rest, result),
    ensures
        qmi_read_outcome(target, events + rest, result),
{
    let all = events + rest;
    assert(all.skip(2 * polls) =~= rest);
    assert forall|p: int| 0 <= p < polls implies #[trigger] idle_poll(
        target,
        all.subrange(2 * p, 2 * p + 2),
    ) by {
        assert(all.subrange(2 * p, 2 * p + 2) =~= events.subrange(2 * p, 2 * p + 2));
    }
    assert(poll_split(target, all, polls, result));
}

} // verus!
