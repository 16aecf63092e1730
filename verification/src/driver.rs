//! The driver interface and the vocabulary its contracts are written in.

use vstd::prelude::*;
use crate::bus::{read_reg_event, write_reg_event, BusEvent, ImuBus, ImuTargetId};
use crate::sample::RawSample;
use crate::types::{ImuCapabilities, ImuConfig, ImuError, ImuId, ImuKind, DriverResourceKey};

verus! {

/// A sensor together with the bus target that reaches it.
#[derive(Clone, Copy, Debug, PartialEq, Eq, Structural)]
pub struct ImuTargetInfo {
    pub id: ImuId,
    pub target: ImuTargetId,
}

/// Binary blobs a driver may ask for while configuring a sensor.
pub trait DriverResources {
    fn bytes(&self, key: DriverResourceKey) -> Option<&[u8]>;
}

/// `later` extends `earlier`: a bus only ever appends to its trace.
pub open spec fn extends(earlier: Seq<BusEvent>, later: Seq<BusEvent>) -> bool {
    earlier.len() <= later.len() && later.subrange(0, earlier.len() as int) == earlier
}

/// The part of `later` that follows `earlier`.
pub open spec fn delta(earlier: Seq<BusEvent>, later: Seq<BusEvent>) -> Seq<BusEvent> {
    later.subrange(earlier.len() as int, later.len() as int)
}

/// Appending events to a trace extends it by exactly those events.
pub proof fn lemma_extends_append(earlier: Seq<BusEvent>, added: Seq<BusEvent>)
    ensures
        extends(earlier, earlier + added),
        delta(earlier, earlier + added) == added,
{
    assert((earlier + added).subrange(0, earlier.len() as int) =~= earlier);
    assert(delta(earlier, earlier + added) =~= added);
}

/// A trace extends itself, with nothing in between.
pub proof fn lemma_extends_same(trace: Seq<BusEvent>)
    ensures
        extends(trace, trace),
        delta(trace, trace) == Seq::<BusEvent>::empty(),
{
    assert(trace + Seq::<BusEvent>::empty() =~= trace);
    lemma_extends_append(trace, Seq::<BusEvent>::empty());
}

/// `ev` is a one-byte read of `reg` on `target` with `dummy` dummy bytes.
pub open spec fn is_reg_read(ev: BusEvent, target: ImuTargetId, reg: u8, dummy: usize) -> bool {
    ev matches BusEvent::Read { target: t, reg: r, dummy_bytes: d, len: n, result: res }
        && t == target && r == reg && d == dummy && n == 1 && (res matches Ok(bytes) ==> bytes.len()
        == 1)
}

/// The byte a one-byte read returned, or its error.
pub open spec fn reg_value(ev: BusEvent) -> Result<u8, ImuError> {
    match ev {
        BusEvent::Read { result: Ok(bytes), .. } => Ok(bytes[0]),
        BusEvent::Read { result: Err(e), .. } => Err(e),
        _ => Err(ImuError::CommunicationError),
    }
}

/// `ev` is a block read of `len` bytes from `reg` on `target`.
pub open spec fn is_block_read(
    ev: BusEvent,
    target: ImuTargetId,
    reg: u8,
    dummy: usize,
    len: nat,
) -> bool {
    ev matches BusEvent::Read { target: t, reg: r, dummy_bytes: d, len: n, result: res }
        && t == target && r == reg && d == dummy && n == len && (res matches Ok(bytes)
        ==> bytes.len() == len)
}

/// What a block read returned.
pub open spec fn block_value(ev: BusEvent) -> Result<Seq<u8>, ImuError> {
    match ev {
        BusEvent::Read { result, .. } => result,
        _ => Err(ImuError::CommunicationError),
    }
}

pub proof fn lemma_reg_read_event(target: ImuTargetId, reg: u8, dummy: usize, r: Result<u8, ImuError>)
    ensures
        is_reg_read(read_reg_event(target, reg, dummy, r), target, reg, dummy),
        reg_value(read_reg_event(target, reg, dummy, r)) == r,
{
}

/// A fixed programming step of a configuration sequence.
#[derive(Clone, Copy, Debug, PartialEq, Eq, Structural)]
pub enum ScriptStep {
    Write { reg: u8, value: u8 },
    Delay { ms: u64 },
}

/// The event a step leaves when its write (if any) reports `result`.
pub open spec fn step_event(target: ImuTargetId, step: ScriptStep, result: Result<(), ImuError>) -> BusEvent {
    match step {
        ScriptStep::Write { reg, value } => write_reg_event(target, reg, value, result),
        ScriptStep::Delay { ms } => BusEvent::Delay { ms },
    }
}

/// The trace of a sequence of steps that all succeed.
pub open spec fn script_events(target: ImuTargetId, steps: Seq<ScriptStep>) -> Seq<BusEvent> {
    steps.map_values(|s: ScriptStep| step_event(target, s, Ok(())))
}

/// Running `steps` in order on `target` left `events` and reported `result`:
/// either every step ran and the result is `Ok`, or the steps before some
/// write ran, that write failed with `e`, nothing ran after it, and the
/// result is `Err(e)`.
pub open spec fn script_outcome(
    target: ImuTargetId,
    steps: Seq<ScriptStep>,
    events: Seq<BusEvent>,
    result: Result<(), ImuError>,
) -> bool {
    match result {
        Ok(()) => events == script_events(target, steps),
        Err(e) => exists|i: int|
            0 <= i < steps.len() && steps[i] is Write && events == script_events(
                target,
                steps.take(i),
            ).push(step_event(target, steps[i], Err(e))),
    }
}

/// Runs a fixed programming sequence, stopping at the first failed write.
pub fn run_script<B: ImuBus>(bus: &mut B, target: ImuTargetId, steps: &[ScriptStep]) -> (result:
    Result<(), ImuError>)
    ensures
        extends(old(bus).trace(), final(bus).trace()),
        script_outcome(target, steps@, delta(old(bus).trace(), final(bus).trace()), result),
{
    let ghost start = bus.trace();
    let mut i: usize = 0;
    while i < steps.len()
        invariant
            i <= steps@.len(),
            start == old(bus).trace(),
            bus.trace() == start + script_events(target, steps@.take(i as int)),
        decreases steps@.len() - i,
    {
        let step = steps[i];
        let ghost before = bus.trace();
        assert(step == steps@[i as int]);
        match step {
            ScriptStep::Write { reg, value } => {
                let r = bus.write_reg(target, reg, value);
                assert(bus.trace() == before.push(write_reg_event(target, reg, value, r)));
                match r {
                    Ok(unit) => {
                        assert(unit == ());
                        assert(r == Ok::<(), ImuError>(unit));
                        assert(bus.trace() == before.push(write_reg_event(target, reg, value, Ok(()))));
                    },
                    Err(e) => {
                        proof {
                            let ev = step_event(target, steps@[i as int], Err(e));
                            assert(bus.trace() =~= start + script_events(
                                target,
                                steps@.take(i as int),
                            ).push(ev));
                            let d = delta(start, bus.trace());
                            assert(bus.trace().subrange(0, start.len() as int) =~= start);
                            assert(d =~= script_events(target, steps@.take(i as int)).push(
                                step_event(target, steps@[i as int], Err(e)),
                            ));
                            assert(steps@[i as int] is Write);
                            assert(script_outcome(target, steps@, d, Err(e)));
                        }
                        return Err(e);
                    },
                }
            },
            ScriptStep::Delay { ms } => {
                bus.delay_ms(ms);
            },
        }
        assert(bus.trace() == before.push(step_event(target, steps@[i as int], Ok(()))));
        assert(script_events(target, steps@.take(i + 1)) =~= script_events(
            target,
            steps@.take(i as int),
        ).push(step_event(target, steps@[i as int], Ok(()))));
        i = i + 1;
    }
    assert(steps@.take(steps@.len() as int) =~= steps@);
    assert(bus.trace().subrange(0, start.len() as int) =~= start);
    assert(delta(start, bus.trace()) =~= script_events(target, steps@));
    Ok(())
}

/// A completed identification attempt that did not recognise the chip:
/// both registers were read, `accept` rejected them, and the driver waited
/// `pause_ms` before retrying.
pub open spec fn rejected_attempt(
    target: ImuTargetId,
    reg_a: u8,
    reg_b: u8,
    accept: spec_fn(u8, u8) -> bool,
    pause_ms: u64,
    events: Seq<BusEvent>,
) -> bool {
    &&& events.len() == 3
    &&& is_reg_read(events[0], target, reg_a, 0)
    &&& is_reg_read(events[1], target, reg_b, 0)
    &&& reg_value(events[0]) is Ok
    &&& reg_value(events[1]) is Ok
    &&& !accept(reg_value(events[0])->Ok_0, reg_value(events[1])->Ok_0)
    &&& events[2] == BusEvent::Delay { ms: pause_ms }
}

/// How the identification run ends after `done` rejected attempts out of
/// `attempts`: with no attempt left the chip is not this one; otherwise a
/// failed read ends the run with its error, and two good reads that
/// `accept` recognises end it with `Ok(true)`.
pub open spec fn last_attempt(
    target: ImuTargetId,
    reg_a: u8,
    reg_b: u8,
    accept: spec_fn(u8, u8) -> bool,
    attempts: int,
    done: int,
    rest: Seq<BusEvent>,
    result: Result<bool, ImuError>,
) -> bool {
    if done == attempts {
        rest.len() == 0 && result == Ok::<bool, ImuError>(false)
    } else {
        &&& rest.len() >= 1
        &&& is_reg_read(rest[0], target, reg_a, 0)
        &&& match reg_value(rest[0]) {
            Err(e) => rest.len() == 1 && result == Err::<bool, ImuError>(e),
            Ok(a) => {
                &&& rest.len() == 2
                &&& is_reg_read(rest[1], target, reg_b, 0)
                &&& match reg_value(rest[1]) {
                    Err(e) => result == Err::<bool, ImuError>(e),
                    Ok(b) => accept(a, b) && result == Ok::<bool, ImuError>(true),
                }
            },
        }
    }
}

/// The first `done` rounds of `events` were rejected and the rest ends the
/// run as `last_attempt` describes.
pub open spec fn probe_split(
    target: ImuTargetId,
    reg_a: u8,
    reg_b: u8,
    accept: spec_fn(u8, u8) -> bool,
    attempts: int,
    pause_ms: u64,
    events: Seq<BusEvent>,
    done: int,
    result: Result<bool, ImuError>,
) -> bool {
    &&& 0 <= done <= attempts
    &&& events.len() >= 3 * done
    &&& forall|a: int|
        0 <= a < done ==> #[trigger] rejected_attempt(
            target,
            reg_a,
            reg_b,
            accept,
            pause_ms,
            events.subrange(3 * a, 3 * a + 3),
        )
    &&& last_attempt(target, reg_a, reg_b, accept, attempts, done, events.skip(3 * done), result)
}

/// Identification by up to `attempts` rounds of: read `reg_a`, read
/// `reg_b`, stop with `Ok(true)` if `accept` recognises the two values,
/// otherwise wait `pause_ms`. A failed read stops the run with its error;
/// when every round is rejected the result is `Ok(false)`.
pub open spec fn probe_outcome(
    target: ImuTargetId,
    reg_a: u8,
    reg_b: u8,
    accept: spec_fn(u8, u8) -> bool,
    attempts: int,
    pause_ms: u64,
    events: Seq<BusEvent>,
    result: Result<bool, ImuError>,
) -> bool {
    exists|done: int|
        #[trigger] probe_split(target, reg_a, reg_b, accept, attempts, pause_ms, events, done, result)
}

/// Appending one more rejected round keeps every earlier round rejected.
pub proof fn lemma_probe_round(
    target: ImuTargetId,
    reg_a: u8,
    reg_b: u8,
    accept: spec_fn(u8, u8) -> bool,
    pause_ms: u64,
    done: int,
    events: Seq<BusEvent>,
    round: Seq<BusEvent>,
)
    requires
        0 <= done,
        events.len() == 3 * done,
        forall|a: int|
            0 <= a < done ==> #[trigger] rejected_attempt(
                target,
                reg_a,
                reg_b,
                accept,
                pause_ms,
                events.subrange(3 * a, 3 * a + 3),
            ),
        rejected_attempt(target, reg_a, reg_b, accept, pause_ms, round),
    ensures
        (events + round).len() == 3 * (done + 1),
        forall|a: int|
            0 <= a < done + 1 ==> #[trigger] rejected_attempt(
                target,
                reg_a,
                reg_b,
                accept,
                pause_ms,
                (events + round).subrange(3 * a, 3 * a + 3),
            ),
{
    let all = events + round;
    assert forall|a: int| 0 <= a < done + 1 implies #[trigger] rejected_attempt(
        target,
        reg_a,
        reg_b,
        accept,
        pause_ms,
        all.subrange(3 * a, 3 * a + 3),
    ) by {
        if a < done {
            assert(all.subrange(3 * a, 3 * a + 3) =~= events.subrange(3 * a, 3 * a + 3));
        } else {
            assert(all.subrange(3 * a, 3 * a + 3) =~= round);
        }
    }
}

/// A run made of `done` rejected rounds followed by a closing segment is a
/// complete identification run.
pub proof fn lemma_probe_close(
    target: ImuTargetId,
    reg_a: u8,
    reg_b: u8,
    accept: spec_fn(u8, u8) -> bool,
    attempts: int,
    pause_ms: u64,
    done: int,
    events: Seq<BusEvent>,
    rest: Seq<BusEvent>,
    result: Result<bool, ImuError>,
)
    requires
        0 <= done <= attempts,
        events.len() == 3 * done,
        forall|a: int|
            0 <= a < done ==> #[trigger] rejected_attempt(
                target,
                reg_a,
                reg_b,
                accept,
                pause_ms,
                events.subrange(3 * a, 3 * a + 3),
            ),
        last_attempt(target, reg_a, reg_b, accept, attempts, done, rest, result),
    ensures
        probe_outcome(target, reg_a, reg_b, accept, attempts, pause_ms, events + rest, result),
{
    let all = events + rest;
    assert(all.skip(3 * done) =~= rest);
    assert forall|a: int| 0 <= a < done implies #[trigger] rejected_attempt(
        target,
        reg_a,
        reg_b,
        accept,
        pause_ms,
        all.subrange(3 * a, 3 * a + 3),
    ) by {
        assert(all.subrange(3 * a, 3 * a + 3) =~= events.subrange(3 * a, 3 * a + 3));
    }
    assert(probe_split(target, reg_a, reg_b, accept, attempts, pause_ms, all, done, result));
}

/// Every event is a successful one-byte read, of consecutive registers
/// starting at `base`.
pub open spec fn good_reads(target: ImuTargetId, base: u8, events: Seq<BusEvent>) -> bool {
    forall|k: int|
        0 <= k < events.len() ==> is_reg_read(#[trigger] events[k], target, (base + k) as u8, 0)
            && reg_value(events[k]) is Ok
}

/// The bytes a run of successful one-byte reads returned.
pub open spec fn read_bytes(events: Seq<BusEvent>) -> Seq<u8> {
    events.map_values(|ev: BusEvent| reg_value(ev)->Ok_0)
}

/// Reading `count` consecutive registers from `base` one byte at a time,
/// stopping at the first failed read: on success `events` are the `count`
/// good reads; on failure the reads before the last succeeded and the last
/// one failed with the error returned.
pub open spec fn byte_reads_outcome<T>(
    target: ImuTargetId,
    base: u8,
    count: int,
    events: Seq<BusEvent>,
    result: Result<T, ImuError>,
) -> bool {
    match result {
        Ok(_) => events.len() == count && good_reads(target, base, events),
        Err(e) => {
            &&& 1 <= events.len() <= count
            &&& good_reads(target, base, events.drop_last())
            &&& is_reg_read(events.last(), target, (base + events.len() - 1) as u8, 0)
            &&& reg_value(events.last()) == Err::<u8, ImuError>(e)
        },
    }
}

/// A sensor driver. Every operation only appends to the bus trace; each
/// driver states exactly which operations it performs.
pub trait ImuDriver {
    fn kind(&self) -> ImuKind;

    /// `Ok(true)`: the sensor answered as this driver's chip; `Ok(false)`:
    /// it did not; `Err`: the bus failed.
    fn probe<B: ImuBus>(&self, bus: &mut B, target: ImuTargetId) -> (result: Result<bool, ImuError>)
        ensures
            extends(old(bus).trace(), final(bus).trace()),
    ;

    fn reset<B: ImuBus>(&self, bus: &mut B, target: ImuTargetId) -> (result: Result<(), ImuError>)
        ensures
            extends(old(bus).trace(), final(bus).trace()),
    ;

    fn configure<B: ImuBus, R: DriverResources>(
        &self,
        bus: &mut B,
        target: ImuTargetId,
        config: &ImuConfig,
        resources: &R,
    ) -> (result: Result<(), ImuError>)
        ensures
            extends(old(bus).trace(), final(bus).trace()),
    ;

    fn read_raw<B: ImuBus>(&self, bus: &mut B, target: ImuTargetId) -> (result: Result<
        RawSample,
        ImuError,
    >)
        ensures
            extends(old(bus).trace(), final(bus).trace()),
    ;

    fn capabilities(&self) -> ImuCapabilities;
}

} // verus!
