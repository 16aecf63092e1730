//! The register bus of the ESP32-C3 board: register transactions framed
//! for SPI, one chip-select line per target, on whatever SPI hardware the
//! board hands in.

use vstd::prelude::*;
use crate::bus::{BusEvent, BusMode, BusProfile, ImuBus, ImuTargetId};
use crate::spi::{
    prepare_read, prepare_write, read_frame, read_reply, write_frame, MAX_READ_BYTES, MAX_WRITE_BYTES,
};
use crate::types::ImuError;

verus! {

/// The hardware under the bus: an SPI peripheral whose mode and clock can
/// be changed, one chip-select line per target, and a blocking delay.
/// Each operation that can fail says whether it succeeded.
pub trait SpiHardware {
    /// Switches the peripheral to `mode` at `frequency_khz`.
    fn configure(&mut self, mode: BusMode, frequency_khz: u32) -> bool;

    /// Drives chip-select line `line` active.
    fn select(&mut self, line: usize);

    /// Drives chip-select line `line` inactive.
    fn deselect(&mut self, line: usize);

    /// Clocks `frame` out and waits until it has left.
    fn write(&mut self, frame: &[u8]) -> bool;

    /// Clocks `frame` out, replacing each byte by the one clocked in, and
    /// waits until the transfer is over.
    fn transfer_in_place(&mut self, frame: &mut Vec<u8>) -> bool;

    /// Waits `ms` milliseconds.
    fn delay_ms(&mut self, ms: u64);
}

/// One operation the bus asked of its hardware, with what came back.
pub enum HwOp {
    Configure { mode: BusMode, frequency_khz: u32, ok: bool },
    Select { line: nat },
    Deselect { line: nat },
    Write { frame: Seq<u8>, ok: bool },
    /// `sent` was clocked out; `received` is what the frame held afterwards.
    Transfer { sent: Seq<u8>, received: Seq<u8>, ok: bool },
    Delay { ms: u64 },
}

/// The chip-select line of `target`: the position of its first entry in
/// `targets`, or -1 when it has none.
pub open spec fn first_line(targets: Seq<ImuTargetId>, target: ImuTargetId) -> int
    decreases targets.len(),
{
    if targets.len() == 0 {
        -1
    } else if targets[0] == target {
        0
    } else {
        let rest = first_line(targets.drop_first(), target);
        if rest < 0 {
            -1
        } else {
            rest + 1
        }
    }
}

/// The first entry equal to `target` is at its chip-select line.
pub proof fn lemma_first_line(targets: Seq<ImuTargetId>, target: ImuTargetId, i: int)
    requires
        0 <= i < targets.len(),
        targets[i] == target,
        forall|j: int| 0 <= j < i ==> targets[j] != target,
    ensures
        first_line(targets, target) == i,
    decreases i,
{
    if i > 0 {
        let rest = targets.drop_first();
        assert forall|j: int| 0 <= j < i - 1 implies rest[j] != target by {
            assert(rest[j] == targets[j + 1]);
        }
        assert(targets[0] != target);
        lemma_first_line(rest, target, i - 1);
    }
}

/// The board bus: the hardware, the targets in chip-select order, the
/// trace of what was asked of the bus and the log of what the bus asked of
/// its hardware.
pub struct EspImuBus<H> {
    hw: H,
    targets: Vec<ImuTargetId>,
    events: Ghost<Seq<BusEvent>>,
    ops: Ghost<Seq<HwOp>>,
}

impl<H: SpiHardware> EspImuBus<H> {
    /// A bus over `hw` whose chip-select line `i` reaches `targets[i]`.
    pub fn new(hw: H, targets: Vec<ImuTargetId>) -> (bus: Self)
        ensures
            bus.trace() == Seq::<BusEvent>::empty(),
            bus.hw_ops() == Seq::<HwOp>::empty(),
            bus.targets() == targets@,
    {
        EspImuBus { hw, targets, events: Ghost(Seq::empty()), ops: Ghost(Seq::empty()) }
    }

    /// The targets, in chip-select order.
    pub closed spec fn targets(&self) -> Seq<ImuTargetId> {
        self.targets@
    }

    /// Every operation asked of the hardware so far, oldest first.
    pub closed spec fn hw_ops(&self) -> Seq<HwOp> {
        self.ops@
    }

    /// The hardware under the bus.
    pub closed spec fn hw(&self) -> H {
        self.hw
    }

    /// The hardware under the bus.
    pub fn hardware(&self) -> (hw: &H)
        ensures
            *hw == self.hw(),
    {
        &self.hw
    }
}

impl<H: SpiHardware> ImuBus for EspImuBus<H> {
    closed spec fn trace(&self) -> Seq<BusEvent> {
        self.events@
    }

    /// Reconfigures the peripheral to the profile's mode and clock; a
    /// refused configuration is a `ConfigError`.
    fn apply_profile(&mut self, target: ImuTargetId, profile: BusProfile) -> (result: Result<
        (),
        ImuError,
    >)
        ensures
            final(self).targets() == old(self).targets(),
            final(self).hw_ops() == old(self).hw_ops().push(
                HwOp::Configure {
                    mode: profile.mode,
                    frequency_khz: profile.frequency_khz,
                    ok: result is Ok,
                },
            ),
            result is Ok || result == Err::<(), ImuError>(ImuError::ConfigError),
    {
        let ok = self.hw.configure(profile.mode, profile.frequency_khz);
        let result = if ok {
            Ok(())
        } else {
            Err(ImuError::ConfigError)
        };
        proof {
            self.ops@ = self.ops@.push(
                HwOp::Configure { mode: profile.mode, frequency_khz: profile.frequency_khz, ok },
            );
            self.events@ = self.events@.push(BusEvent::Profile { target, profile, result });
        }
        result
    }

    /// One write transaction: the command byte (the register with bit 7
    /// clear) and the data, clocked out with the target's chip-select line
    /// active. Too long a transaction is a `ConfigError` and an unknown
    /// target `InvalidTarget`, both without touching the hardware; a failed
    /// transfer is a `CommunicationError`.
    fn write_regs(&mut self, target: ImuTargetId, reg: u8, data: &[u8]) -> (result: Result<
        (),
        ImuError,
    >)
        ensures
            final(self).targets() == old(self).targets(),
            ({
                let before = old(self).hw_ops();
                let after = final(self).hw_ops();
                let line = first_line(old(self).targets(), target) as nat;
                if 1 + data@.len() > MAX_WRITE_BYTES {
                    result == Err::<(), ImuError>(ImuError::ConfigError) && after == before
                } else if !old(self).targets().contains(target) {
                    result == Err::<(), ImuError>(ImuError::InvalidTarget) && after == before
                } else {
                    &&& after == before + seq![
                        HwOp::Select { line },
                        HwOp::Write { frame: write_frame(reg, data@), ok: result is Ok },
                        HwOp::Deselect { line },
                    ]
                    &&& result is Ok || result == Err::<(), ImuError>(
                        ImuError::CommunicationError,
                    )
                }
            }),
    {
        let ghost before = self.ops@;
        let result = match prepare_write(self.targets.as_slice(), target, reg, data) {
            Err(e) => {
                proof {
                    if e == ImuError::InvalidTarget && self.targets@.contains(target) {
                        let j = choose|j: int| 0 <= j < self.targets@.len() && self.targets@[j] == target;
                        assert(self.targets@[j] == target);
                    }
                }
                Err(e)
            },
            Ok((index, frame)) => {
                proof {
                    lemma_first_line(self.targets@, target, index as int);
                    assert(self.targets@.contains(target)) by {
                        assert(self.targets@[index as int] == target);
                    }
                }
                self.hw.select(index);
                let ok = self.hw.write(frame.as_slice());
                self.hw.deselect(index);
                proof {
                    self.ops@ = before + seq![
                        HwOp::Select { line: index as nat },
                        HwOp::Write { frame: frame@, ok },
                        HwOp::Deselect { line: index as nat },
                    ];
                }
                if ok {
                    Ok(())
                } else {
                    Err(ImuError::CommunicationError)
                }
            },
        };
        proof {
            self.events@ = self.events@.push(BusEvent::Write { target, reg, data: data@, result });
        }
        result
    }

    /// One read transaction: the command byte (the register with bit 7 set)
    /// followed by zeros for the dummy and data bytes, clocked with the
    /// target's chip-select line active; the bytes clocked in after the
    /// command and dummy bytes are the data. Errors as for writes, with a
    /// `CommunicationError` also when the hardware changes the frame's
    /// length; `data` is left alone unless the read succeeds.
    fn read_regs(
        &mut self,
        target: ImuTargetId,
        reg: u8,
        dummy_bytes: usize,
        data: &mut [u8],
    ) -> (result: Result<(), ImuError>)
        ensures
            final(self).targets() == old(self).targets(),
            ({
                let before = old(self).hw_ops();
                let after = final(self).hw_ops();
                let line = first_line(old(self).targets(), target) as nat;
                let len = old(data)@.len();
                if 1 + dummy_bytes + len > MAX_READ_BYTES {
                    result == Err::<(), ImuError>(ImuError::ConfigError) && after == before
                        && final(data)@ == old(data)@
                } else if !old(self).targets().contains(target) {
                    result == Err::<(), ImuError>(ImuError::InvalidTarget) && after == before
                        && final(data)@ == old(data)@
                } else {
                    &&& after.len() == before.len() + 3
                    &&& after.take(before.len() as int) == before
                    &&& after[before.len() as int] == HwOp::Select { line }
                    &&& after[before.len() + 2int] == HwOp::Deselect { line }
                    &&& after[before.len() + 1int] matches HwOp::Transfer { sent, received, ok }
                    &&& sent == read_frame(reg, dummy_bytes as nat, len)
                    &&& (result is Ok <==> ok && received.len() == 1 + dummy_bytes + len)
                    &&& (result is Ok ==> final(data)@ == received.subrange(
                        1 + dummy_bytes,
                        1 + dummy_bytes + len,
                    ))
                    &&& (result is Err ==> result == Err::<(), ImuError>(
                        ImuError::CommunicationError,
                    ) && final(data)@ == old(data)@)
                }
            }),
    {
        let ghost before = self.ops@;
        let ghost data0 = data@;
        let len = data.len();
        let result = if len > usize::MAX - 1 || dummy_bytes > usize::MAX - 1 - len {
            Err(ImuError::ConfigError)
        } else {
            match prepare_read(self.targets.as_slice(), target, reg, dummy_bytes, len) {
                Err(e) => {
                    proof {
                        if e == ImuError::InvalidTarget && self.targets@.contains(target) {
                            let j = choose|j: int|
                                0 <= j < self.targets@.len() && self.targets@[j] == target;
                            assert(self.targets@[j] == target);
                        }
                    }
                    Err(e)
                },
                Ok((index, frame)) => {
                    proof {
                        lemma_first_line(self.targets@, target, index as int);
                        assert(self.targets@.contains(target)) by {
                            assert(self.targets@[index as int] == target);
                        }
                    }
                    let mut frame = frame;
                    let ghost sent = frame@;
                    self.hw.select(index);
                    let ok = self.hw.transfer_in_place(&mut frame);
                    self.hw.deselect(index);
                    proof {
                        self.ops@ = before + seq![
                            HwOp::Select { line: index as nat },
                            HwOp::Transfer { sent, received: frame@, ok },
                            HwOp::Deselect { line: index as nat },
                        ];
                    }
                    if !ok || frame.len() != 1 + dummy_bytes + len {
                        Err(ImuError::CommunicationError)
                    } else {
                        let reply = read_reply(frame.as_slice(), dummy_bytes, len);
                        let mut i: usize = 0;
                        while i < len
                            invariant
                                i <= len,
                                len == data@.len(),
                                reply@.len() == len,
                                forall|j: int| 0 <= j < i ==> data@[j] == reply@[j],
                            decreases len - i,
                        {
                            data[i] = reply[i];
                            i = i + 1;
                        }
                        assert(data@ =~= reply@);
                        Ok(())
                    }
                },
            }
        };
        proof {
            self.events@ = self.events@.push(
                BusEvent::Read {
                    target,
                    reg,
                    dummy_bytes,
                    len: len as nat,
                    result: match result {
                        Ok(_) => Ok(data@),
                        Err(e) => Err(e),
                    },
                },
            );
        }
        result
    }

    fn delay_ms(&mut self, ms: u64)
        ensures
            final(self).targets() == old(self).targets(),
            final(self).hw_ops() == old(self).hw_ops().push(HwOp::Delay { ms }),
    {
        self.hw.delay_ms(ms);
        proof {
            self.ops@ = self.ops@.push(HwOp::Delay { ms });
            self.events@ = self.events@.push(BusEvent::Delay { ms });
        }
    }
}

} // verus!
