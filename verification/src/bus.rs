//! The register-access bus model every driver is written against.
//!
//! A bus is observed through its trace: the sequence of operations it has
//! carried out, each with the outcome it reported. Driver contracts are
//! stated as the exact trace they produce and the result they compute
//! from the outcomes recorded in it.

use vstd::prelude::*;
use crate::types::ImuError;

verus! {

#[derive(Clone, Copy, Debug, Default, PartialEq, Eq, Hash, Structural)]
pub struct BusId(pub u8);

/// One addressable device on a bus.
#[derive(Clone, Copy, Debug, Default, PartialEq, Eq, Hash, Structural)]
pub struct ImuTargetId {
    pub bus_id: BusId,
    pub target_index: u8,
}

/// SPI clock polarity / phase mode.
#[derive(Clone, Copy, Debug, PartialEq, Eq, Structural)]
pub enum BusMode {
    Mode0,
    Mode1,
    Mode2,
    Mode3,
}

/// A named bus setting: mode and clock frequency.
#[derive(Clone, Copy, Debug, PartialEq, Eq, Structural)]
pub struct BusProfile {
    pub id: u8,
    pub mode: BusMode,
    pub frequency_khz: u32,
}

impl BusProfile {
    pub fn new(id: u8, mode: BusMode, frequency_khz: u32) -> (profile: Self)
        ensures
            profile == (BusProfile { id, mode, frequency_khz }),
    {
        BusProfile { id, mode, frequency_khz }
    }
}

/// One operation carried out by a bus, with the outcome it reported.
pub enum BusEvent {
    Profile { target: ImuTargetId, profile: BusProfile, result: Result<(), ImuError> },
    Write { target: ImuTargetId, reg: u8, data: Seq<u8>, result: Result<(), ImuError> },
    /// A read of `len` bytes after `dummy_bytes` dummy bytes; on success
    /// the result holds exactly `len` bytes.
    Read {
        target: ImuTargetId,
        reg: u8,
        dummy_bytes: usize,
        len: nat,
        result: Result<Seq<u8>, ImuError>,
    },
    Delay { ms: u64 },
}

/// The event a one-byte register read leaves, given what it returned.
pub open spec fn read_reg_event(
    target: ImuTargetId,
    reg: u8,
    dummy_bytes: usize,
    result: Result<u8, ImuError>,
) -> BusEvent {
    BusEvent::Read {
        target,
        reg,
        dummy_bytes,
        len: 1,
        result: match result {
            Ok(b) => Ok(seq![b]),
            Err(e) => Err(e),
        },
    }
}

/// The event a one-byte register write leaves.
pub open spec fn write_reg_event(
    target: ImuTargetId,
    reg: u8,
    value: u8,
    result: Result<(), ImuError>,
) -> BusEvent {
    BusEvent::Write { target, reg, data: seq![value], result }
}

/// Register-level access to the devices of one bus.
pub trait ImuBus {
    /// Every operation carried out so far, oldest first.
    spec fn trace(&self) -> Seq<BusEvent>;

    fn apply_profile(&mut self, target: ImuTargetId, profile: BusProfile) -> (result: Result<
        (),
        ImuError,
    >)
        ensures
            final(self).trace() == old(self).trace().push(
                BusEvent::Profile { target, profile, result },
            ),
    ;

    fn write_regs(&mut self, target: ImuTargetId, reg: u8, data: &[u8]) -> (result: Result<
        (),
        ImuError,
    >)
        ensures
            final(self).trace() == old(self).trace().push(
                BusEvent::Write { target, reg, data: data@, result },
            ),
    ;

    fn read_regs(
        &mut self,
        target: ImuTargetId,
        reg: u8,
        dummy_bytes: usize,
        data: &mut [u8],
    ) -> (result: Result<(), ImuError>)
        ensures
            final(data)@.len() == old(data)@.len(),
            final(self).trace() == old(self).trace().push(
                BusEvent::Read {
                    target,
                    reg,
                    dummy_bytes,
                    len: old(data)@.len(),
                    result: match result {
                        Ok(_) => Ok(final(data)@),
                        Err(e) => Err(e),
                    },
                },
            ),
    ;

    fn delay_ms(&mut self, ms: u64)
        ensures
            final(self).trace() == old(self).trace().push(BusEvent::Delay { ms }),
    ;

    /// Writes one register.
    fn write_reg(&mut self, target: ImuTargetId, reg: u8, value: u8) -> (result: Result<
        (),
        ImuError,
    >)
        ensures
            final(self).trace() == old(self).trace().push(
                write_reg_event(target, reg, value, result),
            ),
    {
        let data: [u8; 1] = [value];
        let r = self.write_regs(target, reg, &data);
        assert(data@ =~= seq![value]);
        r
    }

    /// Reads one register.
    fn read_reg(&mut self, target: ImuTargetId, reg: u8, dummy_bytes: usize) -> (result: Result<
        u8,
        ImuError,
    >)
        ensures
            final(self).trace() == old(self).trace().push(
                read_reg_event(target, reg, dummy_bytes, result),
            ),
    {
        let mut data: [u8; 1] = [0u8];
        let r = self.read_regs(target, reg, dummy_bytes, &mut data);
        match r {
            Ok(()) => {
                let b = data[0];
                assert(data@ =~= seq![b]);
                Ok(b)
            },
            Err(e) => Err(e),
        }
    }
}

} // verus!
