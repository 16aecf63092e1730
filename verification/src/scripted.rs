//! A bus that answers reads from a prepared byte script and keeps a log
//! of everything asked of it; drivers can be exercised without hardware.

use vstd::prelude::*;
use crate::bus::{BusEvent, BusProfile, ImuBus, ImuTargetId};
use crate::types::ImuError;
use vstd::slice::slice_to_vec;

verus! {

/// One logged bus operation.
#[derive(Debug, PartialEq, Eq)]
pub enum BusRecord {
    Profile { target: ImuTargetId, profile: BusProfile, result: Result<(), ImuError> },
    Write { target: ImuTargetId, reg: u8, data: Vec<u8>, result: Result<(), ImuError> },
    Read {
        target: ImuTargetId,
        reg: u8,
        dummy_bytes: usize,
        len: usize,
        result: Result<Vec<u8>, ImuError>,
    },
    Delay { ms: u64 },
}

impl BusRecord {
    pub open spec fn event(self) -> BusEvent {
        match self {
            BusRecord::Profile { target, profile, result } => BusEvent::Profile {
                target,
                profile,
                result,
            },
            BusRecord::Write { target, reg, data, result } => BusEvent::Write {
                target,
                reg,
                data: data@,
                result,
            },
            BusRecord::Read { target, reg, dummy_bytes, len, result } => BusEvent::Read {
                target,
                reg,
                dummy_bytes,
                len: len as nat,
                result: match result {
                    Ok(v) => Ok(v@),
                    Err(e) => Err(e),
                },
            },
            BusRecord::Delay { ms } => BusEvent::Delay { ms },
        }
    }
}

/// Answers reads with the next unread bytes of `script`; a read that asks
/// for more bytes than remain fails with `CommunicationError` and consumes
/// nothing. The first `writes_allowed` writes succeed, later ones fail with
/// `CommunicationError`. Profile changes and delays always succeed.
pub struct ScriptedBus {
    pub script: Vec<u8>,
    pub cursor: usize,
    pub writes_allowed: usize,
    pub log: Vec<BusRecord>,
}

impl ScriptedBus {
    pub fn new(script: Vec<u8>) -> (bus: Self)
        ensures
            bus.script@ == script@,
            bus.cursor == 0,
            bus.writes_allowed == usize::MAX,
            bus.log@.len() == 0,
    {
        ScriptedBus { script, cursor: 0, writes_allowed: usize::MAX, log: Vec::new() }
    }

    pub fn with_write_limit(script: Vec<u8>, writes_allowed: usize) -> (bus: Self)
        ensures
            bus.script@ == script@,
            bus.cursor == 0,
            bus.writes_allowed == writes_allowed,
            bus.log@.len() == 0,
    {
        ScriptedBus { script, cursor: 0, writes_allowed, log: Vec::new() }
    }

    /// Number of operations logged so far.
    pub fn operation_count(&self) -> (n: usize)
        ensures
            n == self.log@.len(),
    {
        self.log.len()
    }
}

impl ImuBus for ScriptedBus {
    open spec fn trace(&self) -> Seq<BusEvent> {
        self.log@.map_values(|r: BusRecord| r.event())
    }

    /// Always succeeds.
    fn apply_profile(&mut self, target: ImuTargetId, profile: BusProfile) -> (result: Result<
        (),
        ImuError,
    >)
        ensures
            result is Ok,
            final(self).script@ == old(self).script@,
            final(self).cursor == old(self).cursor,
            final(self).writes_allowed == old(self).writes_allowed,
    {
        let record = BusRecord::Profile { target, profile, result: Ok(()) };
        self.log.push(record);
        assert(self.trace() =~= old(self).trace().push(record.event()));
        Ok(())
    }

    /// Succeeds while writes are allowed, using one up.
    fn write_regs(&mut self, target: ImuTargetId, reg: u8, data: &[u8]) -> (result: Result<
        (),
        ImuError,
    >)
        ensures
            final(self).script@ == old(self).script@,
            final(self).cursor == old(self).cursor,
            old(self).writes_allowed > 0 ==> result is Ok && final(self).writes_allowed
                == old(self).writes_allowed - 1,
            old(self).writes_allowed == 0 ==> result == Err::<(), ImuError>(
                ImuError::CommunicationError,
            ) && final(self).writes_allowed == 0,
    {
        let result = if self.writes_allowed > 0 {
            self.writes_allowed = self.writes_allowed - 1;
            Ok(())
        } else {
            Err(ImuError::CommunicationError)
        };
        let record = BusRecord::Write { target, reg, data: slice_to_vec(data), result };
        self.log.push(record);
        assert(self.trace() =~= old(self).trace().push(record.event()));
        result
    }

    fn read_regs(
        &mut self,
        target: ImuTargetId,
        reg: u8,
        dummy_bytes: usize,
        data: &mut [u8],
    ) -> (result: Result<(), ImuError>)
        ensures
            final(self).script@ == old(self).script@,
            final(self).writes_allowed == old(self).writes_allowed,
            if old(self).cursor + old(data)@.len() <= old(self).script@.len() {
                &&& result is Ok
                &&& final(data)@ == old(self).script@.subrange(
                    old(self).cursor as int,
                    old(self).cursor + old(data)@.len(),
                )
                &&& final(self).cursor == old(self).cursor + old(data)@.len()
            } else {
                &&& result == Err::<(), ImuError>(ImuError::CommunicationError)
                &&& final(data)@ == old(data)@
                &&& final(self).cursor == old(self).cursor
            },
    {
        let len = data.len();
        if self.cursor <= self.script.len() && len <= self.script.len() - self.cursor {
            let start = self.cursor;
            let end = start + len;
            let mut i: usize = 0;
            while i < len
                invariant
                    i <= len,
                    len == data@.len(),
                    end == start + len,
                    end <= self.script@.len(),
                    forall|j: int| 0 <= j < i ==> data@[j] == self.script@[start + j],
                decreases len - i,
            {
                data[i] = self.script[start + i];
                i = i + 1;
            }
            self.cursor = end;
            let copied = slice_to_vec(data);
            let record = BusRecord::Read {
                target,
                reg,
                dummy_bytes,
                len,
                result: Ok(copied),
            };
            self.log.push(record);
            assert(self.trace() =~= old(self).trace().push(record.event()));
            Ok(())
        } else {
            let record = BusRecord::Read {
                target,
                reg,
                dummy_bytes,
                len,
                result: Err(ImuError::CommunicationError),
            };
            self.log.push(record);
            assert(self.trace() =~= old(self).trace().push(record.event()));
            Err(ImuError::CommunicationError)
        }
    }

    fn delay_ms(&mut self, ms: u64)
        ensures
            final(self).script@ == old(self).script@,
            final(self).cursor == old(self).cursor,
            final(self).writes_allowed == old(self).writes_allowed,
    {
        let record = BusRecord::Delay { ms };
        self.log.push(record);
        assert(self.trace() =~= old(self).trace().push(record.event()));
    }
}

} // verus!
