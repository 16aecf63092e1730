//! SPI transaction framing for register access: the command byte carries
//! the register address with bit 7 set for reads and clear for writes,
//! followed by the written data, or by dummy and data clock bytes.

use vstd::prelude::*;
use crate::bus::ImuTargetId;
use crate::types::ImuError;

verus! {

/// Longest write transaction, command byte included.
pub const MAX_WRITE_BYTES: usize = 40;
/// Longest read transaction, command byte included.
pub const MAX_READ_BYTES: usize = 64;

/// The position of the first entry equal to `target`.
pub fn index_for(targets: &[ImuTargetId], target: ImuTargetId) -> (result: Result<usize, ImuError>)
    ensures
        match result {
            Ok(i) => i < targets@.len() && targets@[i as int] == target && forall|j: int|
                0 <= j < i ==> targets@[j] != target,
            Err(e) => e == ImuError::InvalidTarget && forall|j: int|
                0 <= j < targets@.len() ==> targets@[j] != target,
        },
{
    let mut i: usize = 0;
    while i < targets.len()
        invariant
            i <= targets@.len(),
            forall|j: int| 0 <= j < i ==> targets@[j] != target,
        decreases targets@.len() - i,
    {
        if targets[i] == target {
            return Ok(i);
        }
        i = i + 1;
    }
    Err(ImuError::InvalidTarget)
}

/// The bytes clocked out to write `data` from register `reg` on.
pub open spec fn write_frame(reg: u8, data: Seq<u8>) -> Seq<u8> {
    seq![reg & 0x7F] + data
}

/// The bytes clocked out to read `len` bytes from `reg` after
/// `dummy_bytes` dummy bytes: the command, then zeros.
pub open spec fn read_frame(reg: u8, dummy_bytes: nat, len: nat) -> Seq<u8> {
    seq![reg | 0x80] + Seq::new(dummy_bytes + len, |i: int| 0u8)
}

/// Checks the transaction size, then finds the chip-select line of
/// `target`; returns that line and the bytes to send.
pub fn prepare_write(targets: &[ImuTargetId], target: ImuTargetId, reg: u8, data: &[u8]) -> (result:
    Result<(usize, Vec<u8>), ImuError>)
    ensures
        match result {
            Ok((index, frame)) => 1 + data@.len() <= MAX_WRITE_BYTES && index < targets@.len()
                && targets@[index as int] == target && (forall|j: int|
                0 <= j < index ==> targets@[j] != target) && frame@ == write_frame(reg, data@),
            Err(e) => if 1 + data@.len() > MAX_WRITE_BYTES {
                e == ImuError::ConfigError
            } else {
                e == ImuError::InvalidTarget && forall|j: int|
                    0 <= j < targets@.len() ==> targets@[j] != target
            },
        },
{
    if data.len() > MAX_WRITE_BYTES - 1 {
        return Err(ImuError::ConfigError);
    }
    let index = match index_for(targets, target) {
        Ok(i) => i,
        Err(e) => {
            return Err(e);
        },
    };
    let mut frame: Vec<u8> = Vec::new();
    frame.push(reg & 0x7F);
    let mut i: usize = 0;
    while i < data.len()
        invariant
            i <= data@.len(),
            frame@ == seq![reg & 0x7F] + data@.take(i as int),
        decreases data@.len() - i,
    {
        frame.push(data[i]);
        assert(frame@ =~= seq![reg & 0x7F] + data@.take(i + 1));
        i = i + 1;
    }
    assert(data@.take(data@.len() as int) =~= data@);
    Ok((index, frame))
}

/// Checks the transaction size, then finds the chip-select line of
/// `target`; returns that line and the bytes to clock.
pub fn prepare_read(
    targets: &[ImuTargetId],
    target: ImuTargetId,
    reg: u8,
    dummy_bytes: usize,
    len: usize,
) -> (result: Result<(usize, Vec<u8>), ImuError>)
    requires
        1 + dummy_bytes + len <= usize::MAX,
    ensures
        match result {
            Ok((index, frame)) => 1 + dummy_bytes + len <= MAX_READ_BYTES && index < targets@.len()
                && targets@[index as int] == target && (forall|j: int|
                0 <= j < index ==> targets@[j] != target) && frame@ == read_frame(
                reg,
                dummy_bytes as nat,
                len as nat,
            ),
            Err(e) => if 1 + dummy_bytes + len > MAX_READ_BYTES {
                e == ImuError::ConfigError
            } else {
                e == ImuError::InvalidTarget && forall|j: int|
                    0 <= j < targets@.len() ==> targets@[j] != target
            },
        },
{
    let total = 1 + dummy_bytes + len;
    if total > MAX_READ_BYTES {
        return Err(ImuError::ConfigError);
    }
    let index = match index_for(targets, target) {
        Ok(i) => i,
        Err(e) => {
            return Err(e);
        },
    };
    let mut frame: Vec<u8> = Vec::new();
    frame.push(reg | 0x80);
    let mut i: usize = 1;
    while i < total
        invariant
            1 <= i <= total,
            frame@ == seq![reg | 0x80] + Seq::new((i - 1) as nat, |k: int| 0u8),
        decreases total - i,
    {
        frame.push(0u8);
        assert(frame@ =~= seq![reg | 0x80] + Seq::new(i as nat, |k: int| 0u8));
        i = i + 1;
    }
    assert(frame@ =~= read_frame(reg, dummy_bytes as nat, len as nat));
    Ok((index, frame))
}

/// The data bytes of a completed read transaction: what came back after
/// the command and dummy bytes.
pub fn read_reply(reply: &[u8], dummy_bytes: usize, len: usize) -> (data: Vec<u8>)
    requires
        reply@.len() == 1 + dummy_bytes + len,
    ensures
        data@ == reply@.subrange(1 + dummy_bytes, 1 + dummy_bytes + len),
{
    let n = reply.len();
    let start = n - len;
    let mut data: Vec<u8> = Vec::new();
    let mut i: usize = 0;
    while i < len
        invariant
            i <= len,
            start == 1 + dummy_bytes,
            n == reply@.len(),
            n == start + len,
            data@ == reply@.subrange(start as int, start + i),
        decreases len - i,
    {
        data.push(reply[start + i]);
        assert(data@ =~= reply@.subrange(start as int, start + i + 1));
        i = i + 1;
    }
    data
}

} // verus!
