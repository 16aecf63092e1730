//! The board the firmware runs on: its transport, timing and slots.

use vstd::prelude::*;
use crate::bus::ImuTargetId;
use crate::drivers::CandidateDriver;
use crate::types::{ImuId, ImuKind};

verus! {

/// How frames leave the board.
#[derive(Clone, Copy, Debug, PartialEq, Eq, Structural)]
pub enum TransportMode {
    Json,
    Binary,
}

/// SPI clock of the default bus profiles.
pub const SPI_FREQ_KHZ: u32 = 1_000;
/// Time between two streamed sample rounds.
pub const STREAM_INTERVAL_MS: u64 = 50;
/// Time the sensors get to power up before probing.
pub const POWER_UP_DELAY_MS: u64 = 500;
/// The board's system id.
pub const SYSTEM_ID: u16 = 1;
/// Whether the third slot may stay empty without an error.
pub const SLOT3_OPTIONAL: bool = true;

/// One sensor slot of the board: the sensor id it reports under, the bus
/// target that reaches it, its label, the sensor expected there and the
/// drivers to try, in order.
#[derive(Clone, Debug)]
pub struct BoardImuConfig {
    pub imu_id: ImuId,
    pub target: ImuTargetId,
    pub label: &'static str,
    pub expected: ImuKind,
    pub candidates: Vec<CandidateDriver>,
}

} // verus!
