//! Verified core of a multi-IMU sampling stack: sensor and bus model,
//! register-level drivers, wire protocol framing, device session
//! runtime and the host-side stream bookkeeping.

pub mod board;
pub mod bus;
pub mod codec;
pub mod device;
pub mod driver;
pub mod drivers;
pub mod export;
pub mod platform;
pub mod probe;
pub mod protocol;
pub mod resources;
pub mod sample;
pub mod scripted;
pub mod serial;
pub mod spi;
pub mod stream;
pub mod text;
pub mod transport;
pub mod types;
pub mod viewer;

use vstd::prelude::*;

verus! {

} // verus!
