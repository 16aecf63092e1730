//! The description of a device: its buses and the sensor slots on them.

use vstd::prelude::*;
use crate::bus::{BusProfile, ImuTargetId};
use crate::drivers::CandidateDriver;
use crate::protocol::{BusDescriptor, MAX_BUSES_PER_SYSTEM, MAX_LABEL_LEN};
use crate::text::utf8_len;
use crate::types::ImuDescriptor;

verus! {

/// Most sensor slots a device describes.
pub const MAX_DEVICE_IMUS: usize = 16;

/// One sensor slot: how it is announced, the target that reaches it, the
/// drivers to try and the bus profiles to start from.
pub struct ImuInstanceProfile {
    pub descriptor: ImuDescriptor,
    pub target: ImuTargetId,
    pub candidates: Vec<CandidateDriver>,
    pub default_profiles: Vec<BusProfile>,
}

/// A device: its system id and label, its buses and its sensor slots.
pub struct DeviceProfile {
    pub system_id: u16,
    /// At most `MAX_LABEL_LEN` UTF-8 bytes.
    pub system_label: String,
    /// At most `MAX_BUSES_PER_SYSTEM` entries.
    pub buses: Vec<BusDescriptor>,
    /// At most `MAX_DEVICE_IMUS` entries.
    pub imus: Vec<ImuInstanceProfile>,
}

impl DeviceProfile {
    /// The profile fits its bounds: a label of at most `MAX_LABEL_LEN`
    /// bytes, at most `MAX_BUSES_PER_SYSTEM` buses and `MAX_DEVICE_IMUS`
    /// slots.
    pub open spec fn wf(&self) -> bool {
        &&& utf8_len(self.system_label@) <= MAX_LABEL_LEN
        &&& self.buses@.len() <= MAX_BUSES_PER_SYSTEM
        &&& self.imus@.len() <= MAX_DEVICE_IMUS
    }
}

} // verus!
