//! The binary resources a board hands to its drivers.

use vstd::prelude::*;
use crate::driver::DriverResources;
use crate::types::DriverResourceKey;

verus! {

/// The resources of the ESP32-C3 board: the BMI270 configuration blob it
/// was built with.
pub struct EspDriverResources {
    pub bmi270_config: &'static [u8],
}

impl DriverResources for EspDriverResources {
    fn bytes(&self, key: DriverResourceKey) -> (bytes: Option<&[u8]>)
        ensures
            bytes == Some(self.bmi270_config),
    {
        match key {
            DriverResourceKey::Bmi270ConfigBlob => Some(self.bmi270_config),
        }
    }
}

} // verus!
