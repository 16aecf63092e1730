//! Sensor identities, configuration and error types shared by every layer.

use vstd::prelude::*;

verus! {

/// The sensor families the stack knows about.
#[derive(Clone, Copy, Debug, PartialEq, Eq, Structural)]
pub enum ImuKind {
    Unknown,
    Icm42688Hxy,
    Icm42688Pc,
    Bmi270,
    Qmi8658A,
    Sc7u22,
}

/// A sensor's identity within a whole system.
#[derive(Clone, Copy, Debug, Default, PartialEq, Eq, Hash, Structural)]
pub struct ImuId {
    pub system_id: u16,
    pub sensor_id: u16,
}

/// An orientation quaternion. Each component is carried as the bit pattern
/// of its IEEE-754 single-precision value, so that frames holding one can
/// be moved and compared without floating-point arithmetic.
#[derive(Clone, Copy, Debug, Default, PartialEq, Eq, Structural)]
pub struct Quaternion {
    pub w: u32,
    pub x: u32,
    pub y: u32,
    pub z: u32,
}

/// Accelerometer full-scale range in g.
#[derive(Clone, Copy, Debug, Default, PartialEq, Eq, Hash, Structural)]
pub struct RangeG(pub u16);

/// Gyroscope full-scale range in degrees per second.
#[derive(Clone, Copy, Debug, Default, PartialEq, Eq, Hash, Structural)]
pub struct RangeDps(pub u16);

#[derive(Clone, Copy, Debug, PartialEq, Eq, Structural)]
pub enum FilterProfile {
    Off,
    LowLatency,
    Balanced,
    LowNoise,
}

#[derive(Clone, Copy, Debug, PartialEq, Eq, Structural)]
pub enum ViewMode {
    Raw6Axis,
    Quaternion,
}

#[derive(Clone, Copy, Debug, PartialEq, Eq, Structural)]
pub struct ImuConfig {
    pub accel_range: RangeG,
    pub gyro_range: RangeDps,
    pub sample_rate_hz: u16,
    pub filter_profile: FilterProfile,
}

impl ImuConfig {
    /// The configuration used when nothing else is asked for:
    /// ±8 g, ±2000 dps, 100 Hz, balanced filtering.
    pub open spec fn spec_default() -> ImuConfig {
        ImuConfig {
            accel_range: RangeG(8),
            gyro_range: RangeDps(2000),
            sample_rate_hz: 100,
            filter_profile: FilterProfile::Balanced,
        }
    }
}

impl Default for ImuConfig {
    fn default() -> (config: Self)
        ensures
            config == ImuConfig::spec_default(),
    {
        ImuConfig {
            accel_range: RangeG(8),
            gyro_range: RangeDps(2000),
            sample_rate_hz: 100,
            filter_profile: FilterProfile::Balanced,
        }
    }
}

/// What a sensor can do; ranges are listed in up to four slots.
#[derive(Clone, Copy, Debug, Default, PartialEq, Eq)]
pub struct ImuCapabilities {
    pub has_temp: bool,
    pub supports_fifo: bool,
    pub supports_data_ready_interrupt: bool,
    pub supported_accel_ranges: [Option<RangeG>; 4],
    pub supported_gyro_ranges: [Option<RangeDps>; 4],
}

#[derive(Clone, Copy, Debug, PartialEq, Eq, Structural)]
pub enum ImuError {
    CommunicationError,
    ChipNotFound,
    ConfigError,
    DataNotReady,
    MissingResource,
    UnsupportedConfig,
    InvalidTarget,
}

/// Where a sensor sits on its board.
#[derive(Clone, Debug, PartialEq, Eq)]
pub enum ImuLocation {
    Slot(u8),
    Index(u16),
    /// A free-form name of at most 32 UTF-8 bytes.
    Named(String),
}

impl Default for ImuLocation {
    fn default() -> (location: Self)
        ensures
            location == ImuLocation::Index(0),
    {
        ImuLocation::Index(0)
    }
}

/// A location as a value: its name as characters.
pub enum LocationView {
    Slot(u8),
    Index(u16),
    Named(Seq<char>),
}

impl View for ImuLocation {
    type V = LocationView;

    open spec fn view(&self) -> LocationView {
        match self {
            ImuLocation::Slot(s) => LocationView::Slot(*s),
            ImuLocation::Index(i) => LocationView::Index(*i),
            ImuLocation::Named(name) => LocationView::Named(name@),
        }
    }
}

impl ImuLocation {
    /// A copy of this location.
    pub fn duplicate(&self) -> (copy: Self)
        ensures
            copy == *self,
    {
        match self {
            ImuLocation::Slot(s) => ImuLocation::Slot(*s),
            ImuLocation::Index(i) => ImuLocation::Index(*i),
            ImuLocation::Named(name) => ImuLocation::Named(name.clone()),
        }
    }
}

/// Everything the host needs to know about one sensor of the topology.
#[derive(Clone, Debug, PartialEq, Eq)]
pub struct ImuDescriptor {
    pub id: ImuId,
    pub bus_id: crate::bus::BusId,
    pub kind: ImuKind,
    pub location: ImuLocation,
    /// Display label of at most 32 UTF-8 bytes.
    pub label: String,
    pub capabilities: ImuCapabilities,
}

/// A sensor descriptor as a value: text as characters.
pub struct DescriptorView {
    pub id: ImuId,
    pub bus_id: crate::bus::BusId,
    pub kind: ImuKind,
    pub location: LocationView,
    pub label: Seq<char>,
    pub capabilities: ImuCapabilities,
}

impl View for ImuDescriptor {
    type V = DescriptorView;

    open spec fn view(&self) -> DescriptorView {
        DescriptorView {
            id: self.id,
            bus_id: self.bus_id,
            kind: self.kind,
            location: self.location@,
            label: self.label@,
            capabilities: self.capabilities,
        }
    }
}

impl ImuDescriptor {
    /// A copy of this descriptor.
    pub fn duplicate(&self) -> (copy: Self)
        ensures
            copy == *self,
    {
        ImuDescriptor {
            id: self.id,
            bus_id: self.bus_id,
            kind: self.kind,
            location: self.location.duplicate(),
            label: self.label.clone(),
            capabilities: self.capabilities,
        }
    }
}

/// Keys of binary resources a driver may need at configuration time.
#[derive(Clone, Copy, Debug, PartialEq, Eq, Structural)]
pub enum DriverResourceKey {
    Bmi270ConfigBlob,
}

} // verus!
