use imu_core::bus::{BusId, BusMode, BusProfile, ImuBus, ImuTargetId};
use imu_core::driver::ImuDriver;
use imu_core::drivers::DriverRef;
use imu_core::platform::{EspImuBus, SpiHardware};
use imu_core::resources::EspDriverResources;
use imu_core::driver::DriverResources;
use imu_core::spi::{index_for, prepare_read, prepare_write, read_reply};
use imu_core::types::{DriverResourceKey, ImuError};

#[derive(Default)]
struct FakeSpi {
    log: Vec<String>,
    replies: Vec<Vec<u8>>,
    fail: bool,
}

impl SpiHardware for FakeSpi {
    fn configure(&mut self, mode: BusMode, frequency_khz: u32) -> bool {
        self.log.push(format!("cfg {:?} {}", mode, frequency_khz));
        !self.fail
    }
    fn select(&mut self, line: usize) {
        self.log.push(format!("cs{} low", line));
    }
    fn deselect(&mut self, line: usize) {
        self.log.push(format!("cs{} high", line));
    }
    fn write(&mut self, frame: &[u8]) -> bool {
        self.log.push(format!("write {:02X?}", frame));
        !self.fail
    }
    fn transfer_in_place(&mut self, frame: &mut Vec<u8>) -> bool {
        self.log.push(format!("xfer {:02X?}", frame));
        if let Some(reply) = self.replies.pop() {
            frame.copy_from_slice(&reply);
        }
        !self.fail
    }
    fn delay_ms(&mut self, ms: u64) {
        self.log.push(format!("delay {}", ms));
    }
}

fn target(i: u8) -> ImuTargetId {
    ImuTargetId { bus_id: BusId(0), target_index: i }
}

#[test]
fn targets_are_found_by_position() {
    let targets = [target(4), target(7), target(7)];
    assert_eq!(index_for(&targets, target(7)), Ok(1));
    assert_eq!(index_for(&targets, target(9)), Err(ImuError::InvalidTarget));
}

#[test]
fn write_frames_clear_the_read_bit() {
    let targets = [target(0)];
    assert_eq!(prepare_write(&targets, target(0), 0xC1, &[1, 2]), Ok((0, vec![0x41, 1, 2])));
    assert!(prepare_write(&targets, target(0), 0x01, &[0u8; 39]).is_ok());
    assert_eq!(
        prepare_write(&targets, target(0), 0x01, &[0u8; 40]),
        Err(ImuError::ConfigError)
    );
    assert_eq!(prepare_write(&targets, target(5), 0x01, &[0u8; 2]), Err(ImuError::InvalidTarget));
    assert_eq!(prepare_write(&targets, target(5), 0x01, &[0u8; 40]), Err(ImuError::ConfigError));
}

#[test]
fn read_frames_set_the_read_bit_and_pad() {
    let targets = [target(0), target(1)];
    assert_eq!(prepare_read(&targets, target(1), 0x00, 1, 2), Ok((1, vec![0x80, 0, 0, 0])));
    assert_eq!(prepare_read(&targets, target(1), 0x00, 0, 64), Err(ImuError::ConfigError));
    assert_eq!(read_reply(&[0xFF, 0xAA, 1, 2], 1, 2), vec![1, 2]);
}

#[test]
fn board_bus_writes_with_chip_select() {
    let mut bus = EspImuBus::new(FakeSpi::default(), vec![target(0), target(1)]);
    assert_eq!(bus.write_regs(target(1), 0x7D, &[0x0E]), Ok(()));
    assert_eq!(bus.write_reg(target(2), 0x7D, 0x0E), Err(ImuError::InvalidTarget));
    assert_eq!(bus.apply_profile(target(0), BusProfile::new(3, BusMode::Mode3, 500)), Ok(()));
    bus.delay_ms(5);
    assert_eq!(
        bus.hardware().log,
        vec![
            String::from("cs1 low"),
            String::from("write [7D, 0E]"),
            String::from("cs1 high"),
            String::from("cfg Mode3 500"),
            String::from("delay 5"),
        ]
    );
}

#[test]
fn board_bus_reads_after_dummy_bytes() {
    let mut hw = FakeSpi::default();
    hw.replies.push(vec![0xFF, 0x00, 0x24]);
    let mut bus = EspImuBus::new(hw, vec![target(0)]);
    assert_eq!(bus.read_reg(target(0), 0x00, 1), Ok(0x24));
    assert_eq!(bus.hardware().log[1], "xfer [80, 00, 00]");
}

#[test]
fn board_bus_reports_failures() {
    let hw = FakeSpi { fail: true, ..FakeSpi::default() };
    let mut bus = EspImuBus::new(hw, vec![target(0)]);
    assert_eq!(bus.read_reg(target(0), 0x00, 0), Err(ImuError::CommunicationError));
    assert_eq!(bus.write_reg(target(0), 0x00, 1), Err(ImuError::CommunicationError));
    assert_eq!(
        bus.apply_profile(target(0), BusProfile::new(0, BusMode::Mode0, 1_000)),
        Err(ImuError::ConfigError)
    );
    let mut data = [0u8; 64];
    assert_eq!(bus.read_regs(target(0), 0x00, 0, &mut data), Err(ImuError::ConfigError));
    assert_eq!(bus.read_regs(target(0), 0x00, usize::MAX, &mut data[..1]), Err(ImuError::ConfigError));
}

#[test]
fn drivers_run_on_the_board_bus() {
    let mut hw = FakeSpi::default();
    // Replies are taken from the end: WHO_AM_I then COM_CFG.
    hw.replies.push(vec![0x00, 0x50]);
    hw.replies.push(vec![0x00, 0x6A]);
    let mut bus = EspImuBus::new(hw, vec![target(0)]);
    assert_eq!(DriverRef::Hxy42688.probe(&mut bus, target(0)), Ok(true));
}

#[test]
fn board_resources_hand_out_the_blob() {
    static BLOB: [u8; 3] = [1, 2, 3];
    let resources = EspDriverResources { bmi270_config: &BLOB };
    assert_eq!(resources.bytes(DriverResourceKey::Bmi270ConfigBlob), Some(&BLOB[..]));
}
