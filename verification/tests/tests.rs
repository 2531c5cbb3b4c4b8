use embedded_hal::blocking::i2c::{Read, Write};
use embedded_hal_mock::i2c::{Mock as I2cMock, Transaction as I2cTrans};
use embedded_hal_mock::MockError;
use std::io::ErrorKind;
use veml6070::{AckThreshold, Error, IntegrationTime, Transport, Veml6070};

struct Address;

impl Address {
    const ARA: u8 = 0x0C;
    const COMMAND: u8 = 0x38;
    const DATA_MSB: u8 = 0x39;
    const DATA_LSB: u8 = 0x38;
}
const DEFAULT_CMD: u8 = 0x02;

struct Bus(I2cMock);

impl Transport for Bus {
    type Error = MockError;

    fn write(&mut self, address: u8, bytes: &[u8]) -> Result<(), MockError> {
        self.0.write(address, bytes)
    }

    fn read(&mut self, address: u8, buffer: &mut [u8]) -> Result<(), MockError> {
        self.0.read(address, buffer)
    }
}

fn new(transactions: &[I2cTrans]) -> Veml6070<Bus> {
    Veml6070::new(Bus(I2cMock::new(transactions)))
}

fn destroy(dev: Veml6070<Bus>) {
    dev.destroy().0.done();
}

fn failure() -> MockError {
    MockError::Io(ErrorKind::Other)
}

fn is_bus_failure<T>(r: Result<T, Error<MockError>>) -> bool {
    match r {
        Err(Error::I2C(e)) => e == failure(),
        Ok(_) => false,
    }
}

#[test]
fn can_clear_ack() {
    let mut dev = new(&[I2cTrans::read(Address::ARA, vec![0])]);
    dev.clear_ack().unwrap();
    destroy(dev);
}

#[test]
fn can_init() {
    let mut dev = new(&[
        I2cTrans::read(Address::ARA, vec![0]),
        I2cTrans::write(Address::COMMAND, vec![DEFAULT_CMD]),
    ]);
    dev.init().unwrap();
    destroy(dev);
}

#[test]
fn can_enable() {
    let mut dev = new(&[I2cTrans::write(Address::COMMAND, vec![DEFAULT_CMD])]);
    dev.enable().unwrap();
    destroy(dev);
}

#[test]
fn can_disable() {
    let mut dev = new(&[I2cTrans::write(Address::COMMAND, vec![DEFAULT_CMD | 1])]);
    dev.disable().unwrap();
    destroy(dev);
}

#[test]
fn can_read_uv() {
    let mut dev = new(&[
        I2cTrans::read(Address::DATA_MSB, vec![0xAB]),
        I2cTrans::read(Address::DATA_LSB, vec![0xCD]),
    ]);
    let reading = dev.read_uv().unwrap();
    assert_eq!(0xABCD, reading);
    destroy(dev);
}

fn check_integration_time(it: IntegrationTime, expected: u8) {
    let mut dev = new(&[I2cTrans::write(
        Address::COMMAND,
        vec![DEFAULT_CMD | expected << 2],
    )]);
    dev.set_integration_time(it).unwrap();
    destroy(dev);
}

#[test]
fn can_set_integration_time_half_t() {
    check_integration_time(IntegrationTime::HalfT, 0);
}

#[test]
fn can_set_integration_time_1_t() {
    check_integration_time(IntegrationTime::T1, 1);
}

#[test]
fn can_set_integration_time_2_t() {
    check_integration_time(IntegrationTime::T2, 2);
}

#[test]
fn can_set_integration_time_4_t() {
    check_integration_time(IntegrationTime::T4, 3);
}

#[test]
fn integration_time_bytes_after_construction() {
    let mut dev = new(&[I2cTrans::write(Address::COMMAND, vec![0x02])]);
    dev.set_integration_time(IntegrationTime::HalfT).unwrap();
    assert_eq!(dev.command(), 0x02);
    destroy(dev);
    let mut dev = new(&[I2cTrans::write(Address::COMMAND, vec![0x06])]);
    dev.set_integration_time(IntegrationTime::T1).unwrap();
    assert_eq!(dev.command(), 0x06);
    destroy(dev);
    let mut dev = new(&[I2cTrans::write(Address::COMMAND, vec![0x0A])]);
    dev.set_integration_time(IntegrationTime::T2).unwrap();
    destroy(dev);
    let mut dev = new(&[I2cTrans::write(Address::COMMAND, vec![0x0E])]);
    dev.set_integration_time(IntegrationTime::T4).unwrap();
    destroy(dev);
}

#[test]
fn can_enable_ack() {
    let mut dev = new(&[I2cTrans::write(
        Address::COMMAND,
        vec![DEFAULT_CMD | 0b0010_0000],
    )]);
    dev.enable_ack().unwrap();
    destroy(dev);
}

#[test]
fn can_disable_ack() {
    let mut dev = new(&[I2cTrans::write(Address::COMMAND, vec![DEFAULT_CMD])]);
    dev.disable_ack().unwrap();
    destroy(dev);
}

#[test]
fn can_set_ack_threshold_102_steps() {
    let mut dev = new(&[I2cTrans::write(Address::COMMAND, vec![DEFAULT_CMD])]);
    dev.set_ack_threshold(AckThreshold::Steps102).unwrap();
    destroy(dev);
}

#[test]
fn can_set_ack_threshold_145_steps() {
    let mut dev = new(&[I2cTrans::write(
        Address::COMMAND,
        vec![DEFAULT_CMD | 0b0001_0000],
    )]);
    dev.set_ack_threshold(AckThreshold::Steps145).unwrap();
    destroy(dev);
}

#[test]
fn can_enable_ack_with_threshold_145_steps() {
    let mut dev = new(&[I2cTrans::write(
        Address::COMMAND,
        vec![DEFAULT_CMD | 0b0011_0000],
    )]);
    dev.enable_ack_with_threshold(AckThreshold::Steps145)
        .unwrap();
    destroy(dev);
}

#[test]
fn can_enable_ack_with_threshold_102_steps() {
    let mut dev = new(&[
        I2cTrans::write(Address::COMMAND, vec![0x12]),
        I2cTrans::write(Address::COMMAND, vec![0x22]),
    ]);
    dev.set_ack_threshold(AckThreshold::Steps145).unwrap();
    dev.enable_ack_with_threshold(AckThreshold::Steps102)
        .unwrap();
    assert_eq!(dev.command(), 0x22);
    destroy(dev);
}

#[test]
fn construction_makes_no_transfer() {
    let dev = new(&[]);
    assert_eq!(dev.command(), 0x02);
    destroy(dev);
}

#[test]
fn shadow_follows_each_accepted_write() {
    let mut dev = new(&[
        I2cTrans::write(Address::COMMAND, vec![0x03]),
        I2cTrans::write(Address::COMMAND, vec![0x0F]),
        I2cTrans::write(Address::COMMAND, vec![0x2F]),
        I2cTrans::write(Address::COMMAND, vec![0x3F]),
        I2cTrans::write(Address::COMMAND, vec![0x3E]),
        I2cTrans::write(Address::COMMAND, vec![0x1E]),
        I2cTrans::write(Address::COMMAND, vec![0x0E]),
    ]);
    dev.disable().unwrap();
    assert_eq!(dev.command(), 0x03);
    dev.set_integration_time(IntegrationTime::T4).unwrap();
    assert_eq!(dev.command(), 0x0F);
    dev.enable_ack().unwrap();
    assert_eq!(dev.command(), 0x2F);
    dev.set_ack_threshold(AckThreshold::Steps145).unwrap();
    assert_eq!(dev.command(), 0x3F);
    dev.enable().unwrap();
    assert_eq!(dev.command(), 0x3E);
    dev.disable_ack().unwrap();
    assert_eq!(dev.command(), 0x1E);
    dev.set_ack_threshold(AckThreshold::Steps102).unwrap();
    assert_eq!(dev.command(), 0x0E);
    destroy(dev);
}

#[test]
fn integration_time_replaces_both_bits() {
    let mut dev = new(&[
        I2cTrans::write(Address::COMMAND, vec![0x0E]),
        I2cTrans::write(Address::COMMAND, vec![0x06]),
        I2cTrans::write(Address::COMMAND, vec![0x0A]),
        I2cTrans::write(Address::COMMAND, vec![0x02]),
    ]);
    dev.set_integration_time(IntegrationTime::T4).unwrap();
    dev.set_integration_time(IntegrationTime::T1).unwrap();
    dev.set_integration_time(IntegrationTime::T2).unwrap();
    dev.set_integration_time(IntegrationTime::HalfT).unwrap();
    assert_eq!(dev.command(), 0x02);
    destroy(dev);
}

#[test]
fn failed_write_keeps_shadow() {
    let mut dev = new(&[
        I2cTrans::write(Address::COMMAND, vec![0x03]).with_error(failure()),
        I2cTrans::write(Address::COMMAND, vec![0x22]),
    ]);
    assert!(is_bus_failure(dev.disable()));
    assert_eq!(dev.command(), 0x02);
    dev.enable_ack().unwrap();
    assert_eq!(dev.command(), 0x22);
    destroy(dev);
}

#[test]
fn every_operation_reports_a_failed_write() {
    let refused = |byte: u8| I2cTrans::write(Address::COMMAND, vec![byte]).with_error(failure());
    let mut dev = new(&[
        refused(0x02),
        refused(0x03),
        refused(0x0A),
        refused(0x22),
        refused(0x02),
        refused(0x12),
        refused(0x32),
    ]);
    assert!(is_bus_failure(dev.enable()));
    assert!(is_bus_failure(dev.disable()));
    assert!(is_bus_failure(dev.set_integration_time(IntegrationTime::T2)));
    assert!(is_bus_failure(dev.enable_ack()));
    assert!(is_bus_failure(dev.disable_ack()));
    assert!(is_bus_failure(dev.set_ack_threshold(AckThreshold::Steps145)));
    assert!(is_bus_failure(
        dev.enable_ack_with_threshold(AckThreshold::Steps145)
    ));
    assert_eq!(dev.command(), 0x02);
    destroy(dev);
}

#[test]
fn clear_ack_ignores_payload() {
    let mut dev = new(&[
        I2cTrans::read(Address::ARA, vec![0xFF]),
        I2cTrans::read(Address::ARA, vec![0x5A]),
    ]);
    dev.clear_ack().unwrap();
    dev.clear_ack().unwrap();
    assert_eq!(dev.command(), 0x02);
    destroy(dev);
}

#[test]
fn clear_ack_reports_a_failed_read() {
    let mut dev = new(&[I2cTrans::read(Address::ARA, vec![0]).with_error(failure())]);
    assert!(is_bus_failure(dev.clear_ack()));
    destroy(dev);
}

#[test]
fn read_uv_stops_at_failed_msb() {
    let mut dev = new(&[I2cTrans::read(Address::DATA_MSB, vec![0xAB]).with_error(failure())]);
    assert!(is_bus_failure(dev.read_uv()));
    destroy(dev);
}

#[test]
fn read_uv_reports_failed_lsb() {
    let mut dev = new(&[
        I2cTrans::read(Address::DATA_MSB, vec![0xAB]),
        I2cTrans::read(Address::DATA_LSB, vec![0xCD]).with_error(failure()),
    ]);
    assert!(is_bus_failure(dev.read_uv()));
    destroy(dev);
}

#[test]
fn read_uv_extremes() {
    let mut dev = new(&[
        I2cTrans::read(Address::DATA_MSB, vec![0x00]),
        I2cTrans::read(Address::DATA_LSB, vec![0x00]),
        I2cTrans::read(Address::DATA_MSB, vec![0xFF]),
        I2cTrans::read(Address::DATA_LSB, vec![0xFF]),
        I2cTrans::read(Address::DATA_MSB, vec![0x01]),
        I2cTrans::read(Address::DATA_LSB, vec![0x00]),
    ]);
    assert_eq!(dev.read_uv().unwrap(), 0);
    assert_eq!(dev.read_uv().unwrap(), 0xFFFF);
    assert_eq!(dev.read_uv().unwrap(), 256);
    assert_eq!(dev.command(), 0x02);
    destroy(dev);
}

#[test]
fn init_stops_at_failed_read() {
    let mut dev = new(&[I2cTrans::read(Address::ARA, vec![0]).with_error(failure())]);
    assert!(is_bus_failure(dev.init()));
    assert_eq!(dev.command(), 0x02);
    destroy(dev);
}

#[test]
fn init_reports_failed_write() {
    let mut dev = new(&[
        I2cTrans::write(Address::COMMAND, vec![0x03]),
        I2cTrans::read(Address::ARA, vec![0]),
        I2cTrans::write(Address::COMMAND, vec![0x02]).with_error(failure()),
    ]);
    dev.disable().unwrap();
    assert!(is_bus_failure(dev.init()));
    assert_eq!(dev.command(), 0x03);
    destroy(dev);
}

#[test]
fn init_restores_default() {
    let mut dev = new(&[
        I2cTrans::write(Address::COMMAND, vec![0x32]),
        I2cTrans::read(Address::ARA, vec![0x77]),
        I2cTrans::write(Address::COMMAND, vec![0x02]),
    ]);
    dev.enable_ack_with_threshold(AckThreshold::Steps145)
        .unwrap();
    dev.init().unwrap();
    assert_eq!(dev.command(), 0x02);
    destroy(dev);
}
