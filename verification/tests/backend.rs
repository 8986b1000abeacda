use ddcci_brightness::commands::Ddcci;
use ddcci_brightness::device::DeviceState;

#[test]
fn raise_scenario() {
    let mut backend = Ddcci::new(DeviceState::new(50, 100));
    let value = backend.raise_value(10, 0);
    assert_eq!(value, 60);
    assert!(backend.apply_write(value, true).is_ok());
    assert_eq!(backend.get_current(), 60);
}

#[test]
fn lower_scenario() {
    let backend = Ddcci::new(DeviceState::new(60, 100));
    let value = backend.lower_value(20, 30);
    assert_eq!(value, 40);
}

#[test]
fn set_scenario() {
    let backend = Ddcci::new(DeviceState::new(50, 100));
    let value = backend.set_value(5, 10);
    assert_eq!(value, 10);
}

#[test]
fn raise_never_exceeds_max() {
    for by in [0u32, 1, 50, 100, 1000, u32::MAX] {
        let backend = Ddcci::new(DeviceState::new(70, 80));
        assert!(backend.raise_value(by, 0) <= 80);
    }
}

#[test]
fn lower_respects_floor() {
    for by in [0u32, 10, 100, 1000, u32::MAX] {
        let backend = Ddcci::new(DeviceState::new(60, 100));
        assert!(backend.lower_value(by, 30) >= 30);
    }
}

#[test]
fn set_respects_floor() {
    for val in [0u32, 5, 30, 100, 1000, u32::MAX] {
        let backend = Ddcci::new(DeviceState::new(60, 100));
        assert!(backend.set_value(val, 30) >= 30);
    }
}

#[test]
fn failed_write_keeps_state_and_reports_error() {
    let mut backend = Ddcci::new(DeviceState::new(50, 100));
    let value = backend.raise_value(10, 0);
    let outcome = backend.apply_write(value, false);
    assert!(outcome.is_err());
    assert_eq!(backend.get_current(), 50);
    assert_eq!(backend.get_max(), 100);
}

#[test]
fn write_raw_value_is_bounded() {
    let device = DeviceState::new(50, 100);
    assert_eq!(device.write_raw_value(200), 100);
    assert_eq!(device.write_raw_value(70), 70);
    assert_eq!(device.write_raw_value(0), 0);
}

#[test]
fn write_percent_value_is_bounded() {
    let device = DeviceState::new(50, 80);
    assert_eq!(device.write_percent_value(150), 80);
    assert_eq!(device.write_percent_value(100), 80);
    assert_eq!(device.write_percent_value(50), 40);
    assert_eq!(device.write_percent_value(0), 0);
}

#[test]
fn device_percent_accessor() {
    let device = DeviceState::new(40, 80);
    assert_eq!(device.get_percent(), 50);
    assert_eq!(device.get_current(), 40);
    assert_eq!(device.get_max(), 80);
}

#[test]
fn device_write_session() {
    let mut device = DeviceState::new(10, 100);
    let bounded = device.write_raw_value(250);
    assert_eq!(bounded, 100);
    assert!(device.apply_write(bounded, true).is_ok());
    assert_eq!(device.get_current(), 100);
    assert!(device.apply_write(0, false).is_err());
    assert_eq!(device.get_current(), 100);
}
