use ddcci_brightness::commands::Ddcci;
use ddcci_brightness::discovery::{
    device_from_probe, find_named, named_device, select_from_probes, select_named,
    DeviceDoesntExistError, ProbeOutcome,
};

#[test]
fn unnamed_discovery_picks_first_usable() {
    let probes = vec![
        ProbeOutcome::Unsupported,
        ProbeOutcome::Supported { current: 40, max: 80 },
    ];
    let (index, device) = select_from_probes(&probes).unwrap();
    assert_eq!(index, 1);
    let backend = Ddcci::new(device);
    assert_eq!(backend.get_max(), 80);
    assert_eq!(backend.get_current(), 40);
}

#[test]
fn unnamed_discovery_with_no_usable_monitor_fails() {
    let probes = vec![ProbeOutcome::Unsupported, ProbeOutcome::Unsupported];
    let err = select_from_probes(&probes).unwrap_err();
    assert_eq!(err.device_name().as_str(), "N/A");
}

#[test]
fn unnamed_discovery_over_empty_pool_fails() {
    let probes: Vec<ProbeOutcome> = Vec::new();
    let err = select_from_probes(&probes).unwrap_err();
    assert_eq!(err.device_name().as_str(), "N/A");
}

#[test]
fn zero_range_monitor_is_not_selectable() {
    assert!(device_from_probe(&ProbeOutcome::Supported { current: 0, max: 0 }).is_none());
    assert!(device_from_probe(&ProbeOutcome::Unsupported).is_none());
    let device = device_from_probe(&ProbeOutcome::Supported { current: 5, max: 10 }).unwrap();
    assert_eq!(device.get_current(), 5);
    assert_eq!(device.get_max(), 10);
}

#[test]
fn named_discovery_with_no_match_fails() {
    let names = vec![Some("ExampleMonitor".to_string()), None];
    let err = select_named(&names, &"NoSuchModel".to_string()).unwrap_err();
    assert_eq!(err.device_name().as_str(), "NoSuchModel");
}

#[test]
fn named_discovery_finds_exact_match() {
    let names = vec![
        None,
        Some("ExampleMonitor".to_string()),
        Some("ExampleMonitor".to_string()),
    ];
    assert_eq!(find_named(&names, &"ExampleMonitor".to_string()), Some(1));
    assert_eq!(select_named(&names, &"ExampleMonitor".to_string()).unwrap(), 1);
}

#[test]
fn named_monitor_without_brightness_support_reports_not_found() {
    let name = "ExampleMonitor".to_string();
    let err = named_device(&name, &ProbeOutcome::Unsupported).unwrap_err();
    assert_eq!(err.device_name().as_str(), "ExampleMonitor");
    let device = named_device(&name, &ProbeOutcome::Supported { current: 3, max: 9 }).unwrap();
    assert_eq!(device.get_max(), 9);
}

#[test]
fn error_carries_requested_name() {
    let err = DeviceDoesntExistError::new("Screen".to_string());
    assert_eq!(err.device_name().as_str(), "Screen");
}
