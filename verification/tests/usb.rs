use secmon::event::{EventType, Severity};
use secmon::metadata::Metadata;
use secmon::time::Timestamp;
use secmon::usb::{any_value_mentions, describe_insertion, UsbAction, UsbDevice, UsbMonitor};

fn device() -> UsbDevice {
    UsbDevice {
        devtype: Some("usb_device".to_string()),
        vendor_id: Some("046d".to_string()),
        product_id: Some("c52b".to_string()),
        vendor: Some("Logitech".to_string()),
        product: Some("USB_Receiver".to_string()),
        serial: Some("A1B2".to_string()),
        devnode: Some("/dev/bus/usb/001/004".to_string()),
        syspath: Some("/sys/devices/pci0000:00/usb1/1-2".to_string()),
    }
}

fn meta(pairs: &[(&str, &str)]) -> Metadata {
    let mut m = Metadata::new();
    for (k, v) in pairs {
        m.insert(k.to_string(), v.to_string());
    }
    m
}

#[test]
fn insertion_event_carries_the_properties() {
    let now = Timestamp::new(9, 0).unwrap();
    let ev = UsbMonitor::new().emit_usb_insertion_event(&device(), now);
    assert_eq!(ev.event_type, EventType::UsbDeviceInserted);
    assert_eq!(ev.path, "/sys/devices/pci0000:00/usb1/1-2");
    assert_eq!(ev.details.severity, Severity::Low);
    assert_eq!(ev.details.description, "USB device inserted: Logitech USB_Receiver (046d:c52b)");
    let m = &ev.details.metadata;
    assert_eq!(m.len(), 7);
    assert_eq!(m.get("device_type").unwrap(), "usb_device");
    assert_eq!(m.get("vendor_id").unwrap(), "046d");
    assert_eq!(m.get("product_id").unwrap(), "c52b");
    assert_eq!(m.get("vendor").unwrap(), "Logitech");
    assert_eq!(m.get("product").unwrap(), "USB_Receiver");
    assert_eq!(m.get("serial").unwrap(), "A1B2");
    assert_eq!(m.get("device_path").unwrap(), "/dev/bus/usb/001/004");
    assert_eq!(ev.timestamp.secs(), 9);
}

#[test]
fn bare_device_is_described_by_unknowns() {
    let bare = UsbDevice {
        devtype: None,
        vendor_id: None,
        product_id: None,
        vendor: None,
        product: None,
        serial: None,
        devnode: None,
        syspath: None,
    };
    let ev = UsbMonitor::new().emit_usb_insertion_event(&bare, Timestamp::new(0, 0).unwrap());
    assert_eq!(ev.path, "/sys/devices/usb");
    assert_eq!(ev.details.description, "USB device inserted: unknown:unknown");
    assert_eq!(ev.details.metadata.len(), 0);
    assert_eq!(ev.details.severity, Severity::Medium);
    let mut half = device();
    half.product = None;
    half.product_id = None;
    let ev = UsbMonitor::new().emit_usb_insertion_event(&half, Timestamp::new(0, 0).unwrap());
    assert_eq!(ev.details.description, "USB device inserted: 046d:unknown");
    assert_eq!(
        describe_insertion(&meta(&[("vendor", "V"), ("product", "P")])),
        "USB device inserted: V P (unknown:unknown)"
    );
}

#[test]
fn severity_of_inserted_devices() {
    let ids = [("vendor_id", "1234"), ("product_id", "5678")];
    assert_eq!(UsbMonitor::new().classify_usb_device_severity(&meta(&ids)), Severity::Low);
    assert_eq!(
        UsbMonitor::new().classify_usb_device_severity(&meta(&[("vendor_id", "f000"), ("product_id", "1")])),
        Severity::Critical
    );
    assert_eq!(
        UsbMonitor::new().classify_usb_device_severity(&meta(&[("vendor_id", "dead")])),
        Severity::Critical
    );
    assert_eq!(
        UsbMonitor::new().classify_usb_device_severity(&meta(&[("vendor_id", "DEAD"), ("product_id", "1")])),
        Severity::Low
    );
    assert_eq!(
        UsbMonitor::new().classify_usb_device_severity(&meta(&[
            ("vendor_id", "1"),
            ("product_id", "2"),
            ("product", "Wireless KEYBOARD")
        ])),
        Severity::High
    );
    assert_eq!(
        UsbMonitor::new().classify_usb_device_severity(&meta(&[
            ("vendor_id", "1"),
            ("product_id", "2"),
            ("product", "Flash Disk")
        ])),
        Severity::Medium
    );
    // A device that is both counts as the more serious of the two.
    assert_eq!(
        UsbMonitor::new().classify_usb_device_severity(&meta(&[
            ("vendor_id", "1"),
            ("product_id", "2"),
            ("vendor", "Mouse with storage")
        ])),
        Severity::High
    );
    assert_eq!(UsbMonitor::new().classify_usb_device_severity(&meta(&[("vendor_id", "1")])), Severity::Medium);
    assert_eq!(UsbMonitor::new().classify_usb_device_severity(&Metadata::new()), Severity::Medium);
}

#[test]
fn words_are_sought_in_the_values_only() {
    let m = meta(&[("hid", "x"), ("product", "Optical Mouse"), ("serial", "MASS_STORAGE")]);
    assert!(!any_value_mentions(&m, "hid"));
    assert!(any_value_mentions(&m, "mouse"));
    assert!(!any_value_mentions(&m, "Mouse"));
    assert!(any_value_mentions(&m, "mass_storage"));
    assert!(UsbMonitor::new().is_hid_device(&m));
    assert!(UsbMonitor::new().is_mass_storage_device(&m));
    assert!(!UsbMonitor::new().is_hid_device(&meta(&[("keyboard", "none")])));
    assert!(!UsbMonitor::new().is_mass_storage_device(&Metadata::new()));
    assert!(UsbMonitor::new().is_mass_storage_device(&meta(&[("a", "DISK")])));
    assert!(UsbMonitor::new().is_hid_device(&meta(&[("a", "usbHID")])));
}

#[test]
fn removal_event_is_low() {
    let ev = UsbMonitor::new().emit_usb_removal_event(&device(), Timestamp::new(3, 4).unwrap());
    assert_eq!(ev.event_type, EventType::UsbDeviceInserted);
    assert_eq!(ev.details.severity, Severity::Low);
    assert_eq!(ev.details.description, "USB device removed");
    assert_eq!(ev.details.metadata.len(), 1);
    assert_eq!(ev.details.metadata.get("device_type").unwrap(), "usb_device");
    assert_eq!(ev.path, "/sys/devices/pci0000:00/usb1/1-2");
}

#[test]
fn other_actions_are_ignored() {
    let now = || Timestamp::new(0, 0).unwrap();
    assert!(UsbMonitor::new().handle_usb_event(UsbAction::Other, &device(), now()).is_none());
    let added = UsbMonitor::new().handle_usb_event(UsbAction::Add, &device(), now()).unwrap();
    assert_eq!(added.details.metadata.len(), 7);
    let removed = UsbMonitor::new().handle_usb_event(UsbAction::Remove, &device(), now()).unwrap();
    assert_eq!(removed.details.description, "USB device removed");
}
