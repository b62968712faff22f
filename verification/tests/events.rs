use secmon::event::{
    event_type_from_lower, parse_event_type, parse_severity, severity_from_lower,
    severity_meets_minimum, EventCategory, EventDetails, EventType, InputError, SecurityEvent,
    Severity,
};
use secmon::metadata::Metadata;
use secmon::time::Timestamp;

#[test]
fn severity_levels_are_ordered() {
    let all = [Severity::Low, Severity::Medium, Severity::High, Severity::Critical];
    for (i, a) in all.iter().enumerate() {
        assert_eq!(a.rank() as usize, i + 1);
        for (j, b) in all.iter().enumerate() {
            assert_eq!(a.at_least(b), i >= j);
            assert_eq!(severity_meets_minimum(a, &b.name()), i >= j);
        }
    }
}

#[test]
fn unknown_minimum_counts_as_medium() {
    assert!(!severity_meets_minimum(&Severity::Low, "Urgent"));
    assert!(severity_meets_minimum(&Severity::Medium, "Urgent"));
    assert!(severity_meets_minimum(&Severity::High, ""));
    assert!(!severity_meets_minimum(&Severity::Low, "high"));
    assert!(severity_meets_minimum(&Severity::Medium, "high"));
    assert!(!severity_meets_minimum(&Severity::High, "Critical"));
    assert!(severity_meets_minimum(&Severity::Low, "Low"));
}

#[test]
fn severity_names_are_capitalised() {
    assert_eq!(Severity::Low.name(), "Low");
    assert_eq!(Severity::Medium.name(), "Medium");
    assert_eq!(Severity::High.name(), "High");
    assert_eq!(Severity::Critical.name(), "Critical");
}

#[test]
fn severity_is_parsed_without_regard_to_case() {
    assert_eq!(parse_severity("low").unwrap(), Severity::Low);
    assert_eq!(parse_severity("MEDIUM").unwrap(), Severity::Medium);
    assert_eq!(parse_severity("High").unwrap(), Severity::High);
    assert_eq!(parse_severity("cRiTiCaL").unwrap(), Severity::Critical);
    assert_eq!(severity_from_lower("HIGH"), None);
    match parse_severity("severe") {
        Err(InputError::InvalidSeverity(text)) => assert_eq!(text, "severe"),
        other => panic!("unexpected: {:?}", other),
    }
    assert_eq!(parse_severity("severe").unwrap_err().message(), "Invalid severity: severe");
}

#[test]
fn event_types_have_their_tag_names() {
    let all = [
        (EventType::FileAccess, "FileAccess"),
        (EventType::FileModify, "FileModify"),
        (EventType::FileCreate, "FileCreate"),
        (EventType::FileDelete, "FileDelete"),
        (EventType::DirectoryAccess, "DirectoryAccess"),
        (EventType::CameraAccess, "CameraAccess"),
        (EventType::SshAccess, "SshAccess"),
        (EventType::MicrophoneAccess, "MicrophoneAccess"),
        (EventType::NetworkConnection, "NetworkConnection"),
        (EventType::UsbDeviceInserted, "UsbDeviceInserted"),
        (EventType::NetworkDiscovery, "NetworkDiscovery"),
        (EventType::PingDetected, "PingDetected"),
        (EventType::PortScanDetected, "PortScanDetected"),
        (EventType::CustomMessage, "CustomMessage"),
    ];
    for (kind, name) in all {
        assert_eq!(kind.name(), name);
        assert_eq!(parse_event_type(name).unwrap(), kind);
        assert_eq!(parse_event_type(&name.to_uppercase()).unwrap(), kind);
        assert_eq!(event_type_from_lower(&name.to_lowercase()), Some(kind));
    }
    assert_eq!(parse_event_type("custom").unwrap(), EventType::CustomMessage);
    assert_eq!(event_type_from_lower("CameraAccess"), None);
}

#[test]
fn unknown_event_type_is_rejected() {
    match parse_event_type("Explosion") {
        Err(InputError::InvalidEventType(text)) => assert_eq!(text, "Explosion"),
        other => panic!("unexpected: {:?}", other),
    }
    assert_eq!(
        parse_event_type("Explosion").unwrap_err().message(),
        "Invalid event type: Explosion"
    );
    assert!(parse_event_type("").is_err());
}

#[test]
fn event_categories() {
    assert_eq!(EventType::FileCreate.category(), EventCategory::Filesystem);
    assert_eq!(EventType::DirectoryAccess.category().name(), "filesystem");
    assert_eq!(EventType::CameraAccess.category().name(), "privacy");
    assert_eq!(EventType::MicrophoneAccess.category(), EventCategory::Privacy);
    assert_eq!(EventType::SshAccess.category().name(), "network");
    assert_eq!(EventType::NetworkConnection.category(), EventCategory::Network);
    assert_eq!(EventType::UsbDeviceInserted.category().name(), "hardware");
    assert_eq!(EventType::CustomMessage.category().name(), "custom");
}

#[test]
fn metadata_holds_each_key_once() {
    let mut m = Metadata::new();
    assert_eq!(m.len(), 0);
    assert!(m.get("mask").is_none());
    m.insert("mask".to_string(), "OPEN".to_string());
    m.insert("filename".to_string(), "video0".to_string());
    assert_eq!(m.len(), 2);
    assert_eq!(m.get("mask").unwrap(), "OPEN");
    m.insert("mask".to_string(), "CLOSE".to_string());
    assert_eq!(m.len(), 2);
    assert_eq!(m.get("mask").unwrap(), "CLOSE");
    assert_eq!(m.get("filename").unwrap(), "video0");
    assert!(m.contains_key("filename"));
    assert!(!m.contains_key("Filename"));
    assert_eq!(m.key_at(0), "mask");
    assert_eq!(m.value_at(1), "video0");
    let copy = m.clone();
    m.insert("mask".to_string(), "x".to_string());
    assert_eq!(copy.get("mask").unwrap(), "CLOSE");
    assert_eq!(copy.len(), 2);
}

#[test]
fn timestamps_carry_their_rfc3339_text() {
    let epoch = Timestamp::new(0, 0).unwrap();
    assert_eq!(epoch.rfc3339(), "1970-01-01T00:00:00+00:00");
    let t = Timestamp::new(1_715_537_051, 123_456_000).unwrap();
    assert_eq!(t.rfc3339(), "2024-05-12T18:04:11.123456+00:00");
    assert_eq!(t.secs(), 1_715_537_051);
    assert_eq!(t.nanos(), 123_456_000);
    assert!(t.later_than(&epoch));
    assert!(!epoch.later_than(&t));
    assert!(!t.later_than(&t.clone()));
    let a = Timestamp::new(5, 1).unwrap();
    let b = Timestamp::new(5, 2).unwrap();
    assert!(b.later_than(&a));
    assert!(!a.later_than(&b));
}

#[test]
fn instants_outside_the_calendar_are_refused() {
    assert!(Timestamp::new(i64::MAX, 0).is_none());
    assert!(Timestamp::new(i64::MIN, 0).is_none());
    assert!(Timestamp::new(0, 2_000_000_000).is_none());
    assert!(Timestamp::new(-1, 999_999_999).is_some());
}

#[test]
fn events_are_copied_whole() {
    let mut metadata = Metadata::new();
    metadata.insert("k".to_string(), "v".to_string());
    let ev = SecurityEvent {
        timestamp: Timestamp::new(10, 20).unwrap(),
        event_type: EventType::CustomMessage,
        path: "/x".to_string(),
        details: EventDetails {
            severity: Severity::High,
            description: "hi".to_string(),
            metadata,
        },
    };
    let copy = ev.clone();
    assert_eq!(copy.timestamp.secs(), 10);
    assert_eq!(copy.timestamp.nanos(), 20);
    assert_eq!(copy.event_type, EventType::CustomMessage);
    assert_eq!(copy.path, "/x");
    assert_eq!(copy.details.severity, Severity::High);
    assert_eq!(copy.details.description, "hi");
    assert_eq!(copy.details.metadata.get("k").unwrap(), "v");
}
