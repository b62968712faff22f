use secmon::event::{parse_event_type, parse_severity, EventDetails, EventType, SecurityEvent, Severity};
use secmon::ipc::{
    after_write, frame_line, ingest, on_bus_signal, plan_startup, process_path, refusal_message,
    should_show, BusSignal, ClientMode, ClientStep, StartupAction, BUS_CAPACITY, SOCKET_MODE,
};
use secmon::message::{complete_partial_event, create_event_from_options, PartialEvent};
use secmon::metadata::Metadata;
use secmon::notify::{extract_event_type_from_log, should_alert, NotificationGate};
use secmon::time::Timestamp;
use tokio::sync::broadcast;
use tokio::sync::broadcast::error::TryRecvError;

const SECOND: u64 = 1_000_000_000;

fn event(n: i64) -> SecurityEvent {
    SecurityEvent {
        timestamp: Timestamp::new(n, 0).unwrap(),
        event_type: EventType::FileModify,
        path: format!("/tmp/{}", n),
        details: EventDetails {
            severity: Severity::Low,
            description: "File modified".to_string(),
            metadata: Metadata::new(),
        },
    }
}

fn signal_of(r: &Result<SecurityEvent, TryRecvError>) -> Option<BusSignal> {
    match r {
        Ok(_) => Some(BusSignal::Event),
        Err(TryRecvError::Lagged(n)) => Some(BusSignal::Lagged(*n)),
        Err(TryRecvError::Closed) => Some(BusSignal::Closed),
        Err(TryRecvError::Empty) => None,
    }
}

#[test]
fn lagging_client_scenario() {
    let (sender, mut slow) = broadcast::channel::<SecurityEvent>(BUS_CAPACITY);
    let mut prompt = sender.subscribe();
    let mut seen_by_prompt = Vec::new();
    for n in 0..2000 {
        sender.send(event(n)).unwrap();
        let r = prompt.try_recv();
        assert_eq!(on_bus_signal(signal_of(&r).unwrap()), ClientStep::Write);
        seen_by_prompt.push(r.unwrap().timestamp.secs());
    }
    assert_eq!(seen_by_prompt, (0..2000).collect::<Vec<i64>>());

    let first = slow.try_recv();
    let signal = signal_of(&first).unwrap();
    assert!(matches!(signal, BusSignal::Lagged(_)));
    assert_eq!(on_bus_signal(signal), ClientStep::Continue);
    let mut seen_by_slow = Vec::new();
    loop {
        let r = slow.try_recv();
        match signal_of(&r) {
            Some(s) => {
                assert_eq!(on_bus_signal(s), ClientStep::Write);
                seen_by_slow.push(r.unwrap().timestamp.secs());
            }
            None => break,
        }
    }
    assert!(!seen_by_slow.is_empty());
    assert!(seen_by_slow.len() <= 1024);
    assert_eq!(*seen_by_slow.last().unwrap(), 1999);
    assert!(seen_by_slow.windows(2).all(|w| w[0] + 1 == w[1]));

    drop(sender);
    assert_eq!(on_bus_signal(signal_of(&slow.try_recv()).unwrap()), ClientStep::Stop);
}

#[test]
fn every_subscriber_gets_every_event() {
    let (sender, first) = broadcast::channel::<SecurityEvent>(BUS_CAPACITY);
    let mut receivers = vec![first, sender.subscribe(), sender.subscribe()];
    for n in 0..50 {
        sender.send(event(n)).unwrap();
        for r in receivers.iter_mut() {
            let got = r.try_recv();
            assert_eq!(on_bus_signal(signal_of(&got).unwrap()), ClientStep::Write);
            assert_eq!(got.unwrap().path, format!("/tmp/{}", n));
        }
    }
}

#[test]
fn ingress_injection_scenario() {
    let line = "{\"event_type\":{\"type\":\"CustomMessage\"},\"path\":\"/x\",\"details\":{\"severity\":\"High\",\"description\":\"hi\",\"metadata\":{}}}";
    let value: serde_json::Value = serde_json::from_str(line).unwrap();
    let kind = parse_event_type(value["event_type"]["type"].as_str().unwrap()).unwrap();
    let severity = parse_severity(value["details"]["severity"].as_str().unwrap()).unwrap();
    let provided = value.get("timestamp").map(|_| Timestamp::new(0, 0).unwrap());
    assert!(provided.is_none());
    let details = EventDetails {
        severity,
        description: value["details"]["description"].as_str().unwrap().to_string(),
        metadata: Metadata::new(),
    };
    let now = Timestamp::new(1_715_537_051, 5).unwrap();
    let ev = ingest(provided, kind, value["path"].as_str().unwrap().to_string(), details, now);
    assert_eq!(ev.timestamp.secs(), 1_715_537_051);
    assert_eq!(ev.timestamp.nanos(), 5);
    assert_eq!(ev.event_type, EventType::CustomMessage);
    assert_eq!(ev.path, "/x");
    assert_eq!(ev.details.severity, Severity::High);
    assert_eq!(ev.details.description, "hi");
    assert_eq!(ev.details.metadata.len(), 0);
    assert_eq!(frame_line(line), format!("{}\n", line));
}

#[test]
fn given_timestamp_is_kept() {
    let given = Timestamp::new(77, 88).unwrap();
    let now = Timestamp::new(99, 0).unwrap();
    let details = EventDetails {
        severity: Severity::Low,
        description: "d".to_string(),
        metadata: Metadata::new(),
    };
    let ev = ingest(Some(given), EventType::CustomMessage, "/x".to_string(), details, now);
    assert_eq!(ev.timestamp.secs(), 77);
    assert_eq!(ev.timestamp.nanos(), 88);
}

#[test]
fn stale_socket_is_reclaimed() {
    assert_eq!(plan_startup(false, false), StartupAction::Bind);
    assert_eq!(plan_startup(false, true), StartupAction::Bind);
    assert_eq!(plan_startup(true, false), StartupAction::RemoveStaleThenBind);
    assert_eq!(plan_startup(true, true), StartupAction::Refuse);
    assert_eq!(
        refusal_message("/tmp/secmon.sock"),
        "Another instance is already running on socket: /tmp/secmon.sock"
    );
    assert_eq!(SOCKET_MODE, 0o666);
    assert_eq!(BUS_CAPACITY, 1000);
}

#[test]
fn subscriber_steps() {
    assert_eq!(on_bus_signal(BusSignal::Event), ClientStep::Write);
    assert_eq!(on_bus_signal(BusSignal::Lagged(0)), ClientStep::Continue);
    assert_eq!(on_bus_signal(BusSignal::Lagged(1000)), ClientStep::Continue);
    assert_eq!(on_bus_signal(BusSignal::Closed), ClientStep::Stop);
    assert_eq!(after_write(true), ClientStep::Continue);
    assert_eq!(after_write(false), ClientStep::Stop);
    assert_eq!(frame_line(""), "\n");
    assert_eq!(process_path(1), "/proc/1");
    assert_eq!(process_path(4_294_967_295), "/proc/4294967295");
    assert_eq!(process_path(0), "/proc/0");
}

#[test]
fn listeners_see_only_later_events() {
    let connect = Timestamp::new(100, 500).unwrap();
    let mut ev = event(100);
    assert!(should_show(ClientMode::Monitor, &ev, &connect, None));
    assert!(!should_show(ClientMode::Listen, &ev, &connect, None));
    ev.timestamp = Timestamp::new(100, 500).unwrap();
    assert!(!should_show(ClientMode::Listen, &ev, &connect, None));
    ev.timestamp = Timestamp::new(100, 501).unwrap();
    assert!(should_show(ClientMode::Listen, &ev, &connect, None));
    assert!(should_show(ClientMode::Listen, &ev, &connect, Some(Severity::Low)));
    assert!(!should_show(ClientMode::Listen, &ev, &connect, Some(Severity::Medium)));
    assert!(!should_show(ClientMode::Monitor, &ev, &connect, Some(Severity::Critical)));
    ev.details.severity = Severity::Critical;
    assert!(should_show(ClientMode::Monitor, &ev, &connect, Some(Severity::Critical)));
}

#[test]
fn alerts_are_for_privacy_and_critical_events() {
    assert!(should_alert(EventType::CameraAccess, Severity::Low));
    assert!(should_alert(EventType::MicrophoneAccess, Severity::High));
    assert!(should_alert(EventType::UsbDeviceInserted, Severity::Critical));
    assert!(should_alert(EventType::FileAccess, Severity::Critical));
    assert!(!should_alert(EventType::UsbDeviceInserted, Severity::High));
    assert!(!should_alert(EventType::NetworkConnection, Severity::High));
    assert!(!should_alert(EventType::SshAccess, Severity::Medium));
}

#[test]
fn notifications_cool_down_by_kind_and_path() {
    let mut gate = NotificationGate::new();
    let t0 = 1_000 * SECOND;
    assert!(gate.should_send_notification(EventType::CameraAccess, "/dev/video0", t0));
    assert!(!gate.should_send_notification(EventType::CameraAccess, "/dev/video0", t0 + 59 * SECOND));
    assert!(gate.should_send_notification(EventType::CameraAccess, "/dev/video1", t0 + 59 * SECOND));
    assert!(gate.should_send_notification(EventType::CameraAccess, "/dev/video0", t0 + 60 * SECOND));
    assert!(gate.should_send_notification(EventType::SshAccess, "/dev/video0", t0 + 60 * SECOND));
    assert!(!gate.should_send_notification(EventType::SshAccess, "/dev/video0", t0 + 90 * SECOND - 1));
    assert!(gate.should_send_notification(EventType::SshAccess, "/dev/video0", t0 + 90 * SECOND));
    assert_eq!(gate.cooldowns.last_fire("SshAccess:/dev/video0"), Some(t0 + 90 * SECOND));
}

#[test]
fn notifications_are_rate_limited() {
    let mut gate = NotificationGate::new();
    let t0 = 5_000 * SECOND;
    for i in 0..5u64 {
        assert!(gate.should_send_notification(EventType::FileAccess, &format!("/p{}", i), t0 + i));
    }
    assert!(!gate.should_send_notification(EventType::FileAccess, "/p5", t0 + 5));
    assert_eq!(gate.sent.len(), 5);
    // The refused key is cooling down all the same.
    assert_eq!(gate.cooldowns.last_fire("FileAccess:/p5"), Some(t0 + 5));
    // A minute after the first notification there is room again.
    assert!(!gate.should_send_notification(EventType::FileAccess, "/p6", t0 + 60 * SECOND - 1));
    assert!(gate.should_send_notification(EventType::FileAccess, "/p7", t0 + 60 * SECOND));
    assert_eq!(gate.sent, vec![t0 + 1, t0 + 2, t0 + 3, t0 + 4, t0 + 60 * SECOND]);
    // Keys are forgotten after five minutes.
    assert!(gate.should_send_notification(EventType::FileAccess, "/late", t0 + 400 * SECOND));
    assert_eq!(gate.cooldowns.last_fire("FileAccess:/p0"), None);
    assert_eq!(gate.cooldowns.last_fire("FileAccess:/late"), Some(t0 + 400 * SECOND));
}

#[test]
fn kinds_named_by_log_lines() {
    let cases = [
        ("[2024-05-12 18:04:11] CRITICAL: /dev/video0 - Camera device access detected", "CameraAccess"),
        ("my camera", "CameraAccess"),
        ("Microphone/audio device access detected", "MicrophoneAccess"),
        ("an audio thing", "MicrophoneAccess"),
        ("SSH-related file access: /home/a/.ssh/id_rsa", "SshAccess"),
        ("/etc/ssh/sshd_config", "SshAccess"),
        ("USB device inserted", "UsbDeviceInserted"),
        ("/sys/devices/usb", "UsbDeviceInserted"),
        ("New TCP connection; Network", "NetworkConnection"),
        ("network", "NetworkConnection"),
        ("File modified: /etc/passwd", "FileSystem"),
        ("CAMERA", "FileSystem"),
        ("", "FileSystem"),
    ];
    for (line, expected) in cases {
        assert_eq!(extract_event_type_from_log(line).unwrap(), expected, "{:?}", line);
    }
}

#[test]
fn events_from_options() {
    let now = Timestamp::new(5, 6).unwrap();
    let mut metadata = Metadata::new();
    metadata.insert("user".to_string(), "admin".to_string());
    let ev = create_event_from_options(
        EventType::CustomMessage,
        Severity::Medium,
        "/custom/message".to_string(),
        None,
        metadata,
        now,
    );
    assert_eq!(ev.details.description, "Custom message");
    assert_eq!(ev.path, "/custom/message");
    assert_eq!(ev.details.metadata.get("user").unwrap(), "admin");
    assert_eq!(ev.timestamp.secs(), 5);
    let ev = create_event_from_options(
        EventType::CameraAccess,
        Severity::High,
        "/etc/passwd".to_string(),
        Some("File modified".to_string()),
        Metadata::new(),
        Timestamp::new(0, 0).unwrap(),
    );
    assert_eq!(ev.details.description, "File modified");
    assert_eq!(ev.event_type, EventType::CameraAccess);
    assert_eq!(ev.details.severity, Severity::High);
}

fn partial(kind: Option<&str>, severity: Option<&str>) -> PartialEvent {
    PartialEvent {
        event_type: kind.map(|s| s.to_string()),
        severity: severity.map(|s| s.to_string()),
        path: None,
        description: None,
        metadata: None,
    }
}

#[test]
fn partial_events_are_completed() {
    let now = || Timestamp::new(1, 2).unwrap();
    let ev = complete_partial_event(partial(None, None), now()).unwrap();
    assert_eq!(ev.event_type, EventType::CustomMessage);
    assert_eq!(ev.details.severity, Severity::Medium);
    assert_eq!(ev.path, "/custom/json");
    assert_eq!(ev.details.description, "JSON message");
    assert_eq!(ev.details.metadata.len(), 0);
    assert_eq!(ev.timestamp.nanos(), 2);

    let mut metadata = Metadata::new();
    metadata.insert("key1".to_string(), "value1".to_string());
    let full = PartialEvent {
        event_type: Some("SSHACCESS".to_string()),
        severity: Some("critical".to_string()),
        path: Some("/path/to/resource".to_string()),
        description: Some("Event description".to_string()),
        metadata: Some(metadata),
    };
    let ev = complete_partial_event(full, now()).unwrap();
    assert_eq!(ev.event_type, EventType::SshAccess);
    assert_eq!(ev.details.severity, Severity::Critical);
    assert_eq!(ev.path, "/path/to/resource");
    assert_eq!(ev.details.description, "Event description");
    assert_eq!(ev.details.metadata.get("key1").unwrap(), "value1");

    let e = complete_partial_event(partial(Some("nope"), Some("nope")), now()).unwrap_err();
    assert_eq!(e.message(), "Invalid event type: nope");
    let e = complete_partial_event(partial(Some("custom"), Some("nope")), now()).unwrap_err();
    assert_eq!(e.message(), "Invalid severity: nope");
    let e = complete_partial_event(partial(None, Some("")), now()).unwrap_err();
    assert_eq!(e.message(), "Invalid severity: ");
}
