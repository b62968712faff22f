use secmon::classifier::{
    classify_event, classify_lowered, create_security_event, mask_contains, select_rule, Rule,
    IN_ACCESS, IN_CREATE, IN_DELETE, IN_MODIFY, IN_OPEN, WATCH_MASK,
};
use secmon::event::{EventType, Severity};
use secmon::time::Timestamp;

#[test]
fn camera_open_is_high() {
    let now = Timestamp::new(1_715_537_051, 123_456_000).unwrap();
    let ev = create_security_event("/dev/video0", None, IN_OPEN, now);
    assert_eq!(ev.event_type, EventType::CameraAccess);
    assert_eq!(ev.details.severity, Severity::High);
    assert_eq!(ev.path, "/dev/video0");
    assert!(ev.details.metadata.get("mask").unwrap().contains("OPEN"));
    assert!(ev.details.metadata.get("filename").is_none());
    assert_eq!(ev.details.description, "Camera device access detected: /dev/video0");
    assert_eq!(ev.timestamp.secs(), 1_715_537_051);
    assert_eq!(ev.timestamp.nanos(), 123_456_000);
}

#[test]
fn ssh_key_modify_is_critical() {
    let now = Timestamp::new(0, 0).unwrap();
    let ev = create_security_event("/home", Some("alice/.ssh/authorized_keys"), IN_MODIFY, now);
    assert_eq!(ev.path, "/home/alice/.ssh/authorized_keys");
    assert_eq!(ev.event_type, EventType::SshAccess);
    assert_eq!(ev.details.severity, Severity::Critical);
    assert_eq!(
        ev.details.metadata.get("filename").unwrap().as_str(),
        "alice/.ssh/authorized_keys"
    );
    assert!(ev.details.metadata.get("mask").unwrap().contains("MODIFY"));
}

#[test]
fn classification_ignores_letter_case() {
    let (kind, severity, description) = classify_event("/DEV/Video0", "/DEV/Video0", IN_ACCESS);
    assert_eq!(kind, EventType::CameraAccess);
    assert_eq!(severity, Severity::High);
    assert_eq!(description, "Camera device access detected: /DEV/Video0");
}

#[test]
fn classification_is_repeatable() {
    let a = classify_event("/etc", "/etc/passwd", IN_MODIFY);
    let b = classify_event("/etc", "/etc/passwd", IN_MODIFY);
    assert_eq!(a, b);
    assert_eq!(a.0, EventType::FileModify);
    assert_eq!(a.1, Severity::Low);
}

#[test]
fn rules_apply_in_table_order() {
    assert_eq!(select_rule("/dev/video0", "/dev/video0/pcm", 0), Rule::Camera);
    assert_eq!(select_rule("/srv/camera", "/srv/camera/x", 0), Rule::Camera);
    assert_eq!(select_rule("/dev/snd", "/dev/snd/seq", 0), Rule::Microphone);
    assert_eq!(select_rule("/tmp", "/tmp/alsa.conf", IN_CREATE), Rule::Microphone);
    assert_eq!(select_rule("/run", "/run/pulse/native", IN_CREATE), Rule::Microphone);
    assert_eq!(select_rule("/tmp", "/tmp/id_rsa", IN_CREATE), Rule::SshKey);
    assert_eq!(select_rule("/home", "/home/a/.ssh/config", IN_CREATE), Rule::Ssh);
    assert_eq!(select_rule("/etc/ssh", "/etc/ssh", IN_CREATE), Rule::Ssh);
    assert_eq!(select_rule("/etc", "/etc/passwd", IN_CREATE | IN_DELETE), Rule::Created);
    assert_eq!(select_rule("/etc", "/etc/passwd", IN_DELETE | IN_MODIFY), Rule::Deleted);
    assert_eq!(select_rule("/etc", "/etc/passwd", IN_MODIFY | IN_ACCESS), Rule::Modified);
    assert_eq!(select_rule("/etc", "/etc/passwd", IN_ACCESS), Rule::Accessed);
    assert_eq!(select_rule("/etc", "/etc/passwd", IN_OPEN), Rule::Accessed);
    assert_eq!(select_rule("/etc", "/etc/passwd", 0x4), Rule::Other);
}

#[test]
fn descriptions_name_the_path() {
    let cases = [
        (IN_CREATE, EventType::FileCreate, Severity::Medium, "File created: /etc/x"),
        (IN_DELETE, EventType::FileDelete, Severity::Medium, "File deleted: /etc/x"),
        (IN_MODIFY, EventType::FileModify, Severity::Low, "File modified: /etc/x"),
        (IN_OPEN, EventType::FileAccess, Severity::Low, "File accessed: /etc/x"),
        (0x8, EventType::FileAccess, Severity::Low, "File system event: /etc/x"),
    ];
    for (mask, kind, severity, text) in cases {
        let r = classify_lowered("/etc", "/etc/x", "/etc/x", mask);
        assert_eq!(r.0, kind);
        assert_eq!(r.1, severity);
        assert_eq!(r.2, text);
    }
    let r = classify_lowered("/dev/snd", "/dev/snd/pcmc0d0c", "/dev/snd/pcmC0D0c", IN_OPEN);
    assert_eq!(r.2, "Microphone/audio device access detected: /dev/snd/pcmC0D0c");
    let r = classify_lowered("/home", "/home/a/.ssh/known_hosts", "/home/a/.ssh/known_hosts", 0);
    assert_eq!(r.1, Severity::High);
    assert_eq!(r.2, "SSH-related file access: /home/a/.ssh/known_hosts");
}

#[test]
fn watch_mask_is_the_union() {
    assert_eq!(WATCH_MASK, IN_MODIFY | IN_CREATE | IN_DELETE | IN_ACCESS | IN_OPEN);
    assert!(mask_contains(WATCH_MASK, IN_OPEN));
    assert!(!mask_contains(IN_OPEN, WATCH_MASK));
    assert!(mask_contains(0, 0));
}
