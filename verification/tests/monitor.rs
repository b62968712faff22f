use secmon::classifier::IN_OPEN;
use secmon::config::Config;
use secmon::error::SecmonError;
use secmon::event::{EventType, Severity};
use secmon::monitor::SecurityMonitor;
use secmon::time::Timestamp;
use secmon::watch::WatchPlan;

const SECOND: u64 = 1_000_000_000;

#[test]
fn monitor_starts_from_its_configuration() {
    let monitor = SecurityMonitor::new(Config::with_socket_path("/tmp/secmon.sock".to_string()));
    assert_eq!(monitor.socket_path, "/tmp/secmon.sock");
    assert_eq!(monitor.config.triggers.len(), 4);
    assert_eq!(monitor.trigger_cooldowns.last_fire("Camera Access Alert"), None);
    let plans = monitor.setup_watches();
    assert_eq!(
        plans,
        vec![
            WatchPlan::Discover,
            WatchPlan::Discover,
            WatchPlan::Discover,
            WatchPlan::Discover,
            WatchPlan::Single,
            WatchPlan::Single,
            WatchPlan::Single
        ]
    );
}

#[test]
fn disabled_watches_are_skipped() {
    let mut config = Config::with_socket_path("/s".to_string());
    config.watches[0].enabled = false;
    config.watches[1].auto_discover = false;
    let plans = SecurityMonitor::new(config).setup_watches();
    assert_eq!(plans[0], WatchPlan::Skip);
    assert_eq!(plans[1], WatchPlan::Expand);
}

#[test]
fn camera_event_fires_the_default_rule_once_per_cooldown() {
    let mut monitor = SecurityMonitor::new(Config::with_socket_path("/s".to_string()));
    let event = |t: i64| {
        SecurityMonitor::new(Config::with_socket_path("/s".to_string())).create_security_event(
            "/dev/video0",
            None,
            IN_OPEN,
            Timestamp::new(t, 0).unwrap(),
        )
    };
    let ev = event(1_715_537_051);
    assert_eq!(ev.event_type, EventType::CameraAccess);
    assert_eq!(ev.details.severity, Severity::High);
    let actions = monitor.process_event_triggers(&ev, 10 * SECOND);
    assert_eq!(actions.len(), 1);
    assert_eq!(actions[0].name, "Camera Access Alert");
    assert_eq!(actions[0].command, "notify-send");
    assert_eq!(
        actions[0].args,
        vec!["-u", "critical", "Security Alert", "Camera access detected!"]
    );
    assert!(actions[0].run_async);
    assert!(monitor.process_event_triggers(&ev, 14 * SECOND).is_empty());
    assert_eq!(monitor.process_event_triggers(&ev, 15 * SECOND).len(), 1);
    assert_eq!(
        monitor.trigger_cooldowns.last_fire("Camera Access Alert"),
        Some(15 * SECOND)
    );
}

#[test]
fn error_messages() {
    assert_eq!(SecmonError::Io("disk".to_string()).message(), "IO error: disk");
    assert_eq!(SecmonError::Inotify("x".to_string()).message(), "Inotify error: x");
    assert_eq!(SecmonError::Config("bad".to_string()).message(), "Configuration error: bad");
    assert_eq!(SecmonError::Serialization("eof".to_string()).message(), "Serialization error: eof");
    assert_eq!(SecmonError::Channel("".to_string()).message(), "Channel error: ");
}
