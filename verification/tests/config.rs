use secmon::text::clone_texts;
use secmon::config::{
    config_search_paths, default_socket_path, log_level_from_lower, parse_log_level,
    resolve_socket_path, Config, LogLevel, NetworkIDSConfig, NotificationConfig,
};

#[test]
fn default_socket_follows_the_environment() {
    assert_eq!(default_socket_path(Some("/run/user/1000"), Some("alice")), "/run/user/1000/secmon.sock");
    assert_eq!(default_socket_path(Some("/run/user/1000"), None), "/run/user/1000/secmon.sock");
    assert_eq!(default_socket_path(None, Some("alice")), "/tmp/secmon-alice.sock");
    assert_eq!(default_socket_path(None, None), "/tmp/secmon-user.sock");
}

#[test]
fn default_configuration() {
    let c = Config::default_for(None, Some("bob"));
    assert_eq!(c.socket_path, "/tmp/secmon-bob.sock");
    assert_eq!(c.log_level, "info");
    assert!(c.display_local_time);
    assert!(c.notifications.enabled);
    assert!(c.notifications.dbus_enabled);
    assert_eq!(c.notifications.min_severity, "Medium");
    assert_eq!(c.notifications.timeout_ms, 5000);
    assert_eq!(c.network_ids, NetworkIDSConfig::default());
    assert_eq!(c.network_ids.port_scan_threshold, 10);
    assert_eq!(c.network_ids.scan_window_seconds, 60);
    assert_eq!(c.network_ids.ping_threshold, 5);
    assert!(c.network_ids.enabled && !c.network_ids.monitor_icmp && c.network_ids.alert_on_discovery);

    assert_eq!(c.watches.len(), 7);
    let paths: Vec<&str> = c.watches.iter().map(|w| w.path.as_str()).collect();
    assert_eq!(
        paths,
        vec![
            "/dev/video*",
            "/dev/snd/*",
            "/tmp/.pulse*",
            "/run/user/*/pulse",
            "/home",
            "/etc/ssh",
            "/var/log/auth.log"
        ]
    );
    for (i, w) in c.watches.iter().enumerate() {
        assert!(w.enabled);
        assert_eq!(w.pattern, i < 4);
        assert_eq!(w.auto_discover, i < 4);
        assert_eq!(w.recursive, i != 0 && i != 6);
    }
    assert_eq!(c.watches[0].description, "All camera/video devices (auto-discovered)");
    assert_eq!(c.watches[6].description, "SSH authentication logs");

    assert_eq!(c.triggers.len(), 4);
    let t = &c.triggers[0];
    assert_eq!(t.name, "Camera Access Alert");
    assert_eq!(t.event_types, vec!["CameraAccess"]);
    assert_eq!(t.min_severity, "High");
    assert_eq!(t.command, "notify-send");
    assert_eq!(t.args, vec!["-u", "critical", "Security Alert", "Camera access detected!"]);
    assert!(t.enabled && t.run_async);
    assert_eq!(t.cooldown_seconds, 5);
    let t = &c.triggers[1];
    assert_eq!(t.name, "SSH Access Alert");
    assert_eq!(t.event_types, vec!["SshAccess"]);
    assert_eq!(t.min_severity, "Critical");
    assert_eq!(t.args[3], "SSH key access detected!");
    assert_eq!(t.cooldown_seconds, 10);
    let t = &c.triggers[2];
    assert_eq!(t.name, "Port Scan Alert");
    assert_eq!(t.event_types, vec!["PortScanDetected"]);
    assert_eq!(t.args[3], "Port scan detected from external source!");
    assert_eq!(t.cooldown_seconds, 30);
    let t = &c.triggers[3];
    assert_eq!(t.name, "Network Discovery Alert");
    assert_eq!(t.event_types, vec!["NetworkDiscovery"]);
    assert_eq!(t.min_severity, "Medium");
    assert_eq!(t.command, "logger");
    assert_eq!(t.args, vec!["-p", "security.warning", "Network discovery attempt detected"]);
    assert_eq!(t.cooldown_seconds, 60);

    let same = Config::with_socket_path("/x".to_string());
    assert_eq!(same.socket_path, "/x");
    assert_eq!(Config::default_watch_list().len(), 7);
    assert_eq!(Config::default_trigger_list().len(), 4);
}

#[test]
fn defaults_of_the_parts() {
    let n = NotificationConfig::default();
    assert!(n.enabled && n.dbus_enabled);
    assert_eq!(n.min_severity, "Medium");
    assert_eq!(n.timeout_ms, 5000);
    let copy = n.clone();
    assert_eq!(copy.min_severity, "Medium");
    let c = Config::default_for(None, None);
    let w = c.watches[4].clone();
    assert_eq!(w.path, "/home");
    assert!(w.recursive && !w.pattern);
    let t = c.triggers[3].clone();
    assert_eq!(t.args.len(), 3);
    assert_eq!(t.name, "Network Discovery Alert");
    assert_eq!(clone_texts(&t.args), t.args);
}

#[test]
fn socket_path_resolution_order() {
    let cli = "/cli.sock".to_string();
    let cfg = "/cfg.sock".to_string();
    assert_eq!(resolve_socket_path(Some(&cli), Some(&cfg)), "/cli.sock");
    assert_eq!(resolve_socket_path(Some(&cli), None), "/cli.sock");
    assert_eq!(resolve_socket_path(None, Some(&cfg)), "/cfg.sock");
    assert_eq!(resolve_socket_path(None, None), "/tmp/secmon.sock");
    assert_eq!(
        config_search_paths(),
        vec!["/etc/secmon/config.toml", "./config.toml", "config.toml"]
    );
}

#[test]
fn log_levels() {
    assert_eq!(parse_log_level("error"), Some(LogLevel::Error));
    assert_eq!(parse_log_level("WARN"), Some(LogLevel::Warn));
    assert_eq!(parse_log_level("Info"), Some(LogLevel::Info));
    assert_eq!(parse_log_level("debug"), Some(LogLevel::Debug));
    assert_eq!(parse_log_level("tRACE"), Some(LogLevel::Trace));
    assert_eq!(parse_log_level("verbose"), None);
    assert_eq!(parse_log_level(""), None);
    assert_eq!(log_level_from_lower("INFO"), None);
}
