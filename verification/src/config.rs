//! The persistent configuration: socket, watches, trigger rules and the
//! settings of notifications and of the network intrusion detection.

use vstd::prelude::*;
use crate::text::{clone_texts, concat, lowercase_text, same_text, texts, to_lowercase};

verus! {

/// One path, or pattern of paths, to watch.
#[derive(Debug)]
pub struct WatchConfig {
    pub path: String,
    pub description: String,
    pub enabled: bool,
    pub recursive: bool,
    /// The path is a glob pattern.
    pub pattern: bool,
    /// Devices are discovered at start-up instead of taking the path as it is.
    pub auto_discover: bool,
}

/// What a watch entry says, as plain values.
pub ghost struct WatchModel {
    pub path: Seq<char>,
    pub description: Seq<char>,
    pub enabled: bool,
    pub recursive: bool,
    pub pattern: bool,
    pub auto_discover: bool,
}

impl View for WatchConfig {
    type V = WatchModel;

    open spec fn view(&self) -> WatchModel {
        WatchModel {
            path: self.path@,
            description: self.description@,
            enabled: self.enabled,
            recursive: self.recursive,
            pattern: self.pattern,
            auto_discover: self.auto_discover,
        }
    }
}

impl Clone for WatchConfig {
    fn clone(&self) -> (r: WatchConfig)
        ensures
            r@ == self@,
    {
        WatchConfig {
            path: self.path.clone(),
            description: self.description.clone(),
            enabled: self.enabled,
            recursive: self.recursive,
            pattern: self.pattern,
            auto_discover: self.auto_discover,
        }
    }
}

/// Settings of the desktop notifications.
#[derive(Debug)]
pub struct NotificationConfig {
    pub enabled: bool,
    pub dbus_enabled: bool,
    /// One of `Low`, `Medium`, `High`, `Critical`.
    pub min_severity: String,
    pub timeout_ms: u32,
}

impl Default for NotificationConfig {
    fn default() -> (r: NotificationConfig)
        ensures
            r.enabled,
            r.dbus_enabled,
            r.min_severity@ == "Medium"@,
            r.timeout_ms == 5000,
    {
        NotificationConfig {
            enabled: true,
            dbus_enabled: true,
            min_severity: "Medium".to_owned(),
            timeout_ms: 5000,
        }
    }
}

impl Clone for NotificationConfig {
    fn clone(&self) -> (r: NotificationConfig)
        ensures
            r.enabled == self.enabled,
            r.dbus_enabled == self.dbus_enabled,
            r.min_severity@ == self.min_severity@,
            r.timeout_ms == self.timeout_ms,
    {
        NotificationConfig {
            enabled: self.enabled,
            dbus_enabled: self.dbus_enabled,
            min_severity: self.min_severity.clone(),
            timeout_ms: self.timeout_ms,
        }
    }
}

/// Settings of the network intrusion detection.
#[derive(Debug, Clone, Copy, PartialEq, Eq, Structural)]
pub struct NetworkIDSConfig {
    pub enabled: bool,
    /// Distinct ports from one source that make a port scan.
    pub port_scan_threshold: usize,
    /// The window, in seconds, in which those ports must be seen.
    pub scan_window_seconds: u64,
    pub ping_threshold: usize,
    pub monitor_icmp: bool,
    pub alert_on_discovery: bool,
}

impl Default for NetworkIDSConfig {
    fn default() -> (r: NetworkIDSConfig)
        ensures
            r == (NetworkIDSConfig {
                enabled: true,
                port_scan_threshold: 10,
                scan_window_seconds: 60,
                ping_threshold: 5,
                monitor_icmp: false,
                alert_on_discovery: true,
            }),
    {
        NetworkIDSConfig {
            enabled: true,
            port_scan_threshold: 10,
            scan_window_seconds: 60,
            ping_threshold: 5,
            monitor_icmp: false,
            alert_on_discovery: true,
        }
    }
}

/// A rule that runs a command on matching events.
#[derive(Debug)]
pub struct EventTrigger {
    /// Names the rule; the cooldown is kept under this name.
    pub name: String,
    pub enabled: bool,
    /// The tag names of the event kinds that the rule is for.
    pub event_types: Vec<String>,
    pub min_severity: String,
    pub command: String,
    /// Arguments, in which `{path}`, `{severity}`, `{description}` and
    /// `{timestamp}` are replaced.
    pub args: Vec<String>,
    /// Do not wait for the command to end.
    pub run_async: bool,
    /// The least time between two runs.
    pub cooldown_seconds: u64,
}

/// What a trigger rule says, as plain values.
pub ghost struct TriggerModel {
    pub name: Seq<char>,
    pub enabled: bool,
    pub event_types: Seq<Seq<char>>,
    pub min_severity: Seq<char>,
    pub command: Seq<char>,
    pub args: Seq<Seq<char>>,
    pub run_async: bool,
    pub cooldown_seconds: u64,
}

impl View for EventTrigger {
    type V = TriggerModel;

    open spec fn view(&self) -> TriggerModel {
        TriggerModel {
            name: self.name@,
            enabled: self.enabled,
            event_types: texts(self.event_types@),
            min_severity: self.min_severity@,
            command: self.command@,
            args: texts(self.args@),
            run_async: self.run_async,
            cooldown_seconds: self.cooldown_seconds,
        }
    }
}

impl Clone for EventTrigger {
    fn clone(&self) -> (r: EventTrigger)
        ensures
            r@ == self@,
    {
        EventTrigger {
            name: self.name.clone(),
            enabled: self.enabled,
            event_types: clone_texts(&self.event_types),
            min_severity: self.min_severity.clone(),
            command: self.command.clone(),
            args: clone_texts(&self.args),
            run_async: self.run_async,
            cooldown_seconds: self.cooldown_seconds,
        }
    }
}

/// The whole configuration.
#[derive(Debug)]
pub struct Config {
    pub socket_path: String,
    pub log_level: String,
    pub watches: Vec<WatchConfig>,
    pub notifications: NotificationConfig,
    pub triggers: Vec<EventTrigger>,
    pub network_ids: NetworkIDSConfig,
    pub display_local_time: bool,
}

/// What the entries of a list of watches say.
pub open spec fn watch_models(watches: Seq<WatchConfig>) -> Seq<WatchModel> {
    Seq::new(watches.len(), |i: int| watches[i]@)
}

/// What the entries of a list of trigger rules say.
pub open spec fn trigger_models(triggers: Seq<EventTrigger>) -> Seq<TriggerModel> {
    Seq::new(triggers.len(), |i: int| triggers[i]@)
}

/// A watch that is enabled and found by pattern and discovery.
pub open spec fn discovered_watch(path: Seq<char>, description: Seq<char>, recursive: bool)
    -> WatchModel {
    WatchModel {
        path,
        description,
        enabled: true,
        recursive,
        pattern: true,
        auto_discover: true,
    }
}

/// A watch that is enabled and set on the path as it is written.
pub open spec fn literal_watch(path: Seq<char>, description: Seq<char>, recursive: bool)
    -> WatchModel {
    WatchModel {
        path,
        description,
        enabled: true,
        recursive,
        pattern: false,
        auto_discover: false,
    }
}

/// The watches of the default configuration: cameras, audio devices, and
/// the places where SSH keeps keys, settings and logs.
pub open spec fn default_watches() -> Seq<WatchModel> {
    seq![
        discovered_watch("/dev/video*"@, "All camera/video devices (auto-discovered)"@, false),
        discovered_watch("/dev/snd/*"@, "All ALSA audio devices (auto-discovered)"@, true),
        discovered_watch("/tmp/.pulse*"@, "PulseAudio devices (auto-discovered)"@, true),
        discovered_watch("/run/user/*/pulse"@, "User PulseAudio runtime directories"@, true),
        literal_watch("/home"@, "Home directories for SSH key monitoring"@, true),
        literal_watch("/etc/ssh"@, "SSH daemon configuration"@, true),
        literal_watch("/var/log/auth.log"@, "SSH authentication logs"@, false),
    ]
}

/// An enabled rule for one kind of event that does not wait for its command.
pub open spec fn alert_rule(
    name: Seq<char>,
    event_type: Seq<char>,
    min_severity: Seq<char>,
    command: Seq<char>,
    args: Seq<Seq<char>>,
    cooldown_seconds: u64,
) -> TriggerModel {
    TriggerModel {
        name,
        enabled: true,
        event_types: seq![event_type],
        min_severity,
        command,
        args,
        run_async: true,
        cooldown_seconds,
    }
}

/// The arguments of a desktop notification of critical urgency.
pub open spec fn notify_args(message: Seq<char>) -> Seq<Seq<char>> {
    seq!["-u"@, "critical"@, "Security Alert"@, message]
}

/// The trigger rules of the default configuration.
pub open spec fn default_triggers() -> Seq<TriggerModel> {
    seq![
        alert_rule(
            "Camera Access Alert"@,
            "CameraAccess"@,
            "High"@,
            "notify-send"@,
            notify_args("Camera access detected!"@),
            5,
        ),
        alert_rule(
            "SSH Access Alert"@,
            "SshAccess"@,
            "Critical"@,
            "notify-send"@,
            notify_args("SSH key access detected!"@),
            10,
        ),
        alert_rule(
            "Port Scan Alert"@,
            "PortScanDetected"@,
            "High"@,
            "notify-send"@,
            notify_args("Port scan detected from external source!"@),
            30,
        ),
        alert_rule(
            "Network Discovery Alert"@,
            "NetworkDiscovery"@,
            "Medium"@,
            "logger"@,
            seq!["-p"@, "security.warning"@, "Network discovery attempt detected"@],
            60,
        ),
    ]
}

/// The socket of a user: in the runtime directory where there is one, else
/// under `/tmp` with the user's name, `user` where that is not known.
pub open spec fn default_socket_text(runtime_dir: Option<&str>, user: Option<&str>) -> Seq<char> {
    match runtime_dir {
        Some(dir) => dir@ + "/secmon.sock"@,
        None => "/tmp/secmon-"@ + (match user {
            Some(u) => u@,
            None => "user"@,
        }) + ".sock"@,
    }
}

/// Chooses the default socket path from the runtime directory and the name
/// of the user, as far as they are known.
pub fn default_socket_path(runtime_dir: Option<&str>, user: Option<&str>) -> (r: String)
    ensures
        r@ == default_socket_text(runtime_dir, user),
{
    match runtime_dir {
        Some(dir) => concat(dir, "/secmon.sock"),
        None => {
            let mut out = "/tmp/secmon-".to_owned();
            match user {
                Some(u) => out.append(u),
                None => out.append("user"),
            }
            out.append(".sock");
            out
        },
    }
}

fn list3(a: &str, b: &str, c: &str) -> (r: Vec<String>)
    ensures
        texts(r@) == seq![a@, b@, c@],
{
    let mut out: Vec<String> = Vec::new();
    out.push(a.to_owned());
    out.push(b.to_owned());
    out.push(c.to_owned());
    proof {
        assert(texts(out@) =~= seq![a@, b@, c@]);
    }
    out
}

fn notify_arguments(message: &str) -> (r: Vec<String>)
    ensures
        texts(r@) == notify_args(message@),
{
    let mut out: Vec<String> = Vec::new();
    out.push("-u".to_owned());
    out.push("critical".to_owned());
    out.push("Security Alert".to_owned());
    out.push(message.to_owned());
    proof {
        assert(texts(out@) =~= notify_args(message@));
    }
    out
}

fn make_rule(
    name: &str,
    event_type: &str,
    min_severity: &str,
    command: &str,
    args: Vec<String>,
    cooldown_seconds: u64,
) -> (r: EventTrigger)
    ensures
        r@ == alert_rule(
            name@,
            event_type@,
            min_severity@,
            command@,
            texts(args@),
            cooldown_seconds,
        ),
{
    let mut event_types: Vec<String> = Vec::new();
    event_types.push(event_type.to_owned());
    proof {
        assert(texts(event_types@) =~= seq![event_type@]);
    }
    EventTrigger {
        name: name.to_owned(),
        enabled: true,
        event_types,
        min_severity: min_severity.to_owned(),
        command: command.to_owned(),
        args,
        run_async: true,
        cooldown_seconds,
    }
}

fn make_watch(path: &str, description: &str, recursive: bool, discovered: bool) -> (r: WatchConfig)
    ensures
        r@ == if discovered {
            discovered_watch(path@, description@, recursive)
        } else {
            literal_watch(path@, description@, recursive)
        },
{
    WatchConfig {
        path: path.to_owned(),
        description: description.to_owned(),
        enabled: true,
        recursive,
        pattern: discovered,
        auto_discover: discovered,
    }
}

impl Config {
    /// The watches of the default configuration.
    pub fn default_watch_list() -> (r: Vec<WatchConfig>)
        ensures
            watch_models(r@) == default_watches(),
    {
        let mut w: Vec<WatchConfig> = Vec::new();
        w.push(
            make_watch("/dev/video*", "All camera/video devices (auto-discovered)", false, true),
        );
        w.push(make_watch("/dev/snd/*", "All ALSA audio devices (auto-discovered)", true, true));
        w.push(make_watch("/tmp/.pulse*", "PulseAudio devices (auto-discovered)", true, true));
        w.push(make_watch("/run/user/*/pulse", "User PulseAudio runtime directories", true, true));
        w.push(make_watch("/home", "Home directories for SSH key monitoring", true, false));
        w.push(make_watch("/etc/ssh", "SSH daemon configuration", true, false));
        w.push(make_watch("/var/log/auth.log", "SSH authentication logs", false, false));
        proof {
            assert(watch_models(w@) =~= default_watches());
        }
        w
    }

    /// The trigger rules of the default configuration.
    pub fn default_trigger_list() -> (r: Vec<EventTrigger>)
        ensures
            trigger_models(r@) == default_triggers(),
    {
        let mut t: Vec<EventTrigger> = Vec::new();
        t.push(
            make_rule(
                "Camera Access Alert",
                "CameraAccess",
                "High",
                "notify-send",
                notify_arguments("Camera access detected!"),
                5,
            ),
        );
        t.push(
            make_rule(
                "SSH Access Alert",
                "SshAccess",
                "Critical",
                "notify-send",
                notify_arguments("SSH key access detected!"),
                10,
            ),
        );
        t.push(
            make_rule(
                "Port Scan Alert",
                "PortScanDetected",
                "High",
                "notify-send",
                notify_arguments("Port scan detected from external source!"),
                30,
            ),
        );
        t.push(
            make_rule(
                "Network Discovery Alert",
                "NetworkDiscovery",
                "Medium",
                "logger",
                list3("-p", "security.warning", "Network discovery attempt detected"),
                60,
            ),
        );
        proof {
            assert(trigger_models(t@) =~= default_triggers());
        }
        t
    }

    /// The configuration that is written where none is found, with the
    /// given socket path.
    pub fn with_socket_path(socket_path: String) -> (r: Config)
        ensures
            r.socket_path@ == socket_path@,
            r.log_level@ == "info"@,
            watch_models(r.watches@) == default_watches(),
            trigger_models(r.triggers@) == default_triggers(),
            r.notifications.enabled && r.notifications.dbus_enabled,
            r.notifications.min_severity@ == "Medium"@,
            r.notifications.timeout_ms == 5000,
            r.network_ids == (NetworkIDSConfig {
                enabled: true,
                port_scan_threshold: 10,
                scan_window_seconds: 60,
                ping_threshold: 5,
                monitor_icmp: false,
                alert_on_discovery: true,
            }),
            r.display_local_time,
    {
        Config {
            socket_path,
            log_level: "info".to_owned(),
            watches: Self::default_watch_list(),
            notifications: NotificationConfig::default(),
            triggers: Self::default_trigger_list(),
            network_ids: NetworkIDSConfig::default(),
            display_local_time: true,
        }
    }

    /// The default configuration of a user whose runtime directory and name
    /// are given as far as they are known.
    pub fn default_for(runtime_dir: Option<&str>, user: Option<&str>) -> (r: Config)
        ensures
            r.socket_path@ == default_socket_text(runtime_dir, user),
            r.log_level@ == "info"@,
            watch_models(r.watches@) == default_watches(),
            trigger_models(r.triggers@) == default_triggers(),
            r.notifications.enabled && r.notifications.dbus_enabled,
            r.notifications.min_severity@ == "Medium"@,
            r.notifications.timeout_ms == 5000,
            r.network_ids == (NetworkIDSConfig {
                enabled: true,
                port_scan_threshold: 10,
                scan_window_seconds: 60,
                ping_threshold: 5,
                monitor_icmp: false,
                alert_on_discovery: true,
            }),
            r.display_local_time,
    {
        Self::with_socket_path(default_socket_path(runtime_dir, user))
    }
}

/// How much the daemon logs.
#[derive(Debug, Clone, Copy, PartialEq, Eq, Structural)]
pub enum LogLevel {
    Error,
    Warn,
    Info,
    Debug,
    Trace,
}

/// The log level that a lowercase name stands for.
pub open spec fn log_level_of_lower(lower: Seq<char>) -> Option<LogLevel> {
    if lower == "error"@ {
        Some(LogLevel::Error)
    } else if lower == "warn"@ {
        Some(LogLevel::Warn)
    } else if lower == "info"@ {
        Some(LogLevel::Info)
    } else if lower == "debug"@ {
        Some(LogLevel::Debug)
    } else if lower == "trace"@ {
        Some(LogLevel::Trace)
    } else {
        None
    }
}

/// Reads a log level from an already lowercased name.
pub fn log_level_from_lower(lower: &str) -> (r: Option<LogLevel>)
    ensures
        r == log_level_of_lower(lower@),
{
    if same_text(lower, "error") {
        Some(LogLevel::Error)
    } else if same_text(lower, "warn") {
        Some(LogLevel::Warn)
    } else if same_text(lower, "info") {
        Some(LogLevel::Info)
    } else if same_text(lower, "debug") {
        Some(LogLevel::Debug)
    } else if same_text(lower, "trace") {
        Some(LogLevel::Trace)
    } else {
        None
    }
}

/// Reads a log level name without regard to letter case; `None` for a name
/// that is not a log level, on which the daemon refuses to start.
pub fn parse_log_level(name: &str) -> (r: Option<LogLevel>)
    ensures
        r == log_level_of_lower(lowercase_text(name@)),
{
    let lower = to_lowercase(name);
    log_level_from_lower(lower.as_str())
}

/// The socket path that is used: the one given on the command line, else
/// the one of the configuration file, else `/tmp/secmon.sock`.
pub open spec fn resolved_socket(cli_socket: Option<&String>, config_socket: Option<&String>)
    -> Seq<char> {
    match cli_socket {
        Some(s) => s@,
        None => match config_socket {
            Some(c) => c@,
            None => "/tmp/secmon.sock"@,
        },
    }
}

/// Chooses the socket path.
pub fn resolve_socket_path(cli_socket: Option<&String>, config_socket: Option<&String>) -> (r:
    String)
    ensures
        r@ == resolved_socket(cli_socket, config_socket),
{
    match cli_socket {
        Some(s) => s.clone(),
        None => match config_socket {
            Some(c) => c.clone(),
            None => "/tmp/secmon.sock".to_owned(),
        },
    }
}

/// The places where a configuration file is looked for, in order.
pub fn config_search_paths() -> (r: Vec<String>)
    ensures
        texts(r@) == seq!["/etc/secmon/config.toml"@, "./config.toml"@, "config.toml"@],
{
    list3("/etc/secmon/config.toml", "./config.toml", "config.toml")
}

} // verus!
