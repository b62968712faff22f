use secmon::config::WatchConfig;
use secmon::discovery::{
    jack_directories, listed, pulse_candidates, DeviceDiscovery, FileKind, Probe, ProbedEntry,
    Selector, UserRuntimeDir,
};
use secmon::sorted::{insert_sorted, sort_dedup, text_less};
use secmon::watch::{
    plan_watch, setup_auto_discovered_watches, setup_pattern_watches, setup_single_watch,
    WatchPlan,
};

fn node(dir: &str, name: &str, kind: FileKind, in_video_class: bool) -> ProbedEntry {
    ProbedEntry {
        path: format!("{}/{}", dir, name),
        file_name: name.to_string(),
        kind,
        in_video_class,
    }
}

fn empty_probe() -> Probe {
    Probe {
        dev: Vec::new(),
        v4l_by_id: Vec::new(),
        snd_exists: false,
        snd: Vec::new(),
        present: Vec::new(),
        run_user: Vec::new(),
        jack: Vec::new(),
    }
}

fn sample_probe() -> Probe {
    Probe {
        dev: vec![
            node("/dev", "video1", FileKind::CharDevice, true),
            node("/dev", "video0", FileKind::CharDevice, true),
            node("/dev", "video2", FileKind::CharDevice, false),
            node("/dev", "video3", FileKind::Other, true),
            node("/dev", "videox", FileKind::CharDevice, true),
            node("/dev", "video", FileKind::CharDevice, true),
            node("/dev", "null", FileKind::CharDevice, false),
        ],
        v4l_by_id: vec![
            node("/dev/v4l/by-id", "usb-cam", FileKind::CharDevice, false),
            node("/dev/v4l/by-id", "broken", FileKind::Missing, false),
        ],
        snd_exists: true,
        snd: vec![
            node("/dev/snd", "timer", FileKind::CharDevice, false),
            node("/dev/snd", "pcmC0D0c", FileKind::CharDevice, false),
            node("/dev/snd", "by-path", FileKind::Directory, false),
            node("/dev/snd", "controlC0", FileKind::Other, false),
            node("/dev/snd", "seq", FileKind::Socket, false),
            node("/dev/snd", "hwC0D0", FileKind::Directory, false),
        ],
        present: vec!["/var/lib/pulse".to_string(), "/tmp/.pulse".to_string()],
        run_user: vec![
            UserRuntimeDir { path: "/run/user/1000".to_string(), has_pulse: true },
            UserRuntimeDir { path: "/run/user/0".to_string(), has_pulse: false },
        ],
        jack: vec![
            node("/dev/shm", "jack-1000", FileKind::Directory, false),
            node("/dev/shm", "other", FileKind::Other, false),
        ],
    }
}

#[test]
fn video_devices_are_sorted_and_unique() {
    let mut probe = sample_probe();
    probe.dev.push(node("/dev", "video0", FileKind::CharDevice, true));
    assert_eq!(
        DeviceDiscovery::discover_video_devices(&probe),
        vec!["/dev/v4l/by-id/usb-cam", "/dev/video", "/dev/video0", "/dev/video1"]
    );
    assert!(DeviceDiscovery::discover_video_devices(&empty_probe()).is_empty());
}

#[test]
fn audio_devices_are_sorted_and_unique() {
    assert_eq!(
        DeviceDiscovery::discover_audio_devices(&sample_probe()),
        vec![
            "/dev/shm/jack-1000",
            "/dev/snd",
            "/dev/snd/hwC0D0",
            "/dev/snd/pcmC0D0c",
            "/dev/snd/seq",
            "/dev/snd/timer",
            "/run/user/1000/pulse",
            "/tmp/.pulse",
            "/var/lib/pulse",
        ]
    );
    assert!(DeviceDiscovery::discover_audio_devices(&empty_probe()).is_empty());
    let mut only_dir = empty_probe();
    only_dir.snd_exists = true;
    assert_eq!(DeviceDiscovery::discover_audio_devices(&only_dir), vec!["/dev/snd"]);
}

#[test]
fn all_paths_are_video_then_audio() {
    let all = DeviceDiscovery::discover_all_monitored_paths(&sample_probe());
    assert_eq!(all.len(), 13);
    assert_eq!(all[0], "/dev/v4l/by-id/usb-cam");
    assert_eq!(all[3], "/dev/video1");
    assert_eq!(all[4], "/dev/shm/jack-1000");
    assert_eq!(all[12], "/var/lib/pulse");
}

#[test]
fn rescan_gives_what_is_new() {
    let current = vec![
        "/dev/video0".to_string(),
        "/dev/snd".to_string(),
        "/tmp/.pulse".to_string(),
        "/gone".to_string(),
    ];
    let new = DeviceDiscovery::rescan_devices(&current, &sample_probe());
    assert_eq!(new.len(), 10);
    assert_eq!(new[0], "/dev/v4l/by-id/usb-cam");
    assert!(!new.contains(&"/dev/video0".to_string()));
    assert!(!new.contains(&"/dev/snd".to_string()));
    let everything = DeviceDiscovery::discover_all_monitored_paths(&sample_probe());
    assert!(DeviceDiscovery::rescan_devices(&everything, &sample_probe()).is_empty());
    assert_eq!(
        DeviceDiscovery::new_devices(
            &vec!["b".to_string(), "a".to_string(), "b".to_string(), "c".to_string()],
            &vec!["a".to_string()]
        ),
        vec!["b", "b", "c"]
    );
}

#[test]
fn names_of_device_nodes() {
    assert!(DeviceDiscovery::is_video_name("video0"));
    assert!(DeviceDiscovery::is_video_name("video12"));
    assert!(DeviceDiscovery::is_video_name("video"));
    assert!(!DeviceDiscovery::is_video_name("video1a"));
    assert!(!DeviceDiscovery::is_video_name("video-1"));
    assert!(!DeviceDiscovery::is_video_name("Video1"));
    assert!(!DeviceDiscovery::is_video_name("vide"));
    assert!(!DeviceDiscovery::is_video_name("video\u{661}"));
    assert!(DeviceDiscovery::is_alsa_name("pcmC0D0p"));
    assert!(DeviceDiscovery::is_alsa_name("controlC1"));
    assert!(DeviceDiscovery::is_alsa_name("hw"));
    assert!(DeviceDiscovery::is_alsa_name("seq"));
    assert!(DeviceDiscovery::is_alsa_name("timer"));
    assert!(!DeviceDiscovery::is_alsa_name("by-path"));
    assert!(!DeviceDiscovery::is_alsa_name(""));
}

#[test]
fn kinds_of_device_files() {
    let video = node("/dev", "video0", FileKind::CharDevice, false);
    assert!(!DeviceDiscovery::is_video_device(&video));
    assert!(DeviceDiscovery::is_video_device(&node("/dev", "video0", FileKind::CharDevice, true)));
    assert!(DeviceDiscovery::is_video_device(&node("/dev", "cam", FileKind::CharDevice, false)));
    assert!(!DeviceDiscovery::is_video_device(&node("/dev", "cam", FileKind::Directory, true)));
    assert!(!DeviceDiscovery::is_video_device(&node("/dev", "cam", FileKind::Missing, true)));
    for (kind, expected) in [
        (FileKind::CharDevice, true),
        (FileKind::Directory, true),
        (FileKind::Socket, true),
        (FileKind::Other, false),
        (FileKind::Missing, false),
    ] {
        assert_eq!(DeviceDiscovery::is_audio_device(&node("/dev/snd", "x", kind, false)), expected);
    }
    assert!(DeviceDiscovery::selects(
        Selector::JackFile,
        &node("/tmp/.jack", "myjackd", FileKind::Other, false)
    ));
    assert!(!DeviceDiscovery::selects(
        Selector::JackFile,
        &node("/tmp/.jack", "JACK", FileKind::Other, false)
    ));
}

#[test]
fn fixed_places() {
    assert_eq!(
        pulse_candidates(),
        vec!["/tmp/.pulse", "/run/user/1000/pulse", "/var/lib/pulse", "~/.pulse"]
    );
    assert_eq!(jack_directories(), vec!["/dev/shm", "/tmp/.jack", "/run/user/1000/jack"]);
    assert!(listed(&pulse_candidates(), "~/.pulse"));
    assert!(!listed(&pulse_candidates(), "~/.Pulse"));
}

#[test]
fn texts_are_ordered_by_characters() {
    assert!(text_less("", "a"));
    assert!(!text_less("", ""));
    assert!(!text_less("a", ""));
    assert!(text_less("a", "b"));
    assert!(text_less("a", "ab"));
    assert!(!text_less("ab", "a"));
    assert!(text_less("/dev/a-b", "/dev/a/b"));
    assert!(text_less("Z", "a"));
    assert!(text_less("z", "é"));
    assert!(!text_less("same", "same"));
    for (a, b) in [("abc", "abd"), ("é", "z"), ("", ""), ("x", "x"), ("\u{10000}", "\u{ffff}")] {
        assert_eq!(text_less(a, b), a < b);
    }
}

#[test]
fn sorted_lists() {
    let out = sort_dedup(vec![
        "pear".to_string(),
        "apple".to_string(),
        "fig".to_string(),
        "apple".to_string(),
        "".to_string(),
        "pear".to_string(),
    ]);
    assert_eq!(out, vec!["", "apple", "fig", "pear"]);
    assert!(sort_dedup(Vec::new()).is_empty());
    let mut list = vec!["b".to_string(), "d".to_string()];
    insert_sorted(&mut list, "c".to_string());
    insert_sorted(&mut list, "a".to_string());
    insert_sorted(&mut list, "e".to_string());
    insert_sorted(&mut list, "c".to_string());
    assert_eq!(list, vec!["a", "b", "c", "d", "e"]);
}

fn watch(path: &str, enabled: bool, pattern: bool, auto_discover: bool) -> WatchConfig {
    WatchConfig {
        path: path.to_string(),
        description: "cams".to_string(),
        enabled,
        recursive: false,
        pattern,
        auto_discover,
    }
}

#[test]
fn watches_are_planned() {
    assert_eq!(plan_watch(&watch("/dev/video*", false, true, true)), WatchPlan::Skip);
    assert_eq!(plan_watch(&watch("/dev/video*", true, true, true)), WatchPlan::Discover);
    assert_eq!(plan_watch(&watch("/dev/video*", true, false, true)), WatchPlan::Discover);
    assert_eq!(plan_watch(&watch("/dev/video*", true, true, false)), WatchPlan::Expand);
    assert_eq!(plan_watch(&watch("/home", true, false, false)), WatchPlan::Single);
}

#[test]
fn discovered_watches_name_their_devices() {
    let probe = sample_probe();
    let video = setup_auto_discovered_watches(&watch("/dev/video*", true, true, true), &probe);
    assert_eq!(video.len(), 4);
    assert_eq!(video[2].path, "/dev/video0");
    assert_eq!(video[2].description, "Auto-discovered video device: /dev/video0");
    let audio = setup_auto_discovered_watches(&watch("/run/user/*/pulse", true, true, true), &probe);
    assert_eq!(audio.len(), 9);
    assert_eq!(audio[1].description, "Auto-discovered audio device: /dev/snd");
    let both = setup_auto_discovered_watches(&watch("/video/snd", true, true, true), &probe);
    assert_eq!(both.len(), 13);
    assert_eq!(both[4].description, "Auto-discovered audio device: /dev/shm/jack-1000");
    assert!(setup_auto_discovered_watches(&watch("/home", true, true, true), &probe).is_empty());
}

#[test]
fn pattern_and_single_watches() {
    let w = watch("/tmp/.pulse*", true, true, false);
    let targets =
        setup_pattern_watches(&w, &vec!["/tmp/.pulse-a".to_string(), "/tmp/.pulse-b".to_string()]);
    assert_eq!(targets.len(), 2);
    assert_eq!(targets[1].path, "/tmp/.pulse-b");
    assert_eq!(targets[1].description, "Pattern-matched: cams (/tmp/.pulse-b)");
    assert!(setup_pattern_watches(&w, &Vec::new()).is_empty());
    let single = setup_single_watch(&watch("/home", true, false, false));
    assert_eq!(single.path, "/home");
    assert_eq!(single.description, "cams");
}
