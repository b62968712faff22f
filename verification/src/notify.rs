//! What a client does with the events it receives: which of them raise an
//! alert, and how often a desktop notification may be sent.

use vstd::prelude::*;
use crate::cooldown::{elapsed_nanos, elapsed_ns, recent, Cooldowns, NANOS_PER_SECOND};
use crate::event::{EventType, Severity};
use crate::text::{concat, contains, has_substring};

verus! {

/// Notification keys are forgotten after this many seconds.
pub const COOLDOWN_MEMORY_SECONDS: u64 = 300;

/// The window of the rate limit, in seconds.
pub const RATE_WINDOW_SECONDS: u64 = 60;

/// How many notifications may be sent within one window.
pub const RATE_LIMIT: usize = 5;

/// An event raises an alert when it is about the camera or the microphone,
/// or when it is critical.
pub open spec fn raises_alert(event_type: EventType, severity: Severity) -> bool {
    event_type == EventType::CameraAccess || event_type == EventType::MicrophoneAccess || severity
        == Severity::Critical
}

pub fn should_alert(event_type: EventType, severity: Severity) -> (r: bool)
    ensures
        r == raises_alert(event_type, severity),
{
    match event_type {
        EventType::CameraAccess | EventType::MicrophoneAccess => true,
        _ => match severity {
            Severity::Critical => true,
            _ => false,
        },
    }
}

/// The seconds for which an event of this kind on one path is not notified
/// again: a minute for the camera and the microphone, half a minute else.
pub open spec fn notification_cooldown(event_type: EventType) -> u64 {
    if event_type == EventType::CameraAccess || event_type == EventType::MicrophoneAccess {
        60
    } else {
        30
    }
}

/// The key under which the notifications of an event are counted: the name
/// of its kind, a colon, its path.
pub open spec fn notification_key(event_type: EventType, path: Seq<char>) -> Seq<char> {
    event_type.name_text() + ":"@ + path
}

/// The instants of `sent`, in order, that are less than a window before
/// `now`.
pub open spec fn in_window(sent: Seq<u64>, now: u64) -> Seq<u64>
    decreases sent.len(),
{
    if sent.len() == 0 {
        Seq::empty()
    } else if elapsed_ns(sent.last(), now) < RATE_WINDOW_SECONDS * NANOS_PER_SECOND {
        in_window(sent.drop_last(), now).push(sent.last())
    } else {
        in_window(sent.drop_last(), now)
    }
}

/// The state of the notification gate: the last notification of each key,
/// and the instants of the notifications of the last window.
#[derive(Debug)]
pub struct NotificationGate {
    pub cooldowns: Cooldowns,
    pub sent: Vec<u64>,
}

/// The last notifications that are still remembered at `now`.
pub open spec fn remembered(last: Map<Seq<char>, u64>, now: u64) -> Map<Seq<char>, u64> {
    recent(last, now, (COOLDOWN_MEMORY_SECONDS * NANOS_PER_SECOND) as u64)
}

/// The key is still cooling down at `now`.
pub open spec fn cooling(
    last: Map<Seq<char>, u64>,
    key: Seq<char>,
    event_type: EventType,
    now: u64,
) -> bool {
    remembered(last, now).contains_key(key) && elapsed_ns(remembered(last, now)[key], now)
        < notification_cooldown(event_type) * NANOS_PER_SECOND
}

impl NotificationGate {
    pub fn new() -> (r: NotificationGate)
        ensures
            r.cooldowns@ == Map::<Seq<char>, u64>::empty(),
            r.sent@.len() == 0,
    {
        NotificationGate { cooldowns: Cooldowns::new(), sent: Vec::new() }
    }

    /// Decides whether an event of kind `event_type` on `path` is notified
    /// at `now`. Keys older than five minutes are forgotten. An event whose
    /// key is cooling down is not notified, and nothing else changes.
    /// Otherwise the key is noted at `now`; the event is notified unless
    /// five notifications were sent within the last minute, and if it is,
    /// `now` is added to them.
    pub fn should_send_notification(&mut self, event_type: EventType, path: &str, now: u64) -> (r:
        bool)
        ensures
            ({
                let key = notification_key(event_type, path@);
                let last = old(self).cooldowns@;
                let window = in_window(old(self).sent@, now);
                if cooling(last, key, event_type, now) {
                    &&& !r
                    &&& final(self).cooldowns@ == remembered(last, now)
                    &&& final(self).sent@ == old(self).sent@
                } else {
                    &&& r == (window.len() < RATE_LIMIT)
                    &&& final(self).cooldowns@ == remembered(last, now).insert(key, now)
                    &&& final(self).sent@ == if r {
                        window.push(now)
                    } else {
                        window
                    }
                }
            }),
    {
        let mut key = event_type.name();
        key.append(":");
        key.append(path);
        self.cooldowns.retain_recent(now, COOLDOWN_MEMORY_SECONDS * NANOS_PER_SECOND);
        let limit: u64 = match event_type {
            EventType::CameraAccess | EventType::MicrophoneAccess => 60,
            _ => 30,
        };
        match self.cooldowns.last_fire(key.as_str()) {
            Some(last) => {
                if elapsed_nanos(last, now) < limit * NANOS_PER_SECOND {
                    return false;
                }
            },
            None => {},
        }
        self.cooldowns.record(key.as_str(), now);
        let mut window: Vec<u64> = Vec::new();
        let mut i: usize = 0;
        while i < self.sent.len()
            invariant
                i <= self.sent.len(),
                window@ == in_window(self.sent@.take(i as int), now),
            decreases self.sent.len() - i,
        {
            proof {
                assert(self.sent@.take(i + 1).drop_last() =~= self.sent@.take(i as int));
                assert(self.sent@.take(i + 1).last() == self.sent@[i as int]);
            }
            let t = self.sent[i];
            if elapsed_nanos(t, now) < RATE_WINDOW_SECONDS * NANOS_PER_SECOND {
                window.push(t);
            }
            i += 1;
        }
        proof {
            assert(self.sent@.take(i as int) =~= self.sent@);
        }
        let allowed = window.len() < RATE_LIMIT;
        if allowed {
            window.push(now);
        }
        self.sent = window;
        allowed
    }
}

/// A line of the alert log: the time in brackets, the mark of an alert, the
/// path and the description.
pub open spec fn alert_line(time: Seq<char>, path: Seq<char>, description: Seq<char>) -> Seq<char> {
    "["@ + time + "] CRITICAL: "@ + path + " - "@ + description
}

/// Writes a line of the alert log for an event at the time that is given
/// as text.
pub fn alert_log_line(time: &str, path: &str, description: &str) -> (r: String)
    ensures
        r@ == alert_line(time@, path@, description@),
{
    let mut out = concat("[", time);
    out.append("] CRITICAL: ");
    out.append(path);
    out.append(" - ");
    out.append(description);
    out
}

/// The kind of event that a line of the alert log speaks of, found by the
/// first of these words that the line holds: camera, microphone or audio,
/// SSH, USB, network; `FileSystem` where it holds none of them.
pub open spec fn log_event_type(line: Seq<char>) -> Seq<char> {
    if has_substring(line, "Camera"@) || has_substring(line, "camera"@) {
        "CameraAccess"@
    } else if has_substring(line, "Microphone"@) || has_substring(line, "microphone"@)
        || has_substring(line, "audio"@) {
        "MicrophoneAccess"@
    } else if has_substring(line, "SSH"@) || has_substring(line, "ssh"@) {
        "SshAccess"@
    } else if has_substring(line, "USB"@) || has_substring(line, "usb"@) {
        "UsbDeviceInserted"@
    } else if has_substring(line, "Network"@) || has_substring(line, "network"@) {
        "NetworkConnection"@
    } else {
        "FileSystem"@
    }
}

/// Names the kind of event that a line of the alert log speaks of.
pub fn extract_event_type_from_log(line: &str) -> (r: Option<String>)
    ensures
        r.is_some(),
        r.unwrap()@ == log_event_type(line@),
{
    if contains(line, "Camera") || contains(line, "camera") {
        Some("CameraAccess".to_owned())
    } else if contains(line, "Microphone") || contains(line, "microphone") || contains(
        line,
        "audio",
    ) {
        Some("MicrophoneAccess".to_owned())
    } else if contains(line, "SSH") || contains(line, "ssh") {
        Some("SshAccess".to_owned())
    } else if contains(line, "USB") || contains(line, "usb") {
        Some("UsbDeviceInserted".to_owned())
    } else if contains(line, "Network") || contains(line, "network") {
        Some("NetworkConnection".to_owned())
    } else {
        Some("FileSystem".to_owned())
    }
}

} // verus!
