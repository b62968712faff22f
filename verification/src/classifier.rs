//! The classifier: from a watched base path, the path that changed and the
//! kernel's event mask to an event kind, a severity and a description.

use vstd::prelude::*;
use crate::event::{EventDetails, EventType, SecurityEvent, Severity};
use crate::metadata::Metadata;
use crate::text::{
    concat, contains, has_substring, join_path, joined_path, lowercase_text, to_lowercase,
};
use crate::time::Timestamp;

verus! {

/// A file was read.
pub const IN_ACCESS: u32 = 0x0000_0001;

/// A file was written.
pub const IN_MODIFY: u32 = 0x0000_0002;

/// A file or directory was opened.
pub const IN_OPEN: u32 = 0x0000_0020;

/// A file or directory was created in a watched directory.
pub const IN_CREATE: u32 = 0x0000_0100;

/// A file or directory was deleted from a watched directory.
pub const IN_DELETE: u32 = 0x0000_0200;

/// The mask that every watch subscribes to.
pub const WATCH_MASK: u32 = 0x0000_0323;

/// Every bit of `flag` is set in `mask`.
pub open spec fn mask_has(mask: u32, flag: u32) -> bool {
    mask & flag == flag
}

pub fn mask_contains(mask: u32, flag: u32) -> (r: bool)
    ensures
        r == mask_has(mask, flag),
{
    mask & flag == flag
}

/// The watch mask is the union of the five kinds of change that are watched.
pub proof fn lemma_watch_mask()
    ensures
        WATCH_MASK == IN_MODIFY | IN_CREATE | IN_DELETE | IN_ACCESS | IN_OPEN,
{
    assert(0x0000_0323u32 == 0x0000_0002u32 | 0x0000_0100u32 | 0x0000_0200u32 | 0x0000_0001u32
        | 0x0000_0020u32) by (bit_vector);
}

/// Names the text that the `Debug` form of `inotify::EventMask` gives for
/// the mask bits.
pub uninterp spec fn mask_text(mask: u32) -> Seq<char>;

/// Builds `inotify::EventMask` from the bits, unknown bits kept, and formats
/// it with `Debug`. The contract only names the text.
#[verifier::external_body]
pub(crate) fn mask_debug(mask: u32) -> (r: String)
    ensures
        r@ == mask_text(mask),
{
    format!("{:?}", inotify::EventMask::from_bits_retain(mask))
}

/// The rule of the classification table that applies: the first that matches.
#[derive(Debug, Clone, Copy, PartialEq, Eq, Structural)]
pub enum Rule {
    Camera,
    Microphone,
    SshKey,
    Ssh,
    Created,
    Deleted,
    Modified,
    Accessed,
    Other,
}

/// The first rule that matches the lowercased base path, the lowercased full
/// path and the mask.
pub open spec fn rule_for(base: Seq<char>, path: Seq<char>, mask: u32) -> Rule {
    if has_substring(base, "video"@) || has_substring(base, "camera"@) || has_substring(
        path,
        "/dev/video"@,
    ) {
        Rule::Camera
    } else if has_substring(base, "snd"@) || has_substring(path, "/dev/snd/"@) || has_substring(
        path,
        "pcm"@,
    ) || has_substring(path, "audio"@) || has_substring(path, "alsa"@) || has_substring(
        path,
        "pulse"@,
    ) {
        Rule::Microphone
    } else if has_substring(path, "authorized_keys"@) || has_substring(path, "id_rsa"@) {
        Rule::SshKey
    } else if has_substring(base, "ssh"@) || has_substring(path, ".ssh"@) {
        Rule::Ssh
    } else if mask_has(mask, IN_CREATE) {
        Rule::Created
    } else if mask_has(mask, IN_DELETE) {
        Rule::Deleted
    } else if mask_has(mask, IN_MODIFY) {
        Rule::Modified
    } else if mask_has(mask, IN_ACCESS) || mask_has(mask, IN_OPEN) {
        Rule::Accessed
    } else {
        Rule::Other
    }
}

impl Rule {
    pub open spec fn event_type(self) -> EventType {
        match self {
            Rule::Camera => EventType::CameraAccess,
            Rule::Microphone => EventType::MicrophoneAccess,
            Rule::SshKey | Rule::Ssh => EventType::SshAccess,
            Rule::Created => EventType::FileCreate,
            Rule::Deleted => EventType::FileDelete,
            Rule::Modified => EventType::FileModify,
            Rule::Accessed | Rule::Other => EventType::FileAccess,
        }
    }

    pub open spec fn severity(self) -> Severity {
        match self {
            Rule::Camera | Rule::Microphone | Rule::Ssh => Severity::High,
            Rule::SshKey => Severity::Critical,
            Rule::Created | Rule::Deleted => Severity::Medium,
            Rule::Modified | Rule::Accessed | Rule::Other => Severity::Low,
        }
    }

    /// What the description says before the path.
    pub open spec fn label(self) -> Seq<char> {
        match self {
            Rule::Camera => "Camera device access detected: "@,
            Rule::Microphone => "Microphone/audio device access detected: "@,
            Rule::SshKey | Rule::Ssh => "SSH-related file access: "@,
            Rule::Created => "File created: "@,
            Rule::Deleted => "File deleted: "@,
            Rule::Modified => "File modified: "@,
            Rule::Accessed => "File accessed: "@,
            Rule::Other => "File system event: "@,
        }
    }
}

/// Finds the rule for paths that are already lowercased.
pub fn select_rule(base_lower: &str, path_lower: &str, mask: u32) -> (r: Rule)
    ensures
        r == rule_for(base_lower@, path_lower@, mask),
{
    if contains(base_lower, "video") || contains(base_lower, "camera") || contains(
        path_lower,
        "/dev/video",
    ) {
        Rule::Camera
    } else if contains(base_lower, "snd") || contains(path_lower, "/dev/snd/") || contains(
        path_lower,
        "pcm",
    ) || contains(path_lower, "audio") || contains(path_lower, "alsa") || contains(
        path_lower,
        "pulse",
    ) {
        Rule::Microphone
    } else if contains(path_lower, "authorized_keys") || contains(path_lower, "id_rsa") {
        Rule::SshKey
    } else if contains(base_lower, "ssh") || contains(path_lower, ".ssh") {
        Rule::Ssh
    } else if mask_contains(mask, IN_CREATE) {
        Rule::Created
    } else if mask_contains(mask, IN_DELETE) {
        Rule::Deleted
    } else if mask_contains(mask, IN_MODIFY) {
        Rule::Modified
    } else if mask_contains(mask, IN_ACCESS) || mask_contains(mask, IN_OPEN) {
        Rule::Accessed
    } else {
        Rule::Other
    }
}

/// Classifies a change from paths that are already lowercased; `full_path`
/// is the path as it is shown in the description.
pub fn classify_lowered(base_lower: &str, path_lower: &str, full_path: &str, mask: u32) -> (r: (
    EventType,
    Severity,
    String,
))
    ensures
        r.0 == rule_for(base_lower@, path_lower@, mask).event_type(),
        r.1 == rule_for(base_lower@, path_lower@, mask).severity(),
        r.2@ == rule_for(base_lower@, path_lower@, mask).label() + full_path@,
        r.2@.len() > 0,
{
    let rule = select_rule(base_lower, path_lower, mask);
    proof {
        reveal_strlit("Camera device access detected: ");
        reveal_strlit("Microphone/audio device access detected: ");
        reveal_strlit("SSH-related file access: ");
        reveal_strlit("File created: ");
        reveal_strlit("File deleted: ");
        reveal_strlit("File modified: ");
        reveal_strlit("File accessed: ");
        reveal_strlit("File system event: ");
    }
    match rule {
        Rule::Camera => (
            EventType::CameraAccess,
            Severity::High,
            concat("Camera device access detected: ", full_path),
        ),
        Rule::Microphone => (
            EventType::MicrophoneAccess,
            Severity::High,
            concat("Microphone/audio device access detected: ", full_path),
        ),
        Rule::SshKey => (
            EventType::SshAccess,
            Severity::Critical,
            concat("SSH-related file access: ", full_path),
        ),
        Rule::Ssh => (
            EventType::SshAccess,
            Severity::High,
            concat("SSH-related file access: ", full_path),
        ),
        Rule::Created => (
            EventType::FileCreate,
            Severity::Medium,
            concat("File created: ", full_path),
        ),
        Rule::Deleted => (
            EventType::FileDelete,
            Severity::Medium,
            concat("File deleted: ", full_path),
        ),
        Rule::Modified => (EventType::FileModify, Severity::Low, concat("File modified: ", full_path)),
        Rule::Accessed => (EventType::FileAccess, Severity::Low, concat("File accessed: ", full_path)),
        Rule::Other => (
            EventType::FileAccess,
            Severity::Low,
            concat("File system event: ", full_path),
        ),
    }
}

/// `r` is the classification of a change on `full_path` under the watch at
/// `base_path` with the mask `mask`.
pub open spec fn classifies(
    base_path: Seq<char>,
    full_path: Seq<char>,
    mask: u32,
    r: (EventType, Severity, String),
) -> bool {
    let rule = rule_for(lowercase_text(base_path), lowercase_text(full_path), mask);
    &&& r.0 == rule.event_type()
    &&& r.1 == rule.severity()
    &&& r.2@ == rule.label() + full_path
}

/// Classifies a change. The substring tests are made on the lowercase forms
/// of both paths, so the classification does not depend on letter case.
pub fn classify_event(base_path: &str, full_path: &str, mask: u32) -> (r: (
    EventType,
    Severity,
    String,
))
    ensures
        classifies(base_path@, full_path@, mask, r),
        r.2@.len() > 0,
{
    let base_lower = to_lowercase(base_path);
    let path_lower = to_lowercase(full_path);
    classify_lowered(base_lower.as_str(), path_lower.as_str(), full_path, mask)
}

/// The path that an event is about: the watched path itself, or the name
/// that the kernel reported joined to it.
pub open spec fn event_path(base_path: Seq<char>, name: Option<&str>) -> Seq<char> {
    match name {
        Some(n) => joined_path(base_path, n@),
        None => base_path,
    }
}

/// The metadata of a filesystem event: the mask as text and, where the
/// kernel reported one, the file name.
pub open spec fn file_metadata(mask: u32, name: Option<&str>) -> Map<Seq<char>, Seq<char>> {
    match name {
        Some(n) => Map::empty().insert("mask"@, mask_text(mask)).insert("filename"@, n@),
        None => Map::empty().insert("mask"@, mask_text(mask)),
    }
}

/// Builds the event for one raw filesystem notification on the watch at
/// `base_path`, observed at `now`.
pub fn create_security_event(base_path: &str, name: Option<&str>, mask: u32, now: Timestamp) -> (ev:
    SecurityEvent)
    ensures
        ev.timestamp.spec_secs() == now.spec_secs(),
        ev.timestamp.spec_nanos() == now.spec_nanos(),
        ev.path@ == event_path(base_path@, name),
        ev.event_type == rule_for(
            lowercase_text(base_path@),
            lowercase_text(ev.path@),
            mask,
        ).event_type(),
        ev.details.severity == rule_for(
            lowercase_text(base_path@),
            lowercase_text(ev.path@),
            mask,
        ).severity(),
        ev.details.description@ == rule_for(
            lowercase_text(base_path@),
            lowercase_text(ev.path@),
            mask,
        ).label() + ev.path@,
        ev.details.metadata@ == file_metadata(mask, name),
        ev.well_described(),
{
    let full_path = match name {
        Some(n) => join_path(base_path, n),
        None => base_path.to_owned(),
    };
    let (event_type, severity, description) = classify_event(base_path, full_path.as_str(), mask);
    let mut metadata = Metadata::new();
    metadata.insert("mask".to_owned(), mask_debug(mask));
    match name {
        Some(n) => {
            metadata.insert("filename".to_owned(), n.to_owned());
        },
        None => {},
    }
    SecurityEvent {
        timestamp: now,
        event_type,
        path: full_path,
        details: EventDetails { severity, description, metadata },
    }
}

/// Classification is deterministic: whatever two calls on the same paths and
/// mask return, the kinds, the severities and the descriptions are the same.
pub proof fn lemma_classification_deterministic(
    base_path: Seq<char>,
    full_path: Seq<char>,
    mask: u32,
    first: (EventType, Severity, String),
    second: (EventType, Severity, String),
)
    requires
        classifies(base_path, full_path, mask, first),
        classifies(base_path, full_path, mask, second),
    ensures
        first.0 == second.0,
        first.1 == second.1,
        first.2@ == second.2@,
{
}

/// The kind and the severity are functions of the two lowercased paths and
/// the mask alone, and the severity is never below the floor of the kind:
/// `High` for camera, microphone and SSH events, `Medium` for creations and
/// deletions, `Low` otherwise.
pub proof fn lemma_classification_floor(base: Seq<char>, path: Seq<char>, mask: u32)
    ensures
        ({
            let rule = rule_for(base, path, mask);
            &&& (rule.event_type() == EventType::CameraAccess ==> rule.severity() == Severity::High)
            &&& (rule.event_type() == EventType::MicrophoneAccess ==> rule.severity()
                == Severity::High)
            &&& (rule.event_type() == EventType::SshAccess ==> rule.severity().level()
                >= Severity::High.level())
            &&& (rule.event_type() == EventType::FileCreate || rule.event_type()
                == EventType::FileDelete ==> rule.severity() == Severity::Medium)
            &&& (rule.event_type() == EventType::FileModify || rule.event_type()
                == EventType::FileAccess ==> rule.severity() == Severity::Low)
            &&& rule.severity().level() >= Severity::Low.level()
        }),
{
}

} // verus!
