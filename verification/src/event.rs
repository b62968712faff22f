//! The event model: severities, event kinds, metadata and the event itself.

use vstd::prelude::*;
use crate::metadata::Metadata;
use crate::text::{lowercase_text, same_text, to_lowercase};
use crate::time::Timestamp;

verus! {

/// How serious an event is. The levels are totally ordered:
/// `Low < Medium < High < Critical`.
#[derive(Debug, Clone, Copy, PartialEq, Eq, Structural)]
pub enum Severity {
    Low,
    Medium,
    High,
    Critical,
}

impl Severity {
    /// The position of the severity in the order, from 1 (`Low`) to 4 (`Critical`).
    pub open spec fn level(self) -> nat {
        match self {
            Severity::Low => 1,
            Severity::Medium => 2,
            Severity::High => 3,
            Severity::Critical => 4,
        }
    }

    /// The capitalised name used on the wire and in trigger arguments.
    pub open spec fn name_text(self) -> Seq<char> {
        match self {
            Severity::Low => "Low"@,
            Severity::Medium => "Medium"@,
            Severity::High => "High"@,
            Severity::Critical => "Critical"@,
        }
    }

    pub fn rank(&self) -> (r: u8)
        ensures
            r == self.level(),
    {
        match self {
            Severity::Low => 1,
            Severity::Medium => 2,
            Severity::High => 3,
            Severity::Critical => 4,
        }
    }

    /// `self >= min` in the severity order.
    pub fn at_least(&self, min: &Severity) -> (r: bool)
        ensures
            r == (self.level() >= min.level()),
    {
        self.rank() >= min.rank()
    }

    pub fn name(&self) -> (r: String)
        ensures
            r@ == self.name_text(),
    {
        match self {
            Severity::Low => "Low".to_owned(),
            Severity::Medium => "Medium".to_owned(),
            Severity::High => "High".to_owned(),
            Severity::Critical => "Critical".to_owned(),
        }
    }
}

/// The level that a configured minimum severity stands for. Names are matched
/// exactly; anything that is not one of the four names counts as `Medium`.
pub open spec fn min_level_of(name: Seq<char>) -> nat {
    if name == "Low"@ {
        1
    } else if name == "Medium"@ {
        2
    } else if name == "High"@ {
        3
    } else if name == "Critical"@ {
        4
    } else {
        2
    }
}

/// Whether an event of severity `event_severity` passes a rule whose
/// configured minimum is `min_severity`.
pub fn severity_meets_minimum(event_severity: &Severity, min_severity: &str) -> (r: bool)
    ensures
        r == (event_severity.level() >= min_level_of(min_severity@)),
{
    let min_level: u8 = if same_text(min_severity, "Low") {
        1
    } else if same_text(min_severity, "Medium") {
        2
    } else if same_text(min_severity, "High") {
        3
    } else if same_text(min_severity, "Critical") {
        4
    } else {
        2
    };
    event_severity.rank() >= min_level
}

/// The severity order is a strict total order with
/// `Low < Medium < High < Critical`, and `at_least` decides exactly it.
pub proof fn lemma_severity_order(a: Severity, b: Severity, c: Severity)
    ensures
        Severity::Low.level() < Severity::Medium.level(),
        Severity::Medium.level() < Severity::High.level(),
        Severity::High.level() < Severity::Critical.level(),
        a.level() == b.level() <==> a == b,
        a.level() < b.level() || a == b || b.level() < a.level(),
        a.level() <= b.level() && b.level() <= c.level() ==> a.level() <= c.level(),
        a.level() >= min_level_of(b.name_text()) <==> a.level() >= b.level(),
{
    reveal_strlit("Low");
    reveal_strlit("Medium");
    reveal_strlit("High");
    reveal_strlit("Critical");
    assert("Low"@.len() == 3);
    assert("Medium"@.len() == 6);
    assert("High"@.len() == 4);
    assert("Critical"@.len() == 8);
}

/// The severity that a lowercase name stands for.
pub open spec fn severity_of_lower(lower: Seq<char>) -> Option<Severity> {
    if lower == "low"@ {
        Some(Severity::Low)
    } else if lower == "medium"@ {
        Some(Severity::Medium)
    } else if lower == "high"@ {
        Some(Severity::High)
    } else if lower == "critical"@ {
        Some(Severity::Critical)
    } else {
        None
    }
}

/// Why a piece of input text was rejected. Each variant carries the text.
#[derive(Debug)]
pub enum InputError {
    InvalidEventType(String),
    InvalidSeverity(String),
}

impl InputError {
    /// The rejected text.
    pub open spec fn input(&self) -> Seq<char> {
        match self {
            InputError::InvalidEventType(s) => s@,
            InputError::InvalidSeverity(s) => s@,
        }
    }

    /// A one-line message for the user.
    pub fn message(&self) -> (r: String)
        ensures
            r@ == match self {
                InputError::InvalidEventType(s) => "Invalid event type: "@ + s@,
                InputError::InvalidSeverity(s) => "Invalid severity: "@ + s@,
            },
    {
        match self {
            InputError::InvalidEventType(s) => {
                let mut out = "Invalid event type: ".to_owned();
                out.append(s.as_str());
                out
            },
            InputError::InvalidSeverity(s) => {
                let mut out = "Invalid severity: ".to_owned();
                out.append(s.as_str());
                out
            },
        }
    }
}

/// Reads a severity from an already lowercased name.
pub fn severity_from_lower(lower: &str) -> (r: Option<Severity>)
    ensures
        r == severity_of_lower(lower@),
{
    if same_text(lower, "low") {
        Some(Severity::Low)
    } else if same_text(lower, "medium") {
        Some(Severity::Medium)
    } else if same_text(lower, "high") {
        Some(Severity::High)
    } else if same_text(lower, "critical") {
        Some(Severity::Critical)
    } else {
        None
    }
}

/// Reads a severity name without regard to letter case.
pub fn parse_severity(severity_str: &str) -> (r: Result<Severity, InputError>)
    ensures
        match severity_of_lower(lowercase_text(severity_str@)) {
            Some(s) => r == Ok::<Severity, InputError>(s),
            None => r is Err && r->Err_0 is InvalidSeverity && r->Err_0.input() == severity_str@,
        },
{
    let lower = to_lowercase(severity_str);
    match severity_from_lower(lower.as_str()) {
        Some(s) => Ok(s),
        None => Err(InputError::InvalidSeverity(severity_str.to_owned())),
    }
}

/// The kind of a security event.
#[derive(Debug, Clone, Copy, PartialEq, Eq, Structural)]
pub enum EventType {
    FileAccess,
    FileModify,
    FileCreate,
    FileDelete,
    DirectoryAccess,
    CameraAccess,
    SshAccess,
    MicrophoneAccess,
    NetworkConnection,
    UsbDeviceInserted,
    NetworkDiscovery,
    PingDetected,
    PortScanDetected,
    CustomMessage,
}

/// The broad area that an event kind belongs to.
#[derive(Debug, Clone, Copy, PartialEq, Eq, Structural)]
pub enum EventCategory {
    Filesystem,
    Privacy,
    Network,
    Hardware,
    Custom,
}

impl EventType {
    /// The tag name of the kind: the one place where kinds and names are tied.
    pub open spec fn name_text(self) -> Seq<char> {
        match self {
            EventType::FileAccess => "FileAccess"@,
            EventType::FileModify => "FileModify"@,
            EventType::FileCreate => "FileCreate"@,
            EventType::FileDelete => "FileDelete"@,
            EventType::DirectoryAccess => "DirectoryAccess"@,
            EventType::CameraAccess => "CameraAccess"@,
            EventType::SshAccess => "SshAccess"@,
            EventType::MicrophoneAccess => "MicrophoneAccess"@,
            EventType::NetworkConnection => "NetworkConnection"@,
            EventType::UsbDeviceInserted => "UsbDeviceInserted"@,
            EventType::NetworkDiscovery => "NetworkDiscovery"@,
            EventType::PingDetected => "PingDetected"@,
            EventType::PortScanDetected => "PortScanDetected"@,
            EventType::CustomMessage => "CustomMessage"@,
        }
    }

    pub open spec fn spec_category(self) -> EventCategory {
        match self {
            EventType::FileAccess | EventType::FileModify | EventType::FileCreate
            | EventType::FileDelete | EventType::DirectoryAccess => EventCategory::Filesystem,
            EventType::CameraAccess | EventType::MicrophoneAccess => EventCategory::Privacy,
            EventType::SshAccess | EventType::NetworkConnection | EventType::NetworkDiscovery
            | EventType::PingDetected | EventType::PortScanDetected => EventCategory::Network,
            EventType::UsbDeviceInserted => EventCategory::Hardware,
            EventType::CustomMessage => EventCategory::Custom,
        }
    }

    pub fn name(&self) -> (r: String)
        ensures
            r@ == self.name_text(),
    {
        match self {
            EventType::FileAccess => "FileAccess".to_owned(),
            EventType::FileModify => "FileModify".to_owned(),
            EventType::FileCreate => "FileCreate".to_owned(),
            EventType::FileDelete => "FileDelete".to_owned(),
            EventType::DirectoryAccess => "DirectoryAccess".to_owned(),
            EventType::CameraAccess => "CameraAccess".to_owned(),
            EventType::SshAccess => "SshAccess".to_owned(),
            EventType::MicrophoneAccess => "MicrophoneAccess".to_owned(),
            EventType::NetworkConnection => "NetworkConnection".to_owned(),
            EventType::UsbDeviceInserted => "UsbDeviceInserted".to_owned(),
            EventType::NetworkDiscovery => "NetworkDiscovery".to_owned(),
            EventType::PingDetected => "PingDetected".to_owned(),
            EventType::PortScanDetected => "PortScanDetected".to_owned(),
            EventType::CustomMessage => "CustomMessage".to_owned(),
        }
    }

    pub fn category(&self) -> (r: EventCategory)
        ensures
            r == self.spec_category(),
    {
        match self {
            EventType::FileAccess | EventType::FileModify | EventType::FileCreate
            | EventType::FileDelete | EventType::DirectoryAccess => EventCategory::Filesystem,
            EventType::CameraAccess | EventType::MicrophoneAccess => EventCategory::Privacy,
            EventType::SshAccess | EventType::NetworkConnection | EventType::NetworkDiscovery
            | EventType::PingDetected | EventType::PortScanDetected => EventCategory::Network,
            EventType::UsbDeviceInserted => EventCategory::Hardware,
            EventType::CustomMessage => EventCategory::Custom,
        }
    }
}

impl EventCategory {
    pub fn name(&self) -> (r: String)
        ensures
            r@ == match self {
                EventCategory::Filesystem => "filesystem"@,
                EventCategory::Privacy => "privacy"@,
                EventCategory::Network => "network"@,
                EventCategory::Hardware => "hardware"@,
                EventCategory::Custom => "custom"@,
            },
    {
        match self {
            EventCategory::Filesystem => "filesystem".to_owned(),
            EventCategory::Privacy => "privacy".to_owned(),
            EventCategory::Network => "network".to_owned(),
            EventCategory::Hardware => "hardware".to_owned(),
            EventCategory::Custom => "custom".to_owned(),
        }
    }
}

/// The event kind that a lowercase name stands for; `custom` is accepted as a
/// short form of `custommessage`.
pub open spec fn event_type_of_lower(lower: Seq<char>) -> Option<EventType> {
    if lower == "custommessage"@ || lower == "custom"@ {
        Some(EventType::CustomMessage)
    } else if lower == "fileaccess"@ {
        Some(EventType::FileAccess)
    } else if lower == "filemodify"@ {
        Some(EventType::FileModify)
    } else if lower == "filecreate"@ {
        Some(EventType::FileCreate)
    } else if lower == "filedelete"@ {
        Some(EventType::FileDelete)
    } else if lower == "directoryaccess"@ {
        Some(EventType::DirectoryAccess)
    } else if lower == "cameraaccess"@ {
        Some(EventType::CameraAccess)
    } else if lower == "sshaccess"@ {
        Some(EventType::SshAccess)
    } else if lower == "microphoneaccess"@ {
        Some(EventType::MicrophoneAccess)
    } else if lower == "networkconnection"@ {
        Some(EventType::NetworkConnection)
    } else if lower == "usbdeviceinserted"@ {
        Some(EventType::UsbDeviceInserted)
    } else if lower == "networkdiscovery"@ {
        Some(EventType::NetworkDiscovery)
    } else if lower == "pingdetected"@ {
        Some(EventType::PingDetected)
    } else if lower == "portscandetected"@ {
        Some(EventType::PortScanDetected)
    } else {
        None
    }
}

/// Reads an event kind from an already lowercased name.
pub fn event_type_from_lower(lower: &str) -> (r: Option<EventType>)
    ensures
        r == event_type_of_lower(lower@),
{
    if same_text(lower, "custommessage") || same_text(lower, "custom") {
        Some(EventType::CustomMessage)
    } else if same_text(lower, "fileaccess") {
        Some(EventType::FileAccess)
    } else if same_text(lower, "filemodify") {
        Some(EventType::FileModify)
    } else if same_text(lower, "filecreate") {
        Some(EventType::FileCreate)
    } else if same_text(lower, "filedelete") {
        Some(EventType::FileDelete)
    } else if same_text(lower, "directoryaccess") {
        Some(EventType::DirectoryAccess)
    } else if same_text(lower, "cameraaccess") {
        Some(EventType::CameraAccess)
    } else if same_text(lower, "sshaccess") {
        Some(EventType::SshAccess)
    } else if same_text(lower, "microphoneaccess") {
        Some(EventType::MicrophoneAccess)
    } else if same_text(lower, "networkconnection") {
        Some(EventType::NetworkConnection)
    } else if same_text(lower, "usbdeviceinserted") {
        Some(EventType::UsbDeviceInserted)
    } else if same_text(lower, "networkdiscovery") {
        Some(EventType::NetworkDiscovery)
    } else if same_text(lower, "pingdetected") {
        Some(EventType::PingDetected)
    } else if same_text(lower, "portscandetected") {
        Some(EventType::PortScanDetected)
    } else {
        None
    }
}

/// Reads an event kind name without regard to letter case.
pub fn parse_event_type(type_str: &str) -> (r: Result<EventType, InputError>)
    ensures
        match event_type_of_lower(lowercase_text(type_str@)) {
            Some(t) => r == Ok::<EventType, InputError>(t),
            None => r is Err && r->Err_0 is InvalidEventType && r->Err_0.input() == type_str@,
        },
{
    let lower = to_lowercase(type_str);
    match event_type_from_lower(lower.as_str()) {
        Some(t) => Ok(t),
        None => Err(InputError::InvalidEventType(type_str.to_owned())),
    }
}

/// Severity, summary and metadata of an event.
#[derive(Debug)]
pub struct EventDetails {
    pub severity: Severity,
    pub description: String,
    pub metadata: Metadata,
}

/// One observation, classified. Events are values: they are built once and
/// copied freely.
#[derive(Debug)]
pub struct SecurityEvent {
    pub timestamp: Timestamp,
    pub event_type: EventType,
    pub path: String,
    pub details: EventDetails,
}

impl EventDetails {
    /// Both hold the same severity, description and metadata.
    pub open spec fn same_as(&self, other: &EventDetails) -> bool {
        &&& self.severity == other.severity
        &&& self.description@ == other.description@
        &&& self.metadata.pairs() == other.metadata.pairs()
    }
}

impl Clone for EventDetails {
    fn clone(&self) -> (r: EventDetails)
        ensures
            r.same_as(self),
    {
        EventDetails {
            severity: self.severity,
            description: self.description.clone(),
            metadata: self.metadata.clone(),
        }
    }
}

impl SecurityEvent {
    /// Both events hold the same instant, kind, path and details.
    pub open spec fn same_as(&self, other: &SecurityEvent) -> bool {
        &&& self.timestamp.spec_secs() == other.timestamp.spec_secs()
        &&& self.timestamp.spec_nanos() == other.timestamp.spec_nanos()
        &&& self.event_type == other.event_type
        &&& self.path@ == other.path@
        &&& self.details.same_as(&other.details)
    }

    /// What every event on the bus satisfies: its description is not empty.
    pub open spec fn well_described(&self) -> bool {
        self.details.description@.len() > 0
    }
}

impl Clone for SecurityEvent {
    fn clone(&self) -> (r: SecurityEvent)
        ensures
            r.same_as(self),
    {
        SecurityEvent {
            timestamp: self.timestamp.clone(),
            event_type: self.event_type,
            path: self.path.clone(),
            details: self.details.clone(),
        }
    }
}

} // verus!
