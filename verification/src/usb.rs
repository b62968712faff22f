//! USB hotplug: what an inserted or removed device becomes on the bus.

use vstd::prelude::*;
use crate::event::{EventDetails, EventType, SecurityEvent, Severity};
use crate::keyed::{distinct_keys, lemma_pairs_map};
use crate::metadata::Metadata;
use crate::text::{concat, contains, has_substring, lowercase_text, same_text, to_lowercase};
use crate::time::Timestamp;

verus! {

/// What the kernel reported of a device.
#[derive(Debug, Clone, Copy, PartialEq, Eq, Structural)]
pub enum UsbAction {
    Add,
    Remove,
    /// Bind, unbind, change and whatever else: ignored.
    Other,
}

/// The properties of a device that the monitor reads.
#[derive(Debug)]
pub struct UsbDevice {
    pub devtype: Option<String>,
    pub vendor_id: Option<String>,
    pub product_id: Option<String>,
    pub vendor: Option<String>,
    pub product: Option<String>,
    pub serial: Option<String>,
    pub devnode: Option<String>,
    pub syspath: Option<String>,
}

/// The text of an optional property.
pub open spec fn text_of_option(value: Option<String>) -> Option<Seq<char>> {
    match value {
        Some(s) => Some(s@),
        None => None,
    }
}

/// `m` with `key` set where there is a value.
pub open spec fn with_optional(
    m: Map<Seq<char>, Seq<char>>,
    key: Seq<char>,
    value: Option<Seq<char>>,
) -> Map<Seq<char>, Seq<char>> {
    match value {
        Some(v) => m.insert(key, v),
        None => m,
    }
}

/// The metadata of an insertion: every property that the device has.
pub open spec fn insertion_metadata(d: &UsbDevice) -> Map<Seq<char>, Seq<char>> {
    let m0 = with_optional(Map::empty(), "device_type"@, text_of_option(d.devtype));
    let m1 = with_optional(m0, "vendor_id"@, text_of_option(d.vendor_id));
    let m2 = with_optional(m1, "product_id"@, text_of_option(d.product_id));
    let m3 = with_optional(m2, "vendor"@, text_of_option(d.vendor));
    let m4 = with_optional(m3, "product"@, text_of_option(d.product));
    let m5 = with_optional(m4, "serial"@, text_of_option(d.serial));
    with_optional(m5, "device_path"@, text_of_option(d.devnode))
}

/// The metadata of a removal: the device type, where it is known.
pub open spec fn removal_metadata(d: &UsbDevice) -> Map<Seq<char>, Seq<char>> {
    with_optional(Map::empty(), "device_type"@, text_of_option(d.devtype))
}

/// Some value of the metadata holds `word` when lowercased.
pub open spec fn mentions(m: Map<Seq<char>, Seq<char>>, word: Seq<char>) -> bool {
    exists|k: Seq<char>| #[trigger] m.contains_key(k) && has_substring(lowercase_text(m[k]), word)
}

/// The metadata speaks of a human interface device.
pub open spec fn hid_device(m: Map<Seq<char>, Seq<char>>) -> bool {
    mentions(m, "hid"@) || mentions(m, "keyboard"@) || mentions(m, "mouse"@)
}

/// The metadata speaks of a storage device.
pub open spec fn mass_storage_device(m: Map<Seq<char>, Seq<char>>) -> bool {
    mentions(m, "mass_storage"@) || mentions(m, "storage"@) || mentions(m, "disk"@)
}

/// The vendor identifier is one of those known for rogue input devices.
pub open spec fn rogue_vendor(m: Map<Seq<char>, Seq<char>>) -> bool {
    m.contains_key("vendor_id"@) && (m["vendor_id"@] == "f000"@ || m["vendor_id"@] == "dead"@)
}

/// The severity of a device of which this much is known. The first of
/// these decides: a rogue vendor is `Critical`; a human interface device is
/// `High`; a storage device is `Medium`; a device without vendor or product
/// identifier is `Medium`; anything else is `Low`.
pub open spec fn graded(rogue: bool, hid: bool, storage: bool, identified: bool) -> Severity {
    if rogue {
        Severity::Critical
    } else if hid {
        Severity::High
    } else if storage {
        Severity::Medium
    } else if !identified {
        Severity::Medium
    } else {
        Severity::Low
    }
}

/// The severity of an inserted device with the given metadata.
pub open spec fn usb_severity(m: Map<Seq<char>, Seq<char>>) -> Severity {
    graded(
        rogue_vendor(m),
        hid_device(m),
        mass_storage_device(m),
        m.contains_key("vendor_id"@) && m.contains_key("product_id"@),
    )
}

/// Grades a device from what is known of it.
pub fn grade_usb_device(rogue: bool, hid: bool, storage: bool, identified: bool) -> (r: Severity)
    ensures
        r == graded(rogue, hid, storage, identified),
{
    if rogue {
        Severity::Critical
    } else if hid {
        Severity::High
    } else if storage {
        Severity::Medium
    } else if !identified {
        Severity::Medium
    } else {
        Severity::Low
    }
}

/// The value under `key`, or `unknown`.
pub open spec fn or_unknown(m: Map<Seq<char>, Seq<char>>, key: Seq<char>) -> Seq<char> {
    if m.contains_key(key) {
        m[key]
    } else {
        "unknown"@
    }
}

/// The summary of an insertion.
pub open spec fn insertion_description(m: Map<Seq<char>, Seq<char>>) -> Seq<char> {
    let ids = or_unknown(m, "vendor_id"@) + ":"@ + or_unknown(m, "product_id"@);
    if m.contains_key("vendor"@) && m.contains_key("product"@) {
        "USB device inserted: "@ + m["vendor"@] + " "@ + m["product"@] + " ("@ + ids + ")"@
    } else {
        "USB device inserted: "@ + ids
    }
}

/// The path of a device event: where the kernel keeps the device, or the
/// root of the USB devices where that is not known.
pub open spec fn device_path(d: &UsbDevice) -> Seq<char> {
    match d.syspath {
        Some(p) => p@,
        None => "/sys/devices/usb"@,
    }
}

/// Whether some value of the metadata holds `word` when lowercased.
pub fn any_value_mentions(metadata: &Metadata, word: &str) -> (r: bool)
    ensures
        r == mentions(metadata@, word@),
{
    let n = metadata.len();
    let mut i: usize = 0;
    while i < n
        invariant
            i <= n,
            n == metadata.pairs().len(),
            distinct_keys(metadata.pairs()),
            forall|j: int|
                0 <= j < i ==> !has_substring(
                    lowercase_text((#[trigger] metadata.pairs()[j]).1),
                    word@,
                ),
        decreases n - i,
    {
        let lower = to_lowercase(metadata.value_at(i).as_str());
        if contains(lower.as_str(), word) {
            proof {
                lemma_pairs_map(metadata.pairs());
                let k = metadata.pairs()[i as int].0;
                assert(metadata@.contains_key(k) && metadata@[k] == metadata.pairs()[i as int].1);
            }
            return true;
        }
        i += 1;
    }
    proof {
        lemma_pairs_map(metadata.pairs());
        assert forall|k: Seq<char>| #[trigger] metadata@.contains_key(k) implies !has_substring(
            lowercase_text(metadata@[k]),
            word@,
        ) by {
            let j = choose|j: int|
                0 <= j < metadata.pairs().len() && (#[trigger] metadata.pairs()[j]).0 == k;
            assert(metadata@[k] == metadata.pairs()[j].1);
        }
    }
    false
}

fn insert_optional(metadata: &mut Metadata, key: &str, value: &Option<String>)
    ensures
        final(metadata)@ == with_optional(old(metadata)@, key@, text_of_option(*value)),
{
    match value {
        Some(v) => {
            metadata.insert(key.to_owned(), v.clone());
        },
        None => {},
    }
}

fn value_or_unknown(metadata: &Metadata, key: &str) -> (r: String)
    ensures
        r@ == or_unknown(metadata@, key@),
{
    match metadata.get(key) {
        Some(v) => v.clone(),
        None => "unknown".to_owned(),
    }
}

/// Writes the summary of an insertion.
pub fn describe_insertion(metadata: &Metadata) -> (r: String)
    ensures
        r@ == insertion_description(metadata@),
        r@.len() > 0,
{
    proof {
        reveal_strlit("USB device inserted: ");
    }
    let mut ids = value_or_unknown(metadata, "vendor_id");
    ids.append(":");
    ids.append(value_or_unknown(metadata, "product_id").as_str());
    let vendor = metadata.get("vendor");
    let product = metadata.get("product");
    match (vendor, product) {
        (Some(v), Some(p)) => {
            let mut out = concat("USB device inserted: ", v.as_str());
            out.append(" ");
            out.append(p.as_str());
            out.append(" (");
            out.append(ids.as_str());
            out.append(")");
            out
        },
        _ => concat("USB device inserted: ", ids.as_str()),
    }
}

fn path_of(device: &UsbDevice) -> (r: String)
    ensures
        r@ == device_path(device),
{
    match &device.syspath {
        Some(p) => p.clone(),
        None => "/sys/devices/usb".to_owned(),
    }
}

/// The monitor of USB hotplug reports.
#[derive(Debug)]
pub struct UsbMonitor;

impl UsbMonitor {
    pub fn new() -> (r: UsbMonitor) {
        UsbMonitor
    }

    pub fn is_hid_device(&self, metadata: &Metadata) -> (r: bool)
        ensures
            r == hid_device(metadata@),
    {
        any_value_mentions(metadata, "hid") || any_value_mentions(metadata, "keyboard")
            || any_value_mentions(metadata, "mouse")
    }

    pub fn is_mass_storage_device(&self, metadata: &Metadata) -> (r: bool)
        ensures
            r == mass_storage_device(metadata@),
    {
        any_value_mentions(metadata, "mass_storage") || any_value_mentions(metadata, "storage")
            || any_value_mentions(metadata, "disk")
    }

    /// Grades an inserted device by its metadata.
    pub fn classify_usb_device_severity(&self, metadata: &Metadata) -> (r: Severity)
        ensures
            r == usb_severity(metadata@),
    {
        let rogue = match metadata.get("vendor_id") {
            Some(v) => same_text(v.as_str(), "f000") || same_text(v.as_str(), "dead"),
            None => false,
        };
        grade_usb_device(
            rogue,
            self.is_hid_device(metadata),
            self.is_mass_storage_device(metadata),
            metadata.contains_key("vendor_id") && metadata.contains_key("product_id"),
        )
    }

    /// The event for a device that was inserted.
    pub fn emit_usb_insertion_event(&self, device: &UsbDevice, now: Timestamp) -> (ev: SecurityEvent)
        ensures
            ev.timestamp.spec_secs() == now.spec_secs(),
            ev.timestamp.spec_nanos() == now.spec_nanos(),
            ev.event_type == EventType::UsbDeviceInserted,
            ev.path@ == device_path(device),
            ev.details.metadata@ == insertion_metadata(device),
            ev.details.severity == usb_severity(insertion_metadata(device)),
            ev.details.description@ == insertion_description(insertion_metadata(device)),
            ev.well_described(),
    {
        let mut metadata = Metadata::new();
        insert_optional(&mut metadata, "device_type", &device.devtype);
        insert_optional(&mut metadata, "vendor_id", &device.vendor_id);
        insert_optional(&mut metadata, "product_id", &device.product_id);
        insert_optional(&mut metadata, "vendor", &device.vendor);
        insert_optional(&mut metadata, "product", &device.product);
        insert_optional(&mut metadata, "serial", &device.serial);
        insert_optional(&mut metadata, "device_path", &device.devnode);
        let severity = self.classify_usb_device_severity(&metadata);
        let description = describe_insertion(&metadata);
        SecurityEvent {
            timestamp: now,
            event_type: EventType::UsbDeviceInserted,
            path: path_of(device),
            details: EventDetails { severity, description, metadata },
        }
    }

    /// The event for a device that was removed. It carries the kind of an
    /// insertion, at `Low` severity.
    pub fn emit_usb_removal_event(&self, device: &UsbDevice, now: Timestamp) -> (ev: SecurityEvent)
        ensures
            ev.timestamp.spec_secs() == now.spec_secs(),
            ev.timestamp.spec_nanos() == now.spec_nanos(),
            ev.event_type == EventType::UsbDeviceInserted,
            ev.path@ == device_path(device),
            ev.details.metadata@ == removal_metadata(device),
            ev.details.severity == Severity::Low,
            ev.details.description@ == "USB device removed"@,
            ev.well_described(),
    {
        proof {
            reveal_strlit("USB device removed");
        }
        let mut metadata = Metadata::new();
        insert_optional(&mut metadata, "device_type", &device.devtype);
        SecurityEvent {
            timestamp: now,
            event_type: EventType::UsbDeviceInserted,
            path: path_of(device),
            details: EventDetails {
                severity: Severity::Low,
                description: "USB device removed".to_owned(),
                metadata,
            },
        }
    }

    /// What a hotplug report puts on the bus: an event for an insertion or a
    /// removal, nothing for any other action.
    pub fn handle_usb_event(&self, action: UsbAction, device: &UsbDevice, now: Timestamp) -> (r: Option<
        SecurityEvent,
    >)
        ensures
            r.is_some() == (action != UsbAction::Other),
            action == UsbAction::Add ==> {
                let ev = r.unwrap();
                &&& ev.timestamp.spec_secs() == now.spec_secs()
                &&& ev.timestamp.spec_nanos() == now.spec_nanos()
                &&& ev.event_type == EventType::UsbDeviceInserted
                &&& ev.path@ == device_path(device)
                &&& ev.details.metadata@ == insertion_metadata(device)
                &&& ev.details.severity == usb_severity(insertion_metadata(device))
                &&& ev.details.description@ == insertion_description(insertion_metadata(device))
            },
            action == UsbAction::Remove ==> {
                let ev = r.unwrap();
                &&& ev.timestamp.spec_secs() == now.spec_secs()
                &&& ev.timestamp.spec_nanos() == now.spec_nanos()
                &&& ev.event_type == EventType::UsbDeviceInserted
                &&& ev.path@ == device_path(device)
                &&& ev.details.metadata@ == removal_metadata(device)
                &&& ev.details.severity == Severity::Low
                &&& ev.details.description@ == "USB device removed"@
            },
            r.is_some() ==> r.unwrap().well_described(),
    {
        match action {
            UsbAction::Add => Some(self.emit_usb_insertion_event(device, now)),
            UsbAction::Remove => Some(self.emit_usb_removal_event(device, now)),
            UsbAction::Other => None,
        }
    }
}

} // verus!
