//! Network intrusion detection: per source address, the local ports it
//! reached, and the alerts for port scans and service discovery.

use vstd::prelude::*;
use crate::cooldown::{elapsed_nanos, elapsed_ns, NANOS_PER_SECOND};
use crate::event::{EventDetails, EventType, SecurityEvent, Severity};
use crate::keyed;
use crate::keyed::{
    distinct_keys, lemma_kept, lemma_pairs_map, lemma_push_pair, lemma_update_pair, pairs_map,
    restricted,
};
use crate::metadata::Metadata;
use crate::network::{ip_text, IpAddress};
use crate::proc_net::{fields, split_fields};
use crate::text::{
    concat, contains, decimal, decimal_text, has_prefix, has_substring, starts_with,
};
use crate::time::Timestamp;

verus! {

/// A tracker that saw nothing for this long is dropped.
pub const TRACKER_IDLE_SECONDS: u64 = 300;

/// The port of a common service: file transfer, remote shells, mail, name
/// service, the web.
pub open spec fn is_discovery_port(p: u16) -> bool {
    p == 21 || p == 22 || p == 23 || p == 25 || p == 53 || p == 80 || p == 110 || p == 143 || p
        == 443 || p == 993 || p == 995
}

/// How many of the ports are ports of common services.
pub open spec fn discovery_count(ports: Seq<u16>) -> nat
    decreases ports.len(),
{
    if ports.len() == 0 {
        0
    } else {
        discovery_count(ports.drop_last()) + if is_discovery_port(ports.last()) {
            1nat
        } else {
            0nat
        }
    }
}

/// Whether the ports look like a search for services: three or more of them
/// are ports of common services.
pub fn is_discovery_pattern_ports(ports: &Vec<u16>) -> (r: bool)
    ensures
        r == (discovery_count(ports@) >= 3),
{
    let mut count: usize = 0;
    let mut i: usize = 0;
    while i < ports.len()
        invariant
            i <= ports.len(),
            count <= i,
            count == discovery_count(ports@.take(i as int)),
        decreases ports.len() - i,
    {
        proof {
            assert(ports@.take(i + 1).drop_last() =~= ports@.take(i as int));
            assert(ports@.take(i + 1).last() == ports@[i as int]);
        }
        let p = ports[i];
        if p == 21 || p == 22 || p == 23 || p == 25 || p == 53 || p == 80 || p == 110 || p == 143
            || p == 443 || p == 993 || p == 995 {
            count += 1;
        }
        i += 1;
    }
    proof {
        assert(ports@.take(i as int) =~= ports@);
    }
    count >= 3
}

/// What is known of one source address.
#[derive(Debug)]
pub struct ConnectionTracker {
    pub source_ip: IpAddress,
    /// The local ports that the source reached, each once, in the order in
    /// which they were first seen.
    pub target_ports: Vec<u16>,
    pub first_seen: u64,
    pub last_seen: u64,
    pub connection_count: usize,
}

/// What a tracker holds, as plain values.
pub ghost struct TrackerModel {
    pub source_ip: IpAddress,
    pub target_ports: Seq<u16>,
    pub first_seen: u64,
    pub last_seen: u64,
    pub connection_count: usize,
}

impl View for ConnectionTracker {
    type V = TrackerModel;

    open spec fn view(&self) -> TrackerModel {
        TrackerModel {
            source_ip: self.source_ip,
            target_ports: self.target_ports@,
            first_seen: self.first_seen,
            last_seen: self.last_seen,
            connection_count: self.connection_count,
        }
    }
}

/// The tracker of a source that is seen for the first time at `now`.
pub open spec fn first_sight(source_ip: IpAddress, now: u64) -> TrackerModel {
    TrackerModel {
        source_ip,
        target_ports: Seq::empty(),
        first_seen: now,
        last_seen: now,
        connection_count: 0,
    }
}

/// A tracker after one more connection to `port` at `now`. The count stops
/// at the largest number that it can hold.
pub open spec fn stepped(t: TrackerModel, port: u16, now: u64) -> TrackerModel {
    TrackerModel {
        source_ip: t.source_ip,
        target_ports: if t.target_ports.contains(port) {
            t.target_ports
        } else {
            t.target_ports.push(port)
        },
        first_seen: t.first_seen,
        last_seen: now,
        connection_count: if t.connection_count < usize::MAX {
            (t.connection_count + 1) as usize
        } else {
            t.connection_count
        },
    }
}

/// The tracker of `remote` after a connection from it to `port` at `now`.
pub open spec fn tracker_after(
    trackers: Map<IpAddress, TrackerModel>,
    remote: IpAddress,
    port: u16,
    now: u64,
) -> TrackerModel {
    stepped(
        if trackers.contains_key(remote) {
            trackers[remote]
        } else {
            first_sight(remote, now)
        },
        port,
        now,
    )
}

/// The trackers after a connection from `remote` to `port` at `now`:
/// loopback sources are not tracked.
pub open spec fn trackers_after(
    trackers: Map<IpAddress, TrackerModel>,
    remote: IpAddress,
    port: u16,
    now: u64,
) -> Map<IpAddress, TrackerModel> {
    if remote.spec_is_loopback() {
        trackers
    } else {
        trackers.insert(remote, tracker_after(trackers, remote, port, now))
    }
}

/// A port scan: the source reached `threshold` ports or more, and was first
/// seen no longer than `window_seconds` ago.
pub open spec fn scan_detected(t: TrackerModel, threshold: usize, window_seconds: u64, now: u64)
    -> bool {
    t.target_ports.len() >= threshold && elapsed_ns(t.first_seen, now) <= window_seconds
        * NANOS_PER_SECOND
}

/// The decimal numerals of the ports with `sep` between them.
pub open spec fn ports_joined(ports: Seq<u16>, sep: Seq<char>) -> Seq<char>
    decreases ports.len(),
{
    if ports.len() == 0 {
        Seq::empty()
    } else if ports.len() == 1 {
        decimal_text(ports[0] as nat)
    } else {
        ports_joined(ports.drop_last(), sep) + sep + decimal_text(ports.last() as nat)
    }
}

/// Writes the ports with `sep` between them.
pub fn join_ports(ports: &Vec<u16>, sep: &str) -> (r: String)
    ensures
        r@ == ports_joined(ports@, sep@),
{
    let mut out = String::new();
    let mut i: usize = 0;
    proof {
        assert(ports@.take(0) =~= Seq::<u16>::empty());
    }
    while i < ports.len()
        invariant
            i <= ports.len(),
            out@ == ports_joined(ports@.take(i as int), sep@),
        decreases ports.len() - i,
    {
        proof {
            assert(ports@.take(i + 1).drop_last() =~= ports@.take(i as int));
            assert(ports@.take(i + 1).last() == ports@[i as int]);
            if i == 0 {
                assert(ports@.take(1)[0] == ports@[0]);
                assert(out@ =~= Seq::<char>::empty());
            }
        }
        if i > 0 {
            out.append(sep);
        }
        out.append(decimal(ports[i] as u64).as_str());
        proof {
            if i == 0 {
                assert(out@ =~= decimal_text(ports@[0] as nat));
            }
        }
        i += 1;
    }
    proof {
        assert(ports@.take(i as int) =~= ports@);
    }
    out
}

/// `ev` is the alert for a port scan by the source of `t`, raised at `now`.
pub open spec fn is_port_scan_alert(ev: &SecurityEvent, t: TrackerModel, now: &Timestamp) -> bool {
    &&& ev.timestamp.spec_secs() == now.spec_secs()
    &&& ev.timestamp.spec_nanos() == now.spec_nanos()
    &&& ev.event_type == EventType::PortScanDetected
    &&& ev.path@ == "/proc/net/tcp"@
    &&& ev.details.severity == Severity::High
    &&& ev.details.description@ == "Port scan detected from "@ + ip_text(t.source_ip)
        + " targeting "@ + decimal_text(t.target_ports.len()) + " ports"@
    &&& ev.details.metadata@ == Map::<Seq<char>, Seq<char>>::empty().insert(
        "source_ip"@,
        ip_text(t.source_ip),
    ).insert("ports_scanned"@, decimal_text(t.target_ports.len()))
    &&& ev.well_described()
}

/// `ev` is the alert for a search for services by the source of `t`.
pub open spec fn is_discovery_alert(ev: &SecurityEvent, t: TrackerModel, now: &Timestamp) -> bool {
    &&& ev.timestamp.spec_secs() == now.spec_secs()
    &&& ev.timestamp.spec_nanos() == now.spec_nanos()
    &&& ev.event_type == EventType::NetworkDiscovery
    &&& ev.path@ == "/proc/net/tcp"@
    &&& ev.details.severity == Severity::Medium
    &&& ev.details.description@ == "Network service discovery from "@ + ip_text(t.source_ip)
        + " on ports: ["@ + ports_joined(t.target_ports, ", "@) + "]"@
    &&& ev.details.metadata@ == Map::<Seq<char>, Seq<char>>::empty().insert(
        "source_ip"@,
        ip_text(t.source_ip),
    ).insert("service_ports"@, ports_joined(t.target_ports, ","@))
    &&& ev.well_described()
}

/// `ev` is the alert for an echo request from `source_ip`.
pub open spec fn is_ping_alert(ev: &SecurityEvent, source_ip: IpAddress, now: &Timestamp) -> bool {
    &&& ev.timestamp.spec_secs() == now.spec_secs()
    &&& ev.timestamp.spec_nanos() == now.spec_nanos()
    &&& ev.event_type == EventType::PingDetected
    &&& ev.path@ == "/proc/net/icmp"@
    &&& ev.details.severity == Severity::Low
    &&& ev.details.description@ == "ICMP ping detected from "@ + ip_text(source_ip)
    &&& ev.details.metadata@ == Map::<Seq<char>, Seq<char>>::empty().insert(
        "source_ip"@,
        ip_text(source_ip),
    ).insert("protocol"@, "ICMP"@)
    &&& ev.well_described()
}

/// Builds the alert for a port scan.
pub fn generate_port_scan_alert(tracker: &ConnectionTracker, now: &Timestamp) -> (ev:
    SecurityEvent)
    ensures
        is_port_scan_alert(&ev, tracker@, now),
{
    let source = tracker.source_ip.text();
    let count = decimal(tracker.target_ports.len() as u64);
    let mut metadata = Metadata::new();
    metadata.insert("source_ip".to_owned(), source.clone());
    metadata.insert("ports_scanned".to_owned(), count.clone());
    let mut description = concat("Port scan detected from ", source.as_str());
    description.append(" targeting ");
    description.append(count.as_str());
    description.append(" ports");
    SecurityEvent {
        timestamp: now.clone(),
        event_type: EventType::PortScanDetected,
        path: "/proc/net/tcp".to_owned(),
        details: EventDetails { severity: Severity::High, description, metadata },
    }
}

/// Builds the alert for a search for services.
pub fn generate_discovery_alert(tracker: &ConnectionTracker, now: &Timestamp) -> (ev:
    SecurityEvent)
    ensures
        is_discovery_alert(&ev, tracker@, now),
{
    let source = tracker.source_ip.text();
    let mut metadata = Metadata::new();
    metadata.insert("source_ip".to_owned(), source.clone());
    metadata.insert("service_ports".to_owned(), join_ports(&tracker.target_ports, ","));
    let mut description = concat("Network service discovery from ", source.as_str());
    description.append(" on ports: [");
    description.append(join_ports(&tracker.target_ports, ", ").as_str());
    description.append("]");
    SecurityEvent {
        timestamp: now.clone(),
        event_type: EventType::NetworkDiscovery,
        path: "/proc/net/tcp".to_owned(),
        details: EventDetails { severity: Severity::Medium, description, metadata },
    }
}

/// Builds the alert for an echo request.
pub fn ping_alert(source_ip: IpAddress, now: &Timestamp) -> (ev: SecurityEvent)
    ensures
        is_ping_alert(&ev, source_ip, now),
{
    let source = source_ip.text();
    let mut metadata = Metadata::new();
    metadata.insert("source_ip".to_owned(), source.clone());
    metadata.insert("protocol".to_owned(), "ICMP".to_owned());
    let description = concat("ICMP ping detected from ", source.as_str());
    SecurityEvent {
        timestamp: now.clone(),
        event_type: EventType::PingDetected,
        path: "/proc/net/icmp".to_owned(),
        details: EventDetails { severity: Severity::Low, description, metadata },
    }
}

/// The line of the protocol statistics that holds the counters of ICMP: it
/// begins with `Icmp:` and is not the line of the column names.
pub open spec fn is_icmp_counters(line: Seq<char>) -> bool {
    has_prefix(line, "Icmp:"@) && !has_substring(line, "InMsgs"@)
}

pub fn is_icmp_counters_line(line: &str) -> (r: bool)
    ensures
        r == is_icmp_counters(line@),
{
    starts_with(line, "Icmp:") && !contains(line, "InMsgs")
}

/// Reads the counters line of ICMP. Where it has more than eight fields an
/// echo request is reported, with the unspecified address as its source:
/// the counters are not compared with earlier ones.
pub fn parse_icmp_stats(line: &str, now: &Timestamp) -> (r: Option<SecurityEvent>)
    ensures
        r.is_some() == (fields(line@).len() > 8),
        r.is_some() ==> is_ping_alert(&r.unwrap(), IpAddress::V4(0), now),
{
    let parts = split_fields(line);
    if parts.len() > 8 {
        Some(ping_alert(IpAddress::V4(0), now))
    } else {
        None
    }
}

fn advance(t: &ConnectionTracker, port: u16, now: u64) -> (r: ConnectionTracker)
    ensures
        r@ == stepped(t@, port, now),
{
    let mut ports: Vec<u16> = Vec::new();
    let mut seen = false;
    let mut i: usize = 0;
    while i < t.target_ports.len()
        invariant
            i <= t.target_ports.len(),
            ports@ == t.target_ports@.take(i as int),
            seen == t.target_ports@.take(i as int).contains(port),
        decreases t.target_ports.len() - i,
    {
        let p = t.target_ports[i];
        ports.push(p);
        proof {
            let before = t.target_ports@.take(i as int);
            let after = t.target_ports@.take(i + 1);
            assert(after =~= before.push(p));
            if before.contains(port) {
                let k = choose|k: int| 0 <= k < before.len() && before[k] == port;
                assert(after[k] == port);
            }
            if p == port {
                assert(after[i as int] == port);
            }
            if after.contains(port) && p != port {
                let k = choose|k: int| 0 <= k < after.len() && after[k] == port;
                assert(before[k] == port);
            }
        }
        if p == port {
            seen = true;
        }
        i += 1;
    }
    proof {
        assert(t.target_ports@.take(i as int) =~= t.target_ports@);
    }
    if !seen {
        ports.push(port);
    }
    ConnectionTracker {
        source_ip: t.source_ip,
        target_ports: ports,
        first_seen: t.first_seen,
        last_seen: now,
        connection_count: if t.connection_count < usize::MAX {
            t.connection_count + 1
        } else {
            t.connection_count
        },
    }
}

/// The pairs of source and tracker that a vector of trackers holds.
pub open spec fn tracker_pairs(trackers: Seq<ConnectionTracker>) -> Seq<(IpAddress, TrackerModel)> {
    Seq::new(trackers.len(), |i: int| (trackers[i].source_ip, trackers[i]@))
}

/// The intrusion detection: the trackers and the thresholds.
#[derive(Debug)]
pub struct NetworkIDS {
    trackers: Vec<ConnectionTracker>,
    scan_threshold: usize,
    scan_window_seconds: u64,
    ping_threshold: usize,
}

impl View for NetworkIDS {
    type V = Map<IpAddress, TrackerModel>;

    open spec fn view(&self) -> Map<IpAddress, TrackerModel> {
        pairs_map(self.pairs())
    }
}

impl NetworkIDS {
    pub closed spec fn pairs(&self) -> Seq<(IpAddress, TrackerModel)> {
        tracker_pairs(self.trackers@)
    }

    pub closed spec fn spec_scan_threshold(&self) -> usize {
        self.scan_threshold
    }

    pub closed spec fn spec_scan_window_seconds(&self) -> u64 {
        self.scan_window_seconds
    }

    pub closed spec fn spec_ping_threshold(&self) -> usize {
        self.ping_threshold
    }

    #[verifier::type_invariant]
    spec fn well_formed(&self) -> bool {
        distinct_keys(self.pairs())
    }

    pub fn new(port_scan_threshold: usize, scan_window_seconds: u64, ping_threshold: usize) -> (r:
        NetworkIDS)
        ensures
            r@ == Map::<IpAddress, TrackerModel>::empty(),
            r.spec_scan_threshold() == port_scan_threshold,
            r.spec_scan_window_seconds() == scan_window_seconds,
            r.spec_ping_threshold() == ping_threshold,
    {
        NetworkIDS {
            trackers: Vec::new(),
            scan_threshold: port_scan_threshold,
            scan_window_seconds,
            ping_threshold,
        }
    }

    pub fn scan_threshold(&self) -> (r: usize)
        ensures
            r == self.spec_scan_threshold(),
    {
        self.scan_threshold
    }

    pub fn scan_window_seconds(&self) -> (r: u64)
        ensures
            r == self.spec_scan_window_seconds(),
    {
        self.scan_window_seconds
    }

    pub fn ping_threshold(&self) -> (r: usize)
        ensures
            r == self.spec_ping_threshold(),
    {
        self.ping_threshold
    }

    /// Builds the alert for an echo request from `source_ip`.
    pub fn generate_ping_alert(&self, source_ip: IpAddress, now: &Timestamp) -> (ev: SecurityEvent)
        ensures
            is_ping_alert(&ev, source_ip, now),
    {
        ping_alert(source_ip, now)
    }

    /// How many sources are tracked.
    pub fn tracker_count(&self) -> (r: usize)
        ensures
            r == self.pairs().len(),
    {
        self.trackers.len()
    }

    fn position(&self, source: &IpAddress) -> (r: Option<usize>)
        ensures
            match r {
                Some(i) => i < self.pairs().len() && self.pairs()[i as int].0 == *source
                    && self.trackers@[i as int].source_ip == *source,
                None => forall|j: int| 0 <= j < self.pairs().len() ==> (#[trigger] self.pairs()[j]).0
                    != *source,
            },
    {
        let mut i: usize = 0;
        while i < self.trackers.len()
            invariant
                i <= self.trackers.len(),
                forall|j: int| 0 <= j < i ==> (#[trigger] self.pairs()[j]).0 != *source,
            decreases self.trackers.len() - i,
        {
            if self.trackers[i].source_ip == *source {
                return Some(i);
            }
            i += 1;
        }
        None
    }

    /// When a source was first seen, if it is tracked.
    pub fn first_seen(&self, source: &IpAddress) -> (r: Option<u64>)
        ensures
            match r {
                Some(t) => self@.contains_key(*source) && self@[*source].first_seen == t,
                None => !self@.contains_key(*source),
            },
    {
        proof {
            use_type_invariant(self);
            lemma_pairs_map(self.pairs());
        }
        match self.position(source) {
            Some(i) => Some(self.trackers[i].first_seen),
            None => None,
        }
    }

    /// Whether the window of a port scan is still open for a tracker.
    fn within_window(&self, first_seen: u64, now: u64) -> (r: bool)
        ensures
            r == (elapsed_ns(first_seen, now) <= self.spec_scan_window_seconds()
                * NANOS_PER_SECOND),
    {
        let elapsed = elapsed_nanos(first_seen, now);
        let whole = elapsed / NANOS_PER_SECOND;
        let rest = elapsed % NANOS_PER_SECOND;
        whole < self.scan_window_seconds || (whole == self.scan_window_seconds && rest == 0)
    }

    /// Takes note of one connection, given as local address, local port,
    /// remote address and remote port, seen at `now_ns` on the monotonic
    /// clock. A connection from a loopback address changes nothing.
    /// Otherwise the tracker of the remote address is brought up to date,
    /// and the alerts that it then calls for come back: the one for a port
    /// scan first, then the one for a search for services.
    pub fn track_connection(
        &mut self,
        connection: (IpAddress, u16, IpAddress, u16),
        now_ns: u64,
        now: &Timestamp,
    ) -> (events: Vec<SecurityEvent>)
        ensures
            final(self)@ == trackers_after(old(self)@, connection.2, connection.1, now_ns),
            final(self).spec_scan_threshold() == old(self).spec_scan_threshold(),
            final(self).spec_scan_window_seconds() == old(self).spec_scan_window_seconds(),
            final(self).spec_ping_threshold() == old(self).spec_ping_threshold(),
            connection.2.spec_is_loopback() ==> events@.len() == 0,
            !connection.2.spec_is_loopback() ==> ({
                let t = tracker_after(old(self)@, connection.2, connection.1, now_ns);
                let scan = scan_detected(
                    t,
                    old(self).spec_scan_threshold(),
                    old(self).spec_scan_window_seconds(),
                    now_ns,
                );
                let discovery = discovery_count(t.target_ports) >= 3;
                &&& events@.len() == (if scan {
                    1int
                } else {
                    0int
                }) + (if discovery {
                    1int
                } else {
                    0int
                })
                &&& scan ==> is_port_scan_alert(&events@[0], t, now)
                &&& discovery ==> is_discovery_alert(&events@[events@.len() - 1], t, now)
            }),
    {
        let local_port = connection.1;
        let remote_ip = connection.2;
        let mut events: Vec<SecurityEvent> = Vec::new();
        if remote_ip.is_loopback() {
            return events;
        }
        proof {
            use_type_invariant(&*self);
            lemma_pairs_map(self.pairs());
        }
        let ghost before = self.pairs();
        let found = self.position(&remote_ip);
        let scan_threshold = self.scan_threshold;
        let scan_window_seconds = self.scan_window_seconds;
        let ping_threshold = self.ping_threshold;
        let updated = match found {
            Some(i) => advance(&self.trackers[i], local_port, now_ns),
            None => advance(
                &ConnectionTracker {
                    source_ip: remote_ip,
                    target_ports: Vec::new(),
                    first_seen: now_ns,
                    last_seen: now_ns,
                    connection_count: 0,
                },
                local_port,
                now_ns,
            ),
        };
        proof {
            match found {
                Some(i) => {
                    assert(self@.contains_key(remote_ip) && self@[remote_ip] == before[i as int].1);
                },
                None => {
                    assert(!self@.contains_key(remote_ip)) by {
                        if self@.contains_key(remote_ip) {
                            let j = choose|j: int|
                                0 <= j < before.len() && (#[trigger] before[j]).0 == remote_ip;
                        }
                    }
                },
            }
            assert(updated@ == tracker_after(self@, remote_ip, local_port, now_ns));
        }
        if updated.target_ports.len() >= scan_threshold && self.within_window(
            updated.first_seen,
            now_ns,
        ) {
            events.push(generate_port_scan_alert(&updated, now));
        }
        if is_discovery_pattern_ports(&updated.target_ports) {
            events.push(generate_discovery_alert(&updated, now));
        }
        let mut taken = NetworkIDS::new(scan_threshold, scan_window_seconds, ping_threshold);
        core::mem::swap(self, &mut taken);
        let mut trackers = taken.trackers;
        let ghost model = updated@;
        match found {
            Some(i) => {
                trackers[i] = updated;
                proof {
                    lemma_update_pair(before, i as int, model);
                    assert(tracker_pairs(trackers@) =~= before.update(
                        i as int,
                        (remote_ip, model),
                    ));
                }
            },
            None => {
                trackers.push(updated);
                proof {
                    lemma_push_pair(before, remote_ip, model);
                    assert(tracker_pairs(trackers@) =~= before.push((remote_ip, model)));
                }
            },
        }
        *self = NetworkIDS { trackers, scan_threshold, scan_window_seconds, ping_threshold };
        events
    }

    /// Drops the trackers that saw nothing for five minutes.
    pub fn cleanup_old_connections(&mut self, now_ns: u64)
        ensures
            final(self)@ == restricted(
                old(self)@,
                |t: TrackerModel|
                    elapsed_ns(t.last_seen, now_ns) < TRACKER_IDLE_SECONDS * NANOS_PER_SECOND,
            ),
            final(self).spec_scan_threshold() == old(self).spec_scan_threshold(),
            final(self).spec_scan_window_seconds() == old(self).spec_scan_window_seconds(),
            final(self).spec_ping_threshold() == old(self).spec_ping_threshold(),
    {
        proof {
            use_type_invariant(&*self);
        }
        let ghost before = self.pairs();
        let ghost live = |t: TrackerModel|
            elapsed_ns(t.last_seen, now_ns) < TRACKER_IDLE_SECONDS * NANOS_PER_SECOND;
        let scan_threshold = self.scan_threshold;
        let scan_window_seconds = self.scan_window_seconds;
        let ping_threshold = self.ping_threshold;
        let mut taken = NetworkIDS::new(scan_threshold, scan_window_seconds, ping_threshold);
        core::mem::swap(self, &mut taken);
        let mut old_trackers = taken.trackers;
        let mut kept: Vec<ConnectionTracker> = Vec::new();
        let total: usize = old_trackers.len();
        let mut done: usize = 0;
        proof {
            assert(before.take(0) =~= Seq::<(IpAddress, TrackerModel)>::empty());
            assert(before.skip(0) =~= before);
        }
        while old_trackers.len() > 0
            invariant
                done + old_trackers@.len() == total,
                total == before.len(),
                live == (|t: TrackerModel|
                    elapsed_ns(t.last_seen, now_ns) < TRACKER_IDLE_SECONDS * NANOS_PER_SECOND),
                tracker_pairs(old_trackers@) == before.skip(done as int),
                tracker_pairs(kept@) == keyed::kept(before.take(done as int), live),
            decreases old_trackers@.len(),
        {
            let ghost rest = tracker_pairs(old_trackers@);
            let ghost chosen = tracker_pairs(kept@);
            let ghost waiting = old_trackers@;
            let t = old_trackers.remove(0);
            proof {
                assert(rest[0] == before[done as int]);
                assert(rest[0] == (t.source_ip, t@));
                assert forall|j: int| 0 <= j < old_trackers@.len() implies tracker_pairs(
                    old_trackers@,
                )[j] == before.skip(done + 1)[j] by {
                    assert(old_trackers@[j] == waiting[j + 1]);
                    assert(rest[j + 1] == before.skip(done as int)[j + 1]);
                }
                assert(tracker_pairs(old_trackers@) =~= before.skip(done + 1));
                assert(before.take(done + 1).drop_last() =~= before.take(done as int));
                assert(before.take(done + 1).last() == before[done as int]);
            }
            if elapsed_nanos(t.last_seen, now_ns) < TRACKER_IDLE_SECONDS * NANOS_PER_SECOND {
                kept.push(t);
                proof {
                    assert(tracker_pairs(kept@) =~= chosen.push(before[done as int]));
                }
            }
            done += 1;
        }
        proof {
            assert(before.take(done as int) =~= before);
            lemma_kept(before, live);
        }
        *self = NetworkIDS { trackers: kept, scan_threshold, scan_window_seconds, ping_threshold };
    }
}

} // verus!
