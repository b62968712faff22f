//! The network poller: which connections of the kernel's tables are new,
//! and how serious a connection to a remote endpoint is.

use vstd::prelude::*;
use crate::event::{EventDetails, EventType, SecurityEvent, Severity};
use crate::metadata::Metadata;
use crate::text::{concat, decimal, decimal_text, lower_hex, lower_hex_text};
use crate::time::Timestamp;

verus! {

/// An address of the Internet Protocol. A version 4 address `a.b.c.d` is
/// held as the number whose bytes are `a`, `b`, `c`, `d` from the most
/// significant; a version 6 address likewise with its sixteen bytes.
#[derive(Debug, Clone, Copy, PartialEq, Eq, Structural)]
pub enum IpAddress {
    V4(u32),
    V6(u128),
}

/// An address and a port.
#[derive(Debug, Clone, Copy, PartialEq, Eq, Structural)]
pub struct SocketAddress {
    pub ip: IpAddress,
    pub port: u16,
}

impl IpAddress {
    /// The first byte of a version 4 address.
    pub open spec fn first_octet(v4: u32) -> int {
        v4 as int / 0x100_0000
    }

    /// The second byte of a version 4 address.
    pub open spec fn second_octet(v4: u32) -> int {
        (v4 as int / 0x1_0000) % 0x100
    }

    /// The address is in `127.0.0.0/8`, or is `::1`.
    pub open spec fn spec_is_loopback(self) -> bool {
        match self {
            IpAddress::V4(a) => Self::first_octet(a) == 127,
            IpAddress::V6(a) => a == 1,
        }
    }

    /// The address is a version 4 address in one of the private ranges
    /// `10.0.0.0/8`, `172.16.0.0/12` and `192.168.0.0/16`.
    pub open spec fn spec_is_private(self) -> bool {
        match self {
            IpAddress::V4(a) => Self::first_octet(a) == 10 || (Self::first_octet(a) == 172 && 16
                <= Self::second_octet(a) <= 31) || (Self::first_octet(a) == 192
                && Self::second_octet(a) == 168),
            IpAddress::V6(_) => false,
        }
    }

    pub fn is_loopback(&self) -> (r: bool)
        ensures
            r == self.spec_is_loopback(),
    {
        match self {
            IpAddress::V4(a) => *a / 0x100_0000 == 127,
            IpAddress::V6(a) => *a == 1,
        }
    }

    pub fn is_private(&self) -> (r: bool)
        ensures
            r == self.spec_is_private(),
    {
        match self {
            IpAddress::V4(a) => {
                let first = *a / 0x100_0000;
                let second = (*a / 0x1_0000) % 0x100;
                first == 10 || (first == 172 && 16 <= second && second <= 31) || (first == 192
                    && second == 168)
            },
            IpAddress::V6(_) => false,
        }
    }
}

/// The sixteen bits of a version 6 address that stand at `shift`.
pub open spec fn group_at(a: u128, shift: int) -> nat {
    ((a as int / shift) % 0x1_0000) as nat
}

/// The text of an address: a version 4 address as four decimal numbers
/// with dots between them, a version 6 address as its eight groups in
/// lowercase hexadecimal with colons between them, none left out.
pub open spec fn ip_text(ip: IpAddress) -> Seq<char> {
    match ip {
        IpAddress::V4(a) => decimal_text((a as int / 0x100_0000) as nat) + "."@ + decimal_text(
            ((a as int / 0x1_0000) % 0x100) as nat,
        ) + "."@ + decimal_text(((a as int / 0x100) % 0x100) as nat) + "."@ + decimal_text(
            (a as int % 0x100) as nat,
        ),
        IpAddress::V6(a) => lower_hex_text(group_at(a, 0x1_0000_0000_0000_0000_0000_0000_0000))
            + ":"@ + lower_hex_text(group_at(a, 0x1_0000_0000_0000_0000_0000_0000)) + ":"@
            + lower_hex_text(group_at(a, 0x1_0000_0000_0000_0000_0000)) + ":"@ + lower_hex_text(
            group_at(a, 0x1_0000_0000_0000_0000),
        ) + ":"@ + lower_hex_text(group_at(a, 0x1_0000_0000_0000)) + ":"@ + lower_hex_text(
            group_at(a, 0x1_0000_0000),
        ) + ":"@ + lower_hex_text(group_at(a, 0x1_0000)) + ":"@ + lower_hex_text(group_at(a, 1)),
    }
}

fn group_of(a: u128, shift: u128) -> (r: u64)
    requires
        shift > 0,
    ensures
        r == group_at(a, shift as int),
{
    ((a / shift) % 0x1_0000) as u64
}

impl IpAddress {
    /// Writes the address.
    pub fn text(&self) -> (r: String)
        ensures
            r@ == ip_text(*self),
            r@.len() > 0,
    {
        match self {
            IpAddress::V4(a) => {
                let mut out = decimal((*a / 0x100_0000) as u64);
                out.append(".");
                out.append(decimal(((*a / 0x1_0000) % 0x100) as u64).as_str());
                out.append(".");
                out.append(decimal(((*a / 0x100) % 0x100) as u64).as_str());
                out.append(".");
                out.append(decimal((*a % 0x100) as u64).as_str());
                out
            },
            IpAddress::V6(a) => {
                let mut out = lower_hex(group_of(*a, 0x1_0000_0000_0000_0000_0000_0000_0000));
                out.append(":");
                out.append(lower_hex(group_of(*a, 0x1_0000_0000_0000_0000_0000_0000)).as_str());
                out.append(":");
                out.append(lower_hex(group_of(*a, 0x1_0000_0000_0000_0000_0000)).as_str());
                out.append(":");
                out.append(lower_hex(group_of(*a, 0x1_0000_0000_0000_0000)).as_str());
                out.append(":");
                out.append(lower_hex(group_of(*a, 0x1_0000_0000_0000)).as_str());
                out.append(":");
                out.append(lower_hex(group_of(*a, 0x1_0000_0000)).as_str());
                out.append(":");
                out.append(lower_hex(group_of(*a, 0x1_0000)).as_str());
                out.append(":");
                out.append(lower_hex(group_of(*a, 1)).as_str());
                out
            },
        }
    }
}

/// The severity of a connection to `remote`. The first of these decides: a
/// loopback address is `Low`; a private address is `Medium`; the ports of
/// remote shells, file transfer and remote desktops (22, 21, 23, 3389) are
/// `High`; the web ports (80, 443) are `Low`; other ports below 1024 are
/// `Medium`; the rest is `Low`.
pub open spec fn connection_severity(remote: SocketAddress) -> Severity {
    if remote.ip.spec_is_loopback() {
        Severity::Low
    } else if remote.ip.spec_is_private() {
        Severity::Medium
    } else if remote.port == 22 || remote.port == 21 || remote.port == 23 || remote.port == 3389 {
        Severity::High
    } else if remote.port == 80 || remote.port == 443 {
        Severity::Low
    } else if remote.port < 1024 {
        Severity::Medium
    } else {
        Severity::Low
    }
}

pub fn classify_connection_severity(remote: &SocketAddress) -> (r: Severity)
    ensures
        r == connection_severity(*remote),
{
    if remote.ip.is_loopback() {
        Severity::Low
    } else if remote.ip.is_private() {
        Severity::Medium
    } else if remote.port == 22 || remote.port == 21 || remote.port == 23 || remote.port == 3389 {
        Severity::High
    } else if remote.port == 80 || remote.port == 443 {
        Severity::Low
    } else if remote.port < 1024 {
        Severity::Medium
    } else {
        Severity::Low
    }
}

/// One line of a connection table of the kernel.
#[derive(Debug)]
pub struct ConnectionEntry {
    /// The local endpoint, as it is shown.
    pub local_address: String,
    /// The remote endpoint, as it is shown.
    pub remote_address: String,
    /// The remote endpoint.
    pub remote: SocketAddress,
    /// The state of the connection, as it is shown.
    pub state: String,
    pub inode: u64,
}

/// The metadata of the event for a connection.
pub open spec fn connection_metadata(entry: &ConnectionEntry, protocol: Seq<char>) -> Map<
    Seq<char>,
    Seq<char>,
> {
    Map::empty().insert("protocol"@, protocol).insert(
        "local_address"@,
        entry.local_address@,
    ).insert("remote_address"@, entry.remote_address@).insert("state"@, entry.state@).insert(
        "inode"@,
        decimal_text(entry.inode as nat),
    )
}

/// `ev` is the event for the new connection `entry`, seen at `now`.
pub open spec fn reports_connection(
    ev: &SecurityEvent,
    entry: &ConnectionEntry,
    protocol: Seq<char>,
    now: &Timestamp,
) -> bool {
    &&& ev.timestamp.spec_secs() == now.spec_secs()
    &&& ev.timestamp.spec_nanos() == now.spec_nanos()
    &&& ev.event_type == EventType::NetworkConnection
    &&& ev.path@ == "/proc/net/tcp"@
    &&& ev.details.severity == connection_severity(entry.remote)
    &&& ev.details.description@ == "New "@ + protocol + " connection to "@ + entry.remote_address@
    &&& ev.details.metadata@ == connection_metadata(entry, protocol)
    &&& ev.well_described()
}

/// Builds the event for a new connection.
pub fn emit_network_event(entry: &ConnectionEntry, protocol: &str, now: &Timestamp) -> (ev:
    SecurityEvent)
    ensures
        reports_connection(&ev, entry, protocol@, now),
{
    let severity = classify_connection_severity(&entry.remote);
    let mut metadata = Metadata::new();
    metadata.insert("protocol".to_owned(), protocol.to_owned());
    metadata.insert("local_address".to_owned(), entry.local_address.clone());
    metadata.insert("remote_address".to_owned(), entry.remote_address.clone());
    metadata.insert("state".to_owned(), entry.state.clone());
    metadata.insert("inode".to_owned(), decimal(entry.inode));
    let mut description = concat("New ", protocol);
    description.append(" connection to ");
    description.append(entry.remote_address.as_str());
    proof {
        reveal_strlit("New ");
    }
    SecurityEvent {
        timestamp: now.clone(),
        event_type: EventType::NetworkConnection,
        path: "/proc/net/tcp".to_owned(),
        details: EventDetails { severity, description, metadata },
    }
}

/// The remote endpoints of a table.
pub open spec fn remotes(entries: Seq<ConnectionEntry>) -> Set<SocketAddress> {
    Set::new(|a: SocketAddress| exists|i: int| 0 <= i < entries.len() && (#[trigger] entries[i]).remote == a)
}

/// An entry is reported when its remote endpoint is not known and is not a
/// loopback address.
pub open spec fn is_fresh(entry: &ConnectionEntry, known: Set<SocketAddress>) -> bool {
    !known.contains(entry.remote) && !entry.remote.ip.spec_is_loopback()
}

/// The positions, in order, of the entries of a table that are reported.
pub open spec fn fresh_positions(entries: Seq<ConnectionEntry>, known: Set<SocketAddress>) -> Seq<
    int,
>
    decreases entries.len(),
{
    if entries.len() == 0 {
        Seq::empty()
    } else if is_fresh(&entries.last(), known) {
        fresh_positions(entries.drop_last(), known).push(entries.len() - 1)
    } else {
        fresh_positions(entries.drop_last(), known)
    }
}

/// `events` holds, in order, the events for the entries at `positions`.
pub open spec fn events_report(
    events: Seq<SecurityEvent>,
    positions: Seq<int>,
    entries: Seq<ConnectionEntry>,
    protocol: Seq<char>,
    now: &Timestamp,
) -> bool {
    &&& events.len() == positions.len()
    &&& forall|k: int|
        0 <= k < positions.len() ==> 0 <= #[trigger] positions[k] < entries.len()
            && reports_connection(&events[k], &entries[positions[k]], protocol, now)
}

/// Whether `address` is among `known`.
pub fn is_known(known: &Vec<SocketAddress>, address: &SocketAddress) -> (r: bool)
    ensures
        r == known@.to_set().contains(*address),
{
    let mut i: usize = 0;
    while i < known.len()
        invariant
            i <= known.len(),
            forall|j: int| 0 <= j < i ==> known@[j] != *address,
        decreases known.len() - i,
    {
        if known[i] == *address {
            proof {
                assert(known@.contains(*address));
            }
            return true;
        }
        i += 1;
    }
    proof {
        assert(!known@.contains(*address));
    }
    false
}

/// Adds the remote endpoints of a table to `known`.
pub fn remember(known: &mut Vec<SocketAddress>, entries: &Vec<ConnectionEntry>)
    ensures
        final(known)@.to_set() == old(known)@.to_set().union(remotes(entries@)),
{
    let ghost start = known@.to_set();
    let mut i: usize = 0;
    proof {
        assert(known@.to_set() =~= start.union(remotes(entries@.take(0))));
    }
    while i < entries.len()
        invariant
            i <= entries.len(),
            known@.to_set() == start.union(remotes(entries@.take(i as int))),
        decreases entries.len() - i,
    {
        let remote = entries[i].remote;
        let ghost before = known@;
        if !is_known(known, &remote) {
            known.push(remote);
        }
        proof {
            let seen = entries@.take(i as int);
            let more = entries@.take(i + 1);
            assert forall|a: SocketAddress| known@.to_set().contains(a) <==> start.union(
                remotes(more),
            ).contains(a) by {
                if known@.contains(a) {
                    let k = choose|k: int| 0 <= k < known@.len() && known@[k] == a;
                    if k < before.len() {
                        assert(before[k] == a);
                        assert(before.contains(a));
                        assert(before.to_set().contains(a));
                        if remotes(seen).contains(a) {
                            let j = choose|j: int|
                                0 <= j < seen.len() && (#[trigger] seen[j]).remote == a;
                            assert(more[j].remote == a);
                        }
                    } else {
                        assert(more[i as int].remote == a);
                    }
                }
                if start.contains(a) {
                    assert(before.to_set().contains(a));
                    assert(before.contains(a));
                    let k = choose|k: int| 0 <= k < before.len() && before[k] == a;
                    assert(known@[k] == a);
                }
                if remotes(more).contains(a) {
                    let j = choose|j: int| 0 <= j < more.len() && (#[trigger] more[j]).remote == a;
                    if j < i {
                        assert(seen[j].remote == a);
                        assert(remotes(seen).contains(a));
                        assert(before.to_set().contains(a));
                        assert(before.contains(a));
                        let k = choose|k: int| 0 <= k < before.len() && before[k] == a;
                        assert(known@[k] == a);
                    } else {
                        assert(a == remote);
                        if before.contains(a) {
                            let k = choose|k: int| 0 <= k < before.len() && before[k] == a;
                            assert(known@[k] == a);
                        } else {
                            assert(known@[before.len() as int] == a);
                        }
                    }
                }
            }
            assert(known@.to_set() =~= start.union(remotes(more)));
        }
        i += 1;
    }
    proof {
        assert(entries@.take(i as int) =~= entries@);
    }
}

/// Appends the events for the entries of one table that are new against
/// `known`.
pub fn report_new(
    events: &mut Vec<SecurityEvent>,
    known: &Vec<SocketAddress>,
    entries: &Vec<ConnectionEntry>,
    protocol: &str,
    now: &Timestamp,
)
    ensures
        final(events)@.len() >= old(events)@.len(),
        final(events)@.take(old(events)@.len() as int) == old(events)@,
        events_report(
            final(events)@.skip(old(events)@.len() as int),
            fresh_positions(entries@, known@.to_set()),
            entries@,
            protocol@,
            now,
        ),
{
    let ghost start = events@;
    let ghost known_set = known@.to_set();
    let mut i: usize = 0;
    proof {
        assert(events@.take(start.len() as int) =~= start);
    }
    while i < entries.len()
        invariant
            i <= entries.len(),
            known_set == known@.to_set(),
            events@.len() >= start.len(),
            events@.take(start.len() as int) == start,
            events_report(
                events@.skip(start.len() as int),
                fresh_positions(entries@.take(i as int), known_set),
                entries@,
                protocol@,
                now,
            ),
        decreases entries.len() - i,
    {
        proof {
            assert(entries@.take(i + 1).drop_last() =~= entries@.take(i as int));
            assert(entries@.take(i + 1).last() == entries@[i as int]);
        }
        let ghost earlier = fresh_positions(entries@.take(i as int), known_set);
        let ghost later = fresh_positions(entries@.take(i + 1), known_set);
        let ghost done = events@;
        let entry = &entries[i];
        if !is_known(known, &entry.remote) && !entry.remote.ip.is_loopback() {
            events.push(emit_network_event(entry, protocol, now));
            proof {
                assert(later == earlier.push(i as int));
                assert(events@.take(start.len() as int) =~= start);
                let tail = events@.skip(start.len() as int);
                let tail_before = done.skip(start.len() as int);
                assert forall|k: int| 0 <= k < later.len() implies 0 <= #[trigger] later[k]
                    < entries@.len() && reports_connection(
                    &tail[k],
                    &entries@[later[k]],
                    protocol@,
                    now,
                ) by {
                    if k < earlier.len() {
                        assert(tail[k] == tail_before[k]);
                        assert(later[k] == earlier[k]);
                    }
                }
            }
        } else {
            proof {
                assert(later == earlier);
            }
        }
        i += 1;
    }
    proof {
        assert(entries@.take(i as int) =~= entries@);
    }
}

/// The poller of the connection tables.
#[derive(Debug)]
pub struct NetworkMonitor {
    known_connections: Vec<SocketAddress>,
    poll_interval_seconds: u64,
}

impl NetworkMonitor {
    /// The remote endpoints that were there at the last look.
    pub closed spec fn known(&self) -> Set<SocketAddress> {
        self.known_connections@.to_set()
    }

    /// The seconds between two looks at the tables.
    pub closed spec fn spec_poll_interval_seconds(&self) -> u64 {
        self.poll_interval_seconds
    }

    /// A poller that knows no endpoint and polls every two seconds.
    pub fn new() -> (r: NetworkMonitor)
        ensures
            r.known() == Set::<SocketAddress>::empty(),
            r.spec_poll_interval_seconds() == 2,
    {
        let r = NetworkMonitor { known_connections: Vec::new(), poll_interval_seconds: 2 };
        proof {
            assert(r.known() =~= Set::<SocketAddress>::empty());
        }
        r
    }

    /// The time between two looks at the tables, in seconds.
    pub fn poll_interval_seconds(&self) -> (r: u64)
        ensures
            r == self.spec_poll_interval_seconds(),
    {
        self.poll_interval_seconds
    }

    /// Takes note of every endpoint that is there at start-up, so that none
    /// of them is reported.
    pub fn initialize_known_connections(
        &mut self,
        tcp: &Vec<ConnectionEntry>,
        tcp6: &Vec<ConnectionEntry>,
    )
        ensures
            final(self).known() == old(self).known().union(remotes(tcp@)).union(remotes(tcp6@)),
            final(self).spec_poll_interval_seconds() == old(self).spec_poll_interval_seconds(),
    {
        remember(&mut self.known_connections, tcp);
        remember(&mut self.known_connections, tcp6);
    }

    /// One look at the tables. The entries whose remote endpoint was not
    /// there at the last look, loopback aside, are reported: those of the
    /// first table, then those of the second. What is known afterwards is
    /// what the tables hold now.
    pub fn check_new_connections(
        &mut self,
        tcp: &Vec<ConnectionEntry>,
        tcp6: &Vec<ConnectionEntry>,
        now: &Timestamp,
    ) -> (events: Vec<SecurityEvent>)
        ensures
            final(self).known() == remotes(tcp@).union(remotes(tcp6@)),
            final(self).spec_poll_interval_seconds() == old(self).spec_poll_interval_seconds(),
            ({
                let n = fresh_positions(tcp@, old(self).known()).len() as int;
                &&& n <= events@.len()
                &&& events_report(
                    events@.take(n),
                    fresh_positions(tcp@, old(self).known()),
                    tcp@,
                    "TCP"@,
                    now,
                )
                &&& events_report(
                    events@.skip(n),
                    fresh_positions(tcp6@, old(self).known()),
                    tcp6@,
                    "TCP6"@,
                    now,
                )
            }),
    {
        let mut events: Vec<SecurityEvent> = Vec::new();
        report_new(&mut events, &self.known_connections, tcp, "TCP", now);
        proof {
            assert(events@.skip(0) =~= events@);
        }
        let ghost first = events@;
        report_new(&mut events, &self.known_connections, tcp6, "TCP6", now);
        let mut current: Vec<SocketAddress> = Vec::new();
        remember(&mut current, tcp);
        remember(&mut current, tcp6);
        proof {
            assert(Seq::<SocketAddress>::empty().to_set() =~= Set::<SocketAddress>::empty());
            assert(current@.to_set() =~= remotes(tcp@).union(remotes(tcp6@)));
        }
        self.known_connections = current;
        events
    }
}

/// Start-up is quiet: a look at the very tables that were there when the
/// known endpoints were initialised reports nothing.
pub proof fn lemma_startup_quiescence(
    known: Set<SocketAddress>,
    tcp: Seq<ConnectionEntry>,
    tcp6: Seq<ConnectionEntry>,
)
    ensures
        fresh_positions(tcp, known.union(remotes(tcp)).union(remotes(tcp6))).len() == 0,
        fresh_positions(tcp6, known.union(remotes(tcp)).union(remotes(tcp6))).len() == 0,
{
    let all = known.union(remotes(tcp)).union(remotes(tcp6));
    assert forall|i: int| 0 <= i < tcp.len() implies all.contains((#[trigger] tcp[i]).remote) by {
        assert(remotes(tcp).contains(tcp[i].remote));
    }
    assert forall|i: int| 0 <= i < tcp6.len() implies all.contains((#[trigger] tcp6[i]).remote) by {
        assert(remotes(tcp6).contains(tcp6[i].remote));
    }
    lemma_known_are_not_fresh(tcp, all);
    lemma_known_are_not_fresh(tcp6, all);
}

/// A table whose remote endpoints are all known has no entry to report.
pub proof fn lemma_known_are_not_fresh(entries: Seq<ConnectionEntry>, known: Set<SocketAddress>)
    requires
        forall|i: int| 0 <= i < entries.len() ==> known.contains((#[trigger] entries[i]).remote),
    ensures
        fresh_positions(entries, known).len() == 0,
    decreases entries.len(),
{
    if entries.len() > 0 {
        let init = entries.drop_last();
        assert forall|i: int| 0 <= i < init.len() implies known.contains(
            (#[trigger] init[i]).remote,
        ) by {
            assert(init[i] == entries[i]);
        }
        lemma_known_are_not_fresh(init, known);
        assert(known.contains(entries[entries.len() - 1].remote));
    }
}

} // verus!
