//! The flow table: one entry for every client seen, and the
//! reverse index from the local port of a flow's own socket back to the
//! client it serves.
//!
//! The table never touches a socket. It records, for each client, the local
//! port that the owner of the sockets reported, when the flow was last
//! active, and how many datagrams it has carried.
//!
//! Time is a count of nanoseconds since a moment of the caller's choosing;
//! the table only ever compares two such counts.

use crate::addr::SocketAddress;
use std::collections::HashMap;
use vstd::prelude::*;

verus! {

broadcast use vstd::std_specs::hash::group_hash_axioms;

/// A flow is idle once more than this many nanoseconds (600 s) have passed
/// since its last activity.
pub const IDLE_TIMEOUT_NANOS: u64 = 600_000_000_000;

/// Whether a flow last active at `last_activity` is idle at `now`. A clock
/// that has gone backwards makes no flow idle.
pub open spec fn is_idle(last_activity: u64, now: u64) -> bool {
    now - last_activity > IDLE_TIMEOUT_NANOS
}

/// The packet count after one more packet; it stops at `u64::MAX`.
pub open spec fn next_count(count: u64) -> u64 {
    if count < u64::MAX {
        (count + 1) as u64
    } else {
        count
    }
}

/// The flows of `flows` that are not idle at `now`.
pub open spec fn fresh_flows(flows: Map<SocketAddress, FlowEntry>, now: u64) -> Map<
    SocketAddress,
    FlowEntry,
> {
    Map::new(
        |c: SocketAddress| flows.contains_key(c) && !is_idle(flows[c].last_activity, now),
        |c: SocketAddress| flows[c],
    )
}

/// Tests whether a flow last active at `last_activity` is idle at `now`.
pub fn idle_at(last_activity: u64, now: u64) -> (r: bool)
    ensures
        r == is_idle(last_activity, now),
{
    now > last_activity && now - last_activity > IDLE_TIMEOUT_NANOS
}

/// What the table knows of one flow.
#[derive(Clone, Copy, Debug, PartialEq, Eq)]
pub struct FlowEntry {
    /// The local port of the socket that belongs to this flow alone, as
    /// last reported; `None` for a flow that has no socket of its own.
    pub local_port: Option<u16>,
    /// Time of the last activity, in nanoseconds.
    pub last_activity: u64,
    /// Datagrams carried so far.
    pub packet_count: u64,
}

/// The flow table as a mathematical value.
pub struct FlowModel {
    /// Client address to flow entry.
    pub flows: Map<SocketAddress, FlowEntry>,
    /// Local port of a flow socket to the client it serves.
    pub reverse: Map<u16, SocketAddress>,
}

impl FlowModel {
    /// The table with no flow and no reverse mapping.
    pub open spec fn empty() -> FlowModel {
        FlowModel { flows: Map::empty(), reverse: Map::empty() }
    }

    pub open spec fn is_empty(self) -> bool {
        self.flows == Map::<SocketAddress, FlowEntry>::empty() && self.reverse == Map::<
            u16,
            SocketAddress,
        >::empty()
    }

    /// The entry of `client`, or a fresh one when the client is unknown.
    pub open spec fn entry_or_new(self, client: SocketAddress) -> FlowEntry {
        if self.flows.contains_key(client) {
            self.flows[client]
        } else {
            FlowEntry { local_port: None, last_activity: 0, packet_count: 0 }
        }
    }

    /// Whether `client` has a flow with a socket of its own.
    pub open spec fn has_socket(self, client: SocketAddress) -> bool {
        self.flows.contains_key(client) && self.flows[client].local_port is Some
    }

    /// The flows that own a socket, each with its local port.
    pub open spec fn flow_sockets(self) -> Map<SocketAddress, u16> {
        Map::new(|c: SocketAddress| self.has_socket(c), |c: SocketAddress| self.flows[c].local_port->0)
    }

    /// The time of last activity of every flow.
    pub open spec fn activity(self) -> Map<SocketAddress, u64> {
        Map::new(
            |c: SocketAddress| self.flows.contains_key(c),
            |c: SocketAddress| self.flows[c].last_activity,
        )
    }

    /// The packet count of every flow.
    pub open spec fn packet_counts(self) -> Map<SocketAddress, u64> {
        Map::new(
            |c: SocketAddress| self.flows.contains_key(c),
            |c: SocketAddress| self.flows[c].packet_count,
        )
    }

    /// Whether `summary` gives the sizes of this table: of its flow
    /// sockets, of its reverse index, and of its flows.
    pub open spec fn sizes_are(self, summary: CleanupSummary) -> bool {
        &&& self.flow_sockets().dom().finite()
        &&& self.reverse.dom().finite()
        &&& self.flows.dom().finite()
        &&& summary.sockets == self.flow_sockets().dom().len()
        &&& summary.mappings == self.reverse.dom().len()
        &&& summary.flows == self.flows.dom().len()
    }

    /// One more datagram for `client` at time `now`: the flow is created if
    /// it was unknown, its count goes up by one, its clock is set to `now`.
    pub open spec fn record_packet(self, client: SocketAddress, now: u64) -> FlowModel {
        let e = self.entry_or_new(client);
        FlowModel {
            flows: self.flows.insert(
                client,
                FlowEntry {
                    local_port: e.local_port,
                    last_activity: now,
                    packet_count: next_count(e.packet_count),
                },
            ),
            reverse: self.reverse,
        }
    }

    /// The reverse index once the socket of `client` is known to sit on
    /// `port`: the mapping under the port recorded before, if it still
    /// leads to `client`, gives way to the mapping under `port`.
    pub open spec fn reverse_with(self, client: SocketAddress, port: u16) -> Map<u16, SocketAddress> {
        let before = self.entry_or_new(client).local_port;
        let stale = before matches Some(p) && p != port && self.reverse.contains_key(p)
            && self.reverse[p] == client;
        if stale {
            self.reverse.remove(before->0).insert(port, client)
        } else {
            self.reverse.insert(port, client)
        }
    }

    /// A socket was bound for `client` at time `now` and reports `port`.
    pub open spec fn attach_socket(self, client: SocketAddress, port: u16, now: u64) -> FlowModel {
        let e = self.entry_or_new(client);
        FlowModel {
            flows: self.flows.insert(
                client,
                FlowEntry {
                    local_port: Some(port),
                    last_activity: now,
                    packet_count: e.packet_count,
                },
            ),
            reverse: self.reverse_with(client, port),
        }
    }

    /// After the first datagram has left the socket of `client`, the socket
    /// reports `port`. A client without a socket leaves the table as it is.
    pub open spec fn confirm_port(self, client: SocketAddress, port: u16) -> FlowModel {
        if self.has_socket(client) {
            let e = self.flows[client];
            FlowModel {
                flows: self.flows.insert(
                    client,
                    FlowEntry {
                        local_port: Some(port),
                        last_activity: e.last_activity,
                        packet_count: e.packet_count,
                    },
                ),
                reverse: self.reverse_with(client, port),
            }
        } else {
            self
        }
    }

    /// Whether `client` has a flow that is idle at `now`.
    pub open spec fn is_idle_flow(self, client: SocketAddress, now: u64) -> bool {
        self.flows.contains_key(client) && is_idle(self.flows[client].last_activity, now)
    }

    /// Whether `port` is the recorded local port of a flow that is idle at `now`.
    pub open spec fn is_idle_port(self, port: u16, now: u64) -> bool {
        exists|c: SocketAddress| #[trigger]
            self.is_idle_flow(c, now) && self.flows[c].local_port == Some(port)
    }

    /// The table after the idle sweep at `now`: every idle flow is gone,
    /// and with it the reverse mapping under its socket's port.
    pub open spec fn sweep(self, now: u64) -> FlowModel {
        FlowModel {
            flows: fresh_flows(self.flows, now),
            reverse: Map::new(
                |p: u16| self.reverse.contains_key(p) && !self.is_idle_port(p, now),
                |p: u16| self.reverse[p],
            ),
        }
    }

    /// Every entry of the reverse index leads to a flow that is there and
    /// whose socket sits on the port of the entry.
    pub open spec fn reverse_is_sound(self) -> bool {
        forall|p: u16| #[trigger]
            self.reverse.contains_key(p) ==> self.has_socket(self.reverse[p])
                && self.flows[self.reverse[p]].local_port == Some(p)
    }

    /// Every flow with a socket is found in the reverse index under the
    /// port of its socket.
    pub open spec fn reverse_is_complete(self) -> bool {
        forall|c: SocketAddress| #[trigger]
            self.has_socket(c) ==> self.reverse.contains_key(self.flows[c].local_port->0)
                && self.reverse[self.flows[c].local_port->0] == c
    }

    /// The reverse index is exactly the inverse of the map from a flow to
    /// the local port of its socket.
    pub open spec fn reverse_is_inverse(self) -> bool {
        self.reverse_is_sound() && self.reverse_is_complete()
    }

    /// Whether `port` is not in use by the socket of a flow other than `client`.
    pub open spec fn port_free_for(self, client: SocketAddress, port: u16) -> bool {
        self.reverse.contains_key(port) ==> self.reverse[port] == client
    }

    /// No flow in the table has been without activity for more than the idle timeout.
    pub open spec fn all_fresh(self, now: u64) -> bool {
        forall|c: SocketAddress| #[trigger]
            self.flows.contains_key(c) ==> !is_idle(self.flows[c].last_activity, now)
    }
}

/// The sizes of the table just before it was cleared.
#[derive(Clone, Copy, Debug, PartialEq, Eq)]
pub struct CleanupSummary {
    /// Number of flows that owned a socket.
    pub sockets: usize,
    /// Number of entries in the reverse index.
    pub mappings: usize,
    /// Number of flows.
    pub flows: usize,
}

/// One flow as the table stores it.
struct Slot {
    client: SocketAddress,
    entry: FlowEntry,
}

/// Whether one of `slots` belongs to `client`.
spec fn has_slot(slots: Seq<Slot>, client: SocketAddress) -> bool {
    exists|i: int| 0 <= i < slots.len() && (#[trigger] slots[i]).client == client
}

/// The place of the slot of `client` among `slots`.
spec fn slot_index(slots: Seq<Slot>, client: SocketAddress) -> int {
    choose|i: int| 0 <= i < slots.len() && (#[trigger] slots[i]).client == client
}

/// The map from client to entry that `slots` stand for.
spec fn slots_map(slots: Seq<Slot>) -> Map<SocketAddress, FlowEntry> {
    Map::new(
        |c: SocketAddress| has_slot(slots, c),
        |c: SocketAddress| slots[slot_index(slots, c)].entry,
    )
}

/// No client has two slots.
spec fn distinct(slots: Seq<Slot>) -> bool {
    forall|i: int, j: int|
        0 <= i < j < slots.len() ==> (#[trigger] slots[i]).client != (#[trigger] slots[j]).client
}

proof fn lemma_slot_lookup(slots: Seq<Slot>, i: int)
    requires
        distinct(slots),
        0 <= i < slots.len(),
    ensures
        has_slot(slots, slots[i].client),
        slot_index(slots, slots[i].client) == i,
        slots_map(slots).contains_key(slots[i].client),
        slots_map(slots)[slots[i].client] == slots[i].entry,
{
    let c = slots[i].client;
    let j = slot_index(slots, c);
    assert(0 <= j < slots.len() && slots[j].client == c);
    if j < i {
        assert(slots[j].client != slots[i].client);
    }
    if i < j {
        assert(slots[i].client != slots[j].client);
    }
}

proof fn lemma_slots_push(slots: Seq<Slot>, s: Slot)
    requires
        distinct(slots),
        !has_slot(slots, s.client),
    ensures
        distinct(slots.push(s)),
        slots_map(slots.push(s)) == slots_map(slots).insert(s.client, s.entry),
{
    let after = slots.push(s);
    assert forall|i: int, j: int| 0 <= i < j < after.len() implies (#[trigger] after[i]).client != (
    #[trigger] after[j]).client by {
        if j == slots.len() {
            assert(slots[i].client != s.client);
        } else {
            assert(slots[i].client != slots[j].client);
        }
    }
    assert forall|c: SocketAddress| has_slot(after, c) <==> (has_slot(slots, c) || c
        == s.client) by {
        if has_slot(slots, c) {
            let i = slot_index(slots, c);
            assert(after[i].client == c);
        }
        if c == s.client {
            assert(after[slots.len() as int].client == c);
        }
        if has_slot(after, c) {
            let i = slot_index(after, c);
            if i < slots.len() {
                assert(slots[i].client == c);
            }
        }
    }
    assert forall|c: SocketAddress| has_slot(after, c) implies #[trigger] slots_map(after)[c]
        == slots_map(slots).insert(s.client, s.entry)[c] by {
        let i = slot_index(after, c);
        lemma_slot_lookup(after, i);
        if i < slots.len() {
            lemma_slot_lookup(slots, i);
        }
    }
    assert(slots_map(after) =~= slots_map(slots).insert(s.client, s.entry));
}

proof fn lemma_slots_update(slots: Seq<Slot>, i: int, entry: FlowEntry)
    requires
        distinct(slots),
        0 <= i < slots.len(),
    ensures
        distinct(slots.update(i, Slot { client: slots[i].client, entry })),
        slots_map(slots.update(i, Slot { client: slots[i].client, entry })) == slots_map(
            slots,
        ).insert(slots[i].client, entry),
{
    let s = Slot { client: slots[i].client, entry };
    let after = slots.update(i, s);
    assert forall|a: int, b: int| 0 <= a < b < after.len() implies (#[trigger] after[a]).client != (
    #[trigger] after[b]).client by {
        assert(slots[a].client != slots[b].client);
    }
    assert forall|c: SocketAddress| has_slot(after, c) <==> has_slot(slots, c) by {
        if has_slot(slots, c) {
            let k = slot_index(slots, c);
            assert(after[k].client == c);
        }
        if has_slot(after, c) {
            let k = slot_index(after, c);
            assert(slots[k].client == c);
        }
    }
    lemma_slot_lookup(slots, i);
    assert forall|c: SocketAddress| has_slot(after, c) implies #[trigger] slots_map(after)[c]
        == slots_map(slots).insert(s.client, entry)[c] by {
        let k = slot_index(after, c);
        lemma_slot_lookup(after, k);
        lemma_slot_lookup(slots, k);
    }
    assert(slots_map(after) =~= slots_map(slots).insert(s.client, entry));
}

proof fn lemma_slots_size(slots: Seq<Slot>)
    requires
        distinct(slots),
    ensures
        slots_map(slots).dom().finite(),
        slots_map(slots).dom().len() == slots.len(),
    decreases slots.len(),
{
    if slots.len() == 0 {
        assert(slots_map(slots).dom() =~= Set::<SocketAddress>::empty());
    } else {
        let head = slots.drop_last();
        let last = slots.last();
        assert forall|i: int, j: int| 0 <= i < j < head.len() implies (#[trigger] head[i]).client
            != (#[trigger] head[j]).client by {
            assert(slots[i].client != slots[j].client);
        }
        if has_slot(head, last.client) {
            let k = slot_index(head, last.client);
            assert(slots[k].client != slots[slots.len() - 1].client);
        }
        lemma_slots_size(head);
        lemma_slots_push(head, last);
        assert(head.push(last) =~= slots);
        assert(slots_map(slots).dom() =~= slots_map(head).dom().insert(last.client));
    }
}

/// The clients among `slots` whose flow owns a socket.
spec fn socket_owners(slots: Seq<Slot>) -> Set<SocketAddress> {
    Set::new(|c: SocketAddress| has_slot(slots, c) && slots_map(slots)[c].local_port is Some)
}

proof fn lemma_socket_owners_push(slots: Seq<Slot>, s: Slot)
    requires
        distinct(slots),
        !has_slot(slots, s.client),
    ensures
        socket_owners(slots.push(s)) == if s.entry.local_port is Some {
            socket_owners(slots).insert(s.client)
        } else {
            socket_owners(slots)
        },
        !socket_owners(slots).contains(s.client),
{
    lemma_slots_push(slots, s);
    let after = slots.push(s);
    assert forall|c: SocketAddress| has_slot(after, c) <==> (has_slot(slots, c) || c
        == s.client) by {
        assert(slots_map(after).contains_key(c) <==> slots_map(slots).insert(
            s.client,
            s.entry,
        ).contains_key(c));
    }
    if s.entry.local_port is Some {
        assert(socket_owners(after) =~= socket_owners(slots).insert(s.client));
    } else {
        assert(socket_owners(after) =~= socket_owners(slots));
    }
}

/// Flow entries keyed by client address, no client twice.
struct FlowSlots {
    slots: Vec<Slot>,
}

impl View for FlowSlots {
    type V = Map<SocketAddress, FlowEntry>;

    closed spec fn view(&self) -> Map<SocketAddress, FlowEntry> {
        slots_map(self.slots@)
    }
}

impl FlowSlots {
    #[verifier::type_invariant]
    spec fn inv(self) -> bool {
        distinct(self.slots@)
    }

    fn new() -> (r: Self)
        ensures
            r@ == Map::<SocketAddress, FlowEntry>::empty(),
    {
        let r = FlowSlots { slots: Vec::new() };
        assert(slots_map(r.slots@) =~= Map::<SocketAddress, FlowEntry>::empty());
        r
    }

    fn position(&self, client: &SocketAddress) -> (r: Option<usize>)
        ensures
            match r {
                Some(i) => i < self.slots@.len() && self.slots@[i as int].client == *client,
                None => !has_slot(self.slots@, *client),
            },
    {
        let mut i: usize = 0;
        while i < self.slots.len()
            invariant
                i <= self.slots@.len(),
                forall|j: int| 0 <= j < i ==> (#[trigger] self.slots@[j]).client != *client,
            decreases self.slots@.len() - i,
        {
            if self.slots[i].client == *client {
                return Some(i);
            }
            i += 1;
        }
        None
    }

    fn len(&self) -> (n: usize)
        ensures
            self@.dom().finite(),
            n == self@.dom().len(),
    {
        proof {
            use_type_invariant(self);
            lemma_slots_size(self.slots@);
        }
        self.slots.len()
    }

    /// Number of flows that own a socket.
    fn socket_count(&self) -> (n: usize)
        ensures
            socket_owners(self.slots@).finite(),
            n == socket_owners(self.slots@).len(),
            socket_owners(self.slots@) == Set::new(
                |c: SocketAddress| self@.contains_key(c) && self@[c].local_port is Some,
            ),
    {
        proof {
            use_type_invariant(self);
        }
        let mut n: usize = 0;
        let mut k: usize = 0;
        assert(self.slots@.take(0) =~= Seq::<Slot>::empty());
        assert(socket_owners(Seq::<Slot>::empty()) =~= Set::<SocketAddress>::empty());
        while k < self.slots.len()
            invariant
                distinct(self.slots@),
                k <= self.slots@.len(),
                n <= k,
                socket_owners(self.slots@.take(k as int)).finite(),
                n == socket_owners(self.slots@.take(k as int)).len(),
            decreases self.slots@.len() - k,
        {
            proof {
                let seen = self.slots@.take(k as int);
                let slot = self.slots@[k as int];
                assert forall|i: int, j: int| 0 <= i < j < seen.len() implies (#[trigger] seen[i]).client
                    != (#[trigger] seen[j]).client by {
                    assert(self.slots@[i].client != self.slots@[j].client);
                }
                if has_slot(seen, slot.client) {
                    let i = slot_index(seen, slot.client);
                    assert(self.slots@[i].client != self.slots@[k as int].client);
                }
                lemma_socket_owners_push(seen, slot);
                assert(seen.push(slot) =~= self.slots@.take(k + 1));
            }
            if self.slots[k].entry.local_port.is_some() {
                n += 1;
            }
            k += 1;
        }
        assert(self.slots@.take(k as int) =~= self.slots@);
        assert(socket_owners(self.slots@) =~= Set::new(
            |c: SocketAddress| self@.contains_key(c) && self@[c].local_port is Some,
        ));
        n
    }

    fn get(&self, client: &SocketAddress) -> (r: Option<FlowEntry>)
        ensures
            match r {
                Some(e) => self@.contains_key(*client) && self@[*client] == e,
                None => !self@.contains_key(*client),
            },
    {
        proof {
            use_type_invariant(self);
        }
        match self.position(client) {
            Some(i) => {
                proof {
                    lemma_slot_lookup(self.slots@, i as int);
                }
                Some(self.slots[i].entry)
            },
            None => None,
        }
    }

    fn put(&mut self, client: SocketAddress, entry: FlowEntry)
        ensures
            final(self)@ == old(self)@.insert(client, entry),
    {
        proof {
            use_type_invariant(&*self);
        }
        let found = self.position(&client);
        // The slots are taken out, changed and put back, so that the
        // invariant holds of `self` at every step.
        let mut slots: Vec<Slot> = Vec::new();
        core::mem::swap(&mut self.slots, &mut slots);
        match found {
            Some(i) => {
                proof {
                    lemma_slots_update(slots@, i as int, entry);
                }
                slots[i] = Slot { client, entry };
            },
            None => {
                proof {
                    lemma_slots_push(slots@, Slot { client, entry });
                }
                slots.push(Slot { client, entry });
            },
        }
        core::mem::swap(&mut self.slots, &mut slots);
    }

    /// Removes every flow that is idle at `now` and hands out what was removed.
    fn take_idle(&mut self, now: u64) -> (gone: Vec<Slot>)
        ensures
            final(self)@ == fresh_flows(old(self)@, now),
            distinct(gone@),
            forall|i: int|
                0 <= i < gone@.len() ==> {
                    let s = #[trigger] gone@[i];
                    old(self)@.contains_key(s.client) && old(self)@[s.client] == s.entry && is_idle(
                        s.entry.last_activity,
                        now,
                    )
                },
            forall|c: SocketAddress|
                old(self)@.contains_key(c) && is_idle(old(self)@[c].last_activity, now)
                    ==> has_slot(gone@, c),
    {
        proof {
            use_type_invariant(&*self);
        }
        let mut slots: Vec<Slot> = Vec::new();
        core::mem::swap(&mut self.slots, &mut slots);
        let mut kept: Vec<Slot> = Vec::new();
        let mut gone: Vec<Slot> = Vec::new();
        let ghost mut kept_from: Seq<int> = Seq::empty();
        let ghost mut gone_from: Seq<int> = Seq::empty();
        let ghost mut went_to: Seq<int> = Seq::empty();
        let mut k: usize = 0;
        while k < slots.len()
            invariant
                distinct(slots@),
                k <= slots@.len(),
                kept_from.len() == kept@.len(),
                gone_from.len() == gone@.len(),
                went_to.len() == k,
                forall|a: int|
                    0 <= a < kept@.len() ==> 0 <= #[trigger] kept_from[a] < k && kept@[a]
                        == slots@[kept_from[a]] && !is_idle(kept@[a].entry.last_activity, now),
                forall|a: int|
                    0 <= a < gone@.len() ==> 0 <= #[trigger] gone_from[a] < k && gone@[a]
                        == slots@[gone_from[a]] && is_idle(gone@[a].entry.last_activity, now),
                forall|a: int, b: int|
                    0 <= a < b < kept@.len() ==> #[trigger] kept_from[a] < #[trigger] kept_from[b],
                forall|a: int, b: int|
                    0 <= a < b < gone@.len() ==> #[trigger] gone_from[a] < #[trigger] gone_from[b],
                forall|j: int|
                    0 <= j < k ==> if is_idle(slots@[j].entry.last_activity, now) {
                        0 <= #[trigger] went_to[j] < gone@.len() && gone@[went_to[j]] == slots@[j]
                    } else {
                        0 <= went_to[j] < kept@.len() && kept@[went_to[j]] == slots@[j]
                    },
            decreases slots@.len() - k,
        {
            let client = slots[k].client;
            let entry = slots[k].entry;
            if idle_at(entry.last_activity, now) {
                proof {
                    gone_from = gone_from.push(k as int);
                    went_to = went_to.push(gone@.len() as int);
                }
                gone.push(Slot { client, entry });
            } else {
                proof {
                    kept_from = kept_from.push(k as int);
                    went_to = went_to.push(kept@.len() as int);
                }
                kept.push(Slot { client, entry });
            }
            k += 1;
        }
        proof {
            let all = slots@;
            assert forall|a: int, b: int| 0 <= a < b < kept@.len() implies (#[trigger] kept@[a]).client
                != (#[trigger] kept@[b]).client by {
                assert(kept_from[a] < kept_from[b]);
                assert(all[kept_from[a]].client != all[kept_from[b]].client);
            }
            assert forall|a: int, b: int| 0 <= a < b < gone@.len() implies (#[trigger] gone@[a]).client
                != (#[trigger] gone@[b]).client by {
                assert(gone_from[a] < gone_from[b]);
                assert(all[gone_from[a]].client != all[gone_from[b]].client);
            }
            assert forall|i: int| 0 <= i < gone@.len() implies {
                let s = #[trigger] gone@[i];
                slots_map(all).contains_key(s.client) && slots_map(all)[s.client] == s.entry
                    && is_idle(s.entry.last_activity, now)
            } by {
                lemma_slot_lookup(all, gone_from[i]);
            }
            assert forall|c: SocketAddress|
                slots_map(all).contains_key(c) && is_idle(
                    slots_map(all)[c].last_activity,
                    now,
                ) implies has_slot(gone@, c) by {
                let j = slot_index(all, c);
                lemma_slot_lookup(all, j);
                assert(gone@[went_to[j]].client == c);
            }
            assert forall|c: SocketAddress| has_slot(kept@, c) <==> fresh_flows(
                slots_map(all),
                now,
            ).contains_key(c) by {
                if has_slot(kept@, c) {
                    let a = slot_index(kept@, c);
                    lemma_slot_lookup(all, kept_from[a]);
                }
                if fresh_flows(slots_map(all), now).contains_key(c) {
                    let j = slot_index(all, c);
                    lemma_slot_lookup(all, j);
                    assert(kept@[went_to[j]].client == c);
                }
            }
            assert forall|c: SocketAddress| has_slot(kept@, c) implies #[trigger] slots_map(kept@)[c]
                == slots_map(all)[c] by {
                let a = slot_index(kept@, c);
                lemma_slot_lookup(kept@, a);
                lemma_slot_lookup(all, kept_from[a]);
            }
            assert(slots_map(kept@) =~= fresh_flows(slots_map(all), now));
        }
        core::mem::swap(&mut self.slots, &mut kept);
        gone
    }

    fn clear(&mut self)
        ensures
            final(self)@ == Map::<SocketAddress, FlowEntry>::empty(),
    {
        let mut slots: Vec<Slot> = Vec::new();
        core::mem::swap(&mut self.slots, &mut slots);
        assert(slots_map(self.slots@) =~= Map::<SocketAddress, FlowEntry>::empty());
    }
}

/// The flow table and the reverse port index.
pub struct FlowTable {
    flows: FlowSlots,
    reverse: HashMap<u16, SocketAddress>,
}

impl View for FlowTable {
    type V = FlowModel;

    closed spec fn view(&self) -> FlowModel {
        FlowModel { flows: self.flows@, reverse: self.reverse@ }
    }
}

impl FlowTable {
    /// An empty table.
    pub fn new() -> (r: Self)
        ensures
            r@ == FlowModel::empty(),
    {
        FlowTable { flows: FlowSlots::new(), reverse: HashMap::new() }
    }

    /// Number of flows in the table.
    pub fn len(&self) -> (n: usize)
        ensures
            self@.flows.dom().finite(),
            n == self@.flows.dom().len(),
    {
        self.flows.len()
    }

    /// Number of flows that own a socket.
    pub fn socket_count(&self) -> (n: usize)
        ensures
            self@.flow_sockets().dom().finite(),
            n == self@.flow_sockets().dom().len(),
    {
        let n = self.flows.socket_count();
        assert(self@.flow_sockets().dom() =~= Set::new(
            |c: SocketAddress| self.flows@.contains_key(c) && self.flows@[c].local_port is Some,
        ));
        n
    }

    /// Number of entries in the reverse index.
    pub fn mapping_count(&self) -> (n: usize)
        ensures
            self@.reverse.dom().finite(),
            n == self@.reverse.dom().len(),
    {
        self.reverse.len()
    }

    /// The entry of `client`, if it has a flow.
    pub fn get(&self, client: &SocketAddress) -> (r: Option<FlowEntry>)
        ensures
            match r {
                Some(e) => self@.flows.contains_key(*client) && self@.flows[*client] == e,
                None => !self@.flows.contains_key(*client),
            },
    {
        self.flows.get(client)
    }

    /// Whether `client` has a flow with a socket of its own.
    pub fn has_socket(&self, client: &SocketAddress) -> (r: bool)
        ensures
            r == self@.has_socket(*client),
    {
        match self.flows.get(client) {
            Some(e) => e.local_port.is_some(),
            None => false,
        }
    }

    /// The client that the flow socket on `port` serves, if the reverse index knows one.
    pub fn client_for_port(&self, port: u16) -> (r: Option<SocketAddress>)
        ensures
            match r {
                Some(c) => self@.reverse.contains_key(port) && self@.reverse[port] == c,
                None => !self@.reverse.contains_key(port),
            },
    {
        match self.reverse.get(&port) {
            Some(c) => Some(*c),
            None => None,
        }
    }

    /// Counts one more datagram for `client` at time `now` and returns the new count.
    pub fn record_packet(&mut self, client: SocketAddress, now: u64) -> (count: u64)
        ensures
            final(self)@ == old(self)@.record_packet(client, now),
            count == next_count(old(self)@.entry_or_new(client).packet_count),
    {
        let e = match self.flows.get(&client) {
            Some(e) => e,
            None => FlowEntry { local_port: None, last_activity: 0, packet_count: 0 },
        };
        let count = if e.packet_count < u64::MAX {
            e.packet_count + 1
        } else {
            e.packet_count
        };
        self.flows.put(
            client,
            FlowEntry { local_port: e.local_port, last_activity: now, packet_count: count },
        );
        count
    }

    fn remap(&mut self, client: SocketAddress, port: u16)
        ensures
            final(self)@.flows == old(self)@.flows,
            final(self)@.reverse == old(self)@.reverse_with(client, port),
    {
        let before = match self.flows.get(&client) {
            Some(e) => e.local_port,
            None => None,
        };
        if let Some(p) = before {
            if p != port {
                let stale = match self.reverse.get(&p) {
                    Some(c) => *c == client,
                    None => false,
                };
                if stale {
                    self.reverse.remove(&p);
                }
            }
        }
        self.reverse.insert(port, client);
    }

    /// Records that a socket was bound for `client` at time `now` and
    /// reports the local port `port`.
    pub fn attach_socket(&mut self, client: SocketAddress, port: u16, now: u64)
        ensures
            final(self)@ == old(self)@.attach_socket(client, port, now),
    {
        let count = match self.flows.get(&client) {
            Some(e) => e.packet_count,
            None => 0,
        };
        self.remap(client, port);
        self.flows.put(
            client,
            FlowEntry { local_port: Some(port), last_activity: now, packet_count: count },
        );
    }

    /// Records the local port that the socket of `client` reports once its
    /// first datagram has left.
    pub fn confirm_port(&mut self, client: SocketAddress, port: u16)
        ensures
            final(self)@ == old(self)@.confirm_port(client, port),
    {
        match self.flows.get(&client) {
            Some(e) => {
                if e.local_port.is_some() {
                    self.remap(client, port);
                    self.flows.put(
                        client,
                        FlowEntry {
                            local_port: Some(port),
                            last_activity: e.last_activity,
                            packet_count: e.packet_count,
                        },
                    );
                }
            },
            None => {},
        }
    }

    /// The idle sweep: removes every flow that is idle at `now`, with the
    /// reverse mapping under its port, and returns the clients removed so
    /// that their sockets can be closed.
    #[verifier::loop_isolation(false)]
    pub fn sweep(&mut self, now: u64) -> (evicted: Vec<SocketAddress>)
        ensures
            final(self)@ == old(self)@.sweep(now),
            evicted@.no_duplicates(),
            forall|c: SocketAddress| evicted@.contains(c) <==> old(self)@.is_idle_flow(c, now),
    {
        let ghost before = self@;
        let gone = self.flows.take_idle(now);
        let mut evicted: Vec<SocketAddress> = Vec::new();
        let mut i: usize = 0;
        while i < gone.len()
            invariant
                i <= gone@.len(),
                self.flows@ == fresh_flows(before.flows, now),
                evicted@.len() == i,
                forall|a: int| 0 <= a < i ==> #[trigger] evicted@[a] == gone@[a].client,
                forall|p: u16|
                    self.reverse@.contains_key(p) <==> before.reverse.contains_key(p)
                        && !port_among(gone@.take(i as int), p),
                forall|p: u16|
                    self.reverse@.contains_key(p) ==> self.reverse@[p] == before.reverse[p],
            decreases gone@.len() - i,
        {
            let ghost seen = gone@.take(i as int);
            let ghost reverse_before = self.reverse@;
            let slot_port = gone[i].entry.local_port;
            if let Some(p) = slot_port {
                self.reverse.remove(&p);
            }
            evicted.push(gone[i].client);
            i += 1;
            proof {
                let next = gone@.take(i as int);
                assert forall|p: u16| port_among(next, p) <==> (port_among(seen, p) || slot_port
                    == Some(p)) by {
                    if port_among(seen, p) {
                        let a = choose|a: int|
                            0 <= a < seen.len() && (#[trigger] seen[a]).entry.local_port == Some(p);
                        assert(next[a].entry.local_port == Some(p));
                    }
                    if slot_port == Some(p) {
                        assert(next[i - 1].entry.local_port == Some(p));
                    }
                    if port_among(next, p) {
                        let a = choose|a: int|
                            0 <= a < next.len() && (#[trigger] next[a]).entry.local_port == Some(p);
                        if a < i - 1 {
                            assert(seen[a].entry.local_port == Some(p));
                        }
                    }
                }
                assert forall|p: u16|
                    self.reverse@.contains_key(p) <==> before.reverse.contains_key(p)
                        && !port_among(next, p) by {
                    assert(reverse_before.contains_key(p) <==> before.reverse.contains_key(p)
                        && !port_among(seen, p));
                }
            }
        }
        proof {
            assert(gone@.take(i as int) =~= gone@);
            assert forall|p: u16| port_among(gone@, p) <==> before.is_idle_port(p, now) by {
                if port_among(gone@, p) {
                    let a = choose|a: int|
                        0 <= a < gone@.len() && (#[trigger] gone@[a]).entry.local_port == Some(p);
                    assert(before.is_idle_flow(gone@[a].client, now));
                }
                if before.is_idle_port(p, now) {
                    let c = choose|c: SocketAddress| #[trigger]
                        before.is_idle_flow(c, now) && before.flows[c].local_port == Some(p);
                    assert(has_slot(gone@, c));
                    let a = slot_index(gone@, c);
                    lemma_slot_lookup(gone@, a);
                    assert(gone@[a].entry == before.flows[c]);
                }
            }
            assert(self@.reverse =~= before.sweep(now).reverse);
            assert forall|a: int, b: int| 0 <= a < b < evicted@.len() implies evicted@[a]
                != evicted@[b] by {
                assert(gone@[a].client != gone@[b].client);
            }
            assert forall|c: SocketAddress| evicted@.contains(c) <==> before.is_idle_flow(
                c,
                now,
            ) by {
                if evicted@.contains(c) {
                    let a = choose|a: int| 0 <= a < evicted@.len() && evicted@[a] == c;
                    assert(gone@[a].client == c);
                }
                if before.is_idle_flow(c, now) {
                    assert(has_slot(gone@, c));
                    let a = slot_index(gone@, c);
                    assert(evicted@[a] == c);
                }
            }
        }
        evicted
    }

    /// Forgets every flow and every reverse mapping, and reports how many there were.
    pub fn clear(&mut self) -> (summary: CleanupSummary)
        ensures
            final(self)@ == FlowModel::empty(),
            old(self)@.sizes_are(summary),
    {
        let summary = CleanupSummary {
            sockets: self.socket_count(),
            mappings: self.mapping_count(),
            flows: self.len(),
        };
        self.flows.clear();
        self.reverse.clear();
        summary
    }
}

/// Whether `port` is the recorded local port of one of `slots`.
spec fn port_among(slots: Seq<Slot>, port: u16) -> bool {
    exists|a: int| 0 <= a < slots.len() && (#[trigger] slots[a]).entry.local_port == Some(port)
}

/// An empty table holds nothing under any of its four aspects: no flow
/// socket, no reverse mapping, no activity time, no packet count.
pub proof fn lemma_empty_holds_nothing()
    ensures
        FlowModel::empty().is_empty(),
        FlowModel::empty().flow_sockets() == Map::<SocketAddress, u16>::empty(),
        FlowModel::empty().reverse == Map::<u16, SocketAddress>::empty(),
        FlowModel::empty().activity() == Map::<SocketAddress, u64>::empty(),
        FlowModel::empty().packet_counts() == Map::<SocketAddress, u64>::empty(),
        FlowModel::empty().reverse_is_inverse(),
{
    let m = FlowModel::empty();
    assert(m.flow_sockets() =~= Map::<SocketAddress, u16>::empty());
    assert(m.activity() =~= Map::<SocketAddress, u64>::empty());
    assert(m.packet_counts() =~= Map::<SocketAddress, u64>::empty());
}

/// Idle eviction: after the sweep at `now` no flow is left whose last
/// activity lies more than the idle timeout before `now`, and every flow
/// that was not idle is still there, unchanged.
pub proof fn lemma_sweep_evicts_idle(m: FlowModel, now: u64)
    ensures
        m.sweep(now).all_fresh(now),
        forall|c: SocketAddress|
            m.flows.contains_key(c) && !is_idle(m.flows[c].last_activity, now) ==> #[trigger]
            m.sweep(now).flows.contains_key(c) && m.sweep(now).flows[c] == m.flows[c],
        forall|c: SocketAddress| #[trigger]
            m.sweep(now).flows.contains_key(c) ==> m.flows.contains_key(c),
{
}

/// A sweep of a table in which no flow is idle changes nothing.
pub proof fn lemma_sweep_of_fresh(m: FlowModel, now: u64)
    requires
        m.all_fresh(now),
    ensures
        m.sweep(now) == m,
{
    let s = m.sweep(now);
    assert(s.flows =~= m.flows);
    assert forall|p: u16| !m.is_idle_port(p, now) by {
        if m.is_idle_port(p, now) {
            let c = choose|c: SocketAddress| #[trigger]
                m.is_idle_flow(c, now) && m.flows[c].local_port == Some(p);
            assert(m.flows.contains_key(c));
        }
    }
    assert(s.reverse =~= m.reverse);
}

/// Counting a packet changes nothing of what holds between the flows'
/// ports and the reverse index.
pub proof fn lemma_record_keeps_reverse(m: FlowModel, client: SocketAddress, now: u64)
    ensures
        m.reverse_is_sound() ==> m.record_packet(client, now).reverse_is_sound(),
        m.reverse_is_complete() ==> m.record_packet(client, now).reverse_is_complete(),
{
    let n = m.record_packet(client, now);
    if m.reverse_is_sound() {
        assert forall|p: u16| #[trigger] n.reverse.contains_key(p) implies n.has_socket(
            n.reverse[p],
        ) && n.flows[n.reverse[p]].local_port == Some(p) by {
            assert(m.has_socket(m.reverse[p]));
        }
    }
    if m.reverse_is_complete() {
        assert forall|c: SocketAddress| #[trigger] n.has_socket(c) implies n.reverse.contains_key(
            n.flows[c].local_port->0,
        ) && n.reverse[n.flows[c].local_port->0] == c by {
            assert(m.has_socket(c));
        }
    }
}

/// Recording the port of a flow's socket never leaves a reverse entry
/// behind that leads nowhere. It keeps every flow findable under its port
/// provided no other flow's socket sits on the port recorded: two sockets
/// never share a local port.
pub proof fn lemma_attach_keeps_reverse(m: FlowModel, client: SocketAddress, port: u16, now: u64)
    ensures
        m.reverse_is_sound() ==> m.attach_socket(client, port, now).reverse_is_sound(),
        m.reverse_is_complete() && m.port_free_for(client, port) ==> m.attach_socket(
            client,
            port,
            now,
        ).reverse_is_complete(),
{
    let n = m.attach_socket(client, port, now);
    if m.reverse_is_sound() {
        assert forall|p: u16| #[trigger] n.reverse.contains_key(p) implies n.has_socket(
            n.reverse[p],
        ) && n.flows[n.reverse[p]].local_port == Some(p) by {
            if p != port {
                assert(m.reverse.contains_key(p));
                assert(m.has_socket(m.reverse[p]));
            }
        }
    }
    if m.reverse_is_complete() && m.port_free_for(client, port) {
        assert forall|c: SocketAddress| #[trigger] n.has_socket(c) implies n.reverse.contains_key(
            n.flows[c].local_port->0,
        ) && n.reverse[n.flows[c].local_port->0] == c by {
            if c != client {
                assert(m.has_socket(c));
            }
        }
    }
}

/// The same for the port that a socket reports after its first datagram.
pub proof fn lemma_confirm_keeps_reverse(m: FlowModel, client: SocketAddress, port: u16)
    ensures
        m.reverse_is_sound() ==> m.confirm_port(client, port).reverse_is_sound(),
        m.reverse_is_complete() && m.port_free_for(client, port) ==> m.confirm_port(
            client,
            port,
        ).reverse_is_complete(),
{
    if m.has_socket(client) {
        let e = m.flows[client];
        let n = m.attach_socket(client, port, e.last_activity);
        lemma_attach_keeps_reverse(m, client, port, e.last_activity);
        assert(m.confirm_port(client, port).flows =~= n.flows);
        assert(m.confirm_port(client, port) == n);
    }
}

/// The idle sweep takes the reverse entry of every flow it removes, and of
/// no flow that stays.
pub proof fn lemma_sweep_keeps_reverse(m: FlowModel, now: u64)
    ensures
        m.reverse_is_sound() ==> m.sweep(now).reverse_is_sound(),
        m.reverse_is_complete() ==> m.sweep(now).reverse_is_complete(),
{
    let n = m.sweep(now);
    if m.reverse_is_sound() {
        assert forall|p: u16| #[trigger] n.reverse.contains_key(p) implies n.has_socket(
            n.reverse[p],
        ) && n.flows[n.reverse[p]].local_port == Some(p) by {
            let c = m.reverse[p];
            assert(m.has_socket(c));
            if m.is_idle_flow(c, now) {
                assert(m.is_idle_port(p, now));
            }
        }
    }
    if m.reverse_is_complete() {
        assert forall|c: SocketAddress| #[trigger] n.has_socket(c) implies n.reverse.contains_key(
            n.flows[c].local_port->0,
        ) && n.reverse[n.flows[c].local_port->0] == c by {
            assert(m.has_socket(c));
            let p = m.flows[c].local_port->0;
            if m.is_idle_port(p, now) {
                let d = choose|d: SocketAddress| #[trigger]
                    m.is_idle_flow(d, now) && m.flows[d].local_port == Some(p);
                assert(m.has_socket(d));
            }
        }
    }
}

/// With the reverse index the inverse of the flows' ports, every flow with
/// a socket has exactly one reverse entry that leads to its client, the
/// one under the port of its socket; and no two such flows share a port.
pub proof fn lemma_inverse_routes_back(m: FlowModel, a: SocketAddress, b: SocketAddress)
    requires
        m.reverse_is_inverse(),
        m.has_socket(a),
        m.has_socket(b),
    ensures
        m.reverse[m.flows[a].local_port->0] == a,
        forall|p: u16|
            (#[trigger] m.reverse.contains_key(p) && m.reverse[p] == a) <==> Some(p)
                == m.flows[a].local_port,
        m.flows[a].local_port == m.flows[b].local_port ==> a == b,
        m.flow_sockets().dom().contains(a),
{
}

} // verus!
