//! The tunnel as a state machine without I/O.
//!
//! The owner of the sockets reports what happened (a datagram arrived, the
//! carrier came up, bytes were read, a socket was bound) and is told what
//! to do next (write these bytes to the carrier, send this datagram from
//! that socket, bind a socket, close these sockets). Every decision of the
//! tunnel is taken here; none needs a socket to be taken.

use crate::addr::{IpAddress, SocketAddress};
use crate::config::{check_modes, mode_error, Config, ConfigError, PortSpec};
use crate::flow::{
    lemma_attach_keeps_reverse, lemma_confirm_keeps_reverse, lemma_empty_holds_nothing,
    lemma_record_keeps_reverse, lemma_sweep_evicts_idle, lemma_sweep_keeps_reverse, CleanupSummary,
    FlowModel, FlowTable, IDLE_TIMEOUT_NANOS,
};
use crate::frame::{
    decode_stream, packet_views, stream_rest, FrameDecoder, UdpFrame, UdpPacketWithSource,
    MAX_PAYLOAD_LEN,
};
use vstd::prelude::*;

verus! {

/// Seconds to wait before dialling again after a dial has failed.
pub const CONNECT_RETRY_SECS: u64 = 1;

/// Seconds to wait before dialling again after a carrier was lost.
pub const RECONNECT_SECS: u64 = 3;

/// Milliseconds to pause after a failed receive on the primary UDP socket.
pub const RECV_ERROR_COOLDOWN_MILLIS: u64 = 100;

/// The state of the one TCP carrier.
#[derive(Clone, Copy, Debug, PartialEq, Eq)]
pub enum Carrier {
    /// No carrier, and nothing to wait for.
    Down,
    /// No carrier; a retry timer runs, and no dial starts before it ends.
    Backoff,
    /// The carrier is connected.
    Up,
}

/// The socket from which a datagram leaves.
#[derive(Clone, Copy, Debug, PartialEq, Eq)]
pub enum Via {
    /// The primary UDP socket.
    Primary,
    /// The socket that belongs to the flow of this client.
    Flow(SocketAddress),
}

/// How to send the payload of a frame that came off the carrier.
#[derive(Clone, Copy, Debug, PartialEq, Eq)]
pub struct SendPlan {
    /// The socket to send from.
    pub via: Via,
    /// The address to send to.
    pub dest: SocketAddress,
    /// The flow's packet count, this datagram included.
    pub count: u64,
    /// Whether the socket's local port is to be reported once the datagram has left.
    pub confirm_port: bool,
}

/// What to do with a frame that came off the carrier.
#[derive(Clone, Copy, Debug, PartialEq, Eq)]
pub enum Egress {
    /// The client has no socket yet: bind one, report it, and ask again.
    Bind { client: SocketAddress },
    /// Send the payload as planned.
    Send(SendPlan),
}

/// What to do with a datagram that is to go over the carrier.
#[derive(Debug, PartialEq, Eq)]
pub enum Forward {
    /// There is no carrier: the datagram is dropped.
    NoCarrier,
    /// The reverse index has no client for the socket the datagram came in
    /// on: the datagram is dropped.
    Unroutable,
    /// The payload is too long for a frame: the datagram is dropped.
    TooLarge,
    /// Write `frame` to the carrier. `source` is the address that the frame names.
    Frame { source: SocketAddress, frame: Vec<u8> },
}

impl Forward {
    /// Whether this is the order to write the frame that carries `payload`
    /// under the address `source`.
    pub open spec fn carries(self, source: SocketAddress, payload: Seq<u8>) -> bool {
        self matches Forward::Frame { source: named, frame } && named == source && frame@ == (UdpFrame {
            source,
            payload,
        }).encoded()
    }
}

/// What a lost carrier leaves behind.
#[derive(Clone, Copy, Debug, PartialEq, Eq)]
pub struct Teardown {
    /// How much flow state was cleared.
    pub cleared: CleanupSummary,
    /// Seconds to wait before dialling again; `None` on the listen side.
    pub retry_after_secs: Option<u64>,
}

/// The tunnel as a mathematical value.
pub struct TunnelModel {
    pub config: Config,
    pub carrier: Carrier,
    pub flows: FlowModel,
    /// Bytes read from the carrier that do not yet make a whole frame.
    pub pending: Seq<u8>,
}

impl TunnelModel {
    /// The tunnel at start-up.
    pub open spec fn initial(config: Config) -> TunnelModel {
        TunnelModel {
            config,
            carrier: Carrier::Down,
            flows: FlowModel::empty(),
            pending: Seq::empty(),
        }
    }

    /// Whether every client gets a socket of its own: the listen side with
    /// an automatic UDP bind.
    pub open spec fn per_flow(self) -> bool {
        self.config.listen && self.config.udp_bind is Auto
    }

    /// Where the payload of a frame from `source` is sent: the configured
    /// destination, or `source` itself where the destination is automatic.
    pub open spec fn destination(self, source: SocketAddress) -> SocketAddress {
        match self.config.udp_sendto {
            PortSpec::Fixed(addr) => addr,
            PortSpec::Auto(_) => source,
        }
    }

    /// Whether a dial is to be started: on the connect side, with no
    /// carrier and no retry timer running.
    pub open spec fn wants_dial(self) -> bool {
        !self.config.listen && self.carrier is Down
    }

    /// The tunnel after the carrier came up: a new stream starts, the flows stay.
    pub open spec fn carrier_up(self) -> TunnelModel {
        TunnelModel { carrier: Carrier::Up, pending: Seq::empty(), ..self }
    }

    /// The tunnel after a dial failed.
    pub open spec fn connect_failed(self) -> TunnelModel {
        if self.carrier is Up {
            self
        } else {
            TunnelModel { carrier: Carrier::Backoff, ..self }
        }
    }

    /// The tunnel after the retry timer ran out.
    pub open spec fn retry_elapsed(self) -> TunnelModel {
        if self.carrier is Backoff {
            TunnelModel { carrier: Carrier::Down, ..self }
        } else {
            self
        }
    }

    /// The tunnel after the carrier was lost: all flow state is gone, and
    /// the connect side waits before it dials again.
    pub open spec fn torn_down(self) -> TunnelModel {
        TunnelModel {
            carrier: if self.config.listen {
                Carrier::Down
            } else {
                Carrier::Backoff
            },
            flows: FlowModel::empty(),
            ..self
        }
    }

    /// Whether a datagram with this payload goes over the carrier.
    pub open spec fn forwards(self, payload: Seq<u8>) -> bool {
        self.carrier is Up && payload.len() <= MAX_PAYLOAD_LEN
    }

    /// The tunnel after a datagram from `from` arrived on the primary socket at `now`.
    pub open spec fn after_ingress(self, from: SocketAddress, payload: Seq<u8>, now: u64)
        -> TunnelModel {
        if self.forwards(payload) {
            TunnelModel { flows: self.flows.record_packet(from, now), ..self }
        } else {
            self
        }
    }

    /// The tunnel after bytes were read from the carrier and every whole frame taken out.
    pub open spec fn after_read(self, bytes: Seq<u8>) -> TunnelModel {
        TunnelModel { pending: stream_rest(self.pending + bytes), ..self }
    }

    /// Whether a frame from `source` must wait for a socket to be bound.
    pub open spec fn needs_socket(self, source: SocketAddress) -> bool {
        self.per_flow() && !self.flows.has_socket(source)
    }

    /// What to do with a frame from `source` that came off the carrier at `now`.
    pub open spec fn egress(self, source: SocketAddress, now: u64) -> Egress {
        if self.needs_socket(source) {
            Egress::Bind { client: source }
        } else {
            let count = self.flows.record_packet(source, now).flows[source].packet_count;
            Egress::Send(
                SendPlan {
                    via: if self.per_flow() {
                        Via::Flow(source)
                    } else {
                        Via::Primary
                    },
                    dest: self.destination(source),
                    count,
                    confirm_port: self.per_flow() && count == 1,
                },
            )
        }
    }

    /// The tunnel after it was asked what to do with a frame from `source` at `now`.
    pub open spec fn after_egress(self, source: SocketAddress, now: u64) -> TunnelModel {
        if self.needs_socket(source) {
            self
        } else {
            TunnelModel { flows: self.flows.record_packet(source, now), ..self }
        }
    }

    /// The tunnel after a socket was bound for `client` at `now` and reported `port`.
    pub open spec fn socket_bound(self, client: SocketAddress, port: u16, now: u64) -> TunnelModel {
        TunnelModel { flows: self.flows.attach_socket(client, port, now), ..self }
    }

    /// The tunnel after the datagram of `plan` has left and the socket reports `port`.
    pub open spec fn datagram_sent(self, plan: SendPlan, port: u16) -> TunnelModel {
        match plan.via {
            Via::Flow(client) if plan.confirm_port => TunnelModel {
                flows: self.flows.confirm_port(client, port),
                ..self
            },
            _ => self,
        }
    }

    /// The tunnel after the idle sweep at `now`.
    pub open spec fn swept(self, now: u64) -> TunnelModel {
        TunnelModel { flows: self.flows.sweep(now), ..self }
    }

    /// The client to which a datagram received on the flow socket at `port` belongs.
    pub open spec fn return_client(self, port: u16) -> Option<SocketAddress> {
        if self.flows.reverse.contains_key(port) {
            Some(self.flows.reverse[port])
        } else {
            None
        }
    }
}

/// The sans-I/O tunnel.
pub struct Tunnel {
    config: Config,
    carrier: Carrier,
    flows: FlowTable,
    decoder: FrameDecoder,
}

impl View for Tunnel {
    type V = TunnelModel;

    closed spec fn view(&self) -> TunnelModel {
        TunnelModel {
            config: self.config,
            carrier: self.carrier,
            flows: self.flows@,
            pending: self.decoder.pending(),
        }
    }
}

/// Frames a datagram from `source` for the carrier.
fn frame_for(source: SocketAddress, payload: Vec<u8>) -> (r: Forward)
    ensures
        payload@.len() > MAX_PAYLOAD_LEN ==> r is TooLarge,
        payload@.len() <= MAX_PAYLOAD_LEN ==> r.carries(source, payload@),
{
    let packet = UdpPacketWithSource::new(source, payload);
    match packet.encode() {
        Some(frame) => Forward::Frame { source, frame },
        None => Forward::TooLarge,
    }
}

impl Tunnel {
    /// A tunnel for `config`, with no carrier and no flow. Refuses a
    /// configuration whose modes do not suit its side.
    pub fn new(config: Config) -> (r: Result<Tunnel, ConfigError>)
        ensures
            match mode_error(config.listen, config.udp_bind, config.udp_sendto) {
                Some(e) => r matches Err(got) && got == e,
                None => r matches Ok(t) && t@ == TunnelModel::initial(config),
            },
    {
        match check_modes(config.listen, &config.udp_bind, &config.udp_sendto) {
            Err(e) => Err(e),
            Ok(_) => Ok(
                Tunnel {
                    config,
                    carrier: Carrier::Down,
                    flows: FlowTable::new(),
                    decoder: FrameDecoder::new(),
                },
            ),
        }
    }

    /// The configuration the tunnel was made for.
    pub fn config(&self) -> (r: Config)
        ensures
            r == self@.config,
    {
        self.config
    }

    /// The state of the carrier.
    pub fn carrier(&self) -> (r: Carrier)
        ensures
            r == self@.carrier,
    {
        self.carrier
    }

    /// Whether the carrier is connected.
    pub fn has_carrier(&self) -> (r: bool)
        ensures
            r == (self@.carrier is Up),
    {
        match self.carrier {
            Carrier::Up => true,
            _ => false,
        }
    }

    /// The flow table, to look at.
    pub fn flows(&self) -> (r: &FlowTable)
        ensures
            r@ == self@.flows,
    {
        &self.flows
    }

    /// Number of bytes read from the carrier that wait for the rest of their frame.
    pub fn pending_len(&self) -> (n: usize)
        ensures
            n == self@.pending.len(),
    {
        self.decoder.pending_len()
    }

    /// Whether every client gets a socket of its own.
    pub fn per_flow(&self) -> (r: bool)
        ensures
            r == self@.per_flow(),
    {
        self.config.listen && self.config.udp_bind.is_auto()
    }

    /// Whether a dial is to be started now.
    pub fn wants_dial(&self) -> (r: bool)
        ensures
            r == self@.wants_dial(),
    {
        !self.config.listen && match self.carrier {
            Carrier::Down => true,
            _ => false,
        }
    }

    /// The address at which the primary UDP socket binds.
    pub fn primary_bind_address(&self) -> (r: SocketAddress)
        ensures
            r == self@.config.udp_bind.bind_address(),
    {
        self.config.udp_bind.primary_bind_address()
    }

    /// The address at which the socket of a flow binds: any port on the IPv4 wildcard.
    pub fn flow_bind_address() -> (r: SocketAddress)
        ensures
            r == (SocketAddress { ip: IpAddress::V4([0u8, 0u8, 0u8, 0u8]), port: 0 }),
    {
        SocketAddress { ip: IpAddress::unspecified(), port: 0 }
    }

    /// The carrier came up, by a dial or by an accepted connection. A
    /// carrier that was there is replaced; the result says whether one was.
    /// The bytes of the old stream are forgotten, the flows are kept.
    pub fn on_carrier_up(&mut self) -> (replaced: bool)
        ensures
            final(self)@ == old(self)@.carrier_up(),
            replaced == (old(self)@.carrier is Up),
    {
        let replaced = self.has_carrier();
        self.carrier = Carrier::Up;
        self.decoder.reset();
        replaced
    }

    /// A dial failed. The result is the number of seconds to wait before
    /// the next dial, or `None` where a carrier is up and nothing is to be done.
    pub fn on_connect_failed(&mut self) -> (retry_after_secs: Option<u64>)
        ensures
            final(self)@ == old(self)@.connect_failed(),
            retry_after_secs == if old(self)@.carrier is Up {
                None
            } else {
                Some(CONNECT_RETRY_SECS)
            },
    {
        if self.has_carrier() {
            None
        } else {
            self.carrier = Carrier::Backoff;
            Some(CONNECT_RETRY_SECS)
        }
    }

    /// The retry timer ran out: a dial may start again.
    pub fn on_retry_elapsed(&mut self)
        ensures
            final(self)@ == old(self)@.retry_elapsed(),
    {
        match self.carrier {
            Carrier::Backoff => {
                self.carrier = Carrier::Down;
            },
            _ => {},
        }
    }

    /// The carrier was lost: a read, a write or a flush failed, or the peer
    /// closed it. All flow state is cleared at once; every flow socket is to
    /// be closed. The connect side dials again after `RECONNECT_SECS`.
    pub fn on_carrier_lost(&mut self) -> (r: Teardown)
        ensures
            final(self)@ == old(self)@.torn_down(),
            final(self)@.flows.is_empty(),
            old(self)@.flows.sizes_are(r.cleared),
            r.retry_after_secs == if old(self)@.config.listen {
                None
            } else {
                Some(RECONNECT_SECS)
            },
    {
        let cleared = self.flows.clear();
        if self.config.listen {
            self.carrier = Carrier::Down;
            Teardown { cleared, retry_after_secs: None }
        } else {
            self.carrier = Carrier::Backoff;
            Teardown { cleared, retry_after_secs: Some(RECONNECT_SECS) }
        }
    }

    /// A datagram from `from` arrived on the primary UDP socket at `now`.
    /// With a carrier it is framed under its sender's address and counted
    /// for the sender's flow; without one it is dropped and nothing changes.
    pub fn on_udp_datagram(&mut self, from: SocketAddress, payload: Vec<u8>, now: u64) -> (r:
        Forward)
        ensures
            final(self)@ == old(self)@.after_ingress(from, payload@, now),
            !(old(self)@.carrier is Up) ==> r is NoCarrier,
            old(self)@.carrier is Up && !old(self)@.forwards(payload@) ==> r is TooLarge,
            old(self)@.forwards(payload@) ==> r.carries(from, payload@),
    {
        if !self.has_carrier() {
            return Forward::NoCarrier;
        }
        let r = frame_for(from, payload);
        match r {
            Forward::Frame { .. } => {
                self.flows.record_packet(from, now);
            },
            _ => {},
        }
        r
    }

    /// Bytes were read from the carrier. Returns every frame that is now
    /// complete, in order; a malformed frame comes out as `None` and is
    /// skipped. Neither the carrier nor any flow changes.
    pub fn on_carrier_data(&mut self, bytes: &[u8]) -> (frames: Vec<Option<UdpPacketWithSource>>)
        ensures
            final(self)@ == old(self)@.after_read(bytes@),
            packet_views(frames@) == decode_stream(old(self)@.pending + bytes@),
    {
        self.decoder.feed(bytes);
        self.decoder.drain()
    }

    /// A frame from `source` came off the carrier at `now`: decides from
    /// which socket and to which address its payload goes. Where the client
    /// needs a socket of its own and has none, nothing changes and the
    /// answer is to bind one; otherwise the datagram is counted for the flow.
    pub fn begin_egress(&mut self, source: SocketAddress, now: u64) -> (r: Egress)
        ensures
            r == old(self)@.egress(source, now),
            final(self)@ == old(self)@.after_egress(source, now),
    {
        let per_flow = self.per_flow();
        if per_flow && !self.flows.has_socket(&source) {
            return Egress::Bind { client: source };
        }
        let dest = match self.config.udp_sendto {
            PortSpec::Fixed(addr) => addr,
            PortSpec::Auto(_) => source,
        };
        let count = self.flows.record_packet(source, now);
        Egress::Send(
            SendPlan {
                via: if per_flow {
                    Via::Flow(source)
                } else {
                    Via::Primary
                },
                dest,
                count,
                confirm_port: per_flow && count == 1,
            },
        )
    }

    /// A socket was bound for `client` at `now`; it reports the local port
    /// `port`. The flow now owns the socket, and the reverse index leads
    /// from `port` back to `client`.
    pub fn on_socket_bound(&mut self, client: SocketAddress, port: u16, now: u64)
        ensures
            final(self)@ == old(self)@.socket_bound(client, port, now),
    {
        self.flows.attach_socket(client, port, now);
    }

    /// The datagram of `plan` has left its socket, which now reports the
    /// local port `port`. After the first datagram of a flow with its own
    /// socket the reverse index is brought up to date.
    pub fn on_datagram_sent(&mut self, plan: &SendPlan, port: u16)
        ensures
            final(self)@ == old(self)@.datagram_sent(*plan, port),
    {
        match plan.via {
            Via::Flow(client) => {
                if plan.confirm_port {
                    self.flows.confirm_port(client, port);
                }
            },
            Via::Primary => {},
        }
    }

    /// A datagram arrived on the flow socket whose local port is `port`.
    /// It goes back over the carrier under the address of the client that
    /// the reverse index gives for `port`. Nothing changes.
    pub fn on_return_datagram(&self, port: u16, payload: Vec<u8>) -> (r: Forward)
        ensures
            self@.return_client(port) is None ==> r is Unroutable,
            self@.return_client(port) is Some && !(self@.carrier is Up) ==> r is NoCarrier,
            self@.return_client(port) is Some && self@.carrier is Up && !self@.forwards(payload@)
                ==> r is TooLarge,
            self@.return_client(port) is Some && self@.forwards(payload@) ==> r.carries(
                self@.return_client(port)->0,
                payload@,
            ),
    {
        match self.flows.client_for_port(port) {
            None => Forward::Unroutable,
            Some(client) => {
                if self.has_carrier() {
                    frame_for(client, payload)
                } else {
                    Forward::NoCarrier
                }
            },
        }
    }

    /// The idle sweep at `now`: every flow without activity for more than
    /// 600 s is removed. Returns the clients removed; their sockets are to
    /// be closed.
    pub fn sweep(&mut self, now: u64) -> (evicted: Vec<SocketAddress>)
        ensures
            final(self)@ == old(self)@.swept(now),
            final(self)@.flows.all_fresh(now),
            evicted@.no_duplicates(),
            forall|c: SocketAddress|
                evicted@.contains(c) <==> old(self)@.flows.is_idle_flow(c, now),
    {
        self.flows.sweep(now)
    }
}

/// Something that happens to the tunnel, as a mathematical value.
pub enum Event {
    /// The carrier came up.
    CarrierUp,
    /// A dial failed.
    ConnectFailed,
    /// The retry timer ran out.
    RetryElapsed,
    /// The carrier was lost.
    CarrierLost,
    /// A datagram arrived on the primary UDP socket.
    Datagram { from: SocketAddress, payload: Seq<u8>, now: u64 },
    /// Bytes were read from the carrier.
    Read { bytes: Seq<u8> },
    /// A frame that came off the carrier is to be sent on.
    Frame { source: SocketAddress, now: u64 },
    /// A socket was bound for a flow and reports its local port.
    SocketBound { client: SocketAddress, port: u16, now: u64 },
    /// A datagram has left its socket, which reports its local port.
    DatagramSent { plan: SendPlan, port: u16 },
    /// The idle sweep.
    Sweep { now: u64 },
}

impl TunnelModel {
    /// The tunnel after `event`.
    pub open spec fn step(self, event: Event) -> TunnelModel {
        match event {
            Event::CarrierUp => self.carrier_up(),
            Event::ConnectFailed => self.connect_failed(),
            Event::RetryElapsed => self.retry_elapsed(),
            Event::CarrierLost => self.torn_down(),
            Event::Datagram { from, payload, now } => self.after_ingress(from, payload, now),
            Event::Read { bytes } => self.after_read(bytes),
            Event::Frame { source, now } => self.after_egress(source, now),
            Event::SocketBound { client, port, now } => self.socket_bound(client, port, now),
            Event::DatagramSent { plan, port } => self.datagram_sent(plan, port),
            Event::Sweep { now } => self.swept(now),
        }
    }

    /// The tunnel after `events`, one after the other.
    pub open spec fn run(self, events: Seq<Event>) -> TunnelModel
        decreases events.len(),
    {
        if events.len() == 0 {
            self
        } else {
            self.run(events.drop_last()).step(events.last())
        }
    }

    /// Whether the port that `event` reports for a socket is not the port
    /// of another flow's socket. Events that report no port pass.
    pub open spec fn port_is_free(self, event: Event) -> bool {
        match event {
            Event::SocketBound { client, port, now } => self.flows.port_free_for(client, port),
            Event::DatagramSent { plan, port } => match plan.via {
                Via::Flow(client) => self.flows.port_free_for(client, port),
                Via::Primary => true,
            },
            _ => true,
        }
    }

    /// Whether every port reported in the course of `events` is free when it is reported.
    pub open spec fn ports_are_free(self, events: Seq<Event>) -> bool {
        forall|k: int|
            0 <= k < events.len() ==> (#[trigger] self.run(events.take(k))).port_is_free(events[k])
    }
}

/// Cleanup idempotence: after a lost carrier no flow socket, no reverse
/// mapping, no activity time and no packet count is left, the carrier is
/// down, and a second teardown changes nothing.
pub proof fn lemma_teardown_idempotent(s: TunnelModel)
    ensures
        s.torn_down().flows.flow_sockets() == Map::<SocketAddress, u16>::empty(),
        s.torn_down().flows.reverse == Map::<u16, SocketAddress>::empty(),
        s.torn_down().flows.activity() == Map::<SocketAddress, u64>::empty(),
        s.torn_down().flows.packet_counts() == Map::<SocketAddress, u64>::empty(),
        !(s.torn_down().carrier is Up),
        s.torn_down().torn_down() == s.torn_down(),
{
    lemma_empty_holds_nothing();
}

/// Idle eviction: whatever the tunnel went through, after the sweep at
/// `now` it holds no flow whose last activity lies more than 600 s before `now`.
pub proof fn lemma_no_idle_flow_survives(s: TunnelModel, now: u64)
    ensures
        s.swept(now).flows.all_fresh(now),
        forall|c: SocketAddress| #[trigger]
            s.swept(now).flows.flows.contains_key(c) ==> s.flows.flows.contains_key(c) && now
                - s.flows.flows[c].last_activity <= IDLE_TIMEOUT_NANOS,
{
    lemma_sweep_evicts_idle(s.flows, now);
}

/// Only traffic keeps a flow alive: the coming and going of the carrier, a
/// failed dial, a read from the carrier and the report of a socket's port
/// leave every flow's time of last activity and packet count as they were.
pub proof fn lemma_only_traffic_refreshes(s: TunnelModel, event: Event)
    requires
        event is CarrierUp || event is ConnectFailed || event is RetryElapsed || event is Read
            || event is DatagramSent,
    ensures
        s.step(event).flows.activity() == s.flows.activity(),
        s.step(event).flows.packet_counts() == s.flows.packet_counts(),
{
    assert(s.step(event).flows.activity() =~= s.flows.activity());
    assert(s.step(event).flows.packet_counts() =~= s.flows.packet_counts());
}

/// One step never leaves a reverse entry behind that leads nowhere:
/// after any event every entry of the reverse index leads to a flow that
/// is there and whose socket sits on the port of the entry.
pub proof fn lemma_step_keeps_reverse_sound(s: TunnelModel, event: Event)
    requires
        s.flows.reverse_is_sound(),
    ensures
        s.step(event).flows.reverse_is_sound(),
        s.step(event).config == s.config,
{
    match event {
        Event::Datagram { from, payload, now } => {
            lemma_record_keeps_reverse(s.flows, from, now);
        },
        Event::Frame { source, now } => {
            lemma_record_keeps_reverse(s.flows, source, now);
        },
        Event::SocketBound { client, port, now } => {
            lemma_attach_keeps_reverse(s.flows, client, port, now);
        },
        Event::DatagramSent { plan, port } => {
            match plan.via {
                Via::Flow(client) => {
                    lemma_confirm_keeps_reverse(s.flows, client, port);
                },
                Via::Primary => {},
            }
        },
        Event::Sweep { now } => {
            lemma_sweep_keeps_reverse(s.flows, now);
        },
        _ => {},
    }
}

/// Flow-table bijection, one step: an event keeps the reverse index the
/// exact inverse of the map from a flow to the local port of its socket,
/// provided the port it reports is not the port of another flow's socket.
pub proof fn lemma_step_keeps_inverse(s: TunnelModel, event: Event)
    requires
        s.flows.reverse_is_inverse(),
        s.port_is_free(event),
    ensures
        s.step(event).flows.reverse_is_inverse(),
{
    lemma_step_keeps_reverse_sound(s, event);
    match event {
        Event::Datagram { from, payload, now } => {
            lemma_record_keeps_reverse(s.flows, from, now);
        },
        Event::Frame { source, now } => {
            lemma_record_keeps_reverse(s.flows, source, now);
        },
        Event::SocketBound { client, port, now } => {
            lemma_attach_keeps_reverse(s.flows, client, port, now);
        },
        Event::DatagramSent { plan, port } => {
            match plan.via {
                Via::Flow(client) => {
                    lemma_confirm_keeps_reverse(s.flows, client, port);
                },
                Via::Primary => {},
            }
        },
        Event::Sweep { now } => {
            lemma_sweep_keeps_reverse(s.flows, now);
        },
        _ => {},
    }
}

/// From start-up on, through any course of events, every entry of the
/// reverse index leads to a flow that is there and whose socket sits on
/// the port of the entry; and the configuration never changes.
pub proof fn lemma_reverse_index_is_sound(config: Config, events: Seq<Event>)
    ensures
        TunnelModel::initial(config).run(events).flows.reverse_is_sound(),
        TunnelModel::initial(config).run(events).config == config,
    decreases events.len(),
{
    if events.len() > 0 {
        lemma_reverse_index_is_sound(config, events.drop_last());
        lemma_step_keeps_reverse_sound(
            TunnelModel::initial(config).run(events.drop_last()),
            events.last(),
        );
    }
}

/// Flow-table bijection: from start-up on, through any course of events in
/// which no two sockets report the same local port, the reverse index is
/// the exact inverse of the map from a flow to the local port of its socket.
pub proof fn lemma_reverse_index_is_inverse(config: Config, events: Seq<Event>)
    requires
        TunnelModel::initial(config).ports_are_free(events),
    ensures
        TunnelModel::initial(config).run(events).flows.reverse_is_inverse(),
    decreases events.len(),
{
    let start = TunnelModel::initial(config);
    if events.len() > 0 {
        let before = events.drop_last();
        assert forall|k: int| 0 <= k < before.len() implies (#[trigger] start.run(
            before.take(k),
        )).port_is_free(before[k]) by {
            assert(before.take(k) =~= events.take(k));
            assert(start.run(events.take(k)).port_is_free(events[k]));
        }
        lemma_reverse_index_is_inverse(config, before);
        assert(events.take(events.len() - 1) =~= before);
        assert(start.run(events.take(events.len() - 1)).port_is_free(events[events.len() - 1]));
        lemma_step_keeps_inverse(start.run(before), events.last());
    }
}

/// Return routing: where every flow is found under the port of its
/// socket, a datagram that arrives on the socket of a flow goes back over
/// the carrier under the address of that flow's client, and under no other.
pub proof fn lemma_reply_finds_its_client(s: TunnelModel, client: SocketAddress, other: SocketAddress)
    requires
        s.flows.reverse_is_complete(),
        s.flows.has_socket(client),
        s.flows.has_socket(other),
    ensures
        s.return_client(s.flows.flows[client].local_port->0) == Some(client),
        other != client ==> s.flows.flows[other].local_port != s.flows.flows[client].local_port,
{
}

/// Where a configuration is valid, a frame that comes off the carrier on
/// the listen side always goes to the configured destination, and only the
/// listen side ever gives a client a socket of its own.
pub proof fn lemma_addressing(s: TunnelModel, source: SocketAddress)
    requires
        s.config.valid(),
    ensures
        s.config.listen ==> s.config.udp_sendto == PortSpec::Fixed(s.destination(source)),
        !s.config.listen && s.config.udp_sendto is Auto ==> s.destination(source) == source,
        !s.config.listen ==> !s.per_flow() && !s.needs_socket(source),
{
}

} // verus!
