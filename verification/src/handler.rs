//! The handler of one connection: the roles it can take, the commands it
//! accepts and the events it reports.

use crate::message::{
    frame, lemma_kind_numbers, lemma_parse_frame, parse_frame, read_frame, write_frame, Frame,
    FrameView, HolePunch, HolePunchView, Kind,
};
use crate::net::{addr_bytes, addrs_bytes, ConnectedPoint};
use libp2p_core::connection::ConnectionId;
use libp2p_core::Multiaddr;
use vstd::prelude::*;
use vstd::slice::slice_to_vec;

verus! {

/// The number of times the initiator tries to upgrade one relayed connection.
pub const MAX_ATTEMPTS: u8 = 3;

/// The part a peer plays in one upgrade.
#[derive(Clone, Copy, Debug, PartialEq, Eq)]
pub enum Role {
    /// The local peer drives the hole punch, over the relayed connection
    /// `relay_connection_id`. The first attempt has the number 1.
    Initiator { attempt: u8, relay_connection_id: ConnectionId },
    /// The remote drives the hole punch and the local peer answers.
    Listener,
}

impl Role {
    /// An initiator counts its attempts from 1 to [`MAX_ATTEMPTS`].
    pub open spec fn wf(self) -> bool {
        self matches Role::Initiator { attempt, .. } ==> 1 <= attempt <= MAX_ATTEMPTS
    }
}

/// What a handler is made from, and what it then serves.
#[derive(Clone, Copy, Debug, PartialEq, Eq)]
pub enum Prototype {
    /// Nothing is known yet about the connection.
    UnknownConnection,
    /// The connection is the direct one that an upgrade dialed.
    DirectConnection { role: Role },
    /// The connection runs through a relay, and no upgrade has started on it.
    UnknownRelayedConnection,
    /// The connection runs through a relay, and an upgrade is under way.
    RelayedConnection { role: Role },
}

/// An inbound request to upgrade that waits to be accepted: the addresses
/// under which the remote says it can be reached.
#[derive(Clone, Debug, PartialEq, Eq)]
pub struct PendingConnect {
    pub remote_obs_addrs: Vec<Multiaddr>,
}

impl View for PendingConnect {
    type V = Seq<Seq<u8>>;

    open spec fn view(&self) -> Seq<Seq<u8>> {
        addrs_bytes(self.remote_obs_addrs@)
    }
}

/// A command to the handler.
#[derive(Clone, Debug, PartialEq, Eq)]
pub enum In {
    /// Start attempt number `attempt` of an upgrade, telling the remote that
    /// the local peer can be reached under `obs_addrs`.
    Connect { obs_addrs: Vec<Multiaddr>, attempt: u8 },
    /// Answer the pending request `inbound_connect`, telling the remote that
    /// the local peer can be reached under `obs_addrs`.
    AcceptInboundConnect { inbound_connect: PendingConnect, obs_addrs: Vec<Multiaddr> },
}

/// A command to the handler, with each multiaddress in its binary form.
#[verifier::ext_equal]
pub enum InView {
    Connect { obs_addrs: Seq<Seq<u8>>, attempt: u8 },
    AcceptInboundConnect { inbound_connect: Seq<Seq<u8>>, obs_addrs: Seq<Seq<u8>> },
}

impl InView {
    /// The addresses of the local peer that the command carries.
    pub open spec fn obs_addrs(self) -> Seq<Seq<u8>> {
        match self {
            InView::Connect { obs_addrs, .. } => obs_addrs,
            InView::AcceptInboundConnect { obs_addrs, .. } => obs_addrs,
        }
    }

    /// The same command with other addresses of the local peer.
    pub open spec fn with_obs_addrs(self, addrs: Seq<Seq<u8>>) -> InView {
        match self {
            InView::Connect { attempt, .. } => InView::Connect { obs_addrs: addrs, attempt },
            InView::AcceptInboundConnect { inbound_connect, .. } => InView::AcceptInboundConnect {
                inbound_connect,
                obs_addrs: addrs,
            },
        }
    }
}

impl View for In {
    type V = InView;

    open spec fn view(&self) -> InView {
        match *self {
            In::Connect { obs_addrs, attempt } => InView::Connect {
                obs_addrs: addrs_bytes(obs_addrs@),
                attempt,
            },
            In::AcceptInboundConnect { inbound_connect, obs_addrs } => InView::AcceptInboundConnect {
                inbound_connect: inbound_connect@,
                obs_addrs: addrs_bytes(obs_addrs@),
            },
        }
    }
}

/// What the handler reports.
#[derive(Clone, Debug, PartialEq, Eq)]
pub enum Event {
    /// The remote, reached under `remote_addr`, asks for an upgrade. The
    /// request waits until it is accepted.
    InboundConnectReq { inbound_connect: PendingConnect, remote_addr: Multiaddr },
    /// The exchange that the remote started is complete: the remote can be
    /// dialed under these addresses.
    InboundConnectNeg(Vec<Multiaddr>),
    /// The exchange that the local peer started as attempt number `attempt`
    /// is complete: the remote can be dialed under `remote_addrs`.
    OutboundConnectNeg { remote_addrs: Vec<Multiaddr>, attempt: u8 },
}

/// What the handler reports, with each multiaddress in its binary form.
#[verifier::ext_equal]
pub enum EventView {
    InboundConnectReq { inbound_connect: Seq<Seq<u8>>, remote_addr: Seq<u8> },
    InboundConnectNeg(Seq<Seq<u8>>),
    OutboundConnectNeg { remote_addrs: Seq<Seq<u8>>, attempt: u8 },
}

impl View for Event {
    type V = EventView;

    open spec fn view(&self) -> EventView {
        match *self {
            Event::InboundConnectReq { inbound_connect, remote_addr } => {
                EventView::InboundConnectReq {
                    inbound_connect: inbound_connect@,
                    remote_addr: addr_bytes(remote_addr),
                }
            },
            Event::InboundConnectNeg(remote_addrs) => EventView::InboundConnectNeg(
                addrs_bytes(remote_addrs@),
            ),
            Event::OutboundConnectNeg { remote_addrs, attempt } => EventView::OutboundConnectNeg {
                remote_addrs: addrs_bytes(remote_addrs@),
                attempt,
            },
        }
    }
}

/// The time, in milliseconds, that the remote has to send its message.
pub const TIMEOUT: u64 = 10_000;

/// Why a substream is given up.
#[derive(Clone, Copy, Debug, PartialEq, Eq)]
pub enum Failure {
    /// The remote took longer than [`TIMEOUT`].
    Timeout,
    /// The remote sent what is no message of the protocol or not the message
    /// that was due, the local peer had no message that may travel, or the
    /// substream broke.
    ProtocolError,
}

/// The two substreams of a handler.
#[derive(Clone, Copy, Debug, PartialEq, Eq)]
pub enum Substream {
    /// The one that the remote opened.
    Inbound,
    /// The one that the local peer opened.
    Outbound,
}

/// How far the exchange that the local peer started has come.
#[derive(Clone, Copy, Debug, PartialEq, Eq)]
pub enum Outbound {
    /// No exchange is under way.
    Idle,
    /// `Connect` was sent at the time `sent_at`, and the remote's `Connect` is
    /// awaited.
    AwaitingConnect { attempt: u8, sent_at: u64 },
    /// `Sync` was sent at the time `synced_at`, and the dial is due `delay`
    /// later.
    AwaitingDial { attempt: u8, synced_at: u64, delay: u64 },
}

/// How far the exchange that the remote started has come.
#[derive(Clone, Copy, Debug, PartialEq, Eq)]
pub enum Inbound {
    /// No exchange is under way.
    Idle,
    /// The remote opened a substream at the time `since`, and its `Connect`
    /// is awaited.
    Receiving { since: u64 },
    /// The remote's `Connect` was reported and waits to be accepted.
    Pending,
}

/// What the handler asks of whoever drives it. The things asked for are done
/// in their order.
#[derive(Clone, Debug, PartialEq, Eq)]
pub enum Output {
    /// Send the bytes on the substream. The outbound substream is opened for
    /// the first bytes that go out on it.
    Send { substream: Substream, bytes: Vec<u8> },
    /// Drop the substream; the connection stays.
    Drop { substream: Substream, reason: Failure },
    /// Hand the event to the behaviour.
    Report(Event),
}

/// An [`Output`], with each multiaddress in its binary form.
#[verifier::ext_equal]
pub enum OutputView {
    Send { substream: Substream, bytes: Seq<u8> },
    Drop { substream: Substream, reason: Failure },
    Report(EventView),
}

impl View for Output {
    type V = OutputView;

    open spec fn view(&self) -> OutputView {
        match *self {
            Output::Send { substream, bytes } => OutputView::Send { substream, bytes: bytes@ },
            Output::Drop { substream, reason } => OutputView::Drop { substream, reason },
            Output::Report(event) => OutputView::Report(event@),
        }
    }
}

/// The views of a list of outputs.
pub open spec fn outputs_view(outputs: Seq<Output>) -> Seq<OutputView> {
    outputs.map_values(|output: Output| output@)
}

/// The time that has passed from `from` to `now`; none if the clock went
/// back.
pub open spec fn elapsed(from: u64, now: u64) -> u64 {
    if now >= from {
        (now - from) as u64
    } else {
        0
    }
}

/// The time that has passed from `from` to `now`; none if the clock went
/// back.
pub fn time_since(from: u64, now: u64) -> (passed: u64)
    ensures
        passed == elapsed(from, now),
{
    if now >= from {
        now - from
    } else {
        0
    }
}

/// How long the initiator waits before it dials, after a round trip that took
/// `rtt`: half of it, so that its dial leaves when the remote's does.
pub fn sync_delay(rtt: u64) -> (delay: u64)
    ensures
        delay == rtt / 2,
        0 <= delay <= rtt,
{
    rtt / 2
}

/// The state of a handler.
#[verifier::ext_equal]
pub struct HandlerView {
    /// What the handler serves, and in which role.
    pub state: Prototype,
    /// The address of the remote on that connection, in its binary form.
    pub remote_addr: Seq<u8>,
    pub outbound: Outbound,
    /// What has arrived of the remote's answer.
    pub outbound_buf: Seq<u8>,
    /// The addresses of the remote, from its answer.
    pub remote_addrs: Seq<Seq<u8>>,
    pub inbound: Inbound,
    /// What has arrived of the remote's request.
    pub inbound_buf: Seq<u8>,
}

/// What a handler made from `prototype` serves on a connection that runs
/// through a relay or not: of an unknown connection it is now known whether
/// it is relayed.
pub open spec fn attached(prototype: Prototype, relayed: bool) -> Prototype {
    if prototype is UnknownConnection && relayed {
        Prototype::UnknownRelayedConnection
    } else {
        prototype
    }
}

/// The state of a new handler.
pub open spec fn initial(prototype: Prototype, endpoint: ConnectedPoint) -> HandlerView {
    HandlerView {
        state: attached(prototype, endpoint.relayed()),
        remote_addr: endpoint.remote_addr(),
        outbound: Outbound::Idle,
        outbound_buf: Seq::empty(),
        remote_addrs: Seq::empty(),
        inbound: Inbound::Idle,
        inbound_buf: Seq::empty(),
    }
}

/// Whether a handler in this state may start an exchange: it serves a relayed
/// connection and is not the listener of an upgrade on it.
pub open spec fn may_initiate(state: Prototype) -> bool {
    ||| state is UnknownRelayedConnection
    ||| state matches Prototype::RelayedConnection { role: Role::Initiator { .. } }
}

/// Whether a handler in this state may answer an exchange: it serves a
/// relayed connection and is not the initiator of an upgrade on it.
pub open spec fn may_listen(state: Prototype) -> bool {
    ||| state is UnknownRelayedConnection
    ||| state matches Prototype::RelayedConnection { role: Role::Listener }
}

/// The handler of the connection `connection_id` after a command given at the
/// time `now`, and what it asks for.
///
/// `Connect` starts an exchange if none is under way, the handler may
/// initiate and the number of the attempt is in its range. The handler is
/// then the initiator of that attempt over its connection. `AcceptInboundConnect` answers the request that is
/// pending, with `Connect` and then `Sync`, and reports the remote's
/// addresses. A command that comes at another moment changes nothing. Where
/// the addresses of the local peer make no message that may travel, the
/// substream is dropped.
pub open spec fn commanded(
    h: HandlerView,
    connection_id: ConnectionId,
    command: InView,
    now: u64,
) -> (HandlerView, Seq<OutputView>) {
    match command {
        InView::Connect { obs_addrs, attempt } => {
            if may_initiate(h.state) && h.outbound is Idle && 1 <= attempt <= MAX_ATTEMPTS {
                let message = HolePunchView::Connect { obs_addrs };
                if message.valid() {
                    (
                        HandlerView {
                            state: Prototype::RelayedConnection {
                                role: Role::Initiator {
                                    attempt,
                                    relay_connection_id: connection_id,
                                },
                            },
                            outbound: Outbound::AwaitingConnect { attempt, sent_at: now },
                            outbound_buf: Seq::empty(),
                            ..h
                        },
                        seq![
                            OutputView::Send {
                                substream: Substream::Outbound,
                                bytes: frame(message),
                            },
                        ],
                    )
                } else {
                    (
                        h,
                        seq![
                            OutputView::Drop {
                                substream: Substream::Outbound,
                                reason: Failure::ProtocolError,
                            },
                        ],
                    )
                }
            } else {
                (h, Seq::empty())
            }
        },
        InView::AcceptInboundConnect { inbound_connect, obs_addrs } => {
            if h.inbound is Pending {
                let message = HolePunchView::Connect { obs_addrs };
                let next = HandlerView { inbound: Inbound::Idle, ..h };
                if message.valid() {
                    (
                        next,
                        seq![
                            OutputView::Send {
                                substream: Substream::Inbound,
                                bytes: frame(message),
                            },
                            OutputView::Send {
                                substream: Substream::Inbound,
                                bytes: frame(HolePunchView::Sync),
                            },
                            OutputView::Report(EventView::InboundConnectNeg(inbound_connect)),
                        ],
                    )
                } else {
                    (
                        next,
                        seq![
                            OutputView::Drop {
                                substream: Substream::Inbound,
                                reason: Failure::ProtocolError,
                            },
                        ],
                    )
                }
            } else {
                (h, Seq::empty())
            }
        },
    }
}

/// Whether the handler takes the substream that the remote opens: it does if
/// no exchange with the remote is under way and it may listen.
pub open spec fn accepts_inbound(h: HandlerView) -> bool {
    may_listen(h.state) && h.inbound is Idle
}

/// The handler after the remote opened a substream at the time `now`. A
/// handler that takes the substream is then the listener.
pub open spec fn inbound_opened(h: HandlerView, now: u64) -> HandlerView {
    if accepts_inbound(h) {
        HandlerView {
            state: Prototype::RelayedConnection { role: Role::Listener },
            inbound: Inbound::Receiving { since: now },
            inbound_buf: Seq::empty(),
            ..h
        }
    } else {
        h
    }
}

/// The handler after `data` arrived on the inbound substream, and what it
/// asks for. Once the remote's `Connect` is complete it is reported, and
/// waits to be accepted. Bytes that cannot become a `Connect` make the
/// handler drop the substream. Bytes that come while no `Connect` is awaited
/// change nothing.
pub open spec fn inbound_received(h: HandlerView, data: Seq<u8>) -> (HandlerView, Seq<OutputView>) {
    if h.inbound is Receiving {
        let buf = h.inbound_buf + data;
        match parse_frame(buf, Kind::Connect) {
            FrameView::Incomplete => (HandlerView { inbound_buf: buf, ..h }, Seq::empty()),
            FrameView::Malformed => (
                HandlerView { inbound: Inbound::Idle, inbound_buf: Seq::empty(), ..h },
                seq![
                    OutputView::Drop {
                        substream: Substream::Inbound,
                        reason: Failure::ProtocolError,
                    },
                ],
            ),
            FrameView::Complete { message, .. } => (
                HandlerView { inbound: Inbound::Pending, inbound_buf: Seq::empty(), ..h },
                seq![
                    OutputView::Report(
                        EventView::InboundConnectReq {
                            inbound_connect: message.obs_addrs(),
                            remote_addr: h.remote_addr,
                        },
                    ),
                ],
            ),
        }
    } else {
        (h, Seq::empty())
    }
}

/// The handler after `data` arrived on the outbound substream at the time
/// `now`, and what it asks for. Once the remote's `Connect` is complete, the
/// handler sends `Sync` and waits for half of the time that has passed since
/// it sent its own `Connect`. Bytes that cannot become a `Connect` make the
/// handler drop the substream. Bytes that come while no `Connect` is awaited
/// change nothing.
pub open spec fn outbound_received(h: HandlerView, data: Seq<u8>, now: u64) -> (
    HandlerView,
    Seq<OutputView>,
) {
    match h.outbound {
        Outbound::AwaitingConnect { attempt, sent_at } => {
            let buf = h.outbound_buf + data;
            match parse_frame(buf, Kind::Connect) {
                FrameView::Incomplete => (HandlerView { outbound_buf: buf, ..h }, Seq::empty()),
                FrameView::Malformed => (
                    HandlerView { outbound: Outbound::Idle, outbound_buf: Seq::empty(), ..h },
                    seq![
                        OutputView::Drop {
                            substream: Substream::Outbound,
                            reason: Failure::ProtocolError,
                        },
                    ],
                ),
                FrameView::Complete { message, .. } => (
                    HandlerView {
                        outbound: Outbound::AwaitingDial {
                            attempt,
                            synced_at: now,
                            delay: (elapsed(sent_at, now) / 2) as u64,
                        },
                        outbound_buf: Seq::empty(),
                        remote_addrs: message.obs_addrs(),
                        ..h
                    },
                    seq![
                        OutputView::Send {
                            substream: Substream::Outbound,
                            bytes: frame(HolePunchView::Sync),
                        },
                    ],
                ),
            }
        },
        _ => (h, Seq::empty()),
    }
}

/// The outbound exchange as the time `now` finds it. An answer that has not
/// come within [`TIMEOUT`] is given up. Once the wait after `Sync` is over,
/// the exchange is complete and reported.
pub open spec fn outbound_timed(h: HandlerView, now: u64) -> (HandlerView, Seq<OutputView>) {
    match h.outbound {
        Outbound::AwaitingConnect { sent_at, .. } => if elapsed(sent_at, now) >= TIMEOUT {
            (
                HandlerView { outbound: Outbound::Idle, outbound_buf: Seq::empty(), ..h },
                seq![
                    OutputView::Drop { substream: Substream::Outbound, reason: Failure::Timeout },
                ],
            )
        } else {
            (h, Seq::empty())
        },
        Outbound::AwaitingDial { attempt, synced_at, delay } => if elapsed(synced_at, now)
            >= delay {
            (
                HandlerView { outbound: Outbound::Idle, remote_addrs: Seq::empty(), ..h },
                seq![
                    OutputView::Report(
                        EventView::OutboundConnectNeg { remote_addrs: h.remote_addrs, attempt },
                    ),
                ],
            )
        } else {
            (h, Seq::empty())
        },
        Outbound::Idle => (h, Seq::empty()),
    }
}

/// The inbound exchange as the time `now` finds it. A request that has not
/// come within [`TIMEOUT`] is given up.
pub open spec fn inbound_timed(h: HandlerView, now: u64) -> (HandlerView, Seq<OutputView>) {
    match h.inbound {
        Inbound::Receiving { since } => if elapsed(since, now) >= TIMEOUT {
            (
                HandlerView { inbound: Inbound::Idle, inbound_buf: Seq::empty(), ..h },
                seq![
                    OutputView::Drop { substream: Substream::Inbound, reason: Failure::Timeout },
                ],
            )
        } else {
            (h, Seq::empty())
        },
        _ => (h, Seq::empty()),
    }
}

/// The handler as the time `now` finds it, and what it asks for: first for
/// the outbound exchange, then for the inbound one.
pub open spec fn timed(h: HandlerView, now: u64) -> (HandlerView, Seq<OutputView>) {
    let (first, outbound) = outbound_timed(h, now);
    let (second, inbound) = inbound_timed(first, now);
    (second, outbound + inbound)
}

/// The handler after a substream broke, and what it asks for: the exchange on
/// that substream, if one is under way, is given up.
pub open spec fn failed(h: HandlerView, substream: Substream) -> (HandlerView, Seq<OutputView>) {
    match substream {
        Substream::Outbound => if h.outbound is Idle {
            (h, Seq::empty())
        } else {
            (
                HandlerView {
                    outbound: Outbound::Idle,
                    outbound_buf: Seq::empty(),
                    remote_addrs: Seq::empty(),
                    ..h
                },
                seq![
                    OutputView::Drop {
                        substream: Substream::Outbound,
                        reason: Failure::ProtocolError,
                    },
                ],
            )
        },
        Substream::Inbound => if h.inbound is Idle {
            (h, Seq::empty())
        } else {
            (
                HandlerView { inbound: Inbound::Idle, inbound_buf: Seq::empty(), ..h },
                seq![
                    OutputView::Drop {
                        substream: Substream::Inbound,
                        reason: Failure::ProtocolError,
                    },
                ],
            )
        },
    }
}

/// The moment at which time alone changes the handler: the earlier of the
/// moments at which the outbound and the inbound exchange are due.
pub open spec fn deadline(h: HandlerView) -> Option<int> {
    earlier(outbound_deadline(h.outbound), inbound_deadline(h.inbound))
}

/// The moment at which the outbound exchange is due.
pub open spec fn outbound_deadline(outbound: Outbound) -> Option<int> {
    match outbound {
        Outbound::Idle => None,
        Outbound::AwaitingConnect { sent_at, .. } => Some(sent_at + TIMEOUT),
        Outbound::AwaitingDial { synced_at, delay, .. } => Some(synced_at + delay),
    }
}

/// The moment at which the inbound exchange is due.
pub open spec fn inbound_deadline(inbound: Inbound) -> Option<int> {
    match inbound {
        Inbound::Receiving { since } => Some(since + TIMEOUT),
        _ => None,
    }
}

/// The earlier of two moments, where there are any.
pub open spec fn earlier(a: Option<int>, b: Option<int>) -> Option<int> {
    match (a, b) {
        (Some(x), Some(y)) => Some(if x <= y { x } else { y }),
        (Some(x), None) => Some(x),
        (None, _) => b,
    }
}

/// The handler of one connection.
pub struct Handler {
    state: Prototype,
    remote_addr: Multiaddr,
    outbound: Outbound,
    outbound_buf: Vec<u8>,
    remote_addrs: Vec<Multiaddr>,
    inbound: Inbound,
    inbound_buf: Vec<u8>,
}

impl View for Handler {
    type V = HandlerView;

    closed spec fn view(&self) -> HandlerView {
        HandlerView {
            state: self.state,
            remote_addr: addr_bytes(self.remote_addr),
            outbound: self.outbound,
            outbound_buf: self.outbound_buf@,
            remote_addrs: addrs_bytes(self.remote_addrs@),
            inbound: self.inbound,
            inbound_buf: self.inbound_buf@,
        }
    }
}

fn sync_frame() -> (bytes: Vec<u8>)
    ensures
        bytes@ == frame(HolePunchView::Sync),
{
    proof {
        lemma_kind_numbers();
        assert(crate::message::payload(HolePunchView::Sync) =~= seq![0x08u8, 0xacu8, 0x02u8]);
    }
    match write_frame(&HolePunch::Sync) {
        Ok(bytes) => bytes,
        Err(_) => Vec::new(),
    }
}

fn drop_of(substream: Substream, reason: Failure) -> (outputs: Vec<Output>)
    ensures
        outputs_view(outputs@) == seq![OutputView::Drop { substream, reason }],
{
    let mut outputs: Vec<Output> = Vec::new();
    outputs.push(Output::Drop { substream, reason });
    assert(outputs_view(outputs@) =~~= seq![OutputView::Drop { substream, reason }]);
    outputs
}

fn nothing() -> (outputs: Vec<Output>)
    ensures
        outputs_view(outputs@) == Seq::<OutputView>::empty(),
{
    let outputs: Vec<Output> = Vec::new();
    assert(outputs_view(outputs@) =~~= Seq::<OutputView>::empty());
    outputs
}

impl Handler {
    /// The handler made from `prototype` for a connection that came to be as
    /// `endpoint` says.
    pub fn new(prototype: Prototype, endpoint: &ConnectedPoint) -> (handler: Self)
        ensures
            handler@ == initial(prototype, *endpoint),
    {
        let state = match prototype {
            Prototype::UnknownConnection => if endpoint.is_relayed() {
                Prototype::UnknownRelayedConnection
            } else {
                Prototype::UnknownConnection
            },
            other => other,
        };
        let handler = Handler {
            state,
            remote_addr: endpoint.get_remote_address().clone(),
            outbound: Outbound::Idle,
            outbound_buf: Vec::new(),
            remote_addrs: Vec::new(),
            inbound: Inbound::Idle,
            inbound_buf: Vec::new(),
        };
        assert(handler@ =~~= initial(prototype, *endpoint));
        handler
    }

    /// What the handler serves, and in which role.
    pub fn state(&self) -> (state: Prototype)
        ensures
            state == self@.state,
    {
        self.state
    }

    /// How far the exchange that the local peer started has come.
    pub fn outbound(&self) -> (outbound: Outbound)
        ensures
            outbound == self@.outbound,
    {
        self.outbound
    }

    /// How far the exchange that the remote started has come.
    pub fn inbound(&self) -> (inbound: Inbound)
        ensures
            inbound == self@.inbound,
    {
        self.inbound
    }

    fn can_initiate(&self) -> (r: bool)
        ensures
            r == may_initiate(self@.state),
    {
        match self.state {
            Prototype::UnknownRelayedConnection => true,
            Prototype::RelayedConnection { role: Role::Initiator { .. } } => true,
            _ => false,
        }
    }

    fn can_listen(&self) -> (r: bool)
        ensures
            r == may_listen(self@.state),
    {
        match self.state {
            Prototype::UnknownRelayedConnection => true,
            Prototype::RelayedConnection { role: Role::Listener } => true,
            _ => false,
        }
    }

    /// Takes a command from the behaviour, at the time `now`. `connection_id`
    /// is the connection that the command was sent to, which is the one that
    /// this handler serves.
    pub fn on_command(&mut self, connection_id: ConnectionId, command: In, now: u64) -> (outputs:
        Vec<Output>)
        ensures
            final(self)@ == commanded(old(self)@, connection_id, command@, now).0,
            outputs_view(outputs@) == commanded(old(self)@, connection_id, command@, now).1,
    {
        let ghost before = self@;
        match command {
            In::Connect { obs_addrs, attempt } => {
                let idle = match self.outbound {
                    Outbound::Idle => true,
                    _ => false,
                };
                if self.can_initiate() && idle && 1 <= attempt && attempt <= MAX_ATTEMPTS {
                    match write_frame(&HolePunch::Connect { obs_addrs }) {
                        Ok(bytes) => {
                            self.state = Prototype::RelayedConnection {
                                role: Role::Initiator {
                                    attempt,
                                    relay_connection_id: connection_id,
                                },
                            };
                            self.outbound = Outbound::AwaitingConnect { attempt, sent_at: now };
                            self.outbound_buf = Vec::new();
                            let mut outputs: Vec<Output> = Vec::new();
                            outputs.push(Output::Send { substream: Substream::Outbound, bytes });
                            assert(self@ =~~= commanded(before, connection_id, command@, now).0);
                            assert(outputs_view(outputs@) =~~= commanded(before, connection_id, command@, now).1);
                            outputs
                        },
                        Err(_) => drop_of(Substream::Outbound, Failure::ProtocolError),
                    }
                } else {
                    nothing()
                }
            },
            In::AcceptInboundConnect { inbound_connect, obs_addrs } => {
                match self.inbound {
                    Inbound::Pending => {
                        self.inbound = Inbound::Idle;
                        assert(self@ =~~= commanded(before, connection_id, command@, now).0);
                        match write_frame(&HolePunch::Connect { obs_addrs }) {
                            Ok(bytes) => {
                                let mut outputs: Vec<Output> = Vec::new();
                                outputs.push(
                                    Output::Send { substream: Substream::Inbound, bytes },
                                );
                                outputs.push(
                                    Output::Send {
                                        substream: Substream::Inbound,
                                        bytes: sync_frame(),
                                    },
                                );
                                outputs.push(
                                    Output::Report(
                                        Event::InboundConnectNeg(inbound_connect.remote_obs_addrs),
                                    ),
                                );
                                assert(outputs_view(outputs@) =~~= commanded(
                                    before,
                                    connection_id,
                                    command@,
                                    now,
                                ).1);
                                outputs
                            },
                            Err(_) => drop_of(Substream::Inbound, Failure::ProtocolError),
                        }
                    },
                    _ => nothing(),
                }
            },
        }
    }

    /// Takes note that the remote opened a substream, at the time `now`, and
    /// tells whether the handler takes it. A substream that it does not take
    /// is to be dropped.
    pub fn on_inbound_open(&mut self, now: u64) -> (accepted: bool)
        ensures
            accepted == accepts_inbound(old(self)@),
            final(self)@ == inbound_opened(old(self)@, now),
    {
        let ghost before = self@;
        let idle = match self.inbound {
            Inbound::Idle => true,
            _ => false,
        };
        if self.can_listen() && idle {
            self.state = Prototype::RelayedConnection { role: Role::Listener };
            self.inbound = Inbound::Receiving { since: now };
            self.inbound_buf = Vec::new();
            assert(self@ =~~= inbound_opened(before, now));
            true
        } else {
            false
        }
    }

    /// Takes the bytes that arrived on the inbound substream.
    pub fn on_inbound_data(&mut self, data: &[u8]) -> (outputs: Vec<Output>)
        ensures
            final(self)@ == inbound_received(old(self)@, data@).0,
            outputs_view(outputs@) == inbound_received(old(self)@, data@).1,
    {
        let ghost before = self@;
        match self.inbound {
            Inbound::Receiving { .. } => {
                let mut copy = slice_to_vec(data);
                self.inbound_buf.append(&mut copy);
                match read_frame(self.inbound_buf.as_slice(), Kind::Connect) {
                    Frame::Incomplete => {
                        assert(self@ =~~= inbound_received(before, data@).0);
                        nothing()
                    },
                    Frame::Malformed => {
                        self.inbound = Inbound::Idle;
                        self.inbound_buf = Vec::new();
                        assert(self@ =~~= inbound_received(before, data@).0);
                        drop_of(Substream::Inbound, Failure::ProtocolError)
                    },
                    Frame::Complete { message, .. } => {
                        self.inbound = Inbound::Pending;
                        self.inbound_buf = Vec::new();
                        assert(self@ =~~= inbound_received(before, data@).0);
                        let remote_obs_addrs = match message {
                            HolePunch::Connect { obs_addrs } => obs_addrs,
                            HolePunch::Sync => Vec::new(),
                        };
                        let mut outputs: Vec<Output> = Vec::new();
                        outputs.push(
                            Output::Report(
                                Event::InboundConnectReq {
                                    inbound_connect: PendingConnect { remote_obs_addrs },
                                    remote_addr: self.remote_addr.clone(),
                                },
                            ),
                        );
                        assert(outputs_view(outputs@) =~~= inbound_received(before, data@).1);
                        outputs
                    },
                }
            },
            _ => nothing(),
        }
    }

    /// Takes the bytes that arrived on the outbound substream, at the time
    /// `now`.
    pub fn on_outbound_data(&mut self, data: &[u8], now: u64) -> (outputs: Vec<Output>)
        ensures
            final(self)@ == outbound_received(old(self)@, data@, now).0,
            outputs_view(outputs@) == outbound_received(old(self)@, data@, now).1,
    {
        let ghost before = self@;
        match self.outbound {
            Outbound::AwaitingConnect { attempt, sent_at } => {
                let mut copy = slice_to_vec(data);
                self.outbound_buf.append(&mut copy);
                match read_frame(self.outbound_buf.as_slice(), Kind::Connect) {
                    Frame::Incomplete => {
                        assert(self@ =~~= outbound_received(before, data@, now).0);
                        nothing()
                    },
                    Frame::Malformed => {
                        self.outbound = Outbound::Idle;
                        self.outbound_buf = Vec::new();
                        assert(self@ =~~= outbound_received(before, data@, now).0);
                        drop_of(Substream::Outbound, Failure::ProtocolError)
                    },
                    Frame::Complete { message, .. } => {
                        let delay = sync_delay(time_since(sent_at, now));
                        self.outbound = Outbound::AwaitingDial { attempt, synced_at: now, delay };
                        self.outbound_buf = Vec::new();
                        self.remote_addrs = match message {
                            HolePunch::Connect { obs_addrs } => obs_addrs,
                            HolePunch::Sync => Vec::new(),
                        };
                        assert(self@ =~~= outbound_received(before, data@, now).0);
                        let mut outputs: Vec<Output> = Vec::new();
                        outputs.push(
                            Output::Send { substream: Substream::Outbound, bytes: sync_frame() },
                        );
                        assert(outputs_view(outputs@) =~~= outbound_received(
                            before,
                            data@,
                            now,
                        ).1);
                        outputs
                    },
                }
            },
            _ => nothing(),
        }
    }

    /// Takes note of the time `now`.
    pub fn on_timeout(&mut self, now: u64) -> (outputs: Vec<Output>)
        ensures
            final(self)@ == timed(old(self)@, now).0,
            outputs_view(outputs@) == timed(old(self)@, now).1,
    {
        let ghost before = self@;
        let mut outputs: Vec<Output> = Vec::new();
        match self.outbound {
            Outbound::AwaitingConnect { sent_at, .. } => {
                if time_since(sent_at, now) >= TIMEOUT {
                    self.outbound = Outbound::Idle;
                    self.outbound_buf = Vec::new();
                    outputs.push(
                        Output::Drop { substream: Substream::Outbound, reason: Failure::Timeout },
                    );
                }
            },
            Outbound::AwaitingDial { attempt, synced_at, delay } => {
                if time_since(synced_at, now) >= delay {
                    self.outbound = Outbound::Idle;
                    let mut remote_addrs: Vec<Multiaddr> = Vec::new();
                    core::mem::swap(&mut self.remote_addrs, &mut remote_addrs);
                    outputs.push(Output::Report(Event::OutboundConnectNeg { remote_addrs, attempt }));
                }
            },
            Outbound::Idle => {},
        }
        let ghost middle = self@;
        let ghost first = outputs_view(outputs@);
        assert(middle =~~= outbound_timed(before, now).0);
        assert(first =~~= outbound_timed(before, now).1);
        match self.inbound {
            Inbound::Receiving { since } => {
                if time_since(since, now) >= TIMEOUT {
                    self.inbound = Inbound::Idle;
                    self.inbound_buf = Vec::new();
                    outputs.push(
                        Output::Drop { substream: Substream::Inbound, reason: Failure::Timeout },
                    );
                }
            },
            _ => {},
        }
        assert(self@ =~~= inbound_timed(middle, now).0);
        assert(outputs_view(outputs@) =~~= first + inbound_timed(middle, now).1);
        outputs
    }

    /// Takes note that a substream broke.
    pub fn on_failure(&mut self, substream: Substream) -> (outputs: Vec<Output>)
        ensures
            final(self)@ == failed(old(self)@, substream).0,
            outputs_view(outputs@) == failed(old(self)@, substream).1,
    {
        let ghost before = self@;
        match substream {
            Substream::Outbound => {
                match self.outbound {
                    Outbound::Idle => nothing(),
                    _ => {
                        self.outbound = Outbound::Idle;
                        self.outbound_buf = Vec::new();
                        self.remote_addrs = Vec::new();
                        assert(self@ =~~= failed(before, substream).0);
                        drop_of(Substream::Outbound, Failure::ProtocolError)
                    },
                }
            },
            Substream::Inbound => {
                match self.inbound {
                    Inbound::Idle => nothing(),
                    _ => {
                        self.inbound = Inbound::Idle;
                        self.inbound_buf = Vec::new();
                        assert(self@ =~~= failed(before, substream).0);
                        drop_of(Substream::Inbound, Failure::ProtocolError)
                    },
                }
            },
        }
    }

    /// The moment at which [`Handler::on_timeout`] is to be called, if there
    /// is one. A moment beyond the range of the clock is given as the last
    /// moment of the clock.
    pub fn next_timeout(&self) -> (moment: Option<u64>)
        ensures
            match deadline(self@) {
                Some(due) => moment == Some(if due <= u64::MAX { due as u64 } else { u64::MAX }),
                None => moment is None,
            },
    {
        let outbound: Option<u64> = match self.outbound {
            Outbound::Idle => None,
            Outbound::AwaitingConnect { sent_at, .. } => Some(later(sent_at, TIMEOUT)),
            Outbound::AwaitingDial { synced_at, delay, .. } => Some(later(synced_at, delay)),
        };
        let inbound: Option<u64> = match self.inbound {
            Inbound::Receiving { since } => Some(later(since, TIMEOUT)),
            _ => None,
        };
        match (outbound, inbound) {
            (Some(x), Some(y)) => Some(if x <= y { x } else { y }),
            (Some(x), None) => Some(x),
            (None, y) => y,
        }
    }
}

fn later(from: u64, by: u64) -> (moment: u64)
    ensures
        moment == if from + by <= u64::MAX { (from + by) as u64 } else { u64::MAX },
{
    if by <= u64::MAX - from {
        from + by
    } else {
        u64::MAX
    }
}

/// What can happen to a handler.
#[verifier::ext_equal]
pub enum Input {
    /// The behaviour gives a command to the handler of `connection_id`.
    Command { connection_id: ConnectionId, command: InView, now: u64 },
    /// The remote opens a substream.
    InboundOpen { now: u64 },
    /// Bytes arrive on the inbound substream.
    InboundData { data: Seq<u8> },
    /// Bytes arrive on the outbound substream.
    OutboundData { data: Seq<u8>, now: u64 },
    /// Time passes.
    Timeout { now: u64 },
    /// A substream breaks.
    Failure { substream: Substream },
}

/// The handler after `input`, and what it asks for.
pub open spec fn step(h: HandlerView, input: Input) -> (HandlerView, Seq<OutputView>) {
    match input {
        Input::Command { connection_id, command, now } => commanded(h, connection_id, command, now),
        Input::InboundOpen { now } => (inbound_opened(h, now), Seq::empty()),
        Input::InboundData { data } => inbound_received(h, data),
        Input::OutboundData { data, now } => outbound_received(h, data, now),
        Input::Timeout { now } => timed(h, now),
        Input::Failure { substream } => failed(h, substream),
    }
}

/// A message passing on a substream, as the local peer sees it.
#[derive(Clone, Copy, Debug, PartialEq, Eq)]
pub enum Step {
    SendConnect,
    ReceiveConnect,
    SendSync,
}

/// What passes on the substream of an exchange that the local peer started
/// and that completes.
pub open spec fn initiator_steps() -> Seq<Step> {
    seq![Step::SendConnect, Step::ReceiveConnect, Step::SendSync]
}

/// What passes on the substream of an exchange that the remote started and
/// that completes.
pub open spec fn listener_steps() -> Seq<Step> {
    seq![Step::ReceiveConnect, Step::SendConnect, Step::SendSync]
}

impl Outbound {
    /// What has passed on the outbound substream when the exchange has come
    /// this far.
    pub open spec fn passed(self) -> Seq<Step> {
        match self {
            Outbound::Idle => Seq::empty(),
            Outbound::AwaitingConnect { .. } => seq![Step::SendConnect],
            Outbound::AwaitingDial { .. } => initiator_steps(),
        }
    }
}

impl Inbound {
    /// What has passed on the inbound substream when the exchange has come
    /// this far.
    pub open spec fn passed(self) -> Seq<Step> {
        match self {
            Inbound::Idle => Seq::empty(),
            Inbound::Receiving { .. } => Seq::empty(),
            Inbound::Pending => seq![Step::ReceiveConnect],
        }
    }
}

/// What passes when `bytes` are sent: the message whose frame they are.
pub open spec fn sent_step(bytes: Seq<u8>) -> Seq<Step> {
    if parse_frame(bytes, Kind::Connect) is Complete {
        seq![Step::SendConnect]
    } else if parse_frame(bytes, Kind::Sync) is Complete {
        seq![Step::SendSync]
    } else {
        Seq::empty()
    }
}

/// What passes on `substream` when the outputs are carried out.
pub open spec fn sent_on(outputs: Seq<OutputView>, substream: Substream) -> Seq<Step>
    decreases outputs.len(),
{
    if outputs.len() == 0 {
        Seq::empty()
    } else {
        let rest = sent_on(outputs.skip(1), substream);
        match outputs[0] {
            OutputView::Send { substream: on, bytes } => if on == substream {
                sent_step(bytes) + rest
            } else {
                rest
            },
            _ => rest,
        }
    }
}

/// What `input` lets pass on `substream` towards the handler `h`: the
/// remote's `Connect`, where the input completes it.
pub open spec fn received_on(h: HandlerView, input: Input, substream: Substream) -> Seq<Step> {
    match (input, substream) {
        (Input::OutboundData { data, .. }, Substream::Outbound) => {
            if h.outbound is AwaitingConnect && parse_frame(h.outbound_buf + data, Kind::Connect)
                is Complete {
                seq![Step::ReceiveConnect]
            } else {
                Seq::empty()
            }
        },
        (Input::InboundData { data }, Substream::Inbound) => {
            if h.inbound is Receiving && parse_frame(h.inbound_buf + data, Kind::Connect)
                is Complete {
                seq![Step::ReceiveConnect]
            } else {
                Seq::empty()
            }
        },
        _ => Seq::empty(),
    }
}

/// What passes on `substream` while the handler `h` takes `input`: what it
/// receives, then what it sends.
pub open spec fn passing(h: HandlerView, input: Input, substream: Substream) -> Seq<Step> {
    received_on(h, input, substream) + sent_on(step(h, input).1, substream)
}

/// Whether the outputs report an exchange that the local peer started as
/// complete.
pub open spec fn reports_outbound(outputs: Seq<OutputView>) -> bool {
    exists|i: int|
        0 <= i < outputs.len() && (#[trigger] outputs[i] matches OutputView::Report(
            EventView::OutboundConnectNeg { .. },
        ))
}

/// Whether the outputs report an exchange that the remote started as
/// complete.
pub open spec fn reports_inbound(outputs: Seq<OutputView>) -> bool {
    exists|i: int|
        0 <= i < outputs.len() && (#[trigger] outputs[i] matches OutputView::Report(
            EventView::InboundConnectNeg(_),
        ))
}

/// The frame of a message that may travel is sent as that message.
pub proof fn lemma_sent_step(message: HolePunchView)
    requires
        message.valid(),
    ensures
        sent_step(frame(message)) == seq![
            if message is Connect {
                Step::SendConnect
            } else {
                Step::SendSync
            },
        ],
{
    lemma_parse_frame(message, Seq::empty());
    assert(frame(message) + Seq::<u8>::empty() =~= frame(message));
}

/// `Sync` may travel.
pub proof fn lemma_sync_valid()
    ensures
        HolePunchView::Sync.valid(),
{
    lemma_kind_numbers();
    assert(crate::message::payload(HolePunchView::Sync) =~= seq![0x08u8, 0xacu8, 0x02u8]);
}

/// What [`lemma_exchange_steps`] states of the handler `h` and `input`.
pub open spec fn exchange_steps(h: HandlerView, input: Input) -> bool {
    let (next, outputs) = step(h, input);
    let outbound = h.outbound.passed() + passing(h, input, Substream::Outbound);
    let inbound = h.inbound.passed() + passing(h, input, Substream::Inbound);
    &&& !(next.outbound is Idle) ==> next.outbound.passed() == outbound
    &&& reports_outbound(outputs) ==> outbound == initiator_steps()
    &&& !(next.inbound is Idle) ==> next.inbound.passed() == inbound
    &&& reports_inbound(outputs) ==> inbound == listener_steps()
}

proof fn lemma_steps_connect(
    h: HandlerView,
    connection_id: ConnectionId,
    obs_addrs: Seq<Seq<u8>>,
    attempt: u8,
    now: u64,
)
    ensures
        exchange_steps(
            h,
            Input::Command { connection_id, command: InView::Connect { obs_addrs, attempt }, now },
        ),
{
    let input = Input::Command {
        connection_id,
        command: InView::Connect { obs_addrs, attempt },
        now,
    };
    let outputs = step(h, input).1;
    let message = HolePunchView::Connect { obs_addrs };
    reveal_with_fuel(sent_on, 2);
    if message.valid() {
        lemma_sent_step(message);
    }
    assert(outputs.len() <= 1);
    if outputs.len() == 1 {
        assert(outputs.skip(1) =~= Seq::<OutputView>::empty());
    }
    assert(received_on(h, input, Substream::Outbound) =~= Seq::<Step>::empty());
    assert(received_on(h, input, Substream::Inbound) =~= Seq::<Step>::empty());
    assert(sent_on(outputs, Substream::Inbound) =~= Seq::<Step>::empty());
}

proof fn lemma_steps_accept(
    h: HandlerView,
    connection_id: ConnectionId,
    inbound_connect: Seq<Seq<u8>>,
    obs_addrs: Seq<Seq<u8>>,
    now: u64,
)
    ensures
        exchange_steps(
            h,
            Input::Command {
                connection_id,
                command: InView::AcceptInboundConnect { inbound_connect, obs_addrs },
                now,
            },
        ),
{
    let input = Input::Command {
        connection_id,
        command: InView::AcceptInboundConnect { inbound_connect, obs_addrs },
        now,
    };
    let outputs = step(h, input).1;
    let message = HolePunchView::Connect { obs_addrs };
    lemma_sync_valid();
    lemma_sent_step(HolePunchView::Sync);
    if message.valid() {
        lemma_sent_step(message);
    }
    assert(received_on(h, input, Substream::Outbound) =~= Seq::<Step>::empty());
    assert(received_on(h, input, Substream::Inbound) =~= Seq::<Step>::empty());
    if h.inbound is Pending && message.valid() {
        let second = outputs.skip(1);
        let third = second.skip(1);
        assert(third.skip(1) =~= Seq::<OutputView>::empty());
        assert(sent_on(third.skip(1), Substream::Inbound) =~= Seq::<Step>::empty());
        assert(sent_on(third, Substream::Inbound) =~= Seq::<Step>::empty());
        assert(sent_on(second, Substream::Inbound) =~= seq![Step::SendSync]);
        assert(sent_on(outputs, Substream::Inbound) =~= seq![Step::SendConnect, Step::SendSync]);
        assert(sent_on(third.skip(1), Substream::Outbound) =~= Seq::<Step>::empty());
        assert(sent_on(third, Substream::Outbound) =~= Seq::<Step>::empty());
        assert(sent_on(second, Substream::Outbound) =~= Seq::<Step>::empty());
        assert(sent_on(outputs, Substream::Outbound) =~= Seq::<Step>::empty());
        assert(h.inbound.passed() + passing(h, input, Substream::Inbound) =~= listener_steps());
    } else {
        assert forall|i: int| 0 <= i < outputs.len() implies !(#[trigger] outputs[i] is Send) by {}
        lemma_nothing_sent(outputs, Substream::Outbound);
        lemma_nothing_sent(outputs, Substream::Inbound);
    }
}

proof fn lemma_steps_inbound_data(h: HandlerView, data: Seq<u8>)
    ensures
        exchange_steps(h, Input::InboundData { data }),
{
    let input = Input::InboundData { data };
    let outputs = step(h, input).1;
    assert forall|i: int| 0 <= i < outputs.len() implies !(#[trigger] outputs[i] is Send) by {}
    lemma_nothing_sent(outputs, Substream::Outbound);
    lemma_nothing_sent(outputs, Substream::Inbound);
    assert(received_on(h, input, Substream::Outbound) =~= Seq::<Step>::empty());
}

proof fn lemma_steps_outbound_data(h: HandlerView, data: Seq<u8>, now: u64)
    ensures
        exchange_steps(h, Input::OutboundData { data, now }),
{
    let input = Input::OutboundData { data, now };
    let outputs = step(h, input).1;
    lemma_sync_valid();
    lemma_sent_step(HolePunchView::Sync);
    reveal_with_fuel(sent_on, 2);
    assert(outputs.len() <= 1);
    if outputs.len() == 1 {
        assert(outputs.skip(1) =~= Seq::<OutputView>::empty());
    }
    assert(received_on(h, input, Substream::Inbound) =~= Seq::<Step>::empty());
    assert(sent_on(outputs, Substream::Inbound) =~= Seq::<Step>::empty());
    if h.outbound is AwaitingConnect && parse_frame(h.outbound_buf + data, Kind::Connect)
        is Complete {
        assert(sent_on(outputs, Substream::Outbound) =~= seq![Step::SendSync]);
        assert(h.outbound.passed() + passing(h, input, Substream::Outbound)
            =~= initiator_steps());
    }
}

proof fn lemma_steps_timeout(h: HandlerView, now: u64)
    ensures
        exchange_steps(h, Input::Timeout { now }),
{
    let input = Input::Timeout { now };
    let outputs = step(h, input).1;
    let (first, a) = outbound_timed(h, now);
    let (second, b) = inbound_timed(first, now);
    assert(outputs == a + b);
    assert(a.len() <= 1 && b.len() <= 1);
    assert forall|i: int| 0 <= i < outputs.len() implies !(#[trigger] outputs[i] is Send) && !(
    outputs[i] matches OutputView::Report(EventView::InboundConnectNeg(_))) && (
    outputs[i] matches OutputView::Report(EventView::OutboundConnectNeg { .. })
        ==> h.outbound is AwaitingDial) by {
        if i < a.len() {
            assert(outputs[i] == a[i]);
        } else {
            assert(outputs[i] == b[i - a.len()]);
        }
    }
    lemma_nothing_sent(outputs, Substream::Outbound);
    lemma_nothing_sent(outputs, Substream::Inbound);
    assert(received_on(h, input, Substream::Outbound) =~= Seq::<Step>::empty());
    assert(received_on(h, input, Substream::Inbound) =~= Seq::<Step>::empty());
}

proof fn lemma_steps_other(h: HandlerView, input: Input)
    requires
        input is InboundOpen || input is Failure,
    ensures
        exchange_steps(h, input),
{
    let outputs = step(h, input).1;
    assert forall|i: int| 0 <= i < outputs.len() implies !(#[trigger] outputs[i] is Send) by {}
    lemma_nothing_sent(outputs, Substream::Outbound);
    lemma_nothing_sent(outputs, Substream::Inbound);
    assert(received_on(h, input, Substream::Outbound) =~= Seq::<Step>::empty());
    assert(received_on(h, input, Substream::Inbound) =~= Seq::<Step>::empty());
}

/// While an exchange is under way, its state tells what has passed on its
/// substream since the substream was opened. So where an exchange is
/// reported as complete, exactly this has passed: on the substream of the
/// initiator it sent `Connect`, received `Connect` and sent `Sync`; on the
/// substream of the listener it received `Connect`, sent `Connect` and sent
/// `Sync`.
pub proof fn lemma_exchange_steps(h: HandlerView, input: Input)
    ensures
        exchange_steps(h, input),
{
    match input {
        Input::Command { connection_id, command, now } => {
            match command {
                InView::Connect { obs_addrs, attempt } => {
                    lemma_steps_connect(h, connection_id, obs_addrs, attempt, now);
                },
                InView::AcceptInboundConnect { inbound_connect, obs_addrs } => {
                    lemma_steps_accept(h, connection_id, inbound_connect, obs_addrs, now);
                },
            }
        },
        Input::InboundData { data } => {
            lemma_steps_inbound_data(h, data);
        },
        Input::OutboundData { data, now } => {
            lemma_steps_outbound_data(h, data, now);
        },
        Input::Timeout { now } => {
            lemma_steps_timeout(h, now);
        },
        _ => {
            lemma_steps_other(h, input);
        },
    }
}

/// Outputs that send nothing let nothing pass.
proof fn lemma_nothing_sent(outputs: Seq<OutputView>, substream: Substream)
    requires
        forall|i: int| 0 <= i < outputs.len() ==> !(#[trigger] outputs[i] is Send),
    ensures
        sent_on(outputs, substream) == Seq::<Step>::empty(),
    decreases outputs.len(),
{
    if outputs.len() > 0 {
        assert(!(outputs[0] is Send));
        assert forall|i: int| 0 <= i < outputs.skip(1).len() implies !(
        #[trigger] outputs.skip(1)[i] is Send) by {
            assert(outputs.skip(1)[i] == outputs[i + 1]);
        }
        lemma_nothing_sent(outputs.skip(1), substream);
    }
}

impl HandlerView {
    /// What holds of a handler at all times. While an exchange that the
    /// local peer started is under way, the handler is the initiator, in the
    /// attempt that the exchange belongs to, which is numbered from 1 to
    /// [`MAX_ATTEMPTS`]. While an exchange that the
    /// remote started is under way, the handler is the listener. So at most
    /// one of the two is under way. Nothing is kept of an exchange beyond the
    /// moment that needs it.
    pub open spec fn wf(self) -> bool {
        &&& match self.outbound {
            Outbound::Idle => true,
            Outbound::AwaitingConnect { attempt, .. } | Outbound::AwaitingDial { attempt, .. } => {
                &&& self.state matches Prototype::RelayedConnection {
                    role: Role::Initiator { attempt: current, .. },
                } && current == attempt
                &&& 1 <= attempt <= MAX_ATTEMPTS
            },
        }
        &&& !(self.inbound is Idle) ==> self.state == Prototype::RelayedConnection {
            role: Role::Listener,
        }
        &&& !(self.outbound is AwaitingConnect) ==> self.outbound_buf.len() == 0
        &&& !(self.outbound is AwaitingDial) ==> self.remote_addrs.len() == 0
        &&& !(self.inbound is Receiving) ==> self.inbound_buf.len() == 0
    }
}

/// A new handler is as [`HandlerView::wf`] says.
pub proof fn lemma_initial_wf(prototype: Prototype, endpoint: ConnectedPoint)
    ensures
        initial(prototype, endpoint).wf(),
{
}

/// Whatever happens to a handler, it stays as [`HandlerView::wf`] says. An
/// attempt that is reported as complete is numbered from 1 to
/// [`MAX_ATTEMPTS`].
pub proof fn lemma_step_wf(h: HandlerView, input: Input)
    requires
        h.wf(),
    ensures
        step(h, input).0.wf(),
        step(h, input).0.remote_addr == h.remote_addr,
        forall|i: int|
            0 <= i < step(h, input).1.len() ==> (#[trigger] step(h, input).1[i] matches OutputView::Report(
                EventView::OutboundConnectNeg { attempt, .. },
            ) ==> 1 <= attempt <= MAX_ATTEMPTS),
{
    match input {
        Input::Timeout { now } => {
            let (first, a) = outbound_timed(h, now);
            let (second, b) = inbound_timed(first, now);
            assert(first.wf());
            assert forall|i: int| 0 <= i < (a + b).len() implies (#[trigger] (a + b)[i] matches OutputView::Report(
                EventView::OutboundConnectNeg { attempt, .. },
            ) ==> 1 <= attempt <= MAX_ATTEMPTS) by {
                if i < a.len() {
                    assert((a + b)[i] == a[i]);
                } else {
                    assert((a + b)[i] == b[i - a.len()]);
                }
            }
        },
        _ => {},
    }
}

/// The wait of the initiator before its dial is at least nothing and at most
/// the round trip that it has measured.
pub proof fn lemma_wait_within_round_trip(h: HandlerView, data: Seq<u8>, now: u64)
    ensures
        h.outbound matches Outbound::AwaitingConnect { sent_at, .. } ==> (outbound_received(
            h,
            data,
            now,
        ).0.outbound matches Outbound::AwaitingDial { delay, synced_at, .. } ==> {
            &&& synced_at == now
            &&& 0 <= delay <= elapsed(sent_at, now)
            &&& delay == elapsed(sent_at, now) / 2
        }),
{
}

/// Once the handler has taken note of the time, nothing more is due at that
/// time.
pub proof fn lemma_timed_settles(h: HandlerView, now: u64)
    ensures
        deadline(timed(h, now).0) matches Some(due) ==> now < due,
{
}

} // verus!
