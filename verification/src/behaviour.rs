//! The behaviour: it watches the connections and the handlers' reports of one
//! peer after the other, and queues what has to happen next.
//!
//! It keeps no state but the queue. What an upgrade needs to remember between
//! two steps travels in the handler prototype of the dial.

use crate::handler;
use crate::handler::{In, InView, Prototype, Role, MAX_ATTEMPTS};
use crate::net::{
    addr_bytes, addrs_bytes, ends_with_p2p, has_circuit, lemma_suffixed_ends_with_p2p, peer_bytes,
    suffix_with_peer, suffixed, ConnectedPoint,
};
use libp2p_core::connection::ConnectionId;
use libp2p_core::{Multiaddr, PeerId};
use std::collections::VecDeque;
use vstd::prelude::*;

verus! {

/// The events produced by the [`Behaviour`].
#[derive(Debug, PartialEq, Eq)]
pub enum Event {
    /// The remote reached the local peer through a relay, on
    /// `local_relayed_addr`, and the local peer starts an upgrade.
    InitiateDirectConnectionUpgrade { remote_peer_id: PeerId, local_relayed_addr: Multiaddr },
    /// The remote, reached through a relay under `remote_relayed_addr`,
    /// started an upgrade.
    RemoteInitiatedDirectConnectionUpgrade { remote_peer_id: PeerId, remote_relayed_addr: Multiaddr },
    /// An upgrade led to a direct connection.
    DirectConnectionUpgradeSucceeded,
    /// The last attempt of an upgrade failed.
    DirectConnectionUpgradeFailed { remote_peer_id: PeerId },
}

/// An [`Event`], with each multiaddress in its binary form.
#[verifier::ext_equal]
pub enum EventView {
    InitiateDirectConnectionUpgrade { remote_peer_id: PeerId, local_relayed_addr: Seq<u8> },
    RemoteInitiatedDirectConnectionUpgrade { remote_peer_id: PeerId, remote_relayed_addr: Seq<u8> },
    DirectConnectionUpgradeSucceeded,
    DirectConnectionUpgradeFailed { remote_peer_id: PeerId },
}

impl View for Event {
    type V = EventView;

    open spec fn view(&self) -> EventView {
        match *self {
            Event::InitiateDirectConnectionUpgrade { remote_peer_id, local_relayed_addr } => {
                EventView::InitiateDirectConnectionUpgrade {
                    remote_peer_id,
                    local_relayed_addr: addr_bytes(local_relayed_addr),
                }
            },
            Event::RemoteInitiatedDirectConnectionUpgrade {
                remote_peer_id,
                remote_relayed_addr,
            } => EventView::RemoteInitiatedDirectConnectionUpgrade {
                remote_peer_id,
                remote_relayed_addr: addr_bytes(remote_relayed_addr),
            },
            Event::DirectConnectionUpgradeSucceeded => EventView::DirectConnectionUpgradeSucceeded,
            Event::DirectConnectionUpgradeFailed { remote_peer_id } => {
                EventView::DirectConnectionUpgradeFailed { remote_peer_id }
            },
        }
    }
}

/// When a dial to a peer is to be made.
#[derive(Clone, Copy, Debug, PartialEq, Eq)]
pub enum PeerCondition {
    /// Only if the peer is not connected.
    Disconnected,
    /// Only if no dial to the peer is under way.
    NotDialing,
    /// In any case.
    Always,
}

/// What the behaviour asks of the connection manager.
#[derive(Debug, PartialEq, Eq)]
pub enum Action {
    /// Hand `event` to the handler of the connection `connection_id` to
    /// `peer_id`.
    NotifyHandler { peer_id: PeerId, connection_id: ConnectionId, event: In },
    /// Dial `peer_id` under `addresses`, and give the new connection a handler
    /// made from `handler`.
    Dial { peer_id: PeerId, addresses: Vec<Multiaddr>, condition: PeerCondition, handler: Prototype },
    /// Pass the event on to the user.
    GenerateEvent(Event),
}

/// An [`Action`], with each multiaddress in its binary form.
#[verifier::ext_equal]
pub enum ActionView {
    NotifyHandler { peer_id: PeerId, connection_id: ConnectionId, event: InView },
    Dial {
        peer_id: PeerId,
        addresses: Seq<Seq<u8>>,
        condition: PeerCondition,
        handler: Prototype,
    },
    GenerateEvent(EventView),
}

impl View for Action {
    type V = ActionView;

    open spec fn view(&self) -> ActionView {
        match *self {
            Action::NotifyHandler { peer_id, connection_id, event } => ActionView::NotifyHandler {
                peer_id,
                connection_id,
                event: event@,
            },
            Action::Dial { peer_id, addresses, condition, handler } => ActionView::Dial {
                peer_id,
                addresses: addrs_bytes(addresses@),
                condition,
                handler,
            },
            Action::GenerateEvent(event) => ActionView::GenerateEvent(event@),
        }
    }
}

/// The command that starts attempt number `attempt`. The addresses of the
/// local peer are left out: they are filled in when the command leaves the
/// queue.
pub open spec fn connect(peer_id: PeerId, connection_id: ConnectionId, attempt: u8) -> ActionView {
    ActionView::NotifyHandler {
        peer_id,
        connection_id,
        event: InView::Connect { obs_addrs: Seq::empty(), attempt },
    }
}

/// What a new connection to `peer_id` adds to the queue. A connection that the
/// remote made through a relay starts an upgrade, with the local peer as its
/// initiator. Any other adds nothing.
pub open spec fn established(
    peer_id: PeerId,
    connection_id: ConnectionId,
    connected_point: ConnectedPoint,
) -> Seq<ActionView> {
    match connected_point {
        ConnectedPoint::Listener { local_addr, .. } => if has_circuit(addr_bytes(local_addr)) {
            seq![
                connect(peer_id, connection_id, 1),
                ActionView::GenerateEvent(
                    EventView::InitiateDirectConnectionUpgrade {
                        remote_peer_id: peer_id,
                        local_relayed_addr: addr_bytes(local_addr),
                    },
                ),
            ]
        } else {
            Seq::empty()
        },
        ConnectedPoint::Dialer { .. } => Seq::empty(),
    }
}

/// What a report of the handler of `connection` to `event_source` adds to the
/// queue.
pub open spec fn reported(
    event_source: PeerId,
    connection: ConnectionId,
    event: handler::EventView,
) -> Seq<ActionView> {
    match event {
        handler::EventView::InboundConnectReq { inbound_connect, remote_addr } => seq![
            ActionView::NotifyHandler {
                peer_id: event_source,
                connection_id: connection,
                event: InView::AcceptInboundConnect { inbound_connect, obs_addrs: Seq::empty() },
            },
            ActionView::GenerateEvent(
                EventView::RemoteInitiatedDirectConnectionUpgrade {
                    remote_peer_id: event_source,
                    remote_relayed_addr: remote_addr,
                },
            ),
        ],
        handler::EventView::InboundConnectNeg(remote_addrs) => seq![
            ActionView::Dial {
                peer_id: event_source,
                addresses: remote_addrs,
                condition: PeerCondition::Always,
                handler: Prototype::DirectConnection { role: Role::Listener },
            },
        ],
        handler::EventView::OutboundConnectNeg { remote_addrs, attempt } => seq![
            ActionView::Dial {
                peer_id: event_source,
                addresses: remote_addrs,
                condition: PeerCondition::Always,
                handler: Prototype::DirectConnection {
                    role: Role::Initiator { attempt, relay_connection_id: connection },
                },
            },
        ],
    }
}

/// What a failed dial to `peer_id` adds to the queue, where the new connection
/// was to get a handler made from `handler`. The initiator of an upgrade tries
/// again over the same relayed connection, unless this was its last attempt.
/// Any other dial adds nothing.
pub open spec fn dial_failed(peer_id: PeerId, handler: Prototype) -> Seq<ActionView> {
    match handler {
        Prototype::DirectConnection { role: Role::Initiator { attempt, relay_connection_id } } => {
            if attempt < MAX_ATTEMPTS {
                seq![connect(peer_id, relay_connection_id, (attempt + 1) as u8)]
            } else {
                seq![
                    ActionView::GenerateEvent(
                        EventView::DirectConnectionUpgradeFailed { remote_peer_id: peer_id },
                    ),
                ]
            }
        },
        _ => Seq::empty(),
    }
}

/// Whether the failed dial was the direct dial of an upgrade's initiator.
pub open spec fn is_initiator_dial(handler: Prototype) -> bool {
    handler matches Prototype::DirectConnection { role: Role::Initiator { .. } }
}

/// The action as it leaves the queue. A command to a handler that carries no
/// addresses of the local peer gets the addresses `external`, each followed by
/// the component that names the local peer, whose multihash is `local`.
pub open spec fn filled(action: ActionView, external: Seq<Seq<u8>>, local: Seq<u8>) -> ActionView {
    match action {
        ActionView::NotifyHandler { peer_id, connection_id, event } => {
            if event.obs_addrs().len() == 0 {
                ActionView::NotifyHandler {
                    peer_id,
                    connection_id,
                    event: event.with_obs_addrs(suffixed(external, local)),
                }
            } else {
                action
            }
        },
        _ => action,
    }
}

/// What holds of every action while it is queued: a command to a handler
/// carries no addresses of the local peer yet, and a command to start an
/// attempt numbers it from 1 to [`MAX_ATTEMPTS`].
pub open spec fn queueable(action: ActionView) -> bool {
    action matches ActionView::NotifyHandler { event, .. } ==> {
        &&& event.obs_addrs().len() == 0
        &&& event matches InView::Connect { attempt, .. } ==> 1 <= attempt <= MAX_ATTEMPTS
    }
}

/// The behaviour of the local peer.
pub struct Behaviour {
    /// Queue of actions to return when polled.
    queued_actions: VecDeque<Action>,
}

impl View for Behaviour {
    type V = Seq<ActionView>;

    /// The queue, the action that leaves next in front.
    closed spec fn view(&self) -> Seq<ActionView> {
        self.queued_actions@.map_values(|action: Action| action@)
    }
}

impl Behaviour {
    /// Every queued action is [`queueable`].
    pub open spec fn wf(&self) -> bool {
        forall|i: int| 0 <= i < self@.len() ==> queueable(#[trigger] self@[i])
    }

    /// A behaviour with nothing queued.
    pub fn new() -> (behaviour: Self)
        ensures
            behaviour.wf(),
            behaviour@ == Seq::<ActionView>::empty(),
    {
        let behaviour = Behaviour { queued_actions: VecDeque::new() };
        assert(behaviour@ =~= Seq::<ActionView>::empty());
        behaviour
    }

    fn push(&mut self, action: Action)
        requires
            old(self).wf(),
            queueable(action@),
        ensures
            final(self).wf(),
            final(self)@ == old(self)@.push(action@),
    {
        let ghost before = self@;
        self.queued_actions.push_back(action);
        assert(self@ =~= before.push(action@));
    }

    /// The prototype of the handler for a connection that the behaviour did
    /// not dial itself.
    pub fn new_handler(&mut self) -> (prototype: Prototype)
        requires
            old(self).wf(),
        ensures
            final(self).wf(),
            prototype == Prototype::UnknownConnection,
            final(self)@ == old(self)@,
    {
        Prototype::UnknownConnection
    }

    /// The addresses under which the behaviour knows the peer: none.
    pub fn addresses_of_peer(&mut self, peer_id: &PeerId) -> (addresses: Vec<Multiaddr>)
        requires
            old(self).wf(),
        ensures
            final(self).wf(),
            addresses@.len() == 0,
            final(self)@ == old(self)@,
    {
        Vec::new()
    }

    /// Takes note of the first connection to a peer. The queue stays as it
    /// is.
    pub fn inject_connected(&mut self, peer_id: &PeerId)
        requires
            old(self).wf(),
        ensures
            final(self).wf(),
            final(self)@ == old(self)@,
    {
    }

    /// Takes note of a new connection.
    pub fn inject_connection_established(
        &mut self,
        peer_id: &PeerId,
        connection_id: &ConnectionId,
        connected_point: &ConnectedPoint,
        failed_addresses: Option<&Vec<Multiaddr>>,
    )
        requires
            old(self).wf(),
        ensures
            final(self).wf(),
            final(self)@ == old(self)@ + established(*peer_id, *connection_id, *connected_point),
    {
        let ghost before = self@;
        match connected_point {
            ConnectedPoint::Listener { local_addr, .. } => {
                if connected_point.is_relayed() {
                    self.push(
                        Action::NotifyHandler {
                            peer_id: *peer_id,
                            connection_id: *connection_id,
                            event: In::Connect { obs_addrs: Vec::new(), attempt: 1 },
                        },
                    );
                    self.push(
                        Action::GenerateEvent(
                            Event::InitiateDirectConnectionUpgrade {
                                remote_peer_id: *peer_id,
                                local_relayed_addr: local_addr.clone(),
                            },
                        ),
                    );
                }
            },
            ConnectedPoint::Dialer { .. } => {},
        }
        assert(self@ =~~= before + established(*peer_id, *connection_id, *connected_point));
    }

    /// Takes note of a dial that failed. `handler` is the prototype that the
    /// dial was made with. The direct dial of an initiator is always to a
    /// known peer.
    pub fn inject_dial_failure(&mut self, peer_id: Option<PeerId>, handler: Prototype)
        requires
            old(self).wf(),
            is_initiator_dial(handler) ==> peer_id is Some,
        ensures
            final(self).wf(),
            is_initiator_dial(handler) ==> final(self)@ == old(self)@ + dial_failed(
                peer_id.unwrap(),
                handler,
            ),
            !is_initiator_dial(handler) ==> final(self)@ == old(self)@,
    {
        let ghost before = self@;
        match handler {
            Prototype::DirectConnection {
                role: Role::Initiator { attempt, relay_connection_id },
            } => {
                let peer_id = peer_id.unwrap();
                if attempt < MAX_ATTEMPTS {
                    self.push(
                        Action::NotifyHandler {
                            peer_id,
                            connection_id: relay_connection_id,
                            event: In::Connect { obs_addrs: Vec::new(), attempt: attempt + 1 },
                        },
                    );
                } else {
                    self.push(
                        Action::GenerateEvent(
                            Event::DirectConnectionUpgradeFailed { remote_peer_id: peer_id },
                        ),
                    );
                }
                assert(self@ =~~= before + dial_failed(peer_id, handler));
            },
            _ => {},
        }
    }

    /// Takes note of the last connection to a peer having closed. Nothing is
    /// kept per peer, so the queue stays as it is.
    pub fn inject_disconnected(&mut self, peer_id: &PeerId)
        requires
            old(self).wf(),
        ensures
            final(self).wf(),
            final(self)@ == old(self)@,
    {
    }

    /// Takes note of a connection having closed. Nothing is kept per
    /// connection, so the queue stays as it is.
    pub fn inject_connection_closed(
        &mut self,
        peer_id: &PeerId,
        connection_id: &ConnectionId,
        connected_point: &ConnectedPoint,
    )
        requires
            old(self).wf(),
        ensures
            final(self).wf(),
            final(self)@ == old(self)@,
    {
    }

    /// Takes note of what the handler of `connection` to `event_source`
    /// reports.
    pub fn inject_event(
        &mut self,
        event_source: PeerId,
        connection: ConnectionId,
        handler_event: handler::Event,
    )
        requires
            old(self).wf(),
        ensures
            final(self).wf(),
            final(self)@ == old(self)@ + reported(event_source, connection, handler_event@),
    {
        let ghost before = self@;
        let ghost added = reported(event_source, connection, handler_event@);
        match handler_event {
            handler::Event::InboundConnectReq { inbound_connect, remote_addr } => {
                self.push(
                    Action::NotifyHandler {
                        peer_id: event_source,
                        connection_id: connection,
                        event: In::AcceptInboundConnect { inbound_connect, obs_addrs: Vec::new() },
                    },
                );
                self.push(
                    Action::GenerateEvent(
                        Event::RemoteInitiatedDirectConnectionUpgrade {
                            remote_peer_id: event_source,
                            remote_relayed_addr: remote_addr,
                        },
                    ),
                );
            },
            handler::Event::InboundConnectNeg(remote_addrs) => {
                self.push(
                    Action::Dial {
                        peer_id: event_source,
                        addresses: remote_addrs,
                        condition: PeerCondition::Always,
                        handler: Prototype::DirectConnection { role: Role::Listener },
                    },
                );
            },
            handler::Event::OutboundConnectNeg { remote_addrs, attempt } => {
                self.push(
                    Action::Dial {
                        peer_id: event_source,
                        addresses: remote_addrs,
                        condition: PeerCondition::Always,
                        handler: Prototype::DirectConnection {
                            role: Role::Initiator { attempt, relay_connection_id: connection },
                        },
                    },
                );
            },
        }
        assert(self@ =~~= before + added);
    }

    /// Takes the next action from the queue, if there is one. A command to a
    /// handler leaves with the addresses under which the local peer can be
    /// reached from outside at this moment, `external_addresses`, each
    /// followed by the component that names the local peer.
    pub fn poll(&mut self, external_addresses: &Vec<Multiaddr>, local_peer_id: &PeerId) -> (next:
        Option<Action>)
        requires
            old(self).wf(),
        ensures
            final(self).wf(),
            old(self)@.len() == 0 ==> next is None && final(self)@ == old(self)@,
            old(self)@.len() > 0 ==> {
                &&& next is Some
                &&& next.unwrap()@ == filled(
                    old(self)@[0],
                    addrs_bytes(external_addresses@),
                    peer_bytes(*local_peer_id),
                )
                &&& final(self)@ == old(self)@.skip(1)
            },
            next matches Some(Action::NotifyHandler { event, .. }) ==> {
                &&& event@.obs_addrs() == suffixed(
                    addrs_bytes(external_addresses@),
                    peer_bytes(*local_peer_id),
                )
                &&& forall|i: int|
                    0 <= i < event@.obs_addrs().len() ==> ends_with_p2p(
                        #[trigger] event@.obs_addrs()[i],
                        peer_bytes(*local_peer_id),
                    )
                &&& event matches In::Connect { attempt, .. } ==> 1 <= attempt <= MAX_ATTEMPTS
            },
    {
        proof {
            lemma_suffixed_ends_with_p2p(
                addrs_bytes(external_addresses@),
                peer_bytes(*local_peer_id),
            );
        }
        let ghost before = self@;
        match self.queued_actions.pop_front() {
            None => {
                assert(self@ =~= before);
                None
            },
            Some(action) => {
                assert(self@ =~= before.skip(1));
                assert(action@ == before[0]);
                assert(queueable(before[0]));
                match action {
                    Action::NotifyHandler { peer_id, connection_id, event } => {
                        // A queued command carries no addresses yet.
                        let obs_addrs = suffix_with_peer(external_addresses, local_peer_id);
                        let event = match event {
                            In::Connect { attempt, .. } => In::Connect { obs_addrs, attempt },
                            In::AcceptInboundConnect {
                                inbound_connect,
                                ..
                            } => In::AcceptInboundConnect { inbound_connect, obs_addrs },
                        };
                        Some(Action::NotifyHandler { peer_id, connection_id, event })
                    },
                    other => Some(other),
                }
            },
        }
    }
}

/// Whatever the handler of a connection to a peer reports, each action that
/// follows is about that peer: a dial goes to it, in any case, and a command
/// goes to the handler that reported. Each action may stand in the queue.
pub proof fn lemma_reported_concerns_source(
    event_source: PeerId,
    connection: ConnectionId,
    event: handler::EventView,
)
    ensures
        forall|i: int|
            0 <= i < reported(event_source, connection, event).len() ==> {
                let action = #[trigger] reported(event_source, connection, event)[i];
                &&& queueable(action)
                &&& action matches ActionView::Dial { peer_id, condition, .. } ==> peer_id
                    == event_source && condition == PeerCondition::Always
                &&& action matches ActionView::NotifyHandler { peer_id, connection_id, .. }
                    ==> peer_id == event_source && connection_id == connection
            },
{
}

/// The prototype of the dial that follows a failed dial of an initiator, once
/// the next exchange is complete: the next attempt over the same relayed
/// connection. There is none after the last attempt.
pub open spec fn retry(handler: Prototype) -> Option<Prototype> {
    match handler {
        Prototype::DirectConnection { role: Role::Initiator { attempt, relay_connection_id } } => {
            if attempt < MAX_ATTEMPTS {
                Some(
                    Prototype::DirectConnection {
                        role: Role::Initiator {
                            attempt: (attempt + 1) as u8,
                            relay_connection_id,
                        },
                    },
                )
            } else {
                None
            }
        },
        _ => None,
    }
}

/// How far the attempt that a dial belongs to is from the last attempt.
pub open spec fn remaining(handler: Prototype) -> nat {
    match handler {
        Prototype::DirectConnection { role: Role::Initiator { attempt, .. } } => {
            if attempt < MAX_ATTEMPTS {
                (MAX_ATTEMPTS - attempt) as nat
            } else {
                0
            }
        },
        _ => 0,
    }
}

/// The number of attempts that follow a failed dial, if every later dial
/// fails too.
pub open spec fn retries(handler: Prototype) -> nat
    decreases remaining(handler),
{
    match retry(handler) {
        Some(next) => 1 + retries(next),
        None => 0,
    }
}

/// A failed dial of an initiator leads to the next attempt over the same
/// relayed connection, or, after the last attempt, to the event that tells of
/// the failure. The dial that the next attempt leads to is made with the
/// prototype that [`retry`] gives.
pub proof fn lemma_dial_failed_retries(
    peer_id: PeerId,
    attempt: u8,
    relay_connection_id: ConnectionId,
    remote_addrs: Seq<Seq<u8>>,
)
    ensures
        ({
            let handler = Prototype::DirectConnection {
                role: Role::Initiator { attempt, relay_connection_id },
            };
            let next = Prototype::DirectConnection {
                role: Role::Initiator { attempt: (attempt + 1) as u8, relay_connection_id },
            };
            &&& attempt < MAX_ATTEMPTS ==> {
                &&& retry(handler) == Some(next)
                &&& dial_failed(peer_id, handler) == seq![
                    connect(peer_id, relay_connection_id, (attempt + 1) as u8),
                ]
                &&& reported(
                    peer_id,
                    relay_connection_id,
                    handler::EventView::OutboundConnectNeg {
                        remote_addrs,
                        attempt: (attempt + 1) as u8,
                    },
                ) == seq![
                    ActionView::Dial {
                        peer_id,
                        addresses: remote_addrs,
                        condition: PeerCondition::Always,
                        handler: next,
                    },
                ]
            }
            &&& attempt >= MAX_ATTEMPTS ==> {
                &&& retry(handler) is None
                &&& dial_failed(peer_id, handler) == seq![
                    ActionView::GenerateEvent(
                        EventView::DirectConnectionUpgradeFailed { remote_peer_id: peer_id },
                    ),
                ]
            }
            &&& forall|i: int|
                0 <= i < dial_failed(peer_id, handler).len() ==> queueable(
                    #[trigger] dial_failed(peer_id, handler)[i],
                )
        }),
{
}

/// However often the dial fails, no relayed connection sees more than
/// [`MAX_ATTEMPTS`] attempts: the number of an attempt and the number of
/// attempts that can follow it add up to no more.
pub proof fn lemma_attempts_bounded(attempt: u8, relay_connection_id: ConnectionId)
    requires
        1 <= attempt,
    ensures
        ({
            let handler = Prototype::DirectConnection {
                role: Role::Initiator { attempt, relay_connection_id },
            };
            &&& attempt <= MAX_ATTEMPTS ==> attempt + retries(handler) == MAX_ATTEMPTS
            &&& attempt > MAX_ATTEMPTS ==> retries(handler) == 0
        }),
    decreases
        remaining(
            Prototype::DirectConnection { role: Role::Initiator { attempt, relay_connection_id } },
        ),
{
    if attempt < MAX_ATTEMPTS {
        lemma_attempts_bounded((attempt + 1) as u8, relay_connection_id);
    }
}

/// A new connection starts with the first attempt, if it starts an upgrade at
/// all, and what it adds to the queue may stand there.
pub proof fn lemma_established_first_attempt(
    peer_id: PeerId,
    connection_id: ConnectionId,
    connected_point: ConnectedPoint,
)
    ensures
        forall|i: int|
            0 <= i < established(peer_id, connection_id, connected_point).len() ==> {
                let action = #[trigger] established(peer_id, connection_id, connected_point)[i];
                &&& queueable(action)
                &&& action matches ActionView::NotifyHandler { event, .. } ==> event
                    == (InView::Connect { obs_addrs: Seq::empty(), attempt: 1 })
            },
{
}

/// A command to a handler that leaves the queue carries the addresses of the
/// local peer, each ending with the component that names the local peer.
pub proof fn lemma_filled_ends_with_p2p(action: ActionView, external: Seq<Seq<u8>>, local: Seq<u8>)
    requires
        queueable(action),
    ensures
        filled(action, external, local) matches ActionView::NotifyHandler { event, .. } ==> {
            &&& event.obs_addrs() == suffixed(external, local)
            &&& forall|i: int|
                0 <= i < event.obs_addrs().len() ==> ends_with_p2p(
                    #[trigger] event.obs_addrs()[i],
                    local,
                )
        },
{
    lemma_suffixed_ends_with_p2p(external, local);
}

} // verus!
