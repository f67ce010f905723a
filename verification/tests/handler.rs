use dcutr::behaviour::{Action, Behaviour, Event as OutEvent};
use dcutr::handler::{
    sync_delay, time_since, Event, Failure, Handler, In, Inbound, Outbound, Output,
    PendingConnect, Prototype, Role, Substream, MAX_ATTEMPTS, TIMEOUT,
};
use dcutr::message::{read_frame, write_frame, Frame, HolePunch, Kind};
use dcutr::net::ConnectedPoint;
use libp2p_core::connection::ConnectionId;
use libp2p_core::{Multiaddr, PeerId};

fn h_addr(s: &str) -> Multiaddr {
    s.parse().unwrap()
}

fn h_peer(n: u8) -> PeerId {
    PeerId::from_bytes(&[0x00, 0x04, n, n, n, n]).unwrap()
}

fn relayed_in() -> ConnectedPoint {
    ConnectedPoint::Listener {
        local_addr: h_addr("/ip4/10.0.0.1/tcp/4001/p2p-circuit"),
        send_back_addr: h_addr("/ip4/10.0.0.9/tcp/4001/p2p-circuit"),
    }
}

fn relayed_out() -> ConnectedPoint {
    ConnectedPoint::Dialer { address: h_addr("/ip4/10.0.0.9/tcp/4001/p2p-circuit") }
}

fn relayed_handler() -> Handler {
    Handler::new(Prototype::UnknownConnection, &relayed_in())
}

fn own() -> ConnectionId {
    ConnectionId::new(4)
}

fn connect_frame(addrs: &[&str]) -> Vec<u8> {
    let obs_addrs = addrs.iter().map(|s| h_addr(s)).collect();
    write_frame(&HolePunch::Connect { obs_addrs }).unwrap()
}

fn sync_bytes() -> Vec<u8> {
    vec![3, 0x08, 0xac, 0x02]
}

fn connect_command(addrs: &[&str], attempt: u8) -> In {
    In::Connect { obs_addrs: addrs.iter().map(|s| h_addr(s)).collect(), attempt }
}

fn initiator_role(attempt: u8, id: usize) -> Prototype {
    Prototype::RelayedConnection {
        role: Role::Initiator { attempt, relay_connection_id: ConnectionId::new(id) },
    }
}

#[test]
fn unknown_connection_through_relay_becomes_unknown_relayed() {
    let handler = relayed_handler();
    assert_eq!(handler.state(), Prototype::UnknownRelayedConnection);
    assert_eq!(handler.outbound(), Outbound::Idle);
    assert_eq!(handler.inbound(), Inbound::Idle);
    assert_eq!(handler.next_timeout(), None);
    let dialed = Handler::new(Prototype::UnknownConnection, &relayed_out());
    assert_eq!(dialed.state(), Prototype::UnknownRelayedConnection);
}

#[test]
fn unknown_direct_connection_stays_unknown() {
    let point = ConnectedPoint::Dialer { address: h_addr("/ip4/7.7.7.7/tcp/7") };
    let handler = Handler::new(Prototype::UnknownConnection, &point);
    assert_eq!(handler.state(), Prototype::UnknownConnection);
}

#[test]
fn other_prototypes_are_kept() {
    let point = ConnectedPoint::Dialer { address: h_addr("/ip4/7.7.7.7/tcp/7") };
    let direct = Prototype::DirectConnection { role: Role::Listener };
    assert_eq!(Handler::new(direct, &point).state(), direct);
    assert_eq!(Handler::new(direct, &relayed_in()).state(), direct);
    let relayed = initiator_role(2, 5);
    assert_eq!(Handler::new(relayed, &point).state(), relayed);
}

#[test]
fn initiator_substream_sends_connect_receives_connect_sends_sync() {
    let mut handler = relayed_handler();
    let first = handler.on_command(own(), connect_command(&["/ip4/8.8.8.8/tcp/1"], 1), 1_000);
    assert_eq!(
        first,
        vec![Output::Send {
            substream: Substream::Outbound,
            bytes: connect_frame(&["/ip4/8.8.8.8/tcp/1"]),
        }]
    );
    assert_eq!(handler.state(), initiator_role(1, 4));
    assert_eq!(handler.outbound(), Outbound::AwaitingConnect { attempt: 1, sent_at: 1_000 });
    let second = handler.on_outbound_data(&connect_frame(&["/ip4/7.7.7.7/tcp/7"]), 1_300);
    assert_eq!(second, vec![Output::Send { substream: Substream::Outbound, bytes: sync_bytes() }]);
    assert_eq!(
        handler.outbound(),
        Outbound::AwaitingDial { attempt: 1, synced_at: 1_300, delay: 150 }
    );
    assert_eq!(handler.on_timeout(1_449), vec![]);
    let third = handler.on_timeout(1_450);
    assert_eq!(
        third,
        vec![Output::Report(Event::OutboundConnectNeg {
            remote_addrs: vec![h_addr("/ip4/7.7.7.7/tcp/7")],
            attempt: 1,
        })]
    );
    assert_eq!(handler.outbound(), Outbound::Idle);
    assert_eq!(handler.on_timeout(99_000), vec![]);
}

#[test]
fn listener_substream_receives_connect_sends_connect_sends_sync() {
    let mut handler = Handler::new(Prototype::UnknownConnection, &relayed_out());
    assert!(handler.on_inbound_open(500));
    assert_eq!(handler.state(), Prototype::RelayedConnection { role: Role::Listener });
    assert_eq!(handler.inbound(), Inbound::Receiving { since: 500 });
    let reported = handler.on_inbound_data(&connect_frame(&["/ip4/7.7.7.7/tcp/7"]));
    let pending = PendingConnect { remote_obs_addrs: vec![h_addr("/ip4/7.7.7.7/tcp/7")] };
    assert_eq!(
        reported,
        vec![Output::Report(Event::InboundConnectReq {
            inbound_connect: pending.clone(),
            remote_addr: h_addr("/ip4/10.0.0.9/tcp/4001/p2p-circuit"),
        })]
    );
    assert_eq!(handler.inbound(), Inbound::Pending);
    let answered = handler.on_command(
        own(),
        In::AcceptInboundConnect {
            inbound_connect: pending,
            obs_addrs: vec![h_addr("/ip4/8.8.8.8/tcp/1")],
        },
        600,
    );
    assert_eq!(
        answered,
        vec![
            Output::Send {
                substream: Substream::Inbound,
                bytes: connect_frame(&["/ip4/8.8.8.8/tcp/1"]),
            },
            Output::Send { substream: Substream::Inbound, bytes: sync_bytes() },
            Output::Report(Event::InboundConnectNeg(vec![h_addr("/ip4/7.7.7.7/tcp/7")])),
        ]
    );
    assert_eq!(handler.inbound(), Inbound::Idle);
}

#[test]
fn sync_delay_is_half_the_round_trip() {
    assert_eq!(sync_delay(0), 0);
    assert_eq!(sync_delay(1), 0);
    assert_eq!(sync_delay(300), 150);
    assert_eq!(sync_delay(301), 150);
    assert_eq!(sync_delay(u64::MAX), u64::MAX / 2);
    for rtt in [0u64, 1, 2, 3, 99, 10_000, u64::MAX] {
        assert!(sync_delay(rtt) <= rtt);
    }
}

#[test]
fn time_since_is_zero_when_clock_went_back() {
    assert_eq!(time_since(100, 250), 150);
    assert_eq!(time_since(100, 100), 0);
    assert_eq!(time_since(100, 99), 0);
    assert_eq!(time_since(0, u64::MAX), u64::MAX);
}

#[test]
fn answer_at_once_means_dial_at_once() {
    let mut handler = relayed_handler();
    handler.on_command(own(), connect_command(&["/ip4/8.8.8.8/tcp/1"], 1), 1_000);
    handler.on_outbound_data(&connect_frame(&["/ip4/7.7.7.7/tcp/7"]), 900);
    assert_eq!(handler.outbound(), Outbound::AwaitingDial { attempt: 1, synced_at: 900, delay: 0 });
    assert_eq!(handler.next_timeout(), Some(900));
    assert_eq!(handler.on_timeout(900).len(), 1);
}

#[test]
fn answer_may_arrive_in_pieces() {
    let mut handler = relayed_handler();
    handler.on_command(own(), connect_command(&["/ip4/8.8.8.8/tcp/1"], 2), 0);
    let frame = connect_frame(&["/ip4/7.7.7.7/tcp/7", "/ip6/::1/tcp/9"]);
    for byte in &frame[..frame.len() - 1] {
        assert_eq!(handler.on_outbound_data(&[*byte], 10), vec![]);
        assert_eq!(handler.outbound(), Outbound::AwaitingConnect { attempt: 2, sent_at: 0 });
    }
    let done = handler.on_outbound_data(&frame[frame.len() - 1..], 40);
    assert_eq!(done, vec![Output::Send { substream: Substream::Outbound, bytes: sync_bytes() }]);
    assert_eq!(handler.outbound(), Outbound::AwaitingDial { attempt: 2, synced_at: 40, delay: 20 });
    assert_eq!(
        handler.on_timeout(60),
        vec![Output::Report(Event::OutboundConnectNeg {
            remote_addrs: vec![h_addr("/ip4/7.7.7.7/tcp/7"), h_addr("/ip6/::1/tcp/9")],
            attempt: 2,
        })]
    );
}

#[test]
fn malformed_message() {
    let mut handler = Handler::new(Prototype::UnknownConnection, &relayed_out());
    assert!(handler.on_inbound_open(0));
    let mut bytes = vec![0x81, 0x20, 0x08, 100];
    bytes.extend_from_slice(&[0x12, 0]);
    assert_eq!(read_frame(&bytes, Kind::Connect), Frame::Malformed);
    assert_eq!(
        handler.on_inbound_data(&bytes),
        vec![Output::Drop { substream: Substream::Inbound, reason: Failure::ProtocolError }]
    );
    assert_eq!(handler.inbound(), Inbound::Idle);
    assert_eq!(handler.state(), Prototype::RelayedConnection { role: Role::Listener });
    assert_eq!(handler.on_inbound_data(&connect_frame(&["/ip4/7.7.7.7/tcp/7"])), vec![]);
    assert!(handler.on_inbound_open(10));
    assert_eq!(handler.on_inbound_data(&connect_frame(&["/ip4/7.7.7.7/tcp/7"])).len(), 1);
    assert_eq!(handler.inbound(), Inbound::Pending);
}

#[test]
fn sync_in_place_of_connect_is_protocol_error() {
    let mut handler = relayed_handler();
    handler.on_command(own(), connect_command(&["/ip4/8.8.8.8/tcp/1"], 1), 0);
    assert_eq!(
        handler.on_outbound_data(&sync_bytes(), 5),
        vec![Output::Drop { substream: Substream::Outbound, reason: Failure::ProtocolError }]
    );
    assert_eq!(handler.outbound(), Outbound::Idle);
    let mut listener = relayed_handler();
    assert!(listener.on_inbound_open(0));
    assert_eq!(
        listener.on_inbound_data(&sync_bytes()),
        vec![Output::Drop { substream: Substream::Inbound, reason: Failure::ProtocolError }]
    );
}

#[test]
fn connect_without_addresses_drops_the_substream() {
    let mut handler = relayed_handler();
    assert_eq!(
        handler.on_command(own(), connect_command(&[], 1), 0),
        vec![Output::Drop { substream: Substream::Outbound, reason: Failure::ProtocolError }]
    );
    assert_eq!(handler.outbound(), Outbound::Idle);
    assert_eq!(handler.state(), Prototype::UnknownRelayedConnection);
    let mut listener = relayed_handler();
    listener.on_inbound_open(0);
    listener.on_inbound_data(&connect_frame(&["/ip4/7.7.7.7/tcp/7"]));
    assert_eq!(
        listener.on_command(
        own(),
            In::AcceptInboundConnect {
                inbound_connect: PendingConnect { remote_obs_addrs: vec![] },
                obs_addrs: vec![],
            },
            1
        ),
        vec![Output::Drop { substream: Substream::Inbound, reason: Failure::ProtocolError }]
    );
    assert_eq!(listener.inbound(), Inbound::Idle);
}

#[test]
fn answer_that_does_not_come_times_out() {
    let mut handler = relayed_handler();
    handler.on_command(own(), connect_command(&["/ip4/8.8.8.8/tcp/1"], 1), 1_000);
    assert_eq!(handler.next_timeout(), Some(1_000 + TIMEOUT));
    assert_eq!(handler.on_timeout(1_000 + TIMEOUT - 1), vec![]);
    assert_eq!(
        handler.on_timeout(1_000 + TIMEOUT),
        vec![Output::Drop { substream: Substream::Outbound, reason: Failure::Timeout }]
    );
    assert_eq!(handler.outbound(), Outbound::Idle);
    assert_eq!(handler.next_timeout(), None);
    assert_eq!(handler.on_outbound_data(&connect_frame(&["/ip4/7.7.7.7/tcp/7"]), 20_000), vec![]);
}

#[test]
fn request_that_does_not_come_times_out() {
    let mut handler = relayed_handler();
    assert!(handler.on_inbound_open(50));
    assert_eq!(handler.next_timeout(), Some(50 + TIMEOUT));
    assert_eq!(handler.on_inbound_data(&[12, 0x08]), vec![]);
    assert_eq!(handler.on_timeout(10_049), vec![]);
    assert_eq!(
        handler.on_timeout(10_050),
        vec![Output::Drop { substream: Substream::Inbound, reason: Failure::Timeout }]
    );
    assert_eq!(handler.inbound(), Inbound::Idle);
}

#[test]
fn next_timeout_stops_at_the_end_of_the_clock() {
    let mut handler = relayed_handler();
    handler.on_command(own(), connect_command(&["/ip4/8.8.8.8/tcp/1"], 1), u64::MAX - 5);
    assert_eq!(handler.next_timeout(), Some(u64::MAX));
}

#[test]
fn pending_request_has_no_deadline() {
    let mut handler = relayed_handler();
    handler.on_inbound_open(0);
    handler.on_inbound_data(&connect_frame(&["/ip4/7.7.7.7/tcp/7"]));
    assert_eq!(handler.next_timeout(), None);
    assert_eq!(handler.on_timeout(u64::MAX), vec![]);
    assert_eq!(handler.inbound(), Inbound::Pending);
}

#[test]
fn broken_substream_ends_its_exchange() {
    let mut handler = relayed_handler();
    assert_eq!(handler.on_failure(Substream::Outbound), vec![]);
    assert_eq!(handler.on_failure(Substream::Inbound), vec![]);
    handler.on_command(own(), connect_command(&["/ip4/8.8.8.8/tcp/1"], 1), 0);
    assert_eq!(handler.on_failure(Substream::Inbound), vec![]);
    assert_eq!(
        handler.on_failure(Substream::Outbound),
        vec![Output::Drop { substream: Substream::Outbound, reason: Failure::ProtocolError }]
    );
    assert_eq!(handler.outbound(), Outbound::Idle);
    handler.on_command(own(), connect_command(&["/ip4/8.8.8.8/tcp/1"], 2), 0);
    handler.on_outbound_data(&connect_frame(&["/ip4/7.7.7.7/tcp/7"]), 100);
    assert_eq!(handler.on_failure(Substream::Outbound).len(), 1);
    assert_eq!(handler.on_timeout(1_000), vec![]);
    let mut listener = relayed_handler();
    listener.on_inbound_open(0);
    assert_eq!(
        listener.on_failure(Substream::Inbound),
        vec![Output::Drop { substream: Substream::Inbound, reason: Failure::ProtocolError }]
    );
    assert_eq!(listener.inbound(), Inbound::Idle);
}

#[test]
fn initiator_retries_on_the_same_handler() {
    let mut handler = relayed_handler();
    for attempt in 1..=MAX_ATTEMPTS {
        let sent = handler.on_command(own(), connect_command(&["/ip4/8.8.8.8/tcp/1"], attempt), 0);
        assert_eq!(sent.len(), 1);
        assert_eq!(handler.state(), initiator_role(attempt, 4));
        handler.on_outbound_data(&connect_frame(&["/ip4/7.7.7.7/tcp/7"]), 0);
        assert_eq!(
            handler.on_timeout(0),
            vec![Output::Report(Event::OutboundConnectNeg {
                remote_addrs: vec![h_addr("/ip4/7.7.7.7/tcp/7")],
                attempt,
            })]
        );
    }
}

#[test]
fn attempt_out_of_range_is_not_started() {
    let mut handler = relayed_handler();
    assert_eq!(handler.on_command(own(), connect_command(&["/ip4/8.8.8.8/tcp/1"], 0), 0), vec![]);
    assert_eq!(handler.on_command(own(), connect_command(&["/ip4/8.8.8.8/tcp/1"], 4), 0), vec![]);
    assert_eq!(handler.outbound(), Outbound::Idle);
    assert_eq!(handler.state(), Prototype::UnknownRelayedConnection);
}

#[test]
fn second_connect_waits_for_the_first() {
    let mut handler = relayed_handler();
    handler.on_command(own(), connect_command(&["/ip4/8.8.8.8/tcp/1"], 1), 0);
    assert_eq!(handler.on_command(own(), connect_command(&["/ip4/8.8.8.8/tcp/1"], 2), 5), vec![]);
    assert_eq!(handler.outbound(), Outbound::AwaitingConnect { attempt: 1, sent_at: 0 });
}

#[test]
fn handler_keeps_the_role_it_took() {
    let mut initiator = relayed_handler();
    initiator.on_command(own(), connect_command(&["/ip4/8.8.8.8/tcp/1"], 1), 0);
    assert!(!initiator.on_inbound_open(1));
    assert_eq!(initiator.inbound(), Inbound::Idle);
    assert_eq!(initiator.on_inbound_data(&connect_frame(&["/ip4/7.7.7.7/tcp/7"])), vec![]);
    let mut listener = relayed_handler();
    assert!(listener.on_inbound_open(0));
    assert!(!listener.on_inbound_open(1));
    assert_eq!(listener.on_command(own(), connect_command(&["/ip4/8.8.8.8/tcp/1"], 1), 2), vec![]);
    assert_eq!(listener.outbound(), Outbound::Idle);
}

#[test]
fn handler_of_direct_connection_takes_no_part() {
    let point = ConnectedPoint::Dialer { address: h_addr("/ip4/7.7.7.7/tcp/7") };
    let direct = Prototype::DirectConnection { role: Role::Listener };
    for prototype in [direct, Prototype::UnknownConnection] {
        let mut handler = Handler::new(prototype, &point);
        assert_eq!(handler.on_command(own(), connect_command(&["/ip4/8.8.8.8/tcp/1"], 1), 0), vec![]);
        assert!(!handler.on_inbound_open(0));
        assert_eq!(handler.on_inbound_data(&connect_frame(&["/ip4/7.7.7.7/tcp/7"])), vec![]);
        assert_eq!(handler.on_timeout(u64::MAX), vec![]);
        assert_eq!(handler.state(), prototype);
    }
}

#[test]
fn accept_without_pending_request_is_ignored() {
    let mut handler = relayed_handler();
    let accept = In::AcceptInboundConnect {
        inbound_connect: PendingConnect { remote_obs_addrs: vec![] },
        obs_addrs: vec![h_addr("/ip4/8.8.8.8/tcp/1")],
    };
    assert_eq!(handler.on_command(own(), accept.clone(), 0), vec![]);
    handler.on_inbound_open(0);
    assert_eq!(handler.on_command(own(), accept, 0), vec![]);
    assert_eq!(handler.inbound(), Inbound::Receiving { since: 0 });
}

#[test]
fn happy_path_unilateral() {
    let a = h_peer(1);
    let b = h_peer(2);
    let a_external = vec![h_addr("/ip4/1.1.1.1/tcp/4001")];
    let b_external = vec![h_addr("/ip4/2.2.2.2/tcp/4001")];
    let mut a_behaviour = Behaviour::new();
    let mut b_behaviour = Behaviour::new();
    let a_conn = ConnectionId::new(1);
    let b_conn = ConnectionId::new(2);
    let a_point = relayed_out();
    let b_point = relayed_in();
    let mut a_handler = Handler::new(a_behaviour.new_handler(), &a_point);
    let mut b_handler = Handler::new(b_behaviour.new_handler(), &b_point);
    a_behaviour.inject_connection_established(&b, &a_conn, &a_point, None);
    b_behaviour.inject_connection_established(&a, &b_conn, &b_point, None);
    assert_eq!(a_behaviour.poll(&a_external, &a), None);

    let mut events = Vec::new();
    let mut dials = Vec::new();
    let mut now = 0u64;
    let mut progress = true;
    while progress {
        progress = false;
        now += 10;
        while let Some(action) = b_behaviour.poll(&b_external, &b) {
            progress = true;
            match action {
                Action::NotifyHandler { connection_id, event, .. } => {
                    for output in b_handler.on_command(connection_id, event, now) {
                        match output {
                            Output::Send { substream: Substream::Outbound, bytes } => {
                                assert!(a_handler.on_inbound_open(now));
                                for o in a_handler.on_inbound_data(&bytes) {
                                    match o {
                                        Output::Report(e) => a_behaviour.inject_event(b, a_conn, e),
                                        other => panic!("unexpected output {:?}", other),
                                    }
                                }
                            }
                            other => panic!("unexpected output {:?}", other),
                        }
                    }
                }
                Action::GenerateEvent(e) => events.push(e),
                dial => dials.push(dial),
            }
        }
        while let Some(action) = a_behaviour.poll(&a_external, &a) {
            progress = true;
            match action {
                Action::NotifyHandler { connection_id, event, .. } => {
                    for output in a_handler.on_command(connection_id, event, now) {
                        match output {
                            Output::Send { substream: Substream::Inbound, bytes } => {
                                for o in b_handler.on_outbound_data(&bytes, now + 80) {
                                    assert_eq!(
                                        o,
                                        Output::Send {
                                            substream: Substream::Outbound,
                                            bytes: sync_bytes()
                                        }
                                    );
                                }
                            }
                            Output::Report(e) => a_behaviour.inject_event(b, a_conn, e),
                            other => panic!("unexpected output {:?}", other),
                        }
                    }
                }
                Action::GenerateEvent(e) => events.push(e),
                dial => dials.push(dial),
            }
        }
        if let Some(due) = b_handler.next_timeout() {
            progress = true;
            for output in b_handler.on_timeout(due) {
                match output {
                    Output::Report(e) => b_behaviour.inject_event(a, b_conn, e),
                    other => panic!("unexpected output {:?}", other),
                }
            }
        }
    }
    assert_eq!(
        events,
        vec![
            OutEvent::InitiateDirectConnectionUpgrade {
                remote_peer_id: a,
                local_relayed_addr: h_addr("/ip4/10.0.0.1/tcp/4001/p2p-circuit"),
            },
            OutEvent::RemoteInitiatedDirectConnectionUpgrade {
                remote_peer_id: b,
                remote_relayed_addr: h_addr("/ip4/10.0.0.9/tcp/4001/p2p-circuit"),
            },
        ]
    );
    let a_as_seen = h_addr(&format!("/ip4/1.1.1.1/tcp/4001/p2p/{}", a));
    let b_as_seen = h_addr(&format!("/ip4/2.2.2.2/tcp/4001/p2p/{}", b));
    assert_eq!(
        dials,
        vec![
            Action::Dial {
                peer_id: b,
                addresses: vec![b_as_seen],
                condition: dcutr::behaviour::PeerCondition::Always,
                handler: Prototype::DirectConnection { role: Role::Listener },
            },
            Action::Dial {
                peer_id: a,
                addresses: vec![a_as_seen],
                condition: dcutr::behaviour::PeerCondition::Always,
                handler: Prototype::DirectConnection {
                    role: Role::Initiator { attempt: 1, relay_connection_id: b_conn },
                },
            },
        ]
    );
    assert_eq!(a_handler.state(), Prototype::RelayedConnection { role: Role::Listener });
    assert_eq!(b_handler.state(), initiator_role(1, 2));
}
