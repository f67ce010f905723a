use dcutr::net::{suffix_with_peer, ConnectedPoint};
use libp2p_core::{Multiaddr, PeerId};

fn net_addr(s: &str) -> Multiaddr {
    s.parse().unwrap()
}

fn net_peer() -> PeerId {
    PeerId::from_bytes(&[0x00, 0x04, 1, 2, 3, 4]).unwrap()
}

#[test]
fn listener_on_circuit_address_is_relayed() {
    let point = ConnectedPoint::Listener {
        local_addr: net_addr("/ip4/1.2.3.4/tcp/1/p2p-circuit"),
        send_back_addr: net_addr("/ip4/5.6.7.8/tcp/2"),
    };
    assert!(point.is_relayed());
}

#[test]
fn listener_is_judged_by_local_address_only() {
    let point = ConnectedPoint::Listener {
        local_addr: net_addr("/ip4/1.2.3.4/tcp/1"),
        send_back_addr: net_addr("/ip4/5.6.7.8/tcp/2/p2p-circuit"),
    };
    assert!(!point.is_relayed());
}

#[test]
fn dialer_is_judged_by_dialed_address() {
    let relayed = ConnectedPoint::Dialer { address: net_addr("/ip4/1.2.3.4/tcp/1/p2p-circuit") };
    let direct = ConnectedPoint::Dialer { address: net_addr("/ip4/1.2.3.4/tcp/1") };
    assert!(relayed.is_relayed());
    assert!(!direct.is_relayed());
}

#[test]
fn remote_address_is_dialed_or_send_back_address() {
    let dialer = ConnectedPoint::Dialer { address: net_addr("/ip4/1.2.3.4/tcp/1") };
    assert_eq!(dialer.get_remote_address(), &net_addr("/ip4/1.2.3.4/tcp/1"));
    let listener = ConnectedPoint::Listener {
        local_addr: net_addr("/ip4/1.2.3.4/tcp/1"),
        send_back_addr: net_addr("/ip4/5.6.7.8/tcp/2"),
    };
    assert_eq!(listener.get_remote_address(), &net_addr("/ip4/5.6.7.8/tcp/2"));
}

#[test]
fn suffix_appends_peer_component_to_binary_form() {
    let addrs = vec![net_addr("/ip4/1.2.3.4/tcp/1"), net_addr("/ip6/::1/udp/9")];
    let peer = net_peer();
    let out = suffix_with_peer(&addrs, &peer);
    assert_eq!(out.len(), 2);
    for (before, after) in addrs.iter().zip(out.iter()) {
        let mut expected = before.to_vec();
        expected.extend_from_slice(&[0xa5, 0x03, 0x06, 0x00, 0x04, 1, 2, 3, 4]);
        assert_eq!(after.to_vec(), expected);
    }
    assert_eq!(out[0], net_addr(&format!("/ip4/1.2.3.4/tcp/1/p2p/{}", peer)));
    assert_ne!(out[0], addrs[0]);
}

#[test]
fn suffix_of_no_addresses_is_empty() {
    assert!(suffix_with_peer(&vec![], &net_peer()).is_empty());
}

#[test]
fn suffix_leaves_its_input_as_it_was() {
    let addrs = vec![net_addr("/ip4/1.2.3.4/tcp/1")];
    let _ = suffix_with_peer(&addrs, &net_peer());
    assert_eq!(addrs, vec![net_addr("/ip4/1.2.3.4/tcp/1")]);
}
