//! The network vocabulary of the protocol: peer identities, connection
//! identifiers and multiaddresses, as `libp2p_core` defines them.
//!
//! The three types are opaque here. A multiaddress is known by its binary
//! form, [`addr_bytes`], and a peer identity by the bytes of its multihash,
//! [`peer_bytes`]. What this module states about `libp2p_core` is taken on
//! trust; each such item says so.

use crate::varint;
use libp2p_core::multiaddr::Error;
use libp2p_core::multiaddr::Protocol;
use libp2p_core::{Multiaddr, PeerId};
use vstd::prelude::*;

verus! {

/// `libp2p_core::Multiaddr`, taken as opaque.
#[verifier::external_type_specification]
#[verifier::external_body]
pub struct ExMultiaddr(libp2p_core::Multiaddr);

/// `libp2p_core::PeerId`, taken as opaque.
#[verifier::external_type_specification]
#[verifier::external_body]
pub struct ExPeerId(libp2p_core::PeerId);

/// `libp2p_core::connection::ConnectionId`, taken as opaque.
#[verifier::external_type_specification]
#[verifier::external_body]
pub struct ExConnectionId(libp2p_core::connection::ConnectionId);

/// `libp2p_core::multiaddr::Error`, taken as opaque.
#[verifier::external_type_specification]
#[verifier::external_body]
pub struct ExError(libp2p_core::multiaddr::Error);

/// The binary form of a multiaddress: the encodings of its components, one
/// after the other. It is what `Multiaddr::to_vec` returns.
pub uninterp spec fn addr_bytes(addr: Multiaddr) -> Seq<u8>;

/// The binary form of a peer identity: the bytes of its multihash. It is what
/// `PeerId::to_bytes` returns.
pub uninterp spec fn peer_bytes(peer: PeerId) -> Seq<u8>;

/// Whether `Multiaddr::try_from` accepts the bytes as the binary form of a
/// multiaddress.
pub uninterp spec fn is_multiaddr(bytes: Seq<u8>) -> bool;

/// Whether the multiaddress with this binary form has a relay circuit among
/// its components.
pub uninterp spec fn has_circuit(addr: Seq<u8>) -> bool;

/// The code of the component that names a peer.
pub const P2P: u64 = 421;

/// The encoding of the component that names the peer with the given multihash:
/// the code, then the multihash with its length in front.
pub open spec fn p2p_component(multihash: Seq<u8>) -> Seq<u8> {
    varint::encode(P2P as nat) + varint::encode(multihash.len()) + multihash
}

/// Whether the last component of the multiaddress with binary form `addr`
/// names the peer with the given multihash.
pub open spec fn ends_with_p2p(addr: Seq<u8>, multihash: Seq<u8>) -> bool {
    let component = p2p_component(multihash);
    &&& component.len() <= addr.len()
    &&& addr.skip(addr.len() - component.len()) == component
}

/// The binary forms of a list of multiaddresses.
pub open spec fn addrs_bytes(addrs: Seq<Multiaddr>) -> Seq<Seq<u8>> {
    addrs.map_values(|addr: Multiaddr| addr_bytes(addr))
}

/// `Multiaddr::iter` with `Iterator::any`. Trusted: the answer depends on the
/// binary form alone, and [`has_circuit`] is the name of that answer.
#[verifier::external_body]
pub(crate) fn contains_circuit(addr: &Multiaddr) -> (r: bool)
    ensures
        r == has_circuit(addr_bytes(*addr)),
{
    addr.iter().any(|p| p == Protocol::P2pCircuit)
}

/// `Multiaddr::with` applied to `Protocol::P2p`. Trusted: the binary form of
/// the result is that of `addr` followed by the encoding of the component,
/// which `Protocol::write_bytes` writes as the code 421, the length of the
/// multihash and the multihash, the two numbers as unsigned varints.
#[verifier::external_body]
pub(crate) fn with_p2p(addr: Multiaddr, peer: &PeerId) -> (r: Multiaddr)
    ensures
        addr_bytes(r) == addr_bytes(addr) + p2p_component(peer_bytes(*peer)),
{
    addr.with(Protocol::P2p((*peer).into()))
}

/// `Clone::clone` of a `Multiaddr`. Trusted: the copy has the same binary
/// form.
pub assume_specification[ <Multiaddr as Clone>::clone ](addr: &Multiaddr) -> (r: Multiaddr)
    ensures
        addr_bytes(r) == addr_bytes(*addr),
;

/// `Multiaddr::to_vec`. Trusted: it returns the binary form, and the binary
/// form of a multiaddress is one that `Multiaddr::try_from` accepts, since no
/// multiaddress is built without that check or from anything but components.
#[verifier::external_body]
pub(crate) fn addr_to_vec(addr: &Multiaddr) -> (r: Vec<u8>)
    ensures
        r@ == addr_bytes(*addr),
        is_multiaddr(r@),
{
    addr.to_vec()
}

/// `Multiaddr::try_from` a `Vec<u8>`. Trusted: it succeeds on the bytes that
/// [`is_multiaddr`] names, and the multiaddress it returns keeps them as its
/// binary form.
#[verifier::external_body]
pub(crate) fn addr_from_vec(bytes: Vec<u8>) -> (r: Result<Multiaddr, Error>)
    ensures
        r is Ok <==> is_multiaddr(bytes@),
        r matches Ok(addr) ==> addr_bytes(addr) == bytes@,
{
    Multiaddr::try_from(bytes)
}

/// How a connection came to be: at which end of it the local peer stands, and
/// under which addresses.
#[derive(Clone, Debug, PartialEq, Eq)]
pub enum ConnectedPoint {
    /// The local peer dialed the remote at `address`.
    Dialer { address: Multiaddr },
    /// The remote dialed the local peer, which accepted on `local_addr`.
    Listener { local_addr: Multiaddr, send_back_addr: Multiaddr },
}

impl ConnectedPoint {
    /// The binary form of the address that tells whether the connection runs
    /// through a relay: the dialed address, or the one accepted on.
    pub open spec fn deciding_addr(self) -> Seq<u8> {
        match self {
            ConnectedPoint::Dialer { address } => addr_bytes(address),
            ConnectedPoint::Listener { local_addr, .. } => addr_bytes(local_addr),
        }
    }

    /// The binary form of the address of the remote.
    pub open spec fn remote_addr(self) -> Seq<u8> {
        match self {
            ConnectedPoint::Dialer { address } => addr_bytes(address),
            ConnectedPoint::Listener { send_back_addr, .. } => addr_bytes(send_back_addr),
        }
    }

    /// Whether the connection runs through a relay.
    pub open spec fn relayed(self) -> bool {
        has_circuit(self.deciding_addr())
    }

    /// Whether the connection runs through a relay.
    pub fn is_relayed(&self) -> (r: bool)
        ensures
            r == self.relayed(),
    {
        match self {
            ConnectedPoint::Dialer { address } => contains_circuit(address),
            ConnectedPoint::Listener { local_addr, .. } => contains_circuit(local_addr),
        }
    }

    /// The address of the remote: the one that was dialed, or the one that
    /// answers go back to.
    pub fn get_remote_address(&self) -> (addr: &Multiaddr)
        ensures
            addr_bytes(*addr) == self.remote_addr(),
    {
        match self {
            ConnectedPoint::Dialer { address } => address,
            ConnectedPoint::Listener { send_back_addr, .. } => send_back_addr,
        }
    }
}

/// Appends to each of `addrs` the component that names `peer`.
pub fn suffix_with_peer(addrs: &Vec<Multiaddr>, peer: &PeerId) -> (r: Vec<Multiaddr>)
    ensures
        addrs_bytes(r@) == suffixed(addrs_bytes(addrs@), peer_bytes(*peer)),
{
    let mut out: Vec<Multiaddr> = Vec::new();
    let mut i: usize = 0;
    while i < addrs.len()
        invariant
            i <= addrs.len(),
            out@.len() == i,
            forall|j: int|
                0 <= j < i ==> addr_bytes(#[trigger] out@[j]) == addr_bytes(addrs@[j])
                    + p2p_component(peer_bytes(*peer)),
        decreases addrs.len() - i,
    {
        let addr = with_p2p(addrs[i].clone(), peer);
        out.push(addr);
        i = i + 1;
    }
    assert(addrs_bytes(out@) =~= suffixed(addrs_bytes(addrs@), peer_bytes(*peer)));
    out
}

/// Each of the binary forms, followed by the component that names the peer
/// with the given multihash.
pub open spec fn suffixed(addrs: Seq<Seq<u8>>, multihash: Seq<u8>) -> Seq<Seq<u8>> {
    addrs.map_values(|addr: Seq<u8>| addr + p2p_component(multihash))
}

/// Each address that [`suffixed`] returns ends with the component that names
/// the peer.
pub proof fn lemma_suffixed_ends_with_p2p(addrs: Seq<Seq<u8>>, multihash: Seq<u8>)
    ensures
        suffixed(addrs, multihash).len() == addrs.len(),
        forall|i: int|
            0 <= i < addrs.len() ==> ends_with_p2p(
                #[trigger] suffixed(addrs, multihash)[i],
                multihash,
            ),
{
    let component = p2p_component(multihash);
    assert forall|i: int| 0 <= i < addrs.len() implies ends_with_p2p(
        #[trigger] suffixed(addrs, multihash)[i],
        multihash,
    ) by {
        let whole = addrs[i] + component;
        assert(suffixed(addrs, multihash)[i] == whole);
        assert(whole.skip(whole.len() - component.len()) =~= component);
    }
}

} // verus!
