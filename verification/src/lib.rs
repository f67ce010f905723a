//! Direct connection upgrade through relay: the coordination of a hole punch
//! between two peers that can so far only reach each other through a relay.
//!
//! * [`varint`] and [`message`] define the bytes that travel on a substream.
//! * [`handler`] drives the exchange of messages on one connection.
//! * [`behaviour`] decides, per peer, when to start an upgrade, when to dial
//!   and when to retry.
//! * [`net`] is the boundary to `libp2p_core`, whose peer identities,
//!   connection identifiers and multiaddresses the protocol speaks of.

pub mod behaviour;
pub mod handler;
pub mod message;
pub mod net;
pub mod varint;
