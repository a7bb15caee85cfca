//! The decisions of an mDNS responder, verified: which answers a packet gets and where
//! they are sent, how a multicast socket is set up, and how one poll of the responder runs.
//!
//! The library never touches a socket: it is handed what the sockets and the command channel
//! gave, and says what to do next. It lists the interfaces of the machine itself, and calls
//! the message parser that it is given on the bytes of each packet.
use vstd::prelude::*;

pub mod address_family;
pub mod error;
pub mod fsm;
pub mod laws;
pub mod message;
pub mod net;
pub mod promises;
pub mod read_buf;
pub mod services;
pub mod setup;
pub mod udp_socket;

verus! {

/// The UDP port that multicast DNS is spoken on.
pub const MDNS_PORT: u16 = 5353;

/// The time to live, in seconds, of the records in answers to questions.
pub const DEFAULT_TTL: u32 = 60;

} // verus!
