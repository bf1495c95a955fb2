use vstd::prelude::*;

pub mod client;
pub mod codec;
pub mod error;
pub mod flags;
pub mod packet;
pub mod parsing_error;
pub mod pcap;
pub mod pkt_type;

verus! {

/// Identifies one connected client of the server.
pub type ClientId = u64;

} // verus!
