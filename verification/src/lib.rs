//! A verified core for a Lurk protocol game server: the wire format of the
//! protocol's packets, the framing of a client's byte stream, and the rules
//! of the dungeon game that the server runs.

pub mod protocol;
pub mod logic;
