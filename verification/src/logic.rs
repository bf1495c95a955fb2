use vstd::prelude::*;

use crate::protocol::ClientId;
use crate::protocol::packet::{Protocol, ProtocolV};
use crate::logic::command::{Command, CommandV};

pub mod command;
pub mod commands;
pub mod config;
pub mod guarantees;
pub mod handlers;
pub mod map;
pub mod membership;
pub mod properties;
pub mod server;
pub mod state;

verus! {

/// What the server does as the outcome of handling an event.
pub enum Output {
    /// Write a packet to the client it names.
    Send(Protocol),
    /// Shut the client's connection down.
    Disconnect(ClientId),
    /// Report to the server's operator on the console.
    Console(String),
}

/// The value of an `Output`.
pub enum OutputV {
    Send(ProtocolV),
    Disconnect(ClientId),
    Console(Seq<char>),
}

impl View for Output {
    type V = OutputV;

    open spec fn view(&self) -> OutputV {
        match self {
            Output::Send(p) => OutputV::Send(p@),
            Output::Disconnect(c) => OutputV::Disconnect(*c),
            Output::Console(s) => OutputV::Console(s@),
        }
    }
}

/// The values of a sequence of outputs.
pub open spec fn outputs_view(o: Seq<Output>) -> Seq<OutputV> {
    o.map_values(|x: Output| x@)
}

/// An event for the game: a client connected, a client sent a packet, or
/// the operator typed a command.
pub enum ExtendedProtocol {
    Connect(ClientId),
    Client(ClientId, Protocol),
    Command(Command),
}

/// The value of an `ExtendedProtocol`.
pub enum ExtendedProtocolV {
    Connect(ClientId),
    Client(ClientId, ProtocolV),
    Command(CommandV),
}

impl View for ExtendedProtocol {
    type V = ExtendedProtocolV;

    open spec fn view(&self) -> ExtendedProtocolV {
        match self {
            ExtendedProtocol::Connect(c) => ExtendedProtocolV::Connect(*c),
            ExtendedProtocol::Client(c, p) => ExtendedProtocolV::Client(*c, p@),
            ExtendedProtocol::Command(a) => ExtendedProtocolV::Command(a@),
        }
    }
}

} // verus!
