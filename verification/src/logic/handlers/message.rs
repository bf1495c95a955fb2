use vstd::prelude::*;

use crate::logic::{Output, OutputV, outputs_view};
use crate::logic::map::player_by_name;
use crate::logic::state::{
    GameState, GameStateV, emit, emit_error, error_out, first_named, message_out,
    started_and_ready,
};
use crate::protocol::ClientId;
use crate::protocol::error::ErrorCode;
use crate::protocol::packet::Protocol;
use crate::protocol::packet::pkt_message::{Message, MessageV};

verus! {

/// What handling a message from client `author` sends: the message itself
/// to its recipient, or the error that stops it.
pub open spec fn message_spec(s: GameStateV, author: ClientId, content: MessageV) -> Seq<OutputV> {
    match first_named(s.players, content.recipient) {
        None => seq![error_out(author, ErrorCode::OTHER, "Player not found"@)],
        Some(i) => if !started_and_ready(s.players[i]) {
            seq![error_out(author, ErrorCode::NOTREADY, "Start the game first!"@)]
        } else {
            match s.players[i].author {
                None => seq![error_out(author, ErrorCode::OTHER, "Not connected"@)],
                Some(c) => seq![message_out(c, content)],
            }
        },
    }
}

impl GameState {
    /// Passes a message from client `author` on to the player it names, if
    /// that player exists, may act and is connected.
    pub fn handle_message(&self, author: ClientId, content: Message) -> (out: Vec<Output>)
        ensures
            outputs_view(out@) == message_spec(self@, author, content@),
    {
        let mut out: Vec<Output> = Vec::new();
        let i = match player_by_name(&self.players, &content.recipient) {
            Some(i) => i,
            None => {
                emit_error(&mut out, author, ErrorCode::OTHER, "Player not found");
                assert(outputs_view(out@) =~= message_spec(self@, author, content@));
                return out;
            },
        };
        let player = &self.players[i];
        if !GameState::ensure_started(player, author, &mut out) {
            assert(outputs_view(out@) =~= message_spec(self@, author, content@));
            return out;
        }
        match player.author {
            Some(c) => {
                emit(&mut out, Output::Send(Protocol::Message(c, content)));
            },
            None => {
                emit_error(&mut out, author, ErrorCode::OTHER, "Not connected");
            },
        }
        assert(outputs_view(out@) =~= message_spec(self@, author, content@));
        out
    }
}

} // verus!
