use vstd::prelude::*;

use crate::logic::{Output, OutputV, outputs_view};
use crate::logic::map::{alert_room, broadcast};
use crate::logic::state::{
    GameState, GameStateV, alert_outputs, broadcast_outputs, emit, first_author, players_view,
    unique_names,
};
use crate::protocol::ClientId;
use crate::protocol::flags::CharacterFlags;
use crate::protocol::packet::pkt_character::CharacterV;
use crate::protocol::packet::pkt_leave::Leave;

verus! {

/// The player that left: no flags set and no client.
pub open spec fn departed(p: CharacterV) -> CharacterV {
    CharacterV { flags: 0, author: None, ..p }
}

/// The state and outputs after client `author` leaves: its player is
/// switched off; if the player's room exists, everyone is told, the room is
/// alerted, and the connection is shut down.
pub open spec fn leave_spec(s: GameStateV, author: ClientId) -> (GameStateV, Seq<OutputV>) {
    match first_author(s.players, author) {
        None => (s, Seq::empty()),
        Some(i) => {
            let p = s.players[i];
            let p2 = departed(p);
            let s2 = GameStateV { players: s.players.update(i, p2), ..s };
            if !s.rooms.contains_key(p.current_room) {
                (s2, Seq::empty())
            } else {
                (
                    s2,
                    broadcast_outputs(s2.players, p.name + " has left the game."@) + alert_outputs(
                        s2.players,
                        s.rooms[p.current_room].players,
                        p2,
                    ) + seq![OutputV::Disconnect(author)],
                )
            }
        },
    }
}

impl GameState {
    /// Client `author` leaves the game.
    pub fn handle_leave(&mut self, author: ClientId, content: Leave) -> (out: Vec<Output>)
        requires
            old(self)@.wf(),
        ensures
            final(self)@.wf(),
            final(self)@ == leave_spec(old(self)@, author).0,
            outputs_view(out@) == leave_spec(old(self)@, author).1,
    {
        let mut out: Vec<Output> = Vec::new();
        let ghost s = self@;
        let i = match self.player_by_stream(author) {
            Some(i) => i,
            None => {
                assert(outputs_view(out@) =~= Seq::<OutputV>::empty());
                return out;
            },
        };
        let mut player = self.players[i].copy();
        player.flags = CharacterFlags::empty();
        player.author = None;
        let current_room = player.current_room;
        let mut text = player.name.clone();
        text.append(" has left the game.");
        let ghost p2 = player@;
        self.players.set(i, player);
        assert(players_view(self.players@) =~= s.players.update(i as int, p2));
        assert(unique_names(self@.players)) by {
            assert forall|a: int, b: int| 0 <= a < b < self@.players.len() implies self@.players[a].name
                != self@.players[b].name by {
                assert(s.players[a].name != s.players[b].name);
            }
        }
        match self.rooms.get(&current_room) {
            Some(room) => {
                broadcast(&self.players, text.as_str(), &mut out);
                alert_room(&self.players, room, &self.players[i], &mut out);
                emit(&mut out, Output::Disconnect(author));
                assert(self@.players[i as int] == p2);
            },
            None => {
                assert(outputs_view(out@) =~= Seq::<OutputV>::empty());
            },
        }
        out
    }
}

} // verus!
