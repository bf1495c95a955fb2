use vstd::prelude::*;
use vstd::std_specs::hash::group_hash_axioms;

use crate::logic::{Output, OutputV, outputs_view};
use crate::logic::map::{RoomV, name_set_remove, rooms_view, without};
use crate::logic::state::{
    GameState, GameStateV, alert_outputs, character_out, emit, emit_error, error_out,
    first_named, lemma_some_first_named, message_outputs, players_view, unique_names,
};
use crate::protocol::ClientId;
use crate::protocol::error::ErrorCode;
use crate::protocol::flags::{CharacterFlags, STARTED};
use crate::protocol::packet::{Protocol, ProtocolV};
use crate::protocol::packet::pkt_accept::Accept;
use crate::protocol::packet::pkt_character::{Character, CharacterV};
use crate::protocol::pkt_type::{PktType, pkt_type_code};

verus! {

broadcast use group_hash_axioms;

/// The players after a character arrives: unchanged when a player of that
/// name exists, else with a new player made from it.
pub open spec fn players_with(ps: Seq<CharacterV>, c: CharacterV) -> Seq<CharacterV> {
    match first_named(ps, c.name) {
        Some(_) => ps,
        None => ps.push(c.with_defaults()),
    }
}

/// Where the player named like `c` stands once it has arrived.
pub open spec fn position_of(ps: Seq<CharacterV>, c: CharacterV) -> int {
    match first_named(ps, c.name) {
        Some(i) => i,
        None => ps.len() as int,
    }
}

/// The player as it (re)joins: alive, joining battles and ready, played by
/// `author`, in the first room.
pub open spec fn joined(p: CharacterV, author: ClientId) -> CharacterV {
    CharacterV { flags: 0xc8, author: Some(author), current_room: 0, ..p }
}

/// The state and outputs after client `author` sends the character
/// `content`.
///
/// Stats that add up to more than the game's initial points are refused. A
/// new name makes a new player; a player that has started already is
/// refused. Otherwise the player (re)joins in the first room and is told it
/// was accepted and shown; if it was left in another room that exists, it
/// leaves that room, whose players are told that its corpse disappeared and
/// are alerted.
pub open spec fn character_spec(s: GameStateV, author: ClientId, content: CharacterV) -> (
    GameStateV,
    Seq<OutputV>,
) {
    if content.attack + content.defense + content.regen > s.config.initial_points {
        (s, seq![error_out(author, ErrorCode::STATERROR, "Invalid stats"@)])
    } else {
        let ps1 = players_with(s.players, content);
        let i = position_of(s.players, content);
        let p = ps1[i];
        if p.flags & STARTED == STARTED {
            (
                GameStateV { players: ps1, ..s },
                seq![error_out(author, ErrorCode::PLAYEREXISTS, "Player is already in the game."@)],
            )
        } else {
            let p2 = joined(p, author);
            let ps2 = ps1.update(i, p2);
            let o = seq![
                OutputV::Send(
                    ProtocolV::Accept(
                        author,
                        Accept {
                            message_type: PktType::Accept,
                            accept_type: pkt_type_code(PktType::Character),
                        },
                    ),
                ),
                character_out(author, p2),
            ];
            let old_room = p.current_room;
            if old_room == 0 || !s.rooms.contains_key(old_room) {
                (GameStateV { players: ps2, ..s }, o)
            } else {
                let r = RoomV { players: without(s.rooms[old_room].players, p.name), ..s.rooms[old_room] };
                (
                    GameStateV { players: ps2, rooms: s.rooms.insert(old_room, r), config: s.config },
                    o + message_outputs(
                        ps2,
                        r.players,
                        p.name + "'s corpse disappeared into a puff of smoke."@,
                        true,
                    ) + alert_outputs(ps2, r.players, p2),
                )
            }
        }
    }
}

impl GameState {
    /// Client `author` sends a character to play.
    pub fn handle_character(&mut self, author: ClientId, content: Character) -> (out: Vec<Output>)
        requires
            old(self)@.wf(),
            old(self)@.config.initial_points < u16::MAX,
        ensures
            final(self)@.wf(),
            final(self)@ == character_spec(old(self)@, author, content@).0,
            outputs_view(out@) == character_spec(old(self)@, author, content@).1,
    {
        let mut out: Vec<Output> = Vec::new();
        let ghost s = self@;
        let total = match content.attack.checked_add(content.defense) {
            Some(x) => x.checked_add(content.regen),
            None => None,
        };
        let total = match total {
            Some(t) => t,
            None => self.config.initial_points + 1,
        };
        if total > self.config.initial_points {
            emit_error(&mut out, author, ErrorCode::STATERROR, "Invalid stats");
            assert(outputs_view(out@) =~= character_spec(s, author, content@).1);
            return out;
        }
        let i = match crate::logic::map::player_by_name(&self.players, &content.name) {
            Some(i) => i,
            None => {
                self.players.push(Character::with_defaults_from(&content));
                assert(players_view(self.players@) =~= s.players.push(content@.with_defaults()));
                self.players.len() - 1
            },
        };
        let ghost ps1 = players_view(self.players@);
        assert(ps1 == players_with(s.players, content@));
        assert(i == position_of(s.players, content@));
        assert(unique_names(ps1)) by {
            if first_named(s.players, content@.name) is None {
                assert forall|a: int, b: int| 0 <= a < b < ps1.len() implies ps1[a].name
                    != ps1[b].name by {
                    if b == s.players.len() {
                        if s.players[a].name == content@.name {
                            lemma_some_first_named(s.players, content@.name, a);
                        }
                    } else {
                        assert(s.players[a].name != s.players[b].name);
                    }
                }
            }
        }
        if self.players[i].flags.is_started() {
            emit_error(
                &mut out,
                author,
                ErrorCode::PLAYEREXISTS,
                "Player is already in the game.",
            );
            assert(outputs_view(out@) =~= character_spec(s, author, content@).1);
            assert(self@ == character_spec(s, author, content@).0);
            return out;
        }
        let old_room = self.players[i].current_room;
        let mut player = self.players[i].copy();
        player.flags = CharacterFlags::alive();
        player.author = Some(author);
        player.current_room = 0;
        let ghost p2 = player@;
        let name = player.name.clone();
        let mut text = player.name.clone();
        text.append("'s corpse disappeared into a puff of smoke.");
        self.players.set(i, player);
        let ghost ps2 = players_view(self.players@);
        assert(ps2 =~= ps1.update(i as int, p2));
        assert(unique_names(ps2)) by {
            assert forall|a: int, b: int| 0 <= a < b < ps2.len() implies ps2[a].name
                != ps2[b].name by {
                assert(ps1[a].name != ps1[b].name);
            }
        }
        emit(
            &mut out,
            Output::Send(Protocol::Accept(author, Accept::new(PktType::Character))),
        );
        emit(&mut out, Output::Send(Protocol::Character(author, self.players[i].copy())));
        if old_room == 0 {
            assert(self@ == character_spec(s, author, content@).0);
            assert(outputs_view(out@) =~= character_spec(s, author, content@).1);
            return out;
        }
        match self.rooms.remove(&old_room) {
            None => {
                assert(rooms_view(self.rooms@) =~= s.rooms);
                assert(self@ == character_spec(s, author, content@).0);
                assert(outputs_view(out@) =~= character_spec(s, author, content@).1);
                return out;
            },
            Some(room) => {
                let mut room = room;
                name_set_remove(&mut room.players, name.as_str());
                self.message_room(&room, text.as_str(), true, &mut out);
                self.alert_room(&room, &self.players[i], &mut out);
                self.rooms.insert(old_room, room);
                assert(rooms_view(self.rooms@) =~= s.rooms.insert(
                    old_room,
                    RoomV { players: without(s.rooms[old_room].players, p2.name), ..s.rooms[old_room] },
                ));
                assert(self@ == character_spec(s, author, content@).0);
                assert(outputs_view(out@) =~= character_spec(s, author, content@).1);
                return out;
            },
        }
    }
}

} // verus!
