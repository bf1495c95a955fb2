use vstd::prelude::*;
use vstd::std_specs::hash::group_hash_axioms;

use crate::logic::{Output, OutputV, outputs_view};
use crate::logic::map::{
    RoomV, name_set_insert, name_set_remove, rooms_view, with_name, without,
};
use crate::logic::state::{
    GameState, GameStateV, alert_outputs, character_out, connections_outputs, contents_outputs,
    emit, emit_error, error_out, first_author, key_order, players_view, started_and_ready,
    unique_names,
};
use crate::protocol::ClientId;
use crate::protocol::error::ErrorCode;
use crate::protocol::packet::{Protocol, ProtocolV};
use crate::protocol::packet::pkt_change_room::ChangeRoom;
use crate::protocol::packet::pkt_character::CharacterV;

verus! {

broadcast use group_hash_axioms;

/// The state and outputs after client `author` asks to move to room
/// `content.room_number`, the exits of that room being listed in the order
/// `ks`.
///
/// The move is refused, with a `BADROOM` error, when the player is already
/// in that room, when its own room is not on the map, or when no exit leads
/// there. Otherwise the player leaves its room and, if the new room exists,
/// enters it; it is shown the new room, itself, and (when the new room
/// exists) the exits and contents of the new room; both rooms are alerted.
pub open spec fn change_room_spec(
    s: GameStateV,
    author: ClientId,
    content: ChangeRoom,
    ks: Seq<u16>,
) -> (GameStateV, Seq<OutputV>) {
    match first_author(s.players, author) {
        None => (s, Seq::empty()),
        Some(i) => {
            let p = s.players[i];
            let cur = p.current_room;
            let nxt = content.room_number;
            if !started_and_ready(p) {
                (s, seq![error_out(author, ErrorCode::NOTREADY, "Start the game first!"@)])
            } else if cur == nxt {
                (s, seq![error_out(author, ErrorCode::BADROOM, "Player is already in the room"@)])
            } else if !s.rooms.contains_key(cur) {
                (s, seq![error_out(author, ErrorCode::BADROOM, "Room not found!"@)])
            } else if !s.rooms[cur].connections.contains_key(nxt) {
                (s, seq![error_out(author, ErrorCode::BADROOM, "Invalid connection!"@)])
            } else {
                let p2 = CharacterV { current_room: nxt, ..p };
                let ps2 = s.players.update(i, p2);
                let rc = RoomV { players: without(s.rooms[cur].players, p.name), ..s.rooms[cur] };
                let rooms1 = s.rooms.insert(cur, rc);
                if s.rooms.contains_key(nxt) {
                    let rn = RoomV { players: with_name(s.rooms[nxt].players, p.name), ..s.rooms[nxt] };
                    (
                        GameStateV { players: ps2, rooms: rooms1.insert(nxt, rn), config: s.config },
                        seq![
                            OutputV::Send(ProtocolV::Room(author, rn.packet())),
                            character_out(author, p2),
                        ] + alert_outputs(ps2, rc.players, p2) + alert_outputs(ps2, rn.players, p2)
                            + connections_outputs(author, rn.connections, ks) + contents_outputs(
                            ps2,
                            author,
                            rn,
                        ),
                    )
                } else {
                    (
                        GameStateV { players: ps2, rooms: rooms1, config: s.config },
                        seq![character_out(author, p2)] + alert_outputs(ps2, rc.players, p2),
                    )
                }
            }
        },
    }
}

/// Whether the move goes through to a room that exists, so that its exits
/// are listed.
pub open spec fn change_room_shows_exits(s: GameStateV, author: ClientId, content: ChangeRoom) -> bool {
    &&& first_author(s.players, author) is Some
    &&& {
        let p = s.players[first_author(s.players, author).unwrap()];
        &&& started_and_ready(p)
        &&& p.current_room != content.room_number
        &&& s.rooms.contains_key(p.current_room)
        &&& s.rooms[p.current_room].connections.contains_key(content.room_number)
        &&& s.rooms.contains_key(content.room_number)
    }
}

impl GameState {
    /// Client `author` asks to move its player to another room.
    pub fn handle_change_room(&mut self, author: ClientId, content: ChangeRoom) -> (out: Vec<
        Output,
    >)
        requires
            old(self)@.wf(),
        ensures
            final(self)@.wf(),
            exists|ks: Seq<u16>|
                #![trigger change_room_spec(old(self)@, author, content, ks)]
                {
                    &&& change_room_shows_exits(old(self)@, author, content) ==> key_order(
                        ks,
                        old(self)@.rooms[content.room_number].connections.dom(),
                    )
                    &&& final(self)@ == change_room_spec(old(self)@, author, content, ks).0
                    &&& outputs_view(out@) == change_room_spec(old(self)@, author, content, ks).1
                },
    {
        let mut out: Vec<Output> = Vec::new();
        let ghost s = self@;
        let ghost e = Seq::<u16>::empty();
        let i = match self.player_by_stream(author) {
            Some(i) => i,
            None => {
                assert(outputs_view(out@) =~= change_room_spec(s, author, content, e).1);
                assert(!change_room_shows_exits(s, author, content));
                return out;
            },
        };
        if !GameState::ensure_started(&self.players[i], author, &mut out) {
            assert(outputs_view(out@) =~= change_room_spec(s, author, content, e).1);
            assert(!change_room_shows_exits(s, author, content));
            return out;
        }
        let cur = self.players[i].current_room;
        let nxt = content.room_number;
        if cur == nxt {
            emit_error(&mut out, author, ErrorCode::BADROOM, "Player is already in the room");
            assert(outputs_view(out@) =~= change_room_spec(s, author, content, e).1);
            assert(!change_room_shows_exits(s, author, content));
            return out;
        }
        let has_exit = match self.rooms.get(&cur) {
            None => {
                emit_error(&mut out, author, ErrorCode::BADROOM, "Room not found!");
                assert(outputs_view(out@) =~= change_room_spec(s, author, content, e).1);
                assert(!change_room_shows_exits(s, author, content));
                return out;
            },
            Some(room) => {
                assert(room@.connections.dom() =~= room.connections@.dom());
                room.connections.contains_key(&nxt)
            },
        };
        if !has_exit {
            emit_error(&mut out, author, ErrorCode::BADROOM, "Invalid connection!");
            assert(outputs_view(out@) =~= change_room_spec(s, author, content, e).1);
            assert(!change_room_shows_exits(s, author, content));
            return out;
        }
        // The player moves.

        let name = self.players[i].name.clone();
        let mut moved = self.players[i].copy();
        moved.current_room = nxt;
        let ghost p2 = moved@;
        self.players.set(i, moved);
        let ghost ps2 = players_view(self.players@);
        assert(ps2 =~= s.players.update(i as int, p2));
        assert(unique_names(ps2)) by {
            assert forall|a: int, b: int| 0 <= a < b < ps2.len() implies ps2[a].name
                != ps2[b].name by {
                assert(s.players[a].name != s.players[b].name);
            }
        }
        match self.rooms.remove(&cur) {
            Some(room) => {
                let mut room = room;
                name_set_remove(&mut room.players, name.as_str());
                self.rooms.insert(cur, room);
            },
            None => {},
        }
        let ghost rc = RoomV { players: without(s.rooms[cur].players, name@), ..s.rooms[cur] };
        assert(rooms_view(self.rooms@) =~= s.rooms.insert(cur, rc));
        let ghost rooms1 = rooms_view(self.rooms@);
        match self.rooms.remove(&nxt) {
            Some(room) => {
                let mut room = room;
                name_set_insert(&mut room.players, name);
                self.rooms.insert(nxt, room);
                assert(rooms_view(self.rooms@) =~= rooms1.insert(
                    nxt,
                    RoomV { players: with_name(s.rooms[nxt].players, p2.name), ..s.rooms[nxt] },
                ));
            },
            None => {
                assert(rooms_view(self.rooms@) =~= rooms1);
            },
        }
        // The player and both rooms are told.

        match self.rooms.get(&nxt) {
            Some(room) => {
                emit(&mut out, Output::Send(Protocol::Room(author, room.to_packet())));
            },
            None => {},
        }
        emit(&mut out, Output::Send(Protocol::Character(author, self.players[i].copy())));
        match self.rooms.get(&cur) {
            Some(room) => {
                self.alert_room(room, &self.players[i], &mut out);
            },
            None => {},
        }
        match self.rooms.get(&nxt) {
            Some(room) => {
                self.alert_room(room, &self.players[i], &mut out);
            },
            None => {},
        }
        let ghost o2 = outputs_view(out@);
        self.send_connections(author, nxt, &mut out);
        let ghost ks = if self@.rooms.contains_key(nxt) {
            choose|ks: Seq<u16>|
                key_order(ks, self@.rooms[nxt].connections.dom()) && outputs_view(out@) == o2
                    + connections_outputs(author, self@.rooms[nxt].connections, ks)
        } else {
            e
        };
        match self.rooms.get(&nxt) {
            Some(room) => {
                self.send_room_contents(author, room, &mut out);
            },
            None => {},
        }
        assert(self@ == change_room_spec(s, author, content, ks).0);
        assert(outputs_view(out@) =~= change_room_spec(s, author, content, ks).1);
        assert(change_room_shows_exits(s, author, content) ==> key_order(
            ks,
            s.rooms[content.room_number].connections.dom(),
        ));
        out
    }
}

} // verus!
