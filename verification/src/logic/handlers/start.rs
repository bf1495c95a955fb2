use vstd::prelude::*;
use vstd::std_specs::hash::group_hash_axioms;

use crate::logic::{Output, OutputV, outputs_view};
use crate::logic::map::{RoomV, name_set_insert, rooms_view, with_name};
use crate::logic::state::{
    GameState, GameStateV, alert_outputs, broadcast_outputs, character_out, connections_outputs,
    contents_outputs, emit, emit_error, error_out, first_author, key_order, players_view,
    unique_names,
};
use crate::protocol::ClientId;
use crate::protocol::error::ErrorCode;
use crate::protocol::flags::{CharacterFlags, READY, STARTED};
use crate::protocol::packet::{Protocol, ProtocolV};
use crate::protocol::packet::pkt_character::CharacterV;
use crate::protocol::packet::pkt_start::Start;

verus! {

broadcast use group_hash_axioms;

/// The state and outputs after client `author` starts its player, the
/// exits of the first room being listed in the order `ks`.
///
/// A player that is not ready is told to supply a valid player first.
/// Otherwise it is marked started and shown its character; if the first
/// room (number 0) exists, the room is alerted, everyone is told, the
/// player enters the room, and it is shown the room, its exits and its
/// contents.
pub open spec fn start_spec(s: GameStateV, author: ClientId, ks: Seq<u16>) -> (
    GameStateV,
    Seq<OutputV>,
) {
    match first_author(s.players, author) {
        None => (s, Seq::empty()),
        Some(i) => {
            let p = s.players[i];
            if p.flags & READY != READY {
                (
                    s,
                    seq![error_out(author, ErrorCode::NOTREADY, "Supply of valid player first!"@)],
                )
            } else {
                let p2 = CharacterV { flags: p.flags | STARTED, ..p };
                let ps2 = s.players.update(i, p2);
                let o1 = seq![character_out(author, p2)];
                if !s.rooms.contains_key(0) {
                    (GameStateV { players: ps2, ..s }, o1)
                } else {
                    let r0 = s.rooms[0];
                    let r1 = RoomV { players: with_name(r0.players, p2.name), ..r0 };
                    (
                        GameStateV { players: ps2, rooms: s.rooms.insert(0, r1), config: s.config },
                        o1 + alert_outputs(ps2, r0.players, p2) + broadcast_outputs(
                            ps2,
                            p2.name + " has started the game!"@,
                        ) + seq![OutputV::Send(ProtocolV::Room(author, r1.packet()))]
                            + connections_outputs(author, r1.connections, ks) + contents_outputs(
                            ps2,
                            author,
                            r1,
                        ),
                    )
                }
            }
        },
    }
}

/// Whether starting lists the exits of the first room: the player exists,
/// is ready, and the room exists.
pub open spec fn start_shows_exits(s: GameStateV, author: ClientId) -> bool {
    &&& first_author(s.players, author) is Some
    &&& s.players[first_author(s.players, author).unwrap()].flags & READY == READY
    &&& s.rooms.contains_key(0)
}

impl GameState {
    /// Client `author` starts playing its player.
    pub fn handle_start(&mut self, author: ClientId, content: Start) -> (out: Vec<Output>)
        requires
            old(self)@.wf(),
        ensures
            final(self)@.wf(),
            exists|ks: Seq<u16>|
                #![trigger start_spec(old(self)@, author, ks)]
                {
                    &&& start_shows_exits(old(self)@, author) ==> key_order(
                        ks,
                        old(self)@.rooms[0].connections.dom(),
                    )
                    &&& final(self)@ == start_spec(old(self)@, author, ks).0
                    &&& outputs_view(out@) == start_spec(old(self)@, author, ks).1
                },
    {
        let mut out: Vec<Output> = Vec::new();
        let ghost s = self@;
        let i = match self.player_by_stream(author) {
            Some(i) => i,
            None => {
                assert(outputs_view(out@) =~= Seq::<OutputV>::empty());
                assert(start_spec(s, author, Seq::empty()).1 == outputs_view(out@));
                assert(!start_shows_exits(s, author));
                assert(
                {
                    &&& start_shows_exits(s, author) ==> key_order(
                        Seq::<u16>::empty(),
                        s.rooms[0].connections.dom(),
                    )
                    &&& self@ == start_spec(s, author, Seq::empty()).0
                    &&& outputs_view(out@) == start_spec(s, author, Seq::empty()).1
                }
);
                return out;
            },
        };
        if !self.players[i].flags.is_ready() {
            emit_error(&mut out, author, ErrorCode::NOTREADY, "Supply of valid player first!");
            assert(outputs_view(out@) =~= start_spec(s, author, Seq::empty()).1);
            assert(!start_shows_exits(s, author));
            assert(
                {
                    &&& start_shows_exits(s, author) ==> key_order(
                        Seq::<u16>::empty(),
                        s.rooms[0].connections.dom(),
                    )
                    &&& self@ == start_spec(s, author, Seq::empty()).0
                    &&& outputs_view(out@) == start_spec(s, author, Seq::empty()).1
                }
);
            return out;
        }
        let mut player = self.players[i].copy();
        player.flags.insert(CharacterFlags::started_flag());
        let ghost p2 = player@;
        let name = player.name.clone();
        let mut text = player.name.clone();
        text.append(" has started the game!");
        emit(&mut out, Output::Send(Protocol::Character(author, player.copy())));
        self.players.set(i, player);
        let ghost ps2 = players_view(self.players@);
        assert(ps2 =~= s.players.update(i as int, p2));
        assert(unique_names(self@.players)) by {
            assert forall|a: int, b: int| 0 <= a < b < ps2.len() implies ps2[a].name
                != ps2[b].name by {
                assert(s.players[a].name != s.players[b].name);
            }
        }
        let ghost o1 = outputs_view(out@);
        assert(o1 =~= seq![character_out(author, p2)]);
        match self.rooms.remove(&0) {
            None => {
                assert(self@.rooms =~= s.rooms);
                assert(self@ == start_spec(s, author, Seq::empty()).0);
                assert(outputs_view(out@) == start_spec(s, author, Seq::empty()).1);
                assert(!start_shows_exits(s, author));
                assert(
                {
                    &&& start_shows_exits(s, author) ==> key_order(
                        Seq::<u16>::empty(),
                        s.rooms[0].connections.dom(),
                    )
                    &&& self@ == start_spec(s, author, Seq::empty()).0
                    &&& outputs_view(out@) == start_spec(s, author, Seq::empty()).1
                }
);
                return out;
            },
            Some(room) => {
                let ghost r0 = room@;
                assert(r0 == s.rooms[0]);
                self.alert_room(&room, &self.players[i], &mut out);
                self.broadcast(text.as_str(), &mut out);
                let mut room = room;
                name_set_insert(&mut room.players, name);
                let ghost r1 = room@;
                assert(r1 == RoomV { players: with_name(r0.players, p2.name), ..r0 });
                emit(&mut out, Output::Send(Protocol::Room(author, room.to_packet())));
                let ghost o2 = outputs_view(out@);
                self.rooms.insert(0, room);
                assert(rooms_view(self.rooms@) =~= s.rooms.insert(0, r1));
                self.send_connections(author, 0, &mut out);
                let ghost ks = choose|ks: Seq<u16>|
                    key_order(ks, self@.rooms[0].connections.dom()) && outputs_view(out@) == o2
                        + connections_outputs(author, self@.rooms[0].connections, ks);
                match self.rooms.get(&0) {
                    Some(r) => {
                        self.send_room_contents(author, r, &mut out);
                    },
                    None => {},
                }
                assert(self@ == start_spec(s, author, ks).0);
                assert(outputs_view(out@) =~= start_spec(s, author, ks).1);
                assert(key_order(ks, s.rooms[0].connections.dom()));
                assert(
                {
                    &&& start_shows_exits(s, author) ==> key_order(
                        ks,
                        s.rooms[0].connections.dom(),
                    )
                    &&& self@ == start_spec(s, author, ks).0
                    &&& outputs_view(out@) == start_spec(s, author, ks).1
                });
                return out;
            },
        }
    }
}

} // verus!
