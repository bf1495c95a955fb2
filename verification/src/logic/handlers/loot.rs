use vstd::prelude::*;
use vstd::std_specs::hash::group_hash_axioms;

use crate::logic::{Output, OutputV, outputs_view};
use crate::logic::map::{Monster, MonsterV, RoomV, monsters_view, rooms_view};
use crate::logic::state::{
    GameState, GameStateV, character_out, emit, emit_error, error_out, first_author,
    players_view, started_and_ready, unique_names,
};
use crate::protocol::ClientId;
use crate::protocol::error::ErrorCode;
use crate::protocol::packet::Protocol;
use crate::protocol::packet::pkt_character::CharacterV;
use crate::protocol::packet::pkt_loot::{Loot, LootV};

verus! {

broadcast use group_hash_axioms;

/// `j` is the first monster named `n`.
pub open spec fn is_first_monster(ms: Seq<MonsterV>, n: Seq<char>, j: int) -> bool {
    &&& 0 <= j < ms.len()
    &&& ms[j].name == n
    &&& forall|k: int| 0 <= k < j ==> ms[k].name != n
}

/// The first monster named `n`, if any.
pub open spec fn first_monster(ms: Seq<MonsterV>, n: Seq<char>) -> Option<int> {
    if exists|j: int| is_first_monster(ms, n, j) {
        Some(choose|j: int| is_first_monster(ms, n, j))
    } else {
        None
    }
}

/// What looting finds: the player, its room, the room's monsters and the
/// target, when the player may act and all of them exist.
pub open spec fn loot_target(s: GameStateV, author: ClientId, target: Seq<char>) -> Option<
    (int, u16, Seq<MonsterV>, int),
> {
    match first_author(s.players, author) {
        Some(i) if started_and_ready(s.players[i]) && s.rooms.contains_key(
            s.players[i].current_room,
        ) => match s.rooms[s.players[i].current_room].monsters {
            Some(ms) => match first_monster(ms, target) {
                Some(j) => Some((i, s.players[i].current_room, ms, j)),
                None => None,
            },
            None => None,
        },
        _ => None,
    }
}

/// Whether looting would take a dead monster's gold and make the player's
/// gold overflow its 16 bits.
pub open spec fn loot_overflows(s: GameStateV, author: ClientId, content: LootV) -> bool {
    match loot_target(s, author, content.target_name) {
        Some((i, r, ms, j)) => ms[j].health <= 0 && ms[j].gold != 0 && s.players[i].gold
            + ms[j].gold > u16::MAX,
        None => false,
    }
}

/// The state and outputs after client `author` asks to loot the monster
/// `content.target_name` in its room.
///
/// A missing monster list, a missing monster, a monster still alive and a
/// monster with no gold are refused with an error. Otherwise the monster's
/// gold goes to the player, and the player and the monster are shown to the
/// client.
pub open spec fn loot_spec(s: GameStateV, author: ClientId, content: LootV) -> (
    GameStateV,
    Seq<OutputV>,
) {
    match first_author(s.players, author) {
        None => (s, Seq::empty()),
        Some(i) => {
            let p = s.players[i];
            let cur = p.current_room;
            if !started_and_ready(p) {
                (s, seq![error_out(author, ErrorCode::NOTREADY, "Start the game first!"@)])
            } else if !s.rooms.contains_key(cur) {
                (s, Seq::empty())
            } else {
                match s.rooms[cur].monsters {
                    None => (s, seq![error_out(author, ErrorCode::OTHER, "No monsters to loot!"@)]),
                    Some(ms) => match first_monster(ms, content.target_name) {
                        None => (
                            s,
                            seq![error_out(author, ErrorCode::BADMONSTER, "Monster doesn't exist!"@)],
                        ),
                        Some(j) => {
                            let m = ms[j];
                            if m.health > 0 {
                                (
                                    s,
                                    seq![
                                        error_out(
                                            author,
                                            ErrorCode::BADMONSTER,
                                            "Monster is still alive!"@,
                                        ),
                                    ],
                                )
                            } else if m.gold == 0 {
                                (
                                    s,
                                    seq![
                                        error_out(
                                            author,
                                            ErrorCode::BADMONSTER,
                                            "Monster already looted!"@,
                                        ),
                                    ],
                                )
                            } else {
                                let m2 = MonsterV { gold: 0, ..m };
                                let p2 = CharacterV { gold: (p.gold + m.gold) as u16, ..p };
                                (
                                    GameStateV {
                                        players: s.players.update(i, p2),
                                        rooms: s.rooms.insert(
                                            cur,
                                            RoomV { monsters: Some(ms.update(j, m2)), ..s.rooms[cur] },
                                        ),
                                        config: s.config,
                                    },
                                    seq![character_out(author, p2), character_out(author, m2.packet())],
                                )
                            }
                        },
                    },
                }
            }
        },
    }
}

/// The first monster named `name`, found by position.
pub fn monster_by_name(monsters: &Vec<Monster>, name: &String) -> (r: Option<usize>)
    ensures
        match r {
            Some(j) => first_monster(monsters_view(monsters@), name@) == Some(j as int),
            None => first_monster(monsters_view(monsters@), name@) is None,
        },
{
    let ghost ms = monsters_view(monsters@);
    let mut j: usize = 0;
    while j < monsters.len()
        invariant
            j <= monsters@.len(),
            ms == monsters_view(monsters@),
            forall|k: int| 0 <= k < j ==> ms[k].name != name@,
        decreases monsters@.len() - j,
    {
        if monsters[j].name == *name {
            proof {
                assert(is_first_monster(ms, name@, j as int));
                let k = choose|k: int| is_first_monster(ms, name@, k);
                if k < j {
                    assert(ms[k].name != name@);
                }
                if (j as int) < k {
                    assert(ms[j as int].name != name@);
                }
            }
            return Some(j);
        }
        j = j + 1;
    }
    None
}

impl GameState {
    /// Whether looting by client `author` would take a dead monster's gold
    /// and make the player's gold overflow its 16 bits.
    pub fn loot_would_overflow(&self, author: ClientId, content: &Loot) -> (r: bool)
        ensures
            r == loot_overflows(self@, author, content@),
    {
        let i = match self.player_by_stream(author) {
            Some(i) => i,
            None => {
                return false;
            },
        };
        let p = &self.players[i];
        if !(p.flags.is_started() && p.flags.is_ready()) {
            return false;
        }
        let cur = p.current_room;
        match self.rooms.get(&cur) {
            None => false,
            Some(room) => match &room.monsters {
                None => false,
                Some(ms) => match monster_by_name(ms, &content.target_name) {
                    None => false,
                    Some(j) => {
                        let m = &ms[j];
                        m.health <= 0 && m.gold != 0 && p.gold.checked_add(m.gold).is_none()
                    },
                },
            },
        }
    }

    /// Client `author` asks to take the gold of a dead monster in its room.
    pub fn handle_loot(&mut self, author: ClientId, content: Loot) -> (out: Vec<Output>)
        requires
            old(self)@.wf(),
            !loot_overflows(old(self)@, author, content@),
        ensures
            final(self)@.wf(),
            final(self)@ == loot_spec(old(self)@, author, content@).0,
            outputs_view(out@) == loot_spec(old(self)@, author, content@).1,
    {
        let mut out: Vec<Output> = Vec::new();
        let ghost s = self@;
        let i = match self.player_by_stream(author) {
            Some(i) => i,
            None => {
                assert(outputs_view(out@) =~= loot_spec(s, author, content@).1);
                return out;
            },
        };
        if !GameState::ensure_started(&self.players[i], author, &mut out) {
            assert(outputs_view(out@) =~= loot_spec(s, author, content@).1);
            return out;
        }
        let cur = self.players[i].current_room;
        let j = match self.rooms.get(&cur) {
            None => {
                assert(outputs_view(out@) =~= loot_spec(s, author, content@).1);
                return out;
            },
            Some(room) => match &room.monsters {
                None => {
                    emit_error(&mut out, author, ErrorCode::OTHER, "No monsters to loot!");
                    assert(outputs_view(out@) =~= loot_spec(s, author, content@).1);
                    return out;
                },
                Some(monsters) => match monster_by_name(monsters, &content.target_name) {
                    None => {
                        emit_error(&mut out, author, ErrorCode::BADMONSTER, "Monster doesn't exist!");
                        assert(outputs_view(out@) =~= loot_spec(s, author, content@).1);
                        return out;
                    },
                    Some(j) => {
                        if monsters[j].health > 0 {
                            emit_error(
                                &mut out,
                                author,
                                ErrorCode::BADMONSTER,
                                "Monster is still alive!",
                            );
                            assert(outputs_view(out@) =~= loot_spec(s, author, content@).1);
                            return out;
                        }
                        if monsters[j].gold == 0 {
                            emit_error(
                                &mut out,
                                author,
                                ErrorCode::BADMONSTER,
                                "Monster already looted!",
                            );
                            assert(outputs_view(out@) =~= loot_spec(s, author, content@).1);
                            return out;
                        }
                        j
                    },
                },
            },
        };
        // The gold changes hands.

        let ghost r = s.rooms[cur];
        let ghost ms = r.monsters.unwrap();
        let ghost m2 = MonsterV { gold: 0, ..ms[j as int] };
        let mut room = match self.rooms.remove(&cur) {
            Some(room) => room,
            None => {
                return out;
            },
        };
        let mut monsters = match room.monsters {
            Some(monsters) => monsters,
            None => {
                return out;
            },
        };
        let gold = monsters[j].gold;
        let mut monster = monsters[j].copy();
        monster.gold = 0;
        let pkt = monster.to_packet();
        monsters.set(j, monster);
        assert(monsters_view(monsters@) =~= ms.update(j as int, m2));
        room.monsters = Some(monsters);
        self.rooms.insert(cur, room);
        assert(rooms_view(self.rooms@) =~= s.rooms.insert(
            cur,
            RoomV { monsters: Some(ms.update(j as int, m2)), ..r },
        ));
        let mut player = self.players[i].copy();
        player.gold = player.gold + gold;
        self.players.set(i, player);
        let ghost ps2 = players_view(self.players@);
        assert(ps2 =~= s.players.update(i as int, CharacterV { gold: (s.players[i as int].gold + ms[j as int].gold) as u16, ..s.players[i as int] }));
        assert(unique_names(ps2)) by {
            assert forall|a: int, b: int| 0 <= a < b < ps2.len() implies ps2[a].name
                != ps2[b].name by {
                assert(s.players[a].name != s.players[b].name);
            }
        }
        emit(&mut out, Output::Send(Protocol::Character(author, self.players[i].copy())));
        emit(&mut out, Output::Send(Protocol::Character(author, pkt)));
        assert(self@ == loot_spec(s, author, content@).0);
        assert(outputs_view(out@) =~= loot_spec(s, author, content@).1);
        out
    }
}

} // verus!
