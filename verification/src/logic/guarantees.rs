use vstd::prelude::*;

use crate::logic::handlers::fight::{
    battle_damage, cap_i16, fight_overflows, fight_spec, fight_target, lemma_battle_damage_nonneg,
    lemma_fight_target_exists, sat_sub_u16,
    lemma_fight_target_weakest, sat_i16,
};
use crate::logic::OutputV;
use crate::logic::handlers::change_room::change_room_spec;
use crate::logic::handlers::character::character_spec;
use crate::logic::handlers::command::{
    any_revivable, needs_revive, revive_spec, room_has_revivable,
};
use crate::logic::handlers::leave::leave_spec;
use crate::logic::handlers::loot::{first_monster, is_first_monster, loot_spec};
use crate::logic::handlers::message::message_spec;
use crate::logic::handlers::start::start_spec;
use crate::logic::membership::lemma_with_name_contains;
use crate::protocol::flags::{READY, STARTED};
use crate::protocol::packet::pkt_message::MessageV;
use crate::logic::map::{MonsterV, RoomV};
use crate::logic::state::{
    GameStateV, character_out, error_out, first_author, is_first_author,
    lemma_first_named_none, started_and_ready,
};
use crate::protocol::ClientId;
use crate::protocol::error::ErrorCode;
use crate::protocol::flags::ALIVE;
use crate::protocol::packet::ProtocolV;
use crate::protocol::packet::pkt_accept::Accept;
use crate::protocol::packet::pkt_change_room::ChangeRoom;
use crate::protocol::packet::pkt_character::CharacterV;
use crate::protocol::packet::pkt_loot::LootV;
use crate::protocol::pkt_type::PktType;

verus! {

/// `x` kept within the range of `i16`.
pub open spec fn clamp16(x: int) -> int {
    if x < -32768 {
        -32768
    } else if x > 32767 {
        32767
    } else {
        x
    }
}

/// The damage a blow of strength `attack` deals through `defense`: what
/// the attack exceeds the defense by, at most `i16::MAX`.
pub open spec fn blow(attack: int, defense: int) -> int {
    if attack <= defense {
        0
    } else if attack - defense > 32767 {
        32767
    } else {
        attack - defense
    }
}

/// The health `h` of attacker `a` after it regains its regeneration, which
/// only a living attacker does.
pub open spec fn after_regen(a: CharacterV, h: int) -> int {
    if a.flags & ALIVE == ALIVE {
        clamp16(h + if a.regen > 32767 { 32767 } else { a.regen as int })
    } else {
        h
    }
}

/// The capped 16-bit damage is the blow.
proof fn lemma_blow(attack: u16, defense: u16)
    ensures
        cap_i16(sat_sub_u16(attack, defense)) as int == blow(attack as int, defense as int),
{
}

/// Saturating to `i16` is clamping.
proof fn lemma_clamp(x: int)
    ensures
        sat_i16(x) as int == clamp16(x),
{
}

/// A fight in a room with a living monster strikes one living monster with
/// the least health: it loses the pooled attack of the players joining the
/// battle in the room, beyond its defense. A monster that dies strikes
/// nothing back, and the attacker only regains its regeneration; a monster
/// that survives strikes the attacker beyond the attacker's defense first.
/// Nothing else of the attacker, of the other players, of the other
/// monsters or of the other rooms changes.
pub proof fn lemma_fight_outcome(s: GameStateV, author: ClientId, i: int, ms: Seq<MonsterV>, k: int)
    requires
        s.wf(),
        !fight_overflows(s, author),
        first_author(s.players, author) == Some(i),
        started_and_ready(s.players[i]),
        s.rooms.contains_key(s.players[i].current_room),
        s.rooms[s.players[i].current_room].monsters == Some(ms),
        0 <= k < ms.len(),
        ms[k].health > 0,
    ensures
        ({
            let s2 = fight_spec(s, author).0;
            let a = s.players[i];
            let cr = a.current_room;
            exists|j: int, ms2: Seq<MonsterV>|
                {
                    &&& 0 <= j < ms.len()
                    &&& ms[j].health > 0
                    &&& forall|q: int| 0 <= q < ms.len() && ms[q].health > 0 ==> ms[j].health <= #[trigger] ms[q].health
                    &&& ms2 == ms.update(j, MonsterV { health: ms2[j].health, ..ms[j] })
                    &&& ms2[j].health == clamp16(
                        ms[j].health - blow(battle_damage(s.players, cr), ms[j].defense as int),
                    )
                    &&& s2.rooms == s.rooms.insert(cr, RoomV { monsters: Some(ms2), ..s.rooms[cr] })
                    &&& s2.players == s.players.update(i, CharacterV { health: s2.players[i].health, ..a })
                    &&& s2.players[i].health == if ms2[j].health <= 0 {
                        after_regen(a, a.health as int)
                    } else {
                        after_regen(a, clamp16(a.health - blow(ms[j].attack as int, a.defense as int)))
                    }
                    &&& s2.config == s.config
                }
        }),
{
    let a = s.players[i];
    let cr = a.current_room;
    lemma_fight_target_exists(ms, k);
    lemma_fight_target_weakest(ms);
    let j = fight_target(ms).unwrap();
    let s2 = fight_spec(s, author).0;
    let ms2 = s2.rooms[cr].monsters.unwrap();
    assert(battle_damage(s.players, cr) <= u16::MAX);
    assert(ms2 =~= ms.update(j, MonsterV { health: ms2[j].health, ..ms[j] }));
    assert(s2.players =~= s.players.update(i, CharacterV { health: s2.players[i].health, ..a }));
    let total = battle_damage(s.players, cr);
    lemma_battle_damage_nonneg(s.players, cr);
    let t16 = total as u16;
    assert(t16 == total);
    lemma_blow(t16, ms[j].defense);
    lemma_blow(ms[j].attack, a.defense);
    lemma_clamp(ms[j].health - cap_i16(sat_sub_u16(t16, ms[j].defense)));
    assert(ms2[j].health == clamp16(ms[j].health - blow(total, ms[j].defense as int)));
    assert(s2.rooms == s.rooms.insert(cr, RoomV { monsters: Some(ms2), ..s.rooms[cr] }));
    assert(s2.players[i].health == if ms2[j].health <= 0 {
        after_regen(a, a.health as int)
    } else {
        after_regen(a, clamp16(a.health - blow(ms[j].attack as int, a.defense as int)))
    });
    assert(forall|q: int| 0 <= q < ms.len() && ms[q].health > 0 ==> ms[j].health <= #[trigger] ms[q].health);
}

/// What reviving does to one room: a monster whose health is used up and
/// that has health to come back with returns to full health; every other
/// monster, and the rest of the room, stays as it was.
pub open spec fn revived_as_stated(r: RoomV, r2: RoomV) -> bool {
    &&& r2 == RoomV { monsters: r2.monsters, ..r }
    &&& match r.monsters {
        None => r2.monsters is None,
        Some(ms) => match r2.monsters {
            None => false,
            Some(ms2) => {
                &&& ms2.len() == ms.len()
                &&& forall|j: int|
                    0 <= j < ms.len() ==> #[trigger] ms2[j] == if ms[j].health <= 0
                        && ms[j].max_health > 0 {
                        MonsterV { health: ms[j].max_health, ..ms[j] }
                    } else {
                        ms[j]
                    }
            },
        },
    }
}

/// Reviving brings back to full health exactly the monsters whose health
/// is used up and that have health to come back with; living monsters,
/// players and settings stay as they were. Where no monster is dead in
/// that way, nothing changes and the operator is only told so.
pub proof fn lemma_revive_outcome(s: GameStateV, ks: Seq<u16>)
    ensures
        revive_spec(s, ks).0.players == s.players,
        revive_spec(s, ks).0.config == s.config,
        revive_spec(s, ks).0.rooms.dom() == s.rooms.dom(),
        forall|k: u16|
            #[trigger] s.rooms.contains_key(k) ==> revived_as_stated(
                s.rooms[k],
                revive_spec(s, ks).0.rooms[k],
            ),
        (forall|k: u16, j: int|
            s.rooms.contains_key(k) && s.rooms[k].monsters is Some && 0 <= j
                < s.rooms[k].monsters.unwrap().len() ==> #[trigger] s.rooms[k].monsters.unwrap()[j].health
                > 0 || s.rooms[k].monsters.unwrap()[j].max_health <= 0) ==> revive_spec(s, ks).0 == s
            && revive_spec(s, ks).1 == seq![OutputV::Console("No monsters to revive"@)],
{
    let s2 = revive_spec(s, ks).0;
    if any_revivable(s.rooms) {
        assert(s2.rooms.dom() =~= s.rooms.dom());
    } else {
        assert forall|k: u16| #[trigger] s.rooms.contains_key(k) implies revived_as_stated(
            s.rooms[k],
            s2.rooms[k],
        ) by {
            match s.rooms[k].monsters {
                Some(ms) => {
                    assert forall|j: int| 0 <= j < ms.len() implies !(ms[j].health <= 0
                        && ms[j].max_health > 0) by {
                        if ms[j].health <= 0 && ms[j].max_health > 0 {
                            assert(needs_revive()(ms[j]));
                            assert(room_has_revivable(s.rooms[k]));
                        }
                    }
                },
                None => {},
            }
        }
    }
    if forall|k: u16, j: int|
        s.rooms.contains_key(k) && s.rooms[k].monsters is Some && 0 <= j
            < s.rooms[k].monsters.unwrap().len() ==> #[trigger] s.rooms[k].monsters.unwrap()[j].health
            > 0 || s.rooms[k].monsters.unwrap()[j].max_health <= 0 {
        if any_revivable(s.rooms) {
            let k = choose|k: u16| s.rooms.contains_key(k) && #[trigger] room_has_revivable(s.rooms[k]);
            let ms = s.rooms[k].monsters.unwrap();
            let j = choose|j: int| 0 <= j < ms.len() && #[trigger] needs_revive()(ms[j]);
            assert(s.rooms[k].monsters.unwrap()[j].health > 0 || ms[j].max_health <= 0);
        }
    }
}

/// A move goes through only along an exit of the player's room, and takes
/// the player to the room it asked for; a request for a room its room has
/// no exit to changes nothing. No other player moves.
pub proof fn lemma_change_room_needs_exit(
    s: GameStateV,
    author: ClientId,
    content: ChangeRoom,
    ks: Seq<u16>,
    i: int,
)
    requires
        first_author(s.players, author) == Some(i),
    ensures
        ({
            let s2 = change_room_spec(s, author, content, ks).0;
            let cur = s.players[i].current_room;
            &&& s2.players.len() == s.players.len()
            &&& forall|j: int| 0 <= j < s.players.len() && j != i ==> #[trigger] s2.players[j] == s.players[j]
            &&& s2.players[i].current_room != cur ==> {
                &&& s.rooms.contains_key(cur)
                &&& s.rooms[cur].connections.contains_key(content.room_number)
                &&& s2.players[i].current_room == content.room_number
            }
            &&& !(s.rooms.contains_key(cur) && s.rooms[cur].connections.contains_key(
                content.room_number,
            )) ==> s2 == s
        }),
{
    let w = choose|j: int| is_first_author(s.players, author, j);
    assert(is_first_author(s.players, author, w));
}

/// A character whose stats add up to no more than the game's budget, under
/// a name no player has, is let in: it is added after the other players,
/// with its stats, full health, no gold, in the first room, alive, joining
/// battles and ready, played by its client; the client is told it was
/// accepted and shown the new player.
pub proof fn lemma_character_within_budget_joins(s: GameStateV, author: ClientId, content: CharacterV)
    requires
        content.attack + content.defense + content.regen <= s.config.initial_points,
        forall|j: int| 0 <= j < s.players.len() ==> #[trigger] s.players[j].name != content.name,
    ensures
        ({
            let s2 = character_spec(s, author, content).0;
            let o = character_spec(s, author, content).1;
            let p = CharacterV {
                author: Some(author),
                flags: 0xc8,
                health: 100,
                gold: 0,
                current_room: 0,
                ..content
            };
            &&& s2.players == s.players.push(p)
            &&& s2.rooms == s.rooms
            &&& s2.config == s.config
            &&& o == seq![
                OutputV::Send(
                    ProtocolV::Accept(
                        author,
                        Accept { message_type: PktType::Accept, accept_type: 10 },
                    ),
                ),
                character_out(author, p),
            ]
        }),
{
    lemma_first_named_none(s.players, content.name);
    let p = CharacterV {
        author: Some(author),
        flags: 0xc8,
        health: 100,
        gold: 0,
        current_room: 0,
        ..content
    };
    assert(0xc0u8 & 0x10u8 != 0x10u8) by (bit_vector);
    assert(character_spec(s, author, content).0.players =~= s.players.push(p));
}

/// "Invalid stats" is the answer exactly to a character whose stats add up
/// to more than the game's budget.
pub proof fn lemma_invalid_stats_only_over_budget(
    s: GameStateV,
    author: ClientId,
    content: CharacterV,
)
    ensures
        (character_spec(s, author, content).1.len() > 0 && character_spec(s, author, content).1[0]
            == error_out(author, ErrorCode::STATERROR, "Invalid stats"@)) <==> content.attack
            + content.defense + content.regen > s.config.initial_points,
{
}

/// Looting a dead monster that has gold, the first of the player's room
/// with the name asked for, adds all its gold to the player's gold and
/// leaves it none; nothing else changes, and the client is shown both.
pub proof fn lemma_loot_outcome(
    s: GameStateV,
    author: ClientId,
    content: LootV,
    i: int,
    ms: Seq<MonsterV>,
    j: int,
)
    requires
        first_author(s.players, author) == Some(i),
        started_and_ready(s.players[i]),
        s.rooms.contains_key(s.players[i].current_room),
        s.rooms[s.players[i].current_room].monsters == Some(ms),
        0 <= j < ms.len(),
        ms[j].name == content.target_name,
        forall|q: int| 0 <= q < j ==> #[trigger] ms[q].name != content.target_name,
        ms[j].health <= 0,
        ms[j].gold > 0,
        s.players[i].gold + ms[j].gold <= u16::MAX,
    ensures
        ({
            let s2 = loot_spec(s, author, content).0;
            let o = loot_spec(s, author, content).1;
            let cr = s.players[i].current_room;
            let p2 = CharacterV { gold: (s.players[i].gold + ms[j].gold) as u16, ..s.players[i] };
            let m2 = MonsterV { gold: 0, ..ms[j] };
            &&& s2.players[i].gold == s.players[i].gold + ms[j].gold
            &&& s2.players == s.players.update(i, p2)
            &&& s2.rooms == s.rooms.insert(cr, RoomV { monsters: Some(ms.update(j, m2)), ..s.rooms[cr] })
            &&& s2.config == s.config
            &&& o == seq![character_out(author, p2), character_out(author, m2.packet())]
        }),
{
    assert(is_first_monster(ms, content.target_name, j));
    let k = choose|k: int| is_first_monster(ms, content.target_name, k);
    assert(is_first_monster(ms, content.target_name, k));
    if k < j {
        assert(ms[k].name != content.target_name);
    }
    if j < k {
        assert(ms[j].name != content.target_name);
    }
    assert(first_monster(ms, content.target_name) == Some(j));
}

/// Looting a monster that still lives, or that has no gold left, changes
/// nothing.
pub proof fn lemma_loot_refused_keeps_state(
    s: GameStateV,
    author: ClientId,
    content: LootV,
    i: int,
    ms: Seq<MonsterV>,
    j: int,
)
    requires
        first_author(s.players, author) == Some(i),
        s.rooms.contains_key(s.players[i].current_room),
        s.rooms[s.players[i].current_room].monsters == Some(ms),
        0 <= j < ms.len(),
        ms[j].name == content.target_name,
        forall|q: int| 0 <= q < j ==> #[trigger] ms[q].name != content.target_name,
        ms[j].health > 0 || ms[j].gold == 0,
    ensures
        loot_spec(s, author, content).0 == s,
{
    let k = choose|k: int| is_first_monster(ms, content.target_name, k);
    assert(is_first_monster(ms, content.target_name, j));
    assert(is_first_monster(ms, content.target_name, k));
    if k < j {
        assert(ms[k].name != content.target_name);
    }
    if j < k {
        assert(ms[j].name != content.target_name);
    }
}

/// A message to a player that has started and is ready, and is played from
/// a connection, reaches that connection as it was sent, and nothing else
/// is sent.
pub proof fn lemma_message_delivered(s: GameStateV, author: ClientId, content: MessageV, i: int)
    requires
        0 <= i < s.players.len(),
        s.players[i].name == content.recipient,
        forall|q: int| 0 <= q < i ==> #[trigger] s.players[q].name != content.recipient,
        s.players[i].flags & STARTED == STARTED,
        s.players[i].flags & READY == READY,
        s.players[i].author is Some,
    ensures
        message_spec(s, author, content) == seq![
            OutputV::Send(ProtocolV::Message(s.players[i].author.unwrap(), content)),
        ],
{
    crate::logic::state::lemma_first_named_is(s.players, content.recipient, i);
}

/// A player that leaves keeps its name, stats and room, but is no longer
/// played from any connection and has no flags; no one else changes, and
/// no room list changes.
pub proof fn lemma_leave_outcome(s: GameStateV, author: ClientId, i: int)
    requires
        first_author(s.players, author) == Some(i),
    ensures
        leave_spec(s, author).0.players == s.players.update(
            i,
            CharacterV { author: None, flags: 0, ..s.players[i] },
        ),
        leave_spec(s, author).0.rooms == s.rooms,
        leave_spec(s, author).0.config == s.config,
{
}

/// Starting a ready player marks it started, keeping its other flags and
/// everything else of it; if the first room is on the map, the player is
/// listed there. No other player changes.
pub proof fn lemma_start_outcome(s: GameStateV, author: ClientId, ks: Seq<u16>, i: int)
    requires
        first_author(s.players, author) == Some(i),
        s.players[i].flags & READY == READY,
    ensures
        ({
            let s2 = start_spec(s, author, ks).0;
            let p = s.players[i];
            &&& s2.players == s.players.update(i, CharacterV { flags: p.flags | STARTED, ..p })
            &&& s2.config == s.config
            &&& s.rooms.contains_key(0) ==> s2.rooms.contains_key(0) && s2.rooms[0].players.contains(
                p.name,
            )
            &&& s.rooms.contains_key(0) ==> s2.rooms.remove(0) == s.rooms.remove(0)
            &&& !s.rooms.contains_key(0) ==> s2.rooms == s.rooms
        }),
{
    let p = s.players[i];
    if s.rooms.contains_key(0) {
        lemma_with_name_contains(s.rooms[0].players, p.name, p.name);
        let s2 = start_spec(s, author, ks).0;
        assert(s2.rooms.remove(0) =~= s.rooms.remove(0));
    }
}

/// A fight in a room where no monster lives changes nothing.
pub proof fn lemma_fight_without_living_monster(
    s: GameStateV,
    author: ClientId,
    i: int,
    ms: Seq<MonsterV>,
)
    requires
        first_author(s.players, author) == Some(i),
        s.rooms.contains_key(s.players[i].current_room),
        s.rooms[s.players[i].current_room].monsters == Some(ms),
        forall|q: int| 0 <= q < ms.len() ==> #[trigger] ms[q].health <= 0,
    ensures
        fight_spec(s, author).0 == s,
{
    if fight_target(ms) is Some {
        lemma_fight_target_weakest(ms);
        let j = fight_target(ms).unwrap();
        assert(ms[j].health <= 0);
    }
}

} // verus!
