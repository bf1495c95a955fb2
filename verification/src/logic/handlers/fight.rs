use vstd::prelude::*;
use vstd::string::StringSliceAdditionalSpecFns;
use vstd::utf8::encode_utf8;
use vstd::std_specs::hash::group_hash_axioms;

use crate::logic::{Output, OutputV, outputs_view};
use crate::logic::map::{
    Monster, MonsterV, RoomV, monsters_view, names_view, names_with, names_without, rooms_view,
    with_name, without,
};
use crate::logic::map::{alert_names, message_names, player_by_name};
use crate::logic::state::{
    GameState, GameStateV, alert_outputs, emit_error, error_out, first_author, first_named,
    message_outputs, players_view, started_and_ready, unique_names, };
use crate::protocol::ClientId;
use crate::protocol::error::ErrorCode;
use crate::protocol::flags::{ALIVE, BATTLE};
use crate::protocol::packet::pkt_character::{Character, CharacterV};
use crate::protocol::packet::pkt_fight::Fight;

verus! {

broadcast use group_hash_axioms;

/// Byte sequences compared from position `i` on, in lexicographic order.
pub open spec fn lex_lt_from(a: Seq<u8>, b: Seq<u8>, i: int) -> bool
    decreases a.len() - i,
{
    if i < 0 || i >= a.len() {
        0 <= i < b.len()
    } else if i >= b.len() {
        false
    } else if a[i] != b[i] {
        a[i] < b[i]
    } else {
        lex_lt_from(a, b, i + 1)
    }
}

/// Whether name `a` comes before name `b`, as `str` orders them: by their
/// UTF-8 bytes, lexicographically.
pub open spec fn name_lt(a: Seq<char>, b: Seq<char>) -> bool {
    lex_lt_from(encode_utf8(a), encode_utf8(b), 0)
}

proof fn lemma_lex_irreflexive(a: Seq<u8>, i: int)
    requires
        0 <= i,
    ensures
        !lex_lt_from(a, a, i),
    decreases a.len() - i,
{
    if i < a.len() {
        lemma_lex_irreflexive(a, i + 1);
    }
}

proof fn lemma_lex_transitive(a: Seq<u8>, b: Seq<u8>, c: Seq<u8>, i: int)
    requires
        0 <= i,
        lex_lt_from(a, b, i),
        lex_lt_from(b, c, i),
    ensures
        lex_lt_from(a, c, i),
    decreases a.len() - i,
{
    if i < a.len() && i < b.len() && i < c.len() && a[i] == b[i] && b[i] == c[i] {
        lemma_lex_transitive(a, b, c, i + 1);
    }
}

proof fn lemma_lex_total(a: Seq<u8>, b: Seq<u8>, i: int)
    requires
        0 <= i <= a.len(),
        0 <= i <= b.len(),
        !lex_lt_from(a, b, i),
        !lex_lt_from(b, a, i),
    ensures
        a.len() == b.len(),
        forall|j: int| i <= j < a.len() ==> a[j] == b[j],
    decreases a.len() - i,
{
    if i < a.len() && i < b.len() {
        lemma_lex_total(a, b, i + 1);
    }
}

/// Whether a monster is still alive.
pub open spec fn alive(m: MonsterV) -> bool {
    m.health > 0
}

/// Whether monster `x` is a weaker target than `y`: less health, or as much
/// health and a name that comes first.
pub open spec fn weaker(x: MonsterV, y: MonsterV) -> bool {
    x.health < y.health || (x.health == y.health && name_lt(x.name, y.name))
}

/// `j` is the target of a fight: the weakest living monster, the first of
/// them if several are as weak.
pub open spec fn is_target(ms: Seq<MonsterV>, j: int) -> bool {
    &&& 0 <= j < ms.len()
    &&& alive(ms[j])
    &&& forall|k: int| 0 <= k < ms.len() && alive(ms[k]) && k < j ==> weaker(ms[j], ms[k])
    &&& forall|k: int| 0 <= k < ms.len() && alive(ms[k]) && j < k ==> !weaker(ms[k], ms[j])
}

/// The target of a fight among `ms`, if any monster lives.
pub open spec fn fight_target(ms: Seq<MonsterV>) -> Option<int> {
    if exists|j: int| is_target(ms, j) {
        Some(choose|j: int| is_target(ms, j))
    } else {
        None
    }
}

proof fn lemma_weaker_transitive(x: MonsterV, y: MonsterV, z: MonsterV)
    requires
        weaker(x, y),
        weaker(y, z),
    ensures
        weaker(x, z),
{
    if x.health == y.health && y.health == z.health {
        lemma_lex_transitive(encode_utf8(x.name), encode_utf8(y.name), encode_utf8(z.name), 0);
    }
}

/// Two monsters neither weaker than the other weigh the same.
proof fn lemma_weaker_total(x: MonsterV, y: MonsterV, z: MonsterV)
    requires
        !weaker(x, y),
        !weaker(y, x),
    ensures
        weaker(z, x) == weaker(z, y),
        weaker(x, z) == weaker(y, z),
{
    if x.health == y.health {
        let a = encode_utf8(x.name);
        let b = encode_utf8(y.name);
        lemma_lex_total(a, b, 0);
        assert(a =~= b);
    }
}

proof fn lemma_target_unique(ms: Seq<MonsterV>, j: int)
    requires
        is_target(ms, j),
    ensures
        fight_target(ms) == Some(j),
{
    let k = choose|k: int| is_target(ms, k);
    assert(is_target(ms, k));
    if k < j {
        assert(weaker(ms[j], ms[k]));
        assert(!weaker(ms[j], ms[k]));
    }
    if j < k {
        assert(weaker(ms[k], ms[j]));
        assert(!weaker(ms[k], ms[j]));
    }
}

/// Among the first `n` monsters, one that lives and that a fight among
/// them would target.
proof fn lemma_prefix_target(ms: Seq<MonsterV>, n: int) -> (b: int)
    requires
        0 <= n <= ms.len(),
        exists|q: int| 0 <= q < n && alive(ms[q]),
    ensures
        0 <= b < n,
        alive(ms[b]),
        forall|q: int| 0 <= q < n && alive(ms[q]) && q < b ==> weaker(ms[b], ms[q]),
        forall|q: int| 0 <= q < n && alive(ms[q]) && b < q ==> !weaker(ms[q], ms[b]),
    decreases n,
{
    let last = n - 1;
    if exists|q: int| 0 <= q < last && alive(ms[q]) {
        let b0 = lemma_prefix_target(ms, last);
        if alive(ms[last]) && weaker(ms[last], ms[b0]) {
            assert forall|q: int| 0 <= q < n && alive(ms[q]) && q < last implies weaker(
                ms[last],
                ms[q],
            ) by {
                if q == b0 {
                } else if q < b0 {
                    lemma_weaker_transitive(ms[last], ms[b0], ms[q]);
                } else {
                    if weaker(ms[b0], ms[q]) {
                        lemma_weaker_transitive(ms[last], ms[b0], ms[q]);
                    } else {
                        lemma_weaker_total(ms[b0], ms[q], ms[last]);
                    }
                }
            }
            last
        } else {
            b0
        }
    } else {
        let q = choose|q: int| 0 <= q < n && alive(ms[q]);
        assert(q == last);
        last
    }
}

/// A room with a living monster has a target to fight.
pub proof fn lemma_fight_target_exists(ms: Seq<MonsterV>, k: int)
    requires
        0 <= k < ms.len(),
        alive(ms[k]),
    ensures
        fight_target(ms) is Some,
{
    let b = lemma_prefix_target(ms, ms.len() as int);
    assert(is_target(ms, b));
}

/// The target of a fight is a living monster with no more health than any
/// other living one.
pub proof fn lemma_fight_target_weakest(ms: Seq<MonsterV>)
    requires
        fight_target(ms) is Some,
    ensures
        0 <= fight_target(ms).unwrap() < ms.len(),
        alive(ms[fight_target(ms).unwrap()]),
        forall|k: int|
            0 <= k < ms.len() && alive(ms[k]) ==> ms[fight_target(ms).unwrap()].health
                <= #[trigger] ms[k].health,
{
    let j = choose|j: int| is_target(ms, j);
    assert(is_target(ms, j));
    assert forall|k: int| 0 <= k < ms.len() && alive(ms[k]) implies ms[j].health
        <= #[trigger] ms[k].health by {
        if k < j {
            assert(weaker(ms[j], ms[k]));
        } else if j < k {
            assert(!weaker(ms[k], ms[j]));
        }
    }
}

/// Whether name `a` comes before name `b`.
pub fn name_less(a: &String, b: &String) -> (r: bool)
    ensures
        r == name_lt(a@, b@),
{
    let x = a.as_str().as_bytes();
    let y = b.as_str().as_bytes();
    let mut i: usize = 0;
    while i < x.len() && i < y.len() && x[i] == y[i]
        invariant
            x@ == encode_utf8(a@),
            y@ == encode_utf8(b@),
            i <= x@.len(),
            i <= y@.len(),
            lex_lt_from(x@, y@, 0) == lex_lt_from(x@, y@, i as int),
        decreases x@.len() - i,
    {
        i = i + 1;
    }
    if i == x.len() {
        i < y.len()
    } else if i == y.len() {
        false
    } else {
        x[i] < y[i]
    }
}

/// Whether monster `x` is a weaker target than monster `y`.
pub fn is_weaker(x: &Monster, y: &Monster) -> (r: bool)
    ensures
        r == weaker(x@, y@),
{
    x.health < y.health || (x.health == y.health && name_less(&x.name, &y.name))
}

/// The position of the monster a fight targets, if any lives.
pub fn pick_target(monsters: &Vec<Monster>) -> (r: Option<usize>)
    ensures
        match r {
            Some(j) => fight_target(monsters_view(monsters@)) == Some(j as int),
            None => fight_target(monsters_view(monsters@)) is None,
        },
{
    let ghost ms = monsters_view(monsters@);
    let mut best: Option<usize> = None;
    let mut k: usize = 0;
    while k < monsters.len()
        invariant
            k <= monsters@.len(),
            ms == monsters_view(monsters@),
            match best {
                None => forall|q: int| 0 <= q < k ==> !alive(ms[q]),
                Some(b) => {
                    &&& b < k
                    &&& alive(ms[b as int])
                    &&& forall|q: int| 0 <= q < k && alive(ms[q]) && q < b ==> weaker(ms[b as int], ms[q])
                    &&& forall|q: int| 0 <= q < k && alive(ms[q]) && b < q ==> !weaker(ms[q], ms[b as int])
                },
            },
        decreases monsters@.len() - k,
    {
        if monsters[k].health > 0 {
            match best {
                None => {
                    best = Some(k);
                },
                Some(b) => {
                    if is_weaker(&monsters[k], &monsters[b]) {
                        proof {
                            assert forall|q: int| 0 <= q < k && alive(ms[q]) implies weaker(
                                ms[k as int],
                                ms[q],
                            ) by {
                                if q == b {
                                } else if q < b {
                                    lemma_weaker_transitive(ms[k as int], ms[b as int], ms[q]);
                                } else {
                                    if weaker(ms[b as int], ms[q]) {
                                        lemma_weaker_transitive(ms[k as int], ms[b as int], ms[q]);
                                    } else {
                                        lemma_weaker_total(ms[b as int], ms[q], ms[k as int]);
                                    }
                                }
                            }
                        }
                        best = Some(k);
                    }
                },
            }
        }
        k = k + 1;
    }
    match best {
        Some(b) => {
            proof {
                lemma_target_unique(ms, b as int);
            }
            Some(b)
        },
        None => {
            assert(!exists|j: int| is_target(ms, j));
            None
        },
    }
}

/// Whether a player joins the battle in room `room`.
pub open spec fn in_battle(p: CharacterV, room: u16) -> bool {
    p.flags & BATTLE == BATTLE && p.current_room == room
}

/// The total attack of the players that join the battle in room `room`.
pub open spec fn battle_damage(ps: Seq<CharacterV>, room: u16) -> int
    decreases ps.len(),
{
    if ps.len() == 0 {
        0
    } else {
        battle_damage(ps.drop_last(), room) + if in_battle(ps.last(), room) {
            ps.last().attack as int
        } else {
            0
        }
    }
}

/// The names of the players that join the battle in room `room`, in order.
pub open spec fn battle_names(ps: Seq<CharacterV>, room: u16) -> Seq<Seq<char>>
    decreases ps.len(),
{
    if ps.len() == 0 {
        Seq::empty()
    } else {
        battle_names(ps.drop_last(), room) + if in_battle(ps.last(), room) {
            seq![ps.last().name]
        } else {
            Seq::empty()
        }
    }
}

/// A 16-bit amount as a signed value, capped at `i16::MAX`.
pub open spec fn cap_i16(x: u16) -> i16 {
    if x <= 32767 {
        x as i16
    } else {
        32767
    }
}

/// A value clamped to the range of `i16`.
pub open spec fn sat_i16(x: int) -> i16 {
    if x < -32768 {
        -32768i16
    } else if x > 32767 {
        32767i16
    } else {
        x as i16
    }
}

/// `a - b`, or zero when `b` is larger.
pub open spec fn sat_sub_u16(a: u16, b: u16) -> u16 {
    if a >= b {
        (a - b) as u16
    } else {
        0
    }
}

/// What the alerts after a fight send: each player that joined the battle
/// shows itself to the room, in order.
pub open spec fn fight_alerts(
    ps2: Seq<CharacterV>,
    names2: Seq<Seq<char>>,
    battle: Seq<Seq<char>>,
) -> Seq<OutputV>
    decreases battle.len(),
{
    if battle.len() == 0 {
        Seq::empty()
    } else {
        fight_alerts(ps2, names2, battle.drop_last()) + match first_named(ps2, battle.last()) {
            Some(k) => alert_outputs(ps2, names2, ps2[k]),
            None => Seq::empty(),
        }
    }
}

/// Where a fight of client `author` gets to the exchange of blows: the
/// attacker, its room, the room's monsters and the target.
pub open spec fn fight_setup(s: GameStateV, author: ClientId) -> Option<(int, u16, Seq<MonsterV>, int)> {
    match first_author(s.players, author) {
        Some(i) if started_and_ready(s.players[i]) && s.rooms.contains_key(
            s.players[i].current_room,
        ) => match s.rooms[s.players[i].current_room].monsters {
            Some(ms) => match fight_target(ms) {
                Some(j) => Some((i, s.players[i].current_room, ms, j)),
                None => None,
            },
            None => None,
        },
        _ => None,
    }
}

/// Whether the total attack of a fight overflows its 16 bits.
pub open spec fn fight_overflows(s: GameStateV, author: ClientId) -> bool {
    match fight_setup(s, author) {
        Some((i, r, ms, j)) => battle_damage(s.players, r) > u16::MAX,
        None => false,
    }
}

/// The state and outputs after client `author` starts a fight in its room.
///
/// A room without monsters, or without living ones, is refused. Otherwise
/// the weakest living monster is the target. The room (without the
/// attacker) is told who attacks; every player in the room that joins
/// battles adds its attack, and the monster takes that much damage beyond
/// its defense. If it survives, it strikes back at the attacker beyond the
/// attacker's defense. A living attacker then regains its regeneration.
/// Health stays within the range of `i16`. Then each player of the battle,
/// and the monster, are shown to the room.
pub open spec fn fight_spec(s: GameStateV, author: ClientId) -> (GameStateV, Seq<OutputV>) {
    match first_author(s.players, author) {
        None => (s, Seq::empty()),
        Some(i) => {
            let a = s.players[i];
            let cr = a.current_room;
            if !started_and_ready(a) {
                (s, seq![error_out(author, ErrorCode::NOTREADY, "Start the game first!"@)])
            } else if !s.rooms.contains_key(cr) {
                (s, Seq::empty())
            } else {
                let room = s.rooms[cr];
                let names1 = without(room.players, a.name);
                match room.monsters {
                    None => (
                        s,
                        seq![error_out(author, ErrorCode::NOFIGHT, "The room is eerily quiet..."@)],
                    ),
                    Some(ms) => match fight_target(ms) {
                        None => (
                            s,
                            seq![
                                error_out(
                                    author,
                                    ErrorCode::NOFIGHT,
                                    "No monsters alive. Let them rest."@,
                                ),
                            ],
                        ),
                        Some(j) => {
                            let m = ms[j];
                            let total = battle_damage(s.players, cr) as u16;
                            let mh = sat_i16(m.health - cap_i16(sat_sub_u16(total, m.defense)));
                            let m2 = MonsterV { health: mh, ..m };
                            let h1 = if mh <= 0 {
                                a.health
                            } else {
                                sat_i16(a.health - cap_i16(sat_sub_u16(m.attack, a.defense)))
                            };
                            let h2 = if a.flags & ALIVE == ALIVE {
                                sat_i16(h1 + cap_i16(a.regen))
                            } else {
                                h1
                            };
                            let ps2 = s.players.update(i, CharacterV { health: h2, ..a });
                            let names2 = with_name(names1, a.name);
                            (
                                GameStateV {
                                    players: ps2,
                                    rooms: s.rooms.insert(
                                        cr,
                                        RoomV { monsters: Some(ms.update(j, m2)), ..room },
                                    ),
                                    config: s.config,
                                },
                                message_outputs(
                                    s.players,
                                    names1,
                                    a.name + " is attacking "@ + m.name,
                                    false,
                                ) + message_outputs(
                                    s.players,
                                    names1,
                                    "Joining '"@ + a.name + "' in attacking '"@ + m.name + "'"@,
                                    false,
                                ) + fight_alerts(ps2, names2, battle_names(s.players, cr))
                                    + alert_outputs(ps2, names2, m2.packet()),
                            )
                        },
                    },
                }
            }
        },
    }
}

proof fn lemma_battle_damage_prefix(ps: Seq<CharacterV>, room: u16, k: int)
    requires
        0 <= k <= ps.len(),
    ensures
        battle_damage(ps.take(k), room) <= battle_damage(ps, room),
        battle_damage(ps.take(k), room) >= 0,
    decreases ps.len() - k,
{
    if k == ps.len() {
        assert(ps.take(k) =~= ps);
        lemma_battle_damage_nonneg(ps, room);
    } else {
        lemma_battle_damage_prefix(ps.drop_last(), room, k);
        assert(ps.drop_last().take(k) =~= ps.take(k));
    }
}

/// The pooled attack of a battle is never negative.
pub proof fn lemma_battle_damage_nonneg(ps: Seq<CharacterV>, room: u16)
    ensures
        battle_damage(ps, room) >= 0,
    decreases ps.len(),
{
    if ps.len() > 0 {
        lemma_battle_damage_nonneg(ps.drop_last(), room);
    }
}

/// The total attack of the players joining the battle in room `room`, or
/// `None` when it does not fit in 16 bits.
pub fn battle_total(players: &Vec<Character>, room: u16) -> (r: Option<u16>)
    ensures
        match r {
            Some(t) => t == battle_damage(players_view(players@), room),
            None => battle_damage(players_view(players@), room) > u16::MAX,
        },
{
    let ghost ps = players_view(players@);
    let mut total: u16 = 0;
    let mut k: usize = 0;
    while k < players.len()
        invariant
            k <= players@.len(),
            ps == players_view(players@),
            total == battle_damage(ps.take(k as int), room),
        decreases players@.len() - k,
    {
        assert(ps.take(k + 1).drop_last() =~= ps.take(k as int));
        if players[k].flags.is_battle() && players[k].current_room == room {
            match total.checked_add(players[k].attack) {
                Some(t) => {
                    total = t;
                },
                None => {
                    proof {
                        lemma_battle_damage_prefix(ps, room, k + 1);
                    }
                    return None;
                },
            }
        }
        k = k + 1;
    }
    assert(ps.take(players@.len() as int) =~= ps);
    Some(total)
}

/// The names of the players joining the battle in room `room`, in order.
pub fn battle_roster(players: &Vec<Character>, room: u16) -> (names: Vec<String>)
    ensures
        names_view(names@) == battle_names(players_view(players@), room),
{
    let ghost ps = players_view(players@);
    let mut names: Vec<String> = Vec::new();
    let mut k: usize = 0;
    while k < players.len()
        invariant
            k <= players@.len(),
            ps == players_view(players@),
            names_view(names@) == battle_names(ps.take(k as int), room),
        decreases players@.len() - k,
    {
        assert(ps.take(k + 1).drop_last() =~= ps.take(k as int));
        let ghost prev = names@;
        if players[k].flags.is_battle() && players[k].current_room == room {
            names.push(players[k].name.clone());
            assert(names_view(names@) =~= names_view(prev).push(ps[k as int].name));
        } else {
            assert(names_view(names@) =~= names_view(prev) + Seq::<Seq<char>>::empty());
        }
        k = k + 1;
    }
    assert(ps.take(players@.len() as int) =~= ps);
    names
}

/// A 16-bit amount as a signed value, capped at `i16::MAX`.
pub fn capped(x: u16) -> (r: i16)
    ensures
        r == cap_i16(x),
{
    if x <= 32767 {
        x as i16
    } else {
        32767
    }
}

/// `a - b` within the range of `i16`.
pub fn saturating_sub_i16(a: i16, b: i16) -> (r: i16)
    ensures
        r == sat_i16(a - b),
{
    let x = a as i32 - b as i32;
    if x < -32768 {
        -32768
    } else if x > 32767 {
        32767
    } else {
        x as i16
    }
}

/// `a + b` within the range of `i16`.
pub fn saturating_add_i16(a: i16, b: i16) -> (r: i16)
    ensures
        r == sat_i16(a + b),
{
    let x = a as i32 + b as i32;
    if x < -32768 {
        -32768
    } else if x > 32767 {
        32767
    } else {
        x as i16
    }
}

/// `a - b`, or zero when `b` is larger.
pub fn saturating_sub_u16(a: u16, b: u16) -> (r: u16)
    ensures
        r == sat_sub_u16(a, b),
{
    if a >= b {
        a - b
    } else {
        0
    }
}

impl GameState {
    /// Whether a fight by client `author` would add up more attack than 16
    /// bits hold.
    pub fn fight_would_overflow(&self, author: ClientId) -> (r: bool)
        ensures
            r == fight_overflows(self@, author),
    {
        let i = match self.player_by_stream(author) {
            Some(i) => i,
            None => {
                return false;
            },
        };
        let p = &self.players[i];
        if !(p.flags.is_started() && p.flags.is_ready()) {
            return false;
        }
        let cr = p.current_room;
        match self.rooms.get(&cr) {
            None => false,
            Some(room) => match &room.monsters {
                None => false,
                Some(ms) => match pick_target(ms) {
                    None => false,
                    Some(_) => battle_total(&self.players, cr).is_none(),
                },
            },
        }
    }

    /// Client `author` attacks the monsters of its room.
    pub fn handle_fight(&mut self, author: ClientId, content: Fight) -> (out: Vec<Output>)
        requires
            old(self)@.wf(),
            !fight_overflows(old(self)@, author),
        ensures
            final(self)@.wf(),
            final(self)@ == fight_spec(old(self)@, author).0,
            outputs_view(out@) == fight_spec(old(self)@, author).1,
    {
        let mut out: Vec<Output> = Vec::new();
        let ghost s = self@;
        let i = match self.player_by_stream(author) {
            Some(i) => i,
            None => {
                assert(outputs_view(out@) =~= fight_spec(s, author).1);
                return out;
            },
        };
        if !GameState::ensure_started(&self.players[i], author, &mut out) {
            assert(outputs_view(out@) =~= fight_spec(s, author).1);
            return out;
        }
        let cr = self.players[i].current_room;
        let attacker = self.players[i].copy();
        let (names1, j) = match self.rooms.get(&cr) {
            None => {
                assert(outputs_view(out@) =~= fight_spec(s, author).1);
                return out;
            },
            Some(room) => {
                let names1 = names_without(&room.player_names(), &attacker.name);
                match &room.monsters {
                    None => {
                        emit_error(
                            &mut out,
                            author,
                            ErrorCode::NOFIGHT,
                            "The room is eerily quiet...",
                        );
                        assert(outputs_view(out@) =~= fight_spec(s, author).1);
                        return out;
                    },
                    Some(monsters) => match pick_target(monsters) {
                        None => {
                            emit_error(
                                &mut out,
                                author,
                                ErrorCode::NOFIGHT,
                                "No monsters alive. Let them rest.",
                            );
                            assert(outputs_view(out@) =~= fight_spec(s, author).1);
                            return out;
                        },
                        Some(j) => (names1, j),
                    },
                }
            },
        };
        let ghost room = s.rooms[cr];
        let ghost ms = room.monsters.unwrap();
        assert(names_view(names1@) == without(room.players, attacker@.name));
        let battle = battle_roster(&self.players, cr);
        let total = match battle_total(&self.players, cr) {
            Some(t) => t,
            None => {
                return out;
            },
        };
        // The room is told who attacks whom.

        let mut room = match self.rooms.remove(&cr) {
            Some(room) => room,
            None => {
                return out;
            },
        };
        let mut monsters = match room.monsters {
            Some(monsters) => monsters,
            None => {
                return out;
            },
        };
        let mut monster = monsters[j].copy();
        let mut text1 = attacker.name.clone();
        text1.append(" is attacking ");
        text1.append(monster.name.as_str());
        let mut text2 = "Joining '".to_owned();
        text2.append(attacker.name.as_str());
        text2.append("' in attacking '");
        text2.append(monster.name.as_str());
        text2.append("'");
        message_names(&self.players, &names1, text1.as_str(), false, &mut out);
        message_names(&self.players, &names1, text2.as_str(), false, &mut out);
        // Blows are exchanged.

        let damage = capped(saturating_sub_u16(total, monster.defense));
        monster.health = saturating_sub_i16(monster.health, damage);
        let victory = monster.health <= 0;
        let mut health = attacker.health;
        if !victory {
            let back = capped(saturating_sub_u16(monster.attack, attacker.defense));
            health = saturating_sub_i16(health, back);
        }
        if attacker.flags.is_alive() {
            health = saturating_add_i16(health, capped(attacker.regen));
        }
        let monster_pkt = monster.to_packet();
        let ghost m2 = monster@;
        monsters.set(j, monster);
        assert(monsters_view(monsters@) =~= ms.update(j as int, m2));
        room.monsters = Some(monsters);
        self.rooms.insert(cr, room);
        assert(rooms_view(self.rooms@) =~= s.rooms.insert(
            cr,
            RoomV { monsters: Some(ms.update(j as int, m2)), ..s.rooms[cr] },
        ));
        let mut updated = attacker.copy();
        updated.health = health;
        let ghost a2 = updated@;
        self.players.set(i, updated);
        let ghost ps2 = players_view(self.players@);
        assert(ps2 =~= s.players.update(i as int, a2));
        assert(unique_names(ps2)) by {
            assert forall|a: int, b: int| 0 <= a < b < ps2.len() implies ps2[a].name
                != ps2[b].name by {
                assert(s.players[a].name != s.players[b].name);
            }
        }
        // The battle's players and the monster are shown to the room.

        let mut names2 = names1;
        names_with(&mut names2, attacker.name.clone());
        let ghost n2 = names_view(names2@);
        let ghost bs = names_view(battle@);
        let ghost mid = outputs_view(out@);
        let mut k: usize = 0;
        while k < battle.len()
            invariant
                k <= battle@.len(),
                bs == names_view(battle@),
                n2 == names_view(names2@),
                ps2 == players_view(self.players@),
                outputs_view(out@) == mid + fight_alerts(ps2, n2, bs.take(k as int)),
            decreases battle@.len() - k,
        {
            assert(bs.take(k + 1).drop_last() =~= bs.take(k as int));
            assert(bs.take(k + 1).last() == battle@[k as int]@);
            match player_by_name(&self.players, &battle[k]) {
                Some(q) => {
                    alert_names(&self.players, &names2, &self.players[q], &mut out);
                },
                None => {},
            }
            k = k + 1;
        }
        assert(bs.take(battle@.len() as int) =~= bs);
        alert_names(&self.players, &names2, &monster_pkt, &mut out);
        assert(self@ == fight_spec(s, author).0);
        assert(outputs_view(out@) =~= fight_spec(s, author).1);
        out
    }
}

} // verus!
