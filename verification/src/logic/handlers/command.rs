use vstd::prelude::*;
use vstd::std_specs::hash::group_hash_axioms;
use std::collections::HashMap;
use vstd::std_specs::iter::IteratorSpec;

use indexmap::IndexSet;

use crate::logic::{Output, OutputV, outputs_view};
use crate::logic::commands::Action;
use crate::logic::command::CommandV;
use crate::logic::map::{
    Monster, MonsterV, Room, RoomV, alert_names, monsters_view, name_set_items, name_set_remove,
    names_view, other_than,
};
use crate::logic::map::player_by_name;
use crate::logic::state::{
    GameState, GameStateV, alert_outputs, broadcast_outputs, emit, first_named, key_order,
    message_out, players_view, unique_names,
};
use crate::protocol::packet::Protocol;
use crate::protocol::packet::pkt_message::{Message, MessageV};
use crate::protocol::packet::pkt_character::{Character, CharacterV};

verus! {

broadcast use group_hash_axioms;

/// The words `ws` joined by single spaces.
pub open spec fn join_words(ws: Seq<Seq<char>>) -> Seq<char>
    decreases ws.len(),
{
    if ws.len() == 0 {
        Seq::empty()
    } else if ws.len() == 1 {
        ws[0]
    } else {
        join_words(ws.drop_last()) + seq![' '] + ws.last()
    }
}

/// Filtering twice keeps what both predicates keep.
pub proof fn lemma_filter_filter<A>(s: Seq<A>, p: spec_fn(A) -> bool, q: spec_fn(A) -> bool)
    ensures
        s.filter(p).filter(q) == s.filter(|x: A| p(x) && q(x)),
    decreases s.len(),
{
    let pq = |x: A| p(x) && q(x);
    if s.len() == 0 {
        s.lemma_filter_len(p);
        s.filter(p).lemma_filter_len(q);
        s.lemma_filter_len(pq);
        assert(s.filter(p).filter(q) =~= s.filter(pq));
    } else {
        let t = s.drop_last();
        let e = s.last();
        assert(s =~= t.push(e));
        lemma_filter_filter(t, p, q);
        t.lemma_filter_push(e, p);
        t.lemma_filter_push(e, pq);
        t.filter(p).lemma_filter_push(e, q);
    }
}

/// Keeping some of the players keeps their names apart.
pub proof fn lemma_unique_filter(ps: Seq<CharacterV>, f: spec_fn(CharacterV) -> bool)
    requires
        unique_names(ps),
    ensures
        unique_names(ps.filter(f)),
    decreases ps.len(),
{
    if ps.len() == 0 {
        ps.lemma_filter_len(f);
    } else {
        let t = ps.drop_last();
        let e = ps.last();
        assert(ps =~= t.push(e));
        assert(unique_names(t));
        lemma_unique_filter(t, f);
        t.lemma_filter_push(e, f);
        if f(e) {
            let tf = t.filter(f);
            assert forall|a: int| 0 <= a < tf.len() implies tf[a].name != e.name by {
                assert(tf.contains(tf[a]));
                t.lemma_filter_contains_rev(f, tf[a]);
                let j = choose|j: int| 0 <= j < t.len() && t[j] == tf[a];
                assert(ps[j] == t[j]);
            }
        }
    }
}

/// Some order lists each key of a finite set once.
pub proof fn lemma_key_order_exists(dom: Set<u16>)
    requires
        dom.finite(),
    ensures
        exists|ks: Seq<u16>| key_order(ks, dom),
    decreases dom.len(),
{
    if dom.len() == 0 {
        dom.lemma_len0_is_empty();
        let e = Seq::<u16>::empty();
        assert(e.to_set() =~= dom);
        assert(key_order(e, dom));
    } else {
        let x = dom.choose();
        lemma_key_order_exists(dom.remove(x));
        let ks = choose|ks: Seq<u16>| key_order(ks, dom.remove(x));
        let ks2 = ks.push(x);
        assert(!ks.contains(x)) by {
            if ks.contains(x) {
                assert(ks.to_set().contains(x));
            }
        }
        assert forall|a: int, b: int| 0 <= a < ks2.len() && 0 <= b < ks2.len() && a != b implies
            ks2[a] != ks2[b] by {
            if a < ks.len() && b < ks.len() {
                assert(ks[a] != ks[b]);
            } else if a < ks.len() {
                assert(ks.contains(ks[a]));
            } else if b < ks.len() {
                assert(ks.contains(ks[b]));
            }
        }
        assert forall|y: u16| ks2.to_set().contains(y) <==> dom.contains(y) by {
            if dom.contains(y) && y != x {
                assert(ks.to_set().contains(y));
                let j = choose|j: int| 0 <= j < ks.len() && ks[j] == y;
                assert(ks2[j] == y);
            }
            if y == x {
                assert(ks2[ks.len() as int] == x);
            }
            if ks2.to_set().contains(y) {
                let j = choose|j: int| 0 <= j < ks2.len() && ks2[j] == y;
                if j < ks.len() {
                    assert(ks[j] == y);
                    assert(ks.to_set().contains(y));
                }
            }
        }
        assert(ks2.to_set() =~= dom);
        assert(key_order(ks2, dom));
    }
}

/// The keys of a map, in the order the map yields them.
pub fn collect_keys<V>(m: &HashMap<u16, V>) -> (ks: Vec<u16>)
    ensures
        key_order(ks@, m@.dom()),
{
    let ghost all = vstd::std_specs::hash::spec_keys_iter(m).remaining().unref();
    let mut ks: Vec<u16> = Vec::new();
    for k in it: m.keys()
        invariant
            it.seq().unref() == all,
            all == vstd::std_specs::hash::spec_keys_iter(m).remaining().unref(),
            all.to_set() == m@.dom(),
            ks@ == all.take(it.index() as int),
    {
        let ghost i = it.index();
        assert(all[i] == *k);
        ks.push(*k);
        assert(ks@ =~= all.take(i + 1));
    }
    assert(all.take(all.len() as int) =~= all);
    assert(key_order(all, m@.dom()));
    ks
}

/// The words of `argv` from position `from` on, joined by single spaces.
pub fn join_words_from(argv: &Vec<String>, from: usize) -> (r: String)
    requires
        from <= argv@.len(),
    ensures
        r@ == join_words(names_view(argv@).skip(from as int)),
{
    let ghost ws = names_view(argv@);
    let mut r = String::new();
    let mut k: usize = from;
    proof {
        reveal_strlit(" ");
    }
    while k < argv.len()
        invariant
            from <= k <= argv@.len(),
            ws == names_view(argv@),
            " "@ == seq![' '],
            r@ == join_words(ws.subrange(from as int, k as int)),
        decreases argv@.len() - k,
    {
        let ghost sub = ws.subrange(from as int, k + 1);
        assert(sub.drop_last() =~= ws.subrange(from as int, k as int));
        assert(sub.last() == argv@[k as int]@);
        if k > from {
            r.append(" ");
        }
        r.append(argv[k].as_str());
        k = k + 1;
    }
    assert(ws.subrange(from as int, argv@.len() as int) =~= ws.skip(from as int));
    r
}

/// Whether a player is still played from a connection.
pub open spec fn is_connected() -> spec_fn(CharacterV) -> bool {
    |p: CharacterV| p.author is Some
}

/// Whether a player is no longer played from any connection.
pub open spec fn is_disconnected() -> spec_fn(CharacterV) -> bool {
    |p: CharacterV| p.author is None
}

/// The name of a player.
pub open spec fn name_of() -> spec_fn(CharacterV) -> Seq<char> {
    |p: CharacterV| p.name
}

/// The names of the players no longer played from any connection.
pub open spec fn disconnected_names(ps: Seq<CharacterV>) -> Seq<Seq<char>> {
    ps.filter(is_disconnected()).map_values(name_of())
}

/// Whether a name is none of `gone`.
pub open spec fn kept_name(gone: Seq<Seq<char>>) -> spec_fn(Seq<char>) -> bool {
    |n: Seq<char>| !gone.contains(n)
}

/// A room without the players named in `gone`.
pub open spec fn pruned_room(r: RoomV, gone: Seq<Seq<char>>) -> RoomV {
    RoomV { players: r.players.filter(kept_name(gone)), ..r }
}

/// The text everyone gets after disconnected players were removed.
pub open spec fn nuke_text() -> Seq<char> {
    "Disconnected players have been removed; ChangeRoom to update player list!"@
}

/// The state and outputs after the operator removes the disconnected
/// players: if there are none, the operator is told so; otherwise they leave
/// the game and every room, and everyone left is told.
pub open spec fn nuke_spec(s: GameStateV) -> (GameStateV, Seq<OutputV>) {
    let gone = disconnected_names(s.players);
    if gone.len() == 0 {
        (s, seq![OutputV::Console("No disconnected players"@)])
    } else {
        let s2 = GameStateV {
            players: s.players.filter(is_connected()),
            rooms: s.rooms.map_values(|r: RoomV| pruned_room(r, gone)),
            ..s
        };
        (s2, broadcast_outputs(s2.players, nuke_text()))
    }
}

/// Removes from a set of names each name in `gone`, keeping the order of the
/// others.
pub fn prune_names(set: &mut IndexSet<String>, gone: &Vec<String>)
    ensures
        name_set_items(*final(set)) == name_set_items(*old(set)).filter(kept_name(names_view(gone@))),
{
    let ghost orig = name_set_items(*set);
    let ghost gv = names_view(gone@);
    let mut g: usize = 0;
    assert(orig.filter(kept_name(gv.take(0))) == orig) by {
        let e = Seq::<Seq<char>>::empty();
        assert(gv.take(0) =~= e);
        assert(kept_name(e) =~= |n: Seq<char>| true);
        lemma_filter_all(orig, kept_name(e));
    }
    while g < gone.len()
        invariant
            g <= gone@.len(),
            gv == names_view(gone@),
            name_set_items(*set) == orig.filter(kept_name(gv.take(g as int))),
        decreases gone@.len() - g,
    {
        let ghost before = name_set_items(*set);
        let ghost x = gv[g as int];
        name_set_remove(set, gone[g].as_str());
        proof {
            let p = kept_name(gv.take(g as int));
            let q = other_than(x);
            lemma_filter_filter(orig, p, q);
            assert(gv.take(g + 1) =~= gv.take(g as int).push(x));
            assert((|y: Seq<char>| p(y) && q(y)) =~= kept_name(gv.take(g + 1))) by {
                assert forall|y: Seq<char>| (#[trigger] p(y) && q(y)) == kept_name(gv.take(g + 1))(y) by {
                    let t = gv.take(g as int);
                    let t1 = gv.take(g + 1);
                    if t1.contains(y) {
                        let j = choose|j: int| 0 <= j < t1.len() && t1[j] == y;
                        if j < t.len() {
                            assert(t[j] == y);
                        }
                    }
                    if t.contains(y) {
                        let j = choose|j: int| 0 <= j < t.len() && t[j] == y;
                        assert(t1[j] == y);
                    }
                    if y == x {
                        assert(t1[g as int] == y);
                    }
                }
            }
        }
        g = g + 1;
    }
    assert(gv.take(gone@.len() as int) =~= gv);
}

/// Keeping every element keeps the sequence.
pub proof fn lemma_filter_all<A>(s: Seq<A>, p: spec_fn(A) -> bool)
    requires
        forall|x: A| #[trigger] p(x),
    ensures
        s.filter(p) == s,
    decreases s.len(),
{
    if s.len() == 0 {
        s.lemma_filter_len(p);
        assert(s.filter(p) =~= s);
    } else {
        let t = s.drop_last();
        assert(s =~= t.push(s.last()));
        lemma_filter_all(t, p);
        t.lemma_filter_push(s.last(), p);
    }
}

/// Whether a monster is dead and can come back: its health is used up and
/// it has health to come back with.
pub open spec fn needs_revive() -> spec_fn(MonsterV) -> bool {
    |m: MonsterV| m.health <= 0 && m.max_health > 0
}

/// A monster brought back to full health, if it needs reviving.
pub open spec fn revived() -> spec_fn(MonsterV) -> MonsterV {
    |m: MonsterV|
        if needs_revive()(m) {
            MonsterV { health: m.max_health, ..m }
        } else {
            m
        }
}

/// The packet that shows a monster after it was revived.
pub open spec fn revived_packet() -> spec_fn(MonsterV) -> CharacterV {
    |m: MonsterV| revived()(m).packet()
}

/// A room whose dead monsters were revived.
pub open spec fn revived_room(r: RoomV) -> RoomV {
    RoomV {
        monsters: match r.monsters {
            Some(ms) => Some(ms.map_values(revived())),
            None => None,
        },
        ..r
    }
}

/// The packets of the monsters of `ms` that get revived, in order.
pub open spec fn revive_packets(ms: Seq<MonsterV>) -> Seq<CharacterV> {
    ms.filter(needs_revive()).map_values(revived_packet())
}

/// What alerting the players named `names` about each of `pkts` sends, in
/// order.
pub open spec fn packets_alerts(
    ps: Seq<CharacterV>,
    names: Seq<Seq<char>>,
    pkts: Seq<CharacterV>,
) -> Seq<OutputV>
    decreases pkts.len(),
{
    if pkts.len() == 0 {
        Seq::empty()
    } else {
        packets_alerts(ps, names, pkts.drop_last()) + alert_outputs(ps, names, pkts.last())
    }
}

/// What the players of a room are sent about its revived monsters.
pub open spec fn room_revive_alerts(ps: Seq<CharacterV>, r: RoomV) -> Seq<OutputV> {
    match r.monsters {
        Some(ms) => packets_alerts(ps, r.players, revive_packets(ms)),
        None => Seq::empty(),
    }
}

/// What the players of the rooms `ks`, taken in that order, are sent about
/// their revived monsters.
pub open spec fn revive_alerts(
    ps: Seq<CharacterV>,
    rooms: Map<u16, RoomV>,
    ks: Seq<u16>,
) -> Seq<OutputV>
    decreases ks.len(),
{
    if ks.len() == 0 {
        Seq::empty()
    } else {
        revive_alerts(ps, rooms, ks.drop_last()) + room_revive_alerts(ps, rooms[ks.last()])
    }
}

/// Whether a room has a monster to revive.
pub open spec fn room_has_revivable(r: RoomV) -> bool {
    match r.monsters {
        Some(ms) => exists|j: int| 0 <= j < ms.len() && #[trigger] needs_revive()(ms[j]),
        None => false,
    }
}

/// Whether any room has a monster to revive.
pub open spec fn any_revivable(rooms: Map<u16, RoomV>) -> bool {
    exists|k: u16| rooms.contains_key(k) && #[trigger] room_has_revivable(rooms[k])
}

/// The state and outputs after the operator revives the dead monsters,
/// taking the rooms in the order `ks`: if there are none, the operator is
/// told so; otherwise each is brought back to full health, the players of
/// its room are shown it, and everyone is told.
pub open spec fn revive_spec(s: GameStateV, ks: Seq<u16>) -> (GameStateV, Seq<OutputV>) {
    if !any_revivable(s.rooms) {
        (s, seq![OutputV::Console("No monsters to revive"@)])
    } else {
        (
            GameStateV { rooms: s.rooms.map_values(|r: RoomV| revived_room(r)), ..s },
            revive_alerts(s.players, s.rooms, ks) + broadcast_outputs(
                s.players,
                "All dead monsters have been revived!"@,
            ),
        )
    }
}

/// Revives the dead monsters of `ms` and gives the packets that show them.
pub fn revive_monsters(ms: &mut Vec<Monster>) -> (pkts: Vec<Character>)
    ensures
        monsters_view(final(ms)@) == monsters_view(old(ms)@).map_values(revived()),
        players_view(pkts@) == revive_packets(monsters_view(old(ms)@)),
{
    let ghost orig = monsters_view(ms@);
    let mut pkts: Vec<Character> = Vec::new();
    let mut j: usize = 0;
    while j < ms.len()
        invariant
            j <= orig.len(),
            ms@.len() == orig.len(),
            monsters_view(ms@) == orig.take(j as int).map_values(revived()) + orig.skip(j as int),
            players_view(pkts@) == orig.take(j as int).filter(needs_revive()).map_values(
                revived_packet(),
            ),
        decreases orig.len() - j,
    {
        let ghost t = orig.take(j as int);
        let ghost e = orig[j as int];
        let ghost before = pkts@;
        assert(orig.take(j + 1) =~= t.push(e));
        proof {
            t.lemma_filter_push(e, needs_revive());
        }
        assert(monsters_view(ms@)[j as int] == e);
        let ghost mv0 = monsters_view(ms@);
        if ms[j].health <= 0 && ms[j].max_health > 0 {
            let mut m = ms[j].copy();
            m.health = m.max_health;
            assert(m@ == revived()(e));
            let pkt = m.to_packet();
            pkts.push(pkt);
            ms.set(j, m);
            assert(monsters_view(ms@) =~= mv0.update(j as int, revived()(e)));
            assert(players_view(pkts@) =~= players_view(before).push(revived_packet()(e)));
            assert(t.filter(needs_revive()).push(e).map_values(revived_packet()) =~= t.filter(
                needs_revive(),
            ).map_values(revived_packet()).push(revived_packet()(e)));
        }
        assert(monsters_view(ms@) =~= orig.take(j + 1).map_values(revived()) + orig.skip(j + 1));
        j = j + 1;
    }
    assert(orig.take(orig.len() as int) =~= orig);
    assert(monsters_view(ms@) =~= orig.map_values(revived()));
    pkts
}

impl GameState {
    /// Revives the dead monsters of every room, shows each to the players of
    /// its room, and tells everyone.
    pub fn revive(&mut self, out: &mut Vec<Output>)
        requires
            old(self)@.wf(),
        ensures
            final(self)@.wf(),
            exists|ks: Seq<u16>|
                #![trigger revive_spec(old(self)@, ks)]
                key_order(ks, old(self)@.rooms.dom()) && final(self)@ == revive_spec(
                    old(self)@,
                    ks,
                ).0 && outputs_view(final(out)@) == outputs_view(old(out)@) + revive_spec(
                    old(self)@,
                    ks,
                ).1,
    {
        let ghost s = self@;
        let ghost out0 = outputs_view(out@);
        let ghost rs = s.rooms;
        let keys = collect_keys(&self.rooms);
        let ghost ks = keys@;
        assert(rs.dom() =~= self.rooms@.dom());
        let mut alerts: Vec<Output> = Vec::new();
        let mut found = false;
        let mut k: usize = 0;
        while k < keys.len()
            invariant
                k <= ks.len(),
                ks == keys@,
                key_order(ks, rs.dom()),
                self@.players == s.players,
                self@.config == s.config,
                self@.rooms.dom() == rs.dom(),
                forall|r: u16| #[trigger]
                    self@.rooms.contains_key(r) ==> self@.rooms[r] == if ks.take(k as int).contains(
                        r,
                    ) {
                        revived_room(rs[r])
                    } else {
                        rs[r]
                    },
                found == exists|j: int| 0 <= j < k && #[trigger] room_has_revivable(rs[ks[j]]),
                outputs_view(alerts@) == revive_alerts(s.players, rs, ks.take(k as int)),
            decreases ks.len() - k,
        {
            let key = keys[k];
            let ghost before = self.rooms@;
            let ghost before_alerts = outputs_view(alerts@);
            assert(ks.to_set().contains(key)) by {
                assert(ks[k as int] == key);
            }
            assert(!ks.take(k as int).contains(key)) by {
                if ks.take(k as int).contains(key) {
                    let j = choose|j: int| 0 <= j < k && ks.take(k as int)[j] == key;
                    assert(ks[j] == ks[k as int]);
                }
            }
            assert(ks.take(k + 1) =~= ks.take(k as int).push(key));
            assert(ks.take(k + 1).drop_last() =~= ks.take(k as int));
            match self.rooms.remove(&key) {
                Some(room) => {
                    let ghost rv = room@;
                    assert(rv == rs[key]);
                    let names = room.player_names();
                    let Room { room_number, title, connections, desc, players, monsters } = room;
                    let monsters = match monsters {
                        Some(ms) => {
                            let mut ms = ms;
                            let ghost mv = monsters_view(ms@);
                            let pkts = revive_monsters(&mut ms);
                            let ghost pv = players_view(pkts@);
                            let ghost mid = outputs_view(alerts@);
                            let mut p: usize = 0;
                            while p < pkts.len()
                                invariant
                                    p <= pv.len(),
                                    pv == players_view(pkts@),
                                    names_view(names@) == rv.players,
                                    self@.players == s.players,
                                    outputs_view(alerts@) == mid + packets_alerts(
                                        s.players,
                                        rv.players,
                                        pv.take(p as int),
                                    ),
                                decreases pv.len() - p,
                            {
                                assert(pv.take(p + 1).drop_last() =~= pv.take(p as int));
                                alert_names(&self.players, &names, &pkts[p], &mut alerts);
                                p = p + 1;
                            }
                            assert(pv.take(pv.len() as int) =~= pv);
                            if pkts.len() > 0 {
                                found = true;
                                assert(room_has_revivable(rv)) by {
                                    if !room_has_revivable(rv) {
                                        lemma_filter_none(mv, needs_revive());
                                    }
                                }
                            } else {
                                assert(!room_has_revivable(rv)) by {
                                    if room_has_revivable(rv) {
                                        let j = choose|j: int|
                                            0 <= j < mv.len() && #[trigger] needs_revive()(mv[j]);
                                        mv.lemma_filter_contains(needs_revive(), j);
                                    }
                                }
                            }
                            Some(ms)
                        },
                        None => None,
                    };
                    self.rooms.insert(
                        key,
                        Room { room_number, title, connections, desc, players, monsters },
                    );
                    assert(self@.rooms[key] == revived_room(rv));
                    assert forall|r: u16| #[trigger]
                        self@.rooms.contains_key(r) implies self@.rooms[r] == if ks.take(k + 1).contains(
                            r,
                        ) {
                            revived_room(rs[r])
                        } else {
                            rs[r]
                        } by {
                        if r != key {
                            assert(before.contains_key(r));
                            assert(self@.rooms[r] == before[r]@);
                            assert(ks.take(k + 1).contains(r) == ks.take(k as int).contains(r));
                        } else {
                            assert(ks.take(k + 1)[k as int] == key);
                        }
                    }
                    assert(ks[k as int] == key);
                },
                None => {},
            }
            k = k + 1;
        }
        assert(ks.take(ks.len() as int) =~= ks);
        assert forall|r: u16| #[trigger] self@.rooms.contains_key(r) implies ks.contains(r) by {
            assert(ks.to_set().contains(r));
        }
        assert(found == any_revivable(rs)) by {
            if found {
                let j = choose|j: int| 0 <= j < ks.len() && #[trigger] room_has_revivable(rs[ks[j]]);
                assert(ks.to_set().contains(ks[j]));
            }
            if any_revivable(rs) {
                let r = choose|r: u16| rs.contains_key(r) && #[trigger] room_has_revivable(rs[r]);
                assert(ks.to_set().contains(r));
                let j = choose|j: int| 0 <= j < ks.len() && ks[j] == r;
                assert(room_has_revivable(rs[ks[j]]));
            }
        }
        if !found {
            assert(self@.rooms =~= rs) by {
                assert forall|r: u16| #[trigger] self@.rooms.contains_key(r) implies self@.rooms[r]
                    == rs[r] by {
                    lemma_revive_nothing(rs[r]);
                }
            }
            assert(self@ == s);
            emit(out, Output::Console(String::from_str("No monsters to revive")));
            assert(revive_spec(s, ks).1 == seq![OutputV::Console("No monsters to revive"@)]);
            return;
        }
        assert(self@.rooms =~= rs.map_values(|r: RoomV| revived_room(r)));
        let ghost start = out@;
        let ghost av = alerts@;
        out.append(&mut alerts);
        assert(outputs_view(out@) =~= outputs_view(start) + outputs_view(av));
        self.broadcast("All dead monsters have been revived!", out);
        assert(self@ == revive_spec(s, ks).0);
        assert(outputs_view(out@) == out0 + revive_spec(s, ks).1);
    }
}

/// A room with nothing to revive stays as it is.
pub proof fn lemma_revive_nothing(r: RoomV)
    requires
        !room_has_revivable(r),
    ensures
        revived_room(r) == r,
{
    match r.monsters {
        Some(ms) => {
            assert(ms.map_values(revived()) =~= ms) by {
                assert forall|j: int| 0 <= j < ms.len() implies revived()(ms[j]) == ms[j] by {
                    if needs_revive()(ms[j]) {
                        assert(room_has_revivable(r));
                    }
                }
            }
        },
        None => {},
    }
}

/// Where no element is kept, nothing is left.
pub proof fn lemma_filter_none<A>(s: Seq<A>, p: spec_fn(A) -> bool)
    requires
        forall|j: int| 0 <= j < s.len() ==> !#[trigger] p(s[j]),
    ensures
        s.filter(p).len() == 0,
    decreases s.len(),
{
    if s.len() == 0 {
        s.lemma_filter_len(p);
    } else {
        let t = s.drop_last();
        assert(s =~= t.push(s.last()));
        assert forall|j: int| 0 <= j < t.len() implies !#[trigger] p(t[j]) by {
            assert(t[j] == s[j]);
        }
        lemma_filter_none(t, p);
        t.lemma_filter_push(s.last(), p);
    }
}

impl GameState {
    /// Removes the players no longer played from any connection, from the
    /// game and from every room, and tells everyone left.
    pub fn nuke(&mut self, out: &mut Vec<Output>)
        requires
            old(self)@.wf(),
        ensures
            final(self)@.wf(),
            final(self)@ == nuke_spec(old(self)@).0,
            outputs_view(final(out)@) == outputs_view(old(out)@) + nuke_spec(old(self)@).1,
    {
        let ghost s = self@;
        let ghost ps = s.players;
        let mut kept: Vec<Character> = Vec::new();
        let mut gone: Vec<String> = Vec::new();
        let mut i: usize = 0;
        while i < self.players.len()
            invariant
                i <= ps.len(),
                self@ == s,
                ps == players_view(self.players@),
                players_view(kept@) == ps.take(i as int).filter(is_connected()),
                names_view(gone@) == ps.take(i as int).filter(is_disconnected()).map_values(
                    name_of(),
                ),
            decreases ps.len() - i,
        {
            let ghost t = ps.take(i as int);
            let ghost e = ps[i as int];
            assert(ps.take(i + 1) =~= t.push(e));
            proof {
                t.lemma_filter_push(e, is_connected());
                t.lemma_filter_push(e, is_disconnected());
            }
            if self.players[i].author.is_some() {
                let ghost before = kept@;
                kept.push(self.players[i].copy());
                assert(players_view(kept@) =~= players_view(before).push(e));
            } else {
                let ghost before = gone@;
                gone.push(self.players[i].name.clone());
                assert(names_view(gone@) =~= names_view(before).push(e.name));
                assert(t.filter(is_disconnected()).push(e).map_values(name_of()) =~= t.filter(
                    is_disconnected(),
                ).map_values(name_of()).push(e.name));
            }
            i = i + 1;
        }
        assert(ps.take(ps.len() as int) =~= ps);
        let ghost gv = names_view(gone@);
        assert(gv == disconnected_names(ps));
        if gone.len() == 0 {
            emit(out, Output::Console(String::from_str("No disconnected players")));
            return;
        }
        self.players = kept;
        proof {
            lemma_unique_filter(ps, is_connected());
        }
        let keys = collect_keys(&self.rooms);
        let ghost ks = keys@;
        let ghost rs = s.rooms;
        assert(rs.dom() =~= self.rooms@.dom());
        let mut k: usize = 0;
        while k < keys.len()
            invariant
                k <= ks.len(),
                ks == keys@,
                key_order(ks, rs.dom()),
                gv == names_view(gone@),
                self@.players == ps.filter(is_connected()),
                self@.config == s.config,
                self@.rooms.dom() == rs.dom(),
                forall|r: u16| #[trigger]
                    self@.rooms.contains_key(r) ==> self@.rooms[r] == if ks.take(k as int).contains(
                        r,
                    ) {
                        pruned_room(rs[r], gv)
                    } else {
                        rs[r]
                    },
            decreases ks.len() - k,
        {
            let key = keys[k];
            let ghost before = self.rooms@;
            assert(ks.to_set().contains(key)) by {
                assert(ks[k as int] == key);
            }
            assert(!ks.take(k as int).contains(key)) by {
                if ks.take(k as int).contains(key) {
                    let j = choose|j: int| 0 <= j < k && ks.take(k as int)[j] == key;
                    assert(ks[j] == ks[k as int]);
                }
            }
            assert(ks.take(k + 1) =~= ks.take(k as int).push(key));
            match self.rooms.remove(&key) {
                Some(room) => {
                    let mut room = room;
                    let ghost rv = room@;
                    prune_names(&mut room.players, &gone);
                    assert(room@ == pruned_room(rv, gv));
                    self.rooms.insert(key, room);
                    assert forall|r: u16| #[trigger]
                        self@.rooms.contains_key(r) implies self@.rooms[r] == if ks.take(k + 1).contains(
                            r,
                        ) {
                            pruned_room(rs[r], gv)
                        } else {
                            rs[r]
                        } by {
                        if r != key {
                            assert(before.contains_key(r));
                            assert(self@.rooms[r] == before[r]@);
                            assert(ks.take(k + 1).contains(r) == ks.take(k as int).contains(r));
                        } else {
                            assert(ks.take(k + 1)[k as int] == key);
                        }
                    }
                },
                None => {},
            }
            k = k + 1;
        }
        assert(ks.take(ks.len() as int) =~= ks);
        assert(self@.rooms =~= rs.map_values(|r: RoomV| pruned_room(r, gv))) by {
            assert forall|r: u16| #[trigger] self@.rooms.contains_key(r) implies ks.contains(r) by {
                assert(ks.to_set().contains(r));
            }
        }
        self.broadcast(
            "Disconnected players have been removed; ChangeRoom to update player list!",
            out,
        );
    }
}

/// What the operator's private message to the player named `name` sends:
/// a notice from the server, if the player exists and is connected;
/// otherwise the operator is told the player was not found.
pub open spec fn message_command(ps: Seq<CharacterV>, name: Seq<char>, content: Seq<char>) -> Seq<
    OutputV,
> {
    let not_found = seq![OutputV::Console("Player not found: "@ + name)];
    match first_named(ps, name) {
        Some(i) => match ps[i].author {
            Some(c) => seq![message_out(c, MessageV::server(name, content))],
            None => not_found,
        },
        None => not_found,
    }
}

/// The state and outputs after the operator's command `c`, rooms taken in
/// the order `ks` where that order shows.
pub open spec fn command_spec(s: GameStateV, c: CommandV, ks: Seq<u16>) -> (GameStateV, Seq<OutputV>) {
    let argv = c.argv;
    if c.kind == "help"@ {
        (s, seq![OutputV::Console(s.config.help_cmd)])
    } else if c.kind == "broadcast"@ {
        if argv.len() < 2 {
            (s, seq![OutputV::Console("Broadcast command requires at least 2 arguments"@)])
        } else {
            (s, broadcast_outputs(s.players, join_words(argv.skip(1))))
        }
    } else if c.kind == "message"@ {
        if argv.len() < 3 {
            (s, seq![OutputV::Console("Message command requires at least 3 arguments"@)])
        } else {
            (s, message_command(s.players, argv[1], join_words(argv.skip(2))))
        }
    } else if c.kind == "nuke"@ {
        nuke_spec(s)
    } else if c.kind == "revive"@ {
        revive_spec(s, ks)
    } else {
        (s, seq![OutputV::Console("Unsupported command!"@)])
    }
}

/// Whether `kind` is the word `w`.
fn is_kind(kind: &String, w: &str) -> (r: bool)
    ensures
        r == (kind@ == w@),
{
    *kind == String::from_str(w)
}

/// Appends the console line `text`.
fn console(out: &mut Vec<Output>, text: &str)
    ensures
        outputs_view(final(out)@) == outputs_view(old(out)@).push(OutputV::Console(text@)),
{
    emit(out, Output::Console(String::from_str(text)));
}

impl GameState {
    /// Carries out the operator's command `action`.
    pub fn handle_command(&mut self, action: Action) -> (out: Vec<Output>)
        requires
            old(self)@.wf(),
        ensures
            final(self)@.wf(),
            exists|ks: Seq<u16>|
                #![trigger command_spec(old(self)@, action@, ks)]
                key_order(ks, old(self)@.rooms.dom()) && final(self)@ == command_spec(
                    old(self)@,
                    action@,
                    ks,
                ).0 && outputs_view(out@) == command_spec(old(self)@, action@, ks).1,
    {
        let ghost s = self@;
        let ghost c = action@;
        let mut out: Vec<Output> = Vec::new();
        assert(outputs_view(out@) =~= Seq::<OutputV>::empty());
        proof {
            assert(s.rooms.dom() =~= self.rooms@.dom());
            lemma_key_order_exists(s.rooms.dom());
        }
        let ghost ks = choose|ks: Seq<u16>| key_order(ks, s.rooms.dom());
        if is_kind(&action.kind, "help") {
            emit(&mut out, Output::Console(self.config.help_cmd.clone()));
        } else if is_kind(&action.kind, "broadcast") {
            if action.argv.len() < 2 {
                console(&mut out, "Broadcast command requires at least 2 arguments");
            } else {
                let message = join_words_from(&action.argv, 1);
                self.broadcast(message.as_str(), &mut out);
            }
        } else if is_kind(&action.kind, "message") {
            if action.argv.len() < 3 {
                console(&mut out, "Message command requires at least 3 arguments");
            } else {
                let name = &action.argv[1];
                let content = join_words_from(&action.argv, 2);
                let recipient = match player_by_name(&self.players, name) {
                    Some(i) => self.players[i].author,
                    None => None,
                };
                match recipient {
                    Some(r) => {
                        emit(
                            &mut out,
                            Output::Send(
                                Protocol::Message(
                                    r,
                                    Message::server(name.as_str(), content.as_str()),
                                ),
                            ),
                        );
                    },
                    None => {
                        let mut text = String::from_str("Player not found: ");
                        text.append(name.as_str());
                        emit(&mut out, Output::Console(text));
                    },
                }
            }
        } else if is_kind(&action.kind, "nuke") {
            self.nuke(&mut out);
        } else if is_kind(&action.kind, "revive") {
            self.revive(&mut out);
            let ghost rk = choose|rk: Seq<u16>|
                key_order(rk, s.rooms.dom()) && self@ == revive_spec(s, rk).0 && outputs_view(
                    out@,
                ) == Seq::<OutputV>::empty() + revive_spec(s, rk).1;
            assert(outputs_view(out@) =~= revive_spec(s, rk).1);
            assert(self@ == command_spec(s, c, rk).0);
            return out;
        } else {
            console(&mut out, "Unsupported command!");
        }
        assert(self@ == command_spec(s, c, ks).0);
        assert(outputs_view(out@) == command_spec(s, c, ks).1);
        out
    }
}

} // verus!
