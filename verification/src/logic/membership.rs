use vstd::prelude::*;

use crate::logic::handlers::change_room::change_room_spec;
use crate::logic::handlers::character::{character_spec, players_with, position_of};
use crate::logic::handlers::leave::leave_spec;
use crate::logic::handlers::start::start_spec;
use crate::logic::map::{other_than, with_name, without};
use crate::logic::state::{
    GameStateV, first_author, first_named, is_first_author, is_first_named, lemma_some_first_named,
};
use crate::protocol::ClientId;
use crate::protocol::packet::pkt_change_room::ChangeRoom;
use crate::protocol::packet::pkt_character::CharacterV;

verus! {

/// Every name a room lists is the name of a player.
pub open spec fn names_known(s: GameStateV) -> bool {
    forall|k: u16, n: Seq<char>|
        s.rooms.contains_key(k) && #[trigger] s.rooms[k].players.contains(n) ==> exists|j: int|
            0 <= j < s.players.len() && s.players[j].name == n
}

/// No room but its own lists a player.
pub open spec fn listed_at_most_in_own_room(s: GameStateV) -> bool {
    forall|i: int, k: u16|
        0 <= i < s.players.len() && s.rooms.contains_key(k) && #[trigger] s.rooms[k].players.contains(
            s.players[i].name,
        ) ==> k == s.players[i].current_room
}

/// The room lists agree with the players: they name players only, and
/// each player at most in the room it stands in.
pub open spec fn rooms_agree(s: GameStateV) -> bool {
    names_known(s) && listed_at_most_in_own_room(s)
}

/// Every player stands in a room of the map and is listed in exactly that
/// room.
pub open spec fn listed_in_own_room(s: GameStateV) -> bool {
    &&& forall|i: int|
        0 <= i < s.players.len() ==> s.rooms.contains_key(#[trigger] s.players[i].current_room)
            && s.rooms[s.players[i].current_room].players.contains(s.players[i].name)
    &&& listed_at_most_in_own_room(s)
}

/// A game whose rooms list nobody has room lists that agree with its
/// players.
pub proof fn lemma_empty_lists_agree(s: GameStateV)
    requires
        forall|k: u16| #[trigger] s.rooms.contains_key(k) ==> s.rooms[k].players.len() == 0,
    ensures
        rooms_agree(s),
{
    assert forall|k: u16, n: Seq<char>|
        s.rooms.contains_key(k) && #[trigger] s.rooms[k].players.contains(n) implies exists|j: int|
        0 <= j < s.players.len() && s.players[j].name == n by {
        assert(s.rooms[k].players.len() == 0);
    }
    assert forall|i: int, k: u16|
        0 <= i < s.players.len() && s.rooms.contains_key(k) && #[trigger] s.rooms[k].players.contains(
            s.players[i].name,
        ) implies k == s.players[i].current_room by {
        assert(s.rooms[k].players.len() == 0);
    }
}

/// A list without `n` holds what the list held, but `n`.
pub proof fn lemma_without_contains(names: Seq<Seq<char>>, n: Seq<char>, x: Seq<char>)
    ensures
        without(names, n).contains(x) <==> (names.contains(x) && x != n),
{
    let w = without(names, n);
    if w.contains(x) {
        names.lemma_filter_contains_rev(other_than(n), x);
        let j = choose|j: int| 0 <= j < w.len() && w[j] == x;
        names.lemma_filter_pred(other_than(n), j);
    }
    if names.contains(x) && x != n {
        let j = choose|j: int| 0 <= j < names.len() && names[j] == x;
        names.lemma_filter_contains(other_than(n), j);
    }
}

/// A list with `n` holds what the list held, and `n`.
pub proof fn lemma_with_name_contains(names: Seq<Seq<char>>, n: Seq<char>, x: Seq<char>)
    ensures
        with_name(names, n).contains(x) <==> (names.contains(x) || x == n),
{
    if !names.contains(n) {
        let w = names.push(n);
        if w.contains(x) {
            let j = choose|j: int| 0 <= j < w.len() && w[j] == x;
            if j < names.len() {
                assert(names[j] == x);
            }
        }
        if names.contains(x) {
            let j = choose|j: int| 0 <= j < names.len() && names[j] == x;
            assert(w[j] == x);
        }
        if x == n {
            assert(w[names.len() as int] == n);
        }
    }
}

/// Moving between rooms keeps the room lists in agreement with the
/// players; and where every player was listed in exactly its own room, it
/// still is after a move to a room of the map.
pub proof fn lemma_change_room_keeps_lists(
    s: GameStateV,
    author: ClientId,
    content: ChangeRoom,
    ks: Seq<u16>,
)
    requires
        s.wf(),
    ensures
        rooms_agree(s) ==> rooms_agree(change_room_spec(s, author, content, ks).0),
        listed_in_own_room(s) && s.rooms.contains_key(content.room_number) ==> listed_in_own_room(
            change_room_spec(s, author, content, ks).0,
        ),
{
    let s2 = change_room_spec(s, author, content, ks).0;
    if s2 == s {
        return;
    }
    let i = first_author(s.players, author).unwrap();
    let p = s.players[i];
    let cur = p.current_room;
    let nxt = content.room_number;
    let witness = choose|j: int| is_first_author(s.players, author, j);
    assert(is_first_author(s.players, author, witness));
    assert(s2.players == s.players.update(i, CharacterV { current_room: nxt, ..p }));
    assert(cur != nxt);
    assert(s.rooms.contains_key(cur));
    assert(s2.rooms.dom() =~= s.rooms.dom());
    assert forall|k: u16, x: Seq<char>|
        #![trigger s2.rooms[k].players.contains(x)]
        s2.rooms.contains_key(k) && s2.rooms[k].players.contains(x) implies (if k == cur {
        s.rooms[cur].players.contains(x) && x != p.name
    } else if k == nxt {
        s.rooms[nxt].players.contains(x) || x == p.name
    } else {
        s.rooms[k].players.contains(x)
    }) by {
        lemma_without_contains(s.rooms[cur].players, p.name, x);
        lemma_with_name_contains(s.rooms[nxt].players, p.name, x);
    }
    if rooms_agree(s) {
        assert forall|k: u16, n: Seq<char>|
            s2.rooms.contains_key(k) && #[trigger] s2.rooms[k].players.contains(n) implies exists|j: int|
            0 <= j < s2.players.len() && s2.players[j].name == n by {
            if n == p.name {
                assert(s2.players[i].name == n);
            } else {
                assert(s.rooms[k].players.contains(n));
                let j = choose|j: int| 0 <= j < s.players.len() && s.players[j].name == n;
                assert(s2.players[j].name == n);
            }
        }
        assert forall|j: int, k: u16|
            0 <= j < s2.players.len() && s2.rooms.contains_key(k) && #[trigger] s2.rooms[k].players.contains(
                s2.players[j].name,
            ) implies k == s2.players[j].current_room by {
            if j == i {
                if k != cur && k != nxt {
                    assert(s.rooms[k].players.contains(p.name));
                }
            } else {
                assert(s2.players[j] == s.players[j]);
                assert(s.players[j].name != p.name) by {
                    if j < i {
                        assert(s.players[j].name != s.players[i].name);
                    } else {
                        assert(s.players[i].name != s.players[j].name);
                    }
                }
                assert(s.rooms[k].players.contains(s.players[j].name));
            }
        }
    }
    if listed_in_own_room(s) && s.rooms.contains_key(nxt) {
        assert forall|j: int| 0 <= j < s2.players.len() implies s2.rooms.contains_key(
            #[trigger] s2.players[j].current_room,
        ) && s2.rooms[s2.players[j].current_room].players.contains(s2.players[j].name) by {
            if j == i {
                lemma_with_name_contains(s.rooms[nxt].players, p.name, p.name);
            } else {
                let q = s.players[j];
                assert(s2.players[j] == q);
                assert(q.name != p.name) by {
                    if j < i {
                        assert(s.players[j].name != s.players[i].name);
                    } else {
                        assert(s.players[i].name != s.players[j].name);
                    }
                }
                assert(s.rooms.contains_key(q.current_room));
                assert(s.rooms[q.current_room].players.contains(q.name));
                lemma_without_contains(s.rooms[cur].players, p.name, q.name);
                lemma_with_name_contains(s.rooms[nxt].players, p.name, q.name);
            }
        }
        assert forall|j: int, k: u16|
            0 <= j < s2.players.len() && s2.rooms.contains_key(k) && #[trigger] s2.rooms[k].players.contains(
                s2.players[j].name,
            ) implies k == s2.players[j].current_room by {
            if j == i {
                if k != cur && k != nxt {
                    assert(s.rooms[k].players.contains(p.name));
                }
            } else {
                assert(s2.players[j] == s.players[j]);
                assert(s.players[j].name != p.name) by {
                    if j < i {
                        assert(s.players[j].name != s.players[i].name);
                    } else {
                        assert(s.players[i].name != s.players[j].name);
                    }
                }
                assert(s.rooms[k].players.contains(s.players[j].name));
            }
        }
    }
}

/// Leaving changes no room list and no player's name or room, so the room
/// lists stay as they were with respect to the players.
pub proof fn lemma_leave_keeps_lists(s: GameStateV, author: ClientId)
    requires
        s.wf(),
    ensures
        rooms_agree(s) ==> rooms_agree(leave_spec(s, author).0),
        listed_in_own_room(s) ==> listed_in_own_room(leave_spec(s, author).0),
{
    let s2 = leave_spec(s, author).0;
    assert(s2.rooms == s.rooms);
    assert(s2.players.len() == s.players.len());
    assert forall|j: int| 0 <= j < s.players.len() implies #[trigger] s2.players[j].name
        == s.players[j].name && s2.players[j].current_room == s.players[j].current_room by {}
    if rooms_agree(s) {
        assert forall|k: u16, n: Seq<char>|
            s2.rooms.contains_key(k) && #[trigger] s2.rooms[k].players.contains(n) implies exists|j: int|
            0 <= j < s2.players.len() && s2.players[j].name == n by {
            let j = choose|j: int| 0 <= j < s.players.len() && s.players[j].name == n;
            assert(s2.players[j].name == n);
        }
        assert forall|j: int, k: u16|
            0 <= j < s2.players.len() && s2.rooms.contains_key(k) && #[trigger] s2.rooms[k].players.contains(
                s2.players[j].name,
            ) implies k == s2.players[j].current_room by {
            assert(s.rooms[k].players.contains(s.players[j].name));
        }
    }
    if listed_in_own_room(s) {
        assert forall|j: int| 0 <= j < s2.players.len() implies s2.rooms.contains_key(
            #[trigger] s2.players[j].current_room,
        ) && s2.rooms[s2.players[j].current_room].players.contains(s2.players[j].name) by {
            assert(s.rooms.contains_key(s.players[j].current_room));
        }
        assert forall|j: int, k: u16|
            0 <= j < s2.players.len() && s2.rooms.contains_key(k) && #[trigger] s2.rooms[k].players.contains(
                s2.players[j].name,
            ) implies k == s2.players[j].current_room by {
            assert(s.rooms[k].players.contains(s.players[j].name));
        }
    }
}

/// A character arriving keeps the room lists in agreement with the
/// players: a new player is listed nowhere, and a player that rejoins
/// leaves the list of the room it was left in.
pub proof fn lemma_character_keeps_lists(s: GameStateV, author: ClientId, content: CharacterV)
    requires
        s.wf(),
        rooms_agree(s),
    ensures
        rooms_agree(character_spec(s, author, content).0),
{
    let s2 = character_spec(s, author, content).0;
    if s2 == s {
        return;
    }
    let ps1 = players_with(s.players, content);
    let i = position_of(s.players, content);
    let is_new = first_named(s.players, content.name) is None;
    if !is_new {
        let w = choose|j: int| is_first_named(s.players, content.name, j);
        assert(is_first_named(s.players, content.name, w));
    }
    assert(0 <= i < ps1.len());
    assert forall|j: int| 0 <= j < s.players.len() implies #[trigger] ps1[j] == s.players[j] by {}
    let p = ps1[i];
    let old_room = p.current_room;
    assert(s2.players.len() == ps1.len());
    assert forall|j: int| 0 <= j < ps1.len() && j != i implies #[trigger] s2.players[j] == ps1[j] by {}
    assert(s2.players[i].name == p.name);
    assert(s2.players[i].current_room == 0 || s2.players == ps1);
    let changed = s2.players != ps1 && old_room != 0 && s.rooms.contains_key(old_room);
    assert(s2.rooms.dom() =~= s.rooms.dom());
    assert forall|k: u16, x: Seq<char>|
        #![trigger s2.rooms[k].players.contains(x)]
        s2.rooms.contains_key(k) && s2.rooms[k].players.contains(x) implies s.rooms[k].players.contains(
        x,
    ) && (changed && k == old_room ==> x != p.name) by {
        if changed && k == old_room {
            lemma_without_contains(s.rooms[old_room].players, p.name, x);
        }
    }
    assert forall|k: u16, n: Seq<char>|
        s2.rooms.contains_key(k) && #[trigger] s2.rooms[k].players.contains(n) implies exists|j: int|
        0 <= j < s2.players.len() && s2.players[j].name == n by {
        assert(s.rooms[k].players.contains(n));
        let j = choose|j: int| 0 <= j < s.players.len() && s.players[j].name == n;
        if j == i {
            assert(s2.players[i].name == n);
        } else {
            assert(s2.players[j].name == n);
        }
    }
    assert forall|j: int, k: u16|
        0 <= j < s2.players.len() && s2.rooms.contains_key(k) && #[trigger] s2.rooms[k].players.contains(
            s2.players[j].name,
        ) implies k == s2.players[j].current_room by {
        let n = s2.players[j].name;
        assert(s.rooms[k].players.contains(n));
        if j == i {
            if is_new {
                let m = choose|m: int| 0 <= m < s.players.len() && s.players[m].name == n;
                lemma_some_first_named(s.players, n, m);
            } else {
                assert(k == old_room);
            }
        } else {
            assert(s2.players[j] == s.players[j]);
        }
    }
}

/// Starting keeps the room lists in agreement with the players, for a
/// player that stands in the first room, which it is listed in.
pub proof fn lemma_start_keeps_lists(s: GameStateV, author: ClientId, ks: Seq<u16>)
    requires
        s.wf(),
        rooms_agree(s),
        first_author(s.players, author) matches Some(i) ==> s.players[i].current_room == 0,
    ensures
        rooms_agree(start_spec(s, author, ks).0),
{
    let s2 = start_spec(s, author, ks).0;
    if s2 == s {
        return;
    }
    let i = first_author(s.players, author).unwrap();
    let witness = choose|j: int| is_first_author(s.players, author, j);
    assert(is_first_author(s.players, author, witness));
    let p = s.players[i];
    assert(s2.players.len() == s.players.len());
    assert forall|j: int| 0 <= j < s.players.len() implies #[trigger] s2.players[j].name
        == s.players[j].name && s2.players[j].current_room == s.players[j].current_room by {}
    assert(s2.rooms.dom() =~= s.rooms.dom());
    assert forall|k: u16, x: Seq<char>|
        #![trigger s2.rooms[k].players.contains(x)]
        s2.rooms.contains_key(k) && s2.rooms[k].players.contains(x) implies s.rooms[k].players.contains(
        x,
    ) || (k == 0 && x == p.name) by {
        if k == 0 {
            lemma_with_name_contains(s.rooms[0].players, p.name, x);
        }
    }
    assert forall|k: u16, n: Seq<char>|
        s2.rooms.contains_key(k) && #[trigger] s2.rooms[k].players.contains(n) implies exists|j: int|
        0 <= j < s2.players.len() && s2.players[j].name == n by {
        if k == 0 && n == p.name {
            assert(s2.players[i].name == n);
        } else {
            assert(s.rooms[k].players.contains(n));
            let j = choose|j: int| 0 <= j < s.players.len() && s.players[j].name == n;
            assert(s2.players[j].name == n);
        }
    }
    assert forall|j: int, k: u16|
        0 <= j < s2.players.len() && s2.rooms.contains_key(k) && #[trigger] s2.rooms[k].players.contains(
            s2.players[j].name,
        ) implies k == s2.players[j].current_room by {
        if !(k == 0 && s.players[j].name == p.name) {
            assert(s.rooms[k].players.contains(s.players[j].name));
        } else if j != i {
            if j < i {
                assert(s.players[j].name != s.players[i].name);
            } else {
                assert(s.players[i].name != s.players[j].name);
            }
        }
    }
}

} // verus!
