use vstd::prelude::*;

use crate::logic::handlers::change_room::{change_room_shows_exits, change_room_spec};
use crate::logic::handlers::command::{
    any_revivable, disconnected_names, is_connected, is_disconnected, needs_revive, nuke_spec, revive_spec, revived_room,
    room_has_revivable,
};
use crate::logic::{ExtendedProtocolV, OutputV};
use crate::logic::handlers::character::character_spec;
use crate::logic::map::{other_than, with_name, without};
use crate::logic::server::event_outcome;
use crate::logic::state::{GameStateV, error_out, first_author};
use crate::protocol::error::ErrorCode;
use crate::protocol::packet::ProtocolV;
use crate::protocol::packet::pkt_character::CharacterV;
use crate::protocol::packet::pkt_leave::Leave;
use crate::protocol::ClientId;
use crate::protocol::packet::pkt_change_room::ChangeRoom;

verus! {

/// A move that goes through leaves the player in the room it asked for,
/// listed among that room's players and no longer among those of the room
/// it left.
pub proof fn lemma_change_room_moves_player(
    s: GameStateV,
    author: ClientId,
    content: ChangeRoom,
    ks: Seq<u16>,
)
    requires
        s.wf(),
        change_room_shows_exits(s, author, content),
    ensures
        ({
            let i = first_author(s.players, author).unwrap();
            let p = s.players[i];
            let s2 = change_room_spec(s, author, content, ks).0;
            &&& s2.players[i].current_room == content.room_number
            &&& s2.rooms[content.room_number].players.contains(p.name)
            &&& !s2.rooms[p.current_room].players.contains(p.name)
        }),
{
    let i = first_author(s.players, author).unwrap();
    let p = s.players[i];
    let cur = p.current_room;
    let nxt = content.room_number;
    let old_names = s.rooms[cur].players;
    let kept = without(old_names, p.name);
    if kept.contains(p.name) {
        old_names.lemma_filter_contains_rev(other_than(p.name), p.name);
        let j = choose|j: int| 0 <= j < kept.len() && kept[j] == p.name;
        old_names.lemma_filter_pred(other_than(p.name), j);
    }
    let joined = with_name(s.rooms[nxt].players, p.name);
    if !s.rooms[nxt].players.contains(p.name) {
        assert(joined[joined.len() - 1] == p.name);
    }
}

/// After the disconnected players are removed, every player left is played
/// from a connection, and every player that was played from one is still
/// there.
pub proof fn lemma_nuke_keeps_connected(s: GameStateV)
    requires
        s.wf(),
    ensures
        forall|j: int|
            0 <= j < nuke_spec(s).0.players.len() ==> (#[trigger] nuke_spec(s).0.players[j]).author
                is Some,
        forall|j: int|
            0 <= j < s.players.len() && (#[trigger] s.players[j]).author is Some ==> nuke_spec(
                s,
            ).0.players.contains(s.players[j]),
{
    let s2 = nuke_spec(s).0;
    let kept = s.players.filter(is_connected());
    assert forall|j: int| 0 <= j < kept.len() implies (#[trigger] kept[j]).author is Some by {
        s.players.lemma_filter_pred(is_connected(), j);
    }
    if disconnected_names(s.players).len() == 0 {
        assert forall|j: int| 0 <= j < s.players.len() implies (#[trigger] s.players[j]).author
            is Some by {
            if s.players[j].author is None {
                s.players.lemma_filter_contains(is_disconnected(), j);
            }
        }
        assert forall|j: int|
            0 <= j < s.players.len() && (#[trigger] s.players[j]).author is Some implies s.players.contains(
            s.players[j],
        ) by {}
    }
    assert forall|j: int|
        0 <= j < s.players.len() && (#[trigger] s.players[j]).author is Some implies kept.contains(
        s.players[j],
    ) by {
        s.players.lemma_filter_contains(is_connected(), j);
    }
}

/// After the dead monsters are revived, no room has a monster left to
/// revive, so asking again changes nothing and only tells the operator so.
pub proof fn lemma_revive_leaves_none(s: GameStateV, ks: Seq<u16>, ks2: Seq<u16>)
    requires
        s.wf(),
    ensures
        !any_revivable(revive_spec(s, ks).0.rooms),
        revive_spec(revive_spec(s, ks).0, ks2).0 == revive_spec(s, ks).0,
        revive_spec(revive_spec(s, ks).0, ks2).1 == seq![OutputV::Console("No monsters to revive"@)],
{
    let s2 = revive_spec(s, ks).0;
    if any_revivable(s.rooms) {
        assert forall|k: u16| s2.rooms.contains_key(k) implies !#[trigger] room_has_revivable(
            s2.rooms[k],
        ) by {
            let r = s.rooms[k];
            assert(s2.rooms[k] == revived_room(r));
            match r.monsters {
                Some(ms) => {
                    let ms2 = ms.map_values(crate::logic::handlers::command::revived());
                    assert forall|j: int| 0 <= j < ms2.len() implies !#[trigger] needs_revive()(
                        ms2[j],
                    ) by {}
                },
                None => {},
            }
        }
    }
}

/// A client whose packet says it leaves is disconnected last, whatever
/// else leaving sends.
pub proof fn lemma_leave_disconnects(
    s: GameStateV,
    id: ClientId,
    sent_by: ClientId,
    l: Leave,
    s2: GameStateV,
    o: Seq<OutputV>,
)
    requires
        event_outcome(s, ExtendedProtocolV::Client(id, ProtocolV::Leave(sent_by, l)), s2, o),
    ensures
        o.len() > 0,
        o.last() == OutputV::Disconnect(id),
{
}

/// A character that is let in has stats within the game's budget.
pub proof fn lemma_joined_within_budget(s: GameStateV, author: ClientId, content: CharacterV)
    requires
        s.wf(),
        character_spec(s, author, content).1.len() > 0,
        character_spec(s, author, content).1[0] != error_out(
            author,
            ErrorCode::STATERROR,
            "Invalid stats"@,
        ),
    ensures
        content.attack + content.defense + content.regen <= s.config.initial_points,
{
}

} // verus!
