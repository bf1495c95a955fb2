use vstd::prelude::*;
use vstd::std_specs::hash::group_hash_axioms;
use indexmap::IndexSet;
use std::collections::HashMap;

use crate::protocol::codec::{len16, text_len16};
use crate::protocol::flags::CharacterFlags;
use crate::protocol::packet::pkt_character::{Character as PktCharacter, CharacterV};
use crate::protocol::packet::pkt_connection::{
    Connection as PktConnection,
    ConnectionV as PktConnectionV,
};
use crate::protocol::packet::pkt_room::{Room as PktRoom, RoomV as PktRoomV};
use crate::protocol::pkt_type::PktType;
use crate::logic::{Output, outputs_view};
use crate::logic::state::{
    alert_one, alert_outputs, broadcast_outputs, emit, first_author, first_named,
    is_first_author, is_first_named, lemma_first_author_is, lemma_first_author_none,
    lemma_first_named_is, lemma_first_named_none, message_one, message_outputs,
    players_view, };
use crate::protocol::ClientId;
use crate::protocol::packet::Protocol;
use crate::protocol::packet::pkt_message::Message;

verus! {

broadcast use group_hash_axioms;

/// `indexmap::IndexSet`, the set of names a room holds in the order they
/// came in. Opaque: what it holds is `name_set_items`.
#[verifier::external_type_specification]
#[verifier::external_body]
#[verifier::reject_recursive_types(T)]
#[verifier::reject_recursive_types(S)]
pub struct ExIndexSet<T, S>(IndexSet<T, S>);

/// The names an `IndexSet<String>` holds, in their insertion order.
pub uninterp spec fn name_set_items(s: IndexSet<String>) -> Seq<Seq<char>>;

/// Whether a name is other than `n`.
pub open spec fn other_than(n: Seq<char>) -> spec_fn(Seq<char>) -> bool {
    |x: Seq<char>| x != n
}

/// `names` without the name `n`.
pub open spec fn without(names: Seq<Seq<char>>, n: Seq<char>) -> Seq<Seq<char>> {
    names.filter(other_than(n))
}

/// `names` with `n` added at the end, unless it is there already.
pub open spec fn with_name(names: Seq<Seq<char>>, n: Seq<char>) -> Seq<Seq<char>> {
    if names.contains(n) {
        names
    } else {
        names.push(n)
    }
}

/// How many names the set holds. Calls `IndexSet::len`.
#[verifier::external_body]
pub(crate) fn name_set_len(s: &IndexSet<String>) -> (n: usize)
    ensures
        n == name_set_items(*s).len(),
{
    s.len()
}

/// The name at position `i`. Calls `IndexSet::get_index`, which documents
/// that the names are indexed `0..len()` in order.
#[verifier::external_body]
pub(crate) fn name_set_get(s: &IndexSet<String>, i: usize) -> (r: Option<&String>)
    ensures
        match r {
            Some(x) => i < name_set_items(*s).len() && x@ == name_set_items(*s)[i as int],
            None => i >= name_set_items(*s).len(),
        },
{
    s.get_index(i)
}

/// Adds a name at the end unless an equal one is there. Calls
/// `IndexSet::insert`, whose documentation says so and that it returns
/// whether the name was added.
#[verifier::external_body]
pub(crate) fn name_set_insert(s: &mut IndexSet<String>, v: String) -> (added: bool)
    ensures
        added == !name_set_items(*old(s)).contains(v@),
        name_set_items(*final(s)) == with_name(name_set_items(*old(s)), v@),
{
    s.insert(v)
}

/// Removes a name, keeping the order of the others. Calls
/// `IndexSet::shift_remove`, which returns whether it was there.
#[verifier::external_body]
pub(crate) fn name_set_remove(s: &mut IndexSet<String>, v: &str) -> (removed: bool)
    ensures
        removed == name_set_items(*old(s)).contains(v@),
        name_set_items(*final(s)) == without(name_set_items(*old(s)), v@),
{
    s.shift_remove(v)
}

/// An exit from one room to another.
pub struct Connection {
    pub room_number: u16,
    pub title: String,
    pub desc_short: String,
}

/// The value of a `Connection`.
pub struct ConnectionV {
    pub room_number: u16,
    pub title: Seq<char>,
    pub desc_short: Seq<char>,
}

impl View for Connection {
    type V = ConnectionV;

    open spec fn view(&self) -> ConnectionV {
        ConnectionV {
            room_number: self.room_number,
            title: self.title@,
            desc_short: self.desc_short@,
        }
    }
}

impl ConnectionV {
    /// The `Connection` packet that tells a client about this exit.
    pub open spec fn packet(self) -> PktConnectionV {
        PktConnectionV {
            message_type: PktType::Connection,
            room_number: self.room_number,
            room_name: self.title,
            description_len: len16(self.desc_short),
            description: self.desc_short,
        }
    }
}

impl Connection {
    /// The `Connection` packet that tells a client about this exit.
    pub fn to_packet(&self) -> (p: PktConnection)
        ensures
            p@ == self@.packet(),
    {
        PktConnection {
            message_type: PktType::Connection,
            room_number: self.room_number,
            room_name: self.title.clone(),
            description_len: text_len16(self.desc_short.as_str()),
            description: self.desc_short.clone(),
        }
    }
}

/// A monster of the dungeon.
pub struct Monster {
    pub name: String,
    pub current_room: u16,
    pub max_health: i16,
    pub health: i16,
    pub attack: u16,
    pub defense: u16,
    pub gold: u16,
    pub desc: String,
}

/// The value of a `Monster`.
pub struct MonsterV {
    pub name: Seq<char>,
    pub current_room: u16,
    pub max_health: i16,
    pub health: i16,
    pub attack: u16,
    pub defense: u16,
    pub gold: u16,
    pub desc: Seq<char>,
}

impl View for Monster {
    type V = MonsterV;

    open spec fn view(&self) -> MonsterV {
        MonsterV {
            name: self.name@,
            current_room: self.current_room,
            max_health: self.max_health,
            health: self.health,
            attack: self.attack,
            defense: self.defense,
            gold: self.gold,
            desc: self.desc@,
        }
    }
}

/// The flags of a monster: a monster that joins battles, dead or alive.
pub open spec fn monster_flags(health: i16) -> u8 {
    if health <= 0 {
        0x68
    } else {
        0xe8
    }
}

impl MonsterV {
    /// The `Character` packet that shows this monster.
    pub open spec fn packet(self) -> CharacterV {
        CharacterV {
            author: None,
            message_type: PktType::Character,
            name: self.name,
            flags: monster_flags(self.health),
            attack: self.attack,
            defense: self.defense,
            regen: 0,
            health: self.health,
            gold: self.gold,
            current_room: self.current_room,
            description_len: len16(self.desc),
            description: self.desc,
        }
    }
}

impl Monster {
    /// A copy of this monster.
    pub fn copy(&self) -> (m: Monster)
        ensures
            m@ == self@,
    {
        Monster {
            name: self.name.clone(),
            current_room: self.current_room,
            max_health: self.max_health,
            health: self.health,
            attack: self.attack,
            defense: self.defense,
            gold: self.gold,
            desc: self.desc.clone(),
        }
    }

    /// The `Character` packet that shows this monster: it is a monster that
    /// joins battles, alive while its health is above zero, and does not
    /// regenerate.
    pub fn to_packet(&self) -> (p: PktCharacter)
        ensures
            p@ == self@.packet(),
    {
        let mut flags = CharacterFlags::monster_flag().union(CharacterFlags::battle_flag());
        if self.health <= 0 {
            flags.insert(CharacterFlags::dead());
        } else {
            flags.insert(CharacterFlags::alive());
        }
        proof {
            assert(0x20u8 | 0x40u8 == 0x60u8) by (bit_vector);
            assert(0x60u8 | 0x48u8 == 0x68u8) by (bit_vector);
            assert(0x60u8 | 0xc8u8 == 0xe8u8) by (bit_vector);
        }
        PktCharacter {
            author: None,
            message_type: PktType::Character,
            name: self.name.clone(),
            flags,
            attack: self.attack,
            defense: self.defense,
            regen: 0,
            health: self.health,
            gold: self.gold,
            current_room: self.current_room,
            description_len: text_len16(self.desc.as_str()),
            description: self.desc.clone(),
        }
    }
}

/// A room of the dungeon: its exits keyed by the room they lead to, the
/// names of the players in it, and its monsters.
pub struct Room {
    pub room_number: u16,
    pub title: String,
    pub connections: HashMap<u16, Connection>,
    pub desc: String,
    pub players: IndexSet<String>,
    pub monsters: Option<Vec<Monster>>,
}

/// The value of a `Room`.
pub struct RoomV {
    pub room_number: u16,
    pub title: Seq<char>,
    pub connections: Map<u16, ConnectionV>,
    pub desc: Seq<char>,
    pub players: Seq<Seq<char>>,
    pub monsters: Option<Seq<MonsterV>>,
}

/// The values of a sequence of monsters.
pub open spec fn monsters_view(ms: Seq<Monster>) -> Seq<MonsterV> {
    ms.map_values(|m: Monster| m@)
}

impl View for Room {
    type V = RoomV;

    open spec fn view(&self) -> RoomV {
        RoomV {
            room_number: self.room_number,
            title: self.title@,
            connections: self.connections@.map_values(|c: Connection| c@),
            desc: self.desc@,
            players: name_set_items(self.players),
            monsters: match self.monsters {
                Some(ms) => Some(monsters_view(ms@)),
                None => None,
            },
        }
    }
}

impl RoomV {
    /// The `Room` packet that tells a client about this room.
    pub open spec fn packet(self) -> PktRoomV {
        PktRoomV {
            message_type: PktType::Room,
            room_number: self.room_number,
            room_name: self.title,
            description_len: len16(self.desc),
            description: self.desc,
        }
    }
}

impl Room {
    /// The `Room` packet that tells a client about this room.
    pub fn to_packet(&self) -> (p: PktRoom)
        ensures
            p@ == self@.packet(),
    {
        PktRoom::new(self.room_number, self.title.clone(), self.desc.clone())
    }

    /// The names of the players in the room, in order.
    pub fn player_names(&self) -> (names: Vec<String>)
        ensures
            names@.map_values(|s: String| s@) == self@.players,
    {
        let n = name_set_len(&self.players);
        let mut names: Vec<String> = Vec::new();
        let mut i: usize = 0;
        while i < n
            invariant
                i <= n,
                n == self@.players.len(),
                names@.map_values(|s: String| s@) == self@.players.take(i as int),
            decreases n - i,
        {
            let ghost prev = names@;
            match name_set_get(&self.players, i) {
                Some(name) => {
                    names.push(name.clone());
                    assert(names@.map_values(|s: String| s@) =~= prev.map_values(|s: String| s@).push(
                        self@.players[i as int],
                    ));
                },
                None => {},
            }
            assert(self@.players.take(i + 1) =~= self@.players.take(i as int).push(
                self@.players[i as int],
            ));
            i = i + 1;
        }
        assert(self@.players.take(n as int) =~= self@.players);
        names
    }
}

/// The map of rooms built from a list: each room under its number, a later
/// room replacing an earlier one with the same number.
pub open spec fn rooms_map(rooms: Seq<RoomV>) -> Map<u16, RoomV>
    decreases rooms.len(),
{
    if rooms.len() == 0 {
        Map::empty()
    } else {
        rooms_map(rooms.drop_last()).insert(rooms.last().room_number, rooms.last())
    }
}

/// The values of a map of rooms.
pub open spec fn rooms_view(m: Map<u16, Room>) -> Map<u16, RoomV> {
    m.map_values(|r: Room| r@)
}

/// Builds the game map from the list of its rooms.
pub fn build(data: Vec<Room>) -> (rooms: HashMap<u16, Room>)
    ensures
        rooms_view(rooms@) == rooms_map(data@.map_values(|r: Room| r@)),
{
    let ghost all = data@.map_values(|r: Room| r@);
    let mut rooms: HashMap<u16, Room> = HashMap::new();
    for room in it: data
        invariant
            it.seq() == data@,
            all == data@.map_values(|r: Room| r@),
            rooms_view(rooms@) == rooms_map(all.take(it.index() as int)),
    {
        let ghost i = it.index();
        let ghost v = room@;
        assert(all.take(i + 1).drop_last() =~= all.take(i));
        assert(all.take(i + 1).last() == v);
        rooms.insert(room.room_number, room);
        assert(rooms_view(rooms@) =~= rooms_map(all.take(i + 1)));
    }
    assert(all.take(all.len() as int) =~= all);
    rooms
}



/// The values of a list of names.
pub open spec fn names_view(names: Seq<String>) -> Seq<Seq<char>> {
    names.map_values(|s: String| s@)
}

/// The first player played by `client`, found by position.
pub fn player_from_stream(players: &Vec<PktCharacter>, client: ClientId) -> (r: Option<usize>)
    ensures
        match r {
            Some(i) => first_author(players_view(players@), client) == Some(i as int),
            None => first_author(players_view(players@), client) is None,
        },
{
    let ghost ps = players_view(players@);
    let mut i: usize = 0;
    while i < players.len()
        invariant
            i <= players@.len(),
            ps == players_view(players@),
            forall|j: int| 0 <= j < i ==> ps[j].author != Some(client),
        decreases players@.len() - i,
    {
        if players[i].author == Some(client) {
            proof {
                assert(is_first_author(ps, client, i as int));
                lemma_first_author_is(ps, client, i as int);
            }
            return Some(i);
        }
        i = i + 1;
    }
    proof {
        lemma_first_author_none(ps, client);
    }
    None
}

/// The first player named `name`, found by position.
pub fn player_by_name(players: &Vec<PktCharacter>, name: &String) -> (r: Option<usize>)
    ensures
        match r {
            Some(i) => first_named(players_view(players@), name@) == Some(i as int),
            None => first_named(players_view(players@), name@) is None,
        },
{
    let ghost ps = players_view(players@);
    let mut i: usize = 0;
    while i < players.len()
        invariant
            i <= players@.len(),
            ps == players_view(players@),
            forall|j: int| 0 <= j < i ==> ps[j].name != name@,
        decreases players@.len() - i,
    {
        if players[i].name == *name {
            proof {
                assert(is_first_named(ps, name@, i as int));
                lemma_first_named_is(ps, name@, i as int);
            }
            return Some(i);
        }
        i = i + 1;
    }
    proof {
        lemma_first_named_none(ps, name@);
    }
    None
}

/// Sends `alert` to each connected player named in `names`.
pub fn alert_names(
    players: &Vec<PktCharacter>,
    names: &Vec<String>,
    alert: &PktCharacter,
    out: &mut Vec<Output>,
)
    ensures
        outputs_view(final(out)@) == outputs_view(old(out)@) + alert_outputs(
            players_view(players@),
            names_view(names@),
            alert@,
        ),
{
    let ghost ps = players_view(players@);
    let ghost ns = names_view(names@);
    let ghost start = outputs_view(out@);
    let mut k: usize = 0;
    while k < names.len()
        invariant
            k <= names@.len(),
            ps == players_view(players@),
            ns == names_view(names@),
            outputs_view(out@) == start + alert_outputs(ps, ns.take(k as int), alert@),
        decreases names@.len() - k,
    {
        let ghost before = outputs_view(out@);
        assert(ns.take(k + 1).drop_last() =~= ns.take(k as int));
        assert(ns.take(k + 1).last() == names@[k as int]@);
        match player_by_name(players, &names[k]) {
            Some(i) => {
                match players[i].author {
                    Some(c) => {
                        emit(out, Output::Send(Protocol::Character(c, alert.copy())));
                    },
                    None => {},
                }
            },
            None => {},
        }
        assert(outputs_view(out@) =~= before + alert_one(ps, names@[k as int]@, alert@));
        k = k + 1;
    }
    assert(ns.take(names@.len() as int) =~= ns);
}

/// Sends `alert` to each connected player in `room`.
pub fn alert_room(players: &Vec<PktCharacter>, room: &Room, alert: &PktCharacter, out: &mut Vec<Output>)
    ensures
        outputs_view(final(out)@) == outputs_view(old(out)@) + alert_outputs(
            players_view(players@),
            room@.players,
            alert@,
        ),
{
    let names = room.player_names();
    alert_names(players, &names, alert, out);
}

/// Sends `text` to each connected player named in `names`, as narration or
/// as a notice from the server.
pub fn message_names(
    players: &Vec<PktCharacter>,
    names: &Vec<String>,
    text: &str,
    narration: bool,
    out: &mut Vec<Output>,
)
    ensures
        outputs_view(final(out)@) == outputs_view(old(out)@) + message_outputs(
            players_view(players@),
            names_view(names@),
            text@,
            narration,
        ),
{
    let ghost ps = players_view(players@);
    let ghost ns = names_view(names@);
    let ghost start = outputs_view(out@);
    let mut k: usize = 0;
    while k < names.len()
        invariant
            k <= names@.len(),
            ps == players_view(players@),
            ns == names_view(names@),
            outputs_view(out@) == start + message_outputs(ps, ns.take(k as int), text@, narration),
        decreases names@.len() - k,
    {
        let ghost before = outputs_view(out@);
        assert(ns.take(k + 1).drop_last() =~= ns.take(k as int));
        assert(ns.take(k + 1).last() == names@[k as int]@);
        match player_by_name(players, &names[k]) {
            Some(i) => {
                match players[i].author {
                    Some(c) => {
                        let m = if narration {
                            Message::narrator(players[i].name.as_str(), text)
                        } else {
                            Message::server(players[i].name.as_str(), text)
                        };
                        emit(out, Output::Send(Protocol::Message(c, m)));
                    },
                    None => {},
                }
            },
            None => {},
        }
        assert(outputs_view(out@) =~= before + message_one(
            ps,
            names@[k as int]@,
            text@,
            narration,
        ));
        k = k + 1;
    }
    assert(ns.take(names@.len() as int) =~= ns);
}

/// Sends `text` to each connected player in `room`.
pub fn message_room(
    players: &Vec<PktCharacter>,
    room: &Room,
    text: &str,
    narration: bool,
    out: &mut Vec<Output>,
)
    ensures
        outputs_view(final(out)@) == outputs_view(old(out)@) + message_outputs(
            players_view(players@),
            room@.players,
            text@,
            narration,
        ),
{
    let names = room.player_names();
    message_names(players, &names, text, narration, out);
}

/// Sends each connected player a notice from the server.
pub fn broadcast(players: &Vec<PktCharacter>, text: &str, out: &mut Vec<Output>)
    ensures
        outputs_view(final(out)@) == outputs_view(old(out)@) + broadcast_outputs(
            players_view(players@),
            text@,
        ),
{
    let ghost ps = players_view(players@);
    let ghost start = outputs_view(out@);
    let mut k: usize = 0;
    while k < players.len()
        invariant
            k <= players@.len(),
            ps == players_view(players@),
            outputs_view(out@) == start + broadcast_outputs(ps.take(k as int), text@),
        decreases players@.len() - k,
    {
        let ghost before = outputs_view(out@);
        assert(ps.take(k + 1).drop_last() =~= ps.take(k as int));
        assert(ps.take(k + 1).last() == ps[k as int]);
        match players[k].author {
            Some(c) => {
                emit(
                    out,
                    Output::Send(Protocol::Message(c, Message::server(players[k].name.as_str(), text))),
                );
            },
            None => {},
        }
        k = k + 1;
    }
    assert(ps.take(players@.len() as int) =~= ps);
}

/// `names` without the name `n`, in order.
pub fn names_without(names: &Vec<String>, n: &String) -> (r: Vec<String>)
    ensures
        names_view(r@) == without(names_view(names@), n@),
{
    let ghost ns = names_view(names@);
    let mut r: Vec<String> = Vec::new();
    let mut k: usize = 0;
    while k < names.len()
        invariant
            k <= names@.len(),
            ns == names_view(names@),
            names_view(r@) == without(ns.take(k as int), n@),
        decreases names@.len() - k,
    {
        let ghost prev = r@;
        assert(ns.take(k + 1) =~= ns.take(k as int).push(ns[k as int]));
        proof {
            ns.take(k as int).lemma_filter_push(ns[k as int], other_than(n@));
        }
        if names[k] != *n {
            r.push(names[k].clone());
            assert(names_view(r@) =~= names_view(prev).push(ns[k as int]));
        }
        k = k + 1;
    }
    assert(ns.take(names@.len() as int) =~= ns);
    r
}

/// `names` with `n` added at the end unless it is there.
pub fn names_with(names: &mut Vec<String>, n: String)
    ensures
        names_view(final(names)@) == with_name(names_view(old(names)@), n@),
{
    let ghost ns = names_view(names@);
    let mut k: usize = 0;
    while k < names.len()
        invariant
            k <= names@.len(),
            ns == names_view(names@),
            forall|j: int| 0 <= j < k ==> ns[j] != n@,
        decreases names@.len() - k,
    {
        if names[k] == n {
            assert(ns.contains(n@)) by {
                assert(ns[k as int] == n@);
            }
            return;
        }
        k = k + 1;
    }
    assert(!ns.contains(n@));
    names.push(n);
    assert(names_view(names@) =~= ns.push(n@));
}

} // verus!
