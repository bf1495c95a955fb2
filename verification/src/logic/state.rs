use vstd::prelude::*;
use vstd::std_specs::hash::group_hash_axioms;
use std::collections::HashMap;

use crate::logic::{Output, OutputV, outputs_view};
use crate::logic::config::{Config, ConfigV};
use crate::logic::map::{
    Connection, ConnectionV, MonsterV, Room, RoomV, alert_room, broadcast, message_room,
    monsters_view, names_view, player_by_name, player_from_stream, rooms_view,
};
use vstd::std_specs::iter::IteratorSpec;
use crate::protocol::ClientId;
use crate::protocol::error::ErrorCode;
use crate::protocol::flags::{READY, STARTED};
use crate::protocol::packet::{Protocol, ProtocolV};
use crate::protocol::packet::pkt_character::{Character, CharacterV};
use crate::protocol::packet::pkt_error::{Error, ErrorV};
use crate::protocol::packet::pkt_message::{Message, MessageV};

verus! {

broadcast use group_hash_axioms;

/// The whole state of the game: its players in the order they joined, its
/// rooms by number, and the server's settings.
pub struct GameState {
    pub players: Vec<Character>,
    pub rooms: HashMap<u16, Room>,
    pub config: Config,
}

/// The value of a `GameState`.
pub struct GameStateV {
    pub players: Seq<CharacterV>,
    pub rooms: Map<u16, RoomV>,
    pub config: ConfigV,
}

/// The values of a sequence of characters.
pub open spec fn players_view(ps: Seq<Character>) -> Seq<CharacterV> {
    ps.map_values(|p: Character| p@)
}

impl View for GameState {
    type V = GameStateV;

    open spec fn view(&self) -> GameStateV {
        GameStateV {
            players: players_view(self.players@),
            rooms: rooms_view(self.rooms@),
            config: self.config@,
        }
    }
}

/// Whether no two players share a name.
pub open spec fn unique_names(ps: Seq<CharacterV>) -> bool {
    forall|i: int, j: int| 0 <= i < j < ps.len() ==> ps[i].name != ps[j].name
}

impl GameStateV {
    /// The state is well formed: players are known by their names, so no
    /// two share one.
    pub open spec fn wf(self) -> bool {
        unique_names(self.players)
    }
}

/// `i` is the first player played by client `c`.
pub open spec fn is_first_author(ps: Seq<CharacterV>, c: ClientId, i: int) -> bool {
    &&& 0 <= i < ps.len()
    &&& ps[i].author == Some(c)
    &&& forall|j: int| 0 <= j < i ==> ps[j].author != Some(c)
}

/// The first player played by client `c`, if any.
pub open spec fn first_author(ps: Seq<CharacterV>, c: ClientId) -> Option<int> {
    if exists|i: int| is_first_author(ps, c, i) {
        Some(choose|i: int| is_first_author(ps, c, i))
    } else {
        None
    }
}

/// `i` is the first player named `n`.
pub open spec fn is_first_named(ps: Seq<CharacterV>, n: Seq<char>, i: int) -> bool {
    &&& 0 <= i < ps.len()
    &&& ps[i].name == n
    &&& forall|j: int| 0 <= j < i ==> ps[j].name != n
}

/// The first player named `n`, if any.
pub open spec fn first_named(ps: Seq<CharacterV>, n: Seq<char>) -> Option<int> {
    if exists|i: int| is_first_named(ps, n, i) {
        Some(choose|i: int| is_first_named(ps, n, i))
    } else {
        None
    }
}

/// Whether a character may act: it has started the game and is ready.
pub open spec fn started_and_ready(p: CharacterV) -> bool {
    p.flags & STARTED == STARTED && p.flags & READY == READY
}

/// Sending client `c` an error with code `code` and text `text`.
pub open spec fn error_out(c: ClientId, code: ErrorCode, text: Seq<char>) -> OutputV {
    OutputV::Send(ProtocolV::Error(c, ErrorV::of(code, text)))
}

/// Sending client `c` a character.
pub open spec fn character_out(c: ClientId, p: CharacterV) -> OutputV {
    OutputV::Send(ProtocolV::Character(c, p))
}

/// Sending client `c` a message.
pub open spec fn message_out(c: ClientId, m: MessageV) -> OutputV {
    OutputV::Send(ProtocolV::Message(c, m))
}

/// What alerting the player named `n` about `alert` sends: the character,
/// if such a player exists and is connected.
pub open spec fn alert_one(ps: Seq<CharacterV>, n: Seq<char>, alert: CharacterV) -> Seq<OutputV> {
    match first_named(ps, n) {
        Some(i) => match ps[i].author {
            Some(c) => seq![character_out(c, alert)],
            None => Seq::empty(),
        },
        None => Seq::empty(),
    }
}

/// What alerting the players named `names` about `alert` sends, in order.
pub open spec fn alert_outputs(
    ps: Seq<CharacterV>,
    names: Seq<Seq<char>>,
    alert: CharacterV,
) -> Seq<OutputV>
    decreases names.len(),
{
    if names.len() == 0 {
        Seq::empty()
    } else {
        alert_outputs(ps, names.drop_last(), alert) + alert_one(ps, names.last(), alert)
    }
}

/// The message a player gets as narration or as a notice from the server.
pub open spec fn room_message(recipient: Seq<char>, text: Seq<char>, narration: bool) -> MessageV {
    if narration {
        MessageV::narrator(recipient, text)
    } else {
        MessageV::server(recipient, text)
    }
}

/// What messaging the player named `n` sends: the message, addressed by
/// the player's name, if such a player exists and is connected.
pub open spec fn message_one(
    ps: Seq<CharacterV>,
    n: Seq<char>,
    text: Seq<char>,
    narration: bool,
) -> Seq<OutputV> {
    match first_named(ps, n) {
        Some(i) => match ps[i].author {
            Some(c) => seq![message_out(c, room_message(ps[i].name, text, narration))],
            None => Seq::empty(),
        },
        None => Seq::empty(),
    }
}

/// What messaging the players named `names` sends, in order.
pub open spec fn message_outputs(
    ps: Seq<CharacterV>,
    names: Seq<Seq<char>>,
    text: Seq<char>,
    narration: bool,
) -> Seq<OutputV>
    decreases names.len(),
{
    if names.len() == 0 {
        Seq::empty()
    } else {
        message_outputs(ps, names.drop_last(), text, narration) + message_one(
            ps,
            names.last(),
            text,
            narration,
        )
    }
}

/// What broadcasting `text` sends: a notice from the server to each
/// connected player, in the order of the players.
pub open spec fn broadcast_outputs(ps: Seq<CharacterV>, text: Seq<char>) -> Seq<OutputV>
    decreases ps.len(),
{
    if ps.len() == 0 {
        Seq::empty()
    } else {
        broadcast_outputs(ps.drop_last(), text) + match ps.last().author {
            Some(c) => seq![message_out(c, MessageV::server(ps.last().name, text))],
            None => Seq::empty(),
        }
    }
}

/// What showing client `c` the players named `names` sends: each such
/// player that exists.
pub open spec fn players_shown(ps: Seq<CharacterV>, c: ClientId, names: Seq<Seq<char>>) -> Seq<
    OutputV,
>
    decreases names.len(),
{
    if names.len() == 0 {
        Seq::empty()
    } else {
        players_shown(ps, c, names.drop_last()) + match first_named(ps, names.last()) {
            Some(i) => seq![character_out(c, ps[i])],
            None => Seq::empty(),
        }
    }
}

/// What showing client `c` the monsters `ms` sends, in order.
pub open spec fn monsters_shown(c: ClientId, ms: Seq<MonsterV>) -> Seq<OutputV>
    decreases ms.len(),
{
    if ms.len() == 0 {
        Seq::empty()
    } else {
        monsters_shown(c, ms.drop_last()) + seq![character_out(c, ms.last().packet())]
    }
}

/// What showing client `c` the contents of a room sends: its players, then
/// its monsters.
pub open spec fn contents_outputs(ps: Seq<CharacterV>, c: ClientId, r: RoomV) -> Seq<OutputV> {
    players_shown(ps, c, r.players) + match r.monsters {
        Some(ms) => monsters_shown(c, ms),
        None => Seq::empty(),
    }
}

/// Whether `ks` lists each key of `dom` once.
pub open spec fn key_order(ks: Seq<u16>, dom: Set<u16>) -> bool {
    &&& ks.no_duplicates()
    &&& ks.to_set() == dom
}

/// What telling client `c` about the exits `conns`, taken in the order
/// `ks`, sends.
pub open spec fn connections_outputs(
    c: ClientId,
    conns: Map<u16, ConnectionV>,
    ks: Seq<u16>,
) -> Seq<OutputV> {
    ks.map_values(|k: u16| OutputV::Send(ProtocolV::Connection(c, conns[k].packet())))
}

/// The first player played by client `c` is `i`.
pub proof fn lemma_first_author_is(ps: Seq<CharacterV>, c: ClientId, i: int)
    requires
        is_first_author(ps, c, i),
    ensures
        first_author(ps, c) == Some(i),
{
    let k = choose|k: int| is_first_author(ps, c, k);
    assert(is_first_author(ps, c, k));
    if k < i {
        assert(ps[k].author != Some(c));
    }
    if i < k {
        assert(ps[i].author != Some(c));
    }
}

/// No player is played by client `c`.
pub proof fn lemma_first_author_none(ps: Seq<CharacterV>, c: ClientId)
    requires
        forall|j: int| 0 <= j < ps.len() ==> ps[j].author != Some(c),
    ensures
        first_author(ps, c) is None,
{
}

/// The first player named `n` is `i`.
pub proof fn lemma_first_named_is(ps: Seq<CharacterV>, n: Seq<char>, i: int)
    requires
        is_first_named(ps, n, i),
    ensures
        first_named(ps, n) == Some(i),
{
    let k = choose|k: int| is_first_named(ps, n, k);
    assert(is_first_named(ps, n, k));
    if k < i {
        assert(ps[k].name != n);
    }
    if i < k {
        assert(ps[i].name != n);
    }
}

/// A player named `n` at `i` means some player is the first so named.
pub proof fn lemma_some_first_named(ps: Seq<CharacterV>, n: Seq<char>, i: int)
    requires
        0 <= i < ps.len(),
        ps[i].name == n,
    ensures
        first_named(ps, n) is Some,
    decreases i,
{
    if exists|j: int| 0 <= j < i && ps[j].name == n {
        let j = choose|j: int| 0 <= j < i && ps[j].name == n;
        lemma_some_first_named(ps, n, j);
    } else {
        assert(is_first_named(ps, n, i));
    }
}

/// No player is named `n`.
pub proof fn lemma_first_named_none(ps: Seq<CharacterV>, n: Seq<char>)
    requires
        forall|j: int| 0 <= j < ps.len() ==> ps[j].name != n,
    ensures
        first_named(ps, n) is None,
{
}

/// Appends an output.
pub fn emit(out: &mut Vec<Output>, o: Output)
    ensures
        outputs_view(final(out)@) == outputs_view(old(out)@).push(o@),
{
    let ghost before = out@;
    out.push(o);
    assert(outputs_view(out@) =~= outputs_view(before).push(o@));
}

/// Appends an error for client `c`.
pub fn emit_error(out: &mut Vec<Output>, c: ClientId, code: ErrorCode, text: &str)
    ensures
        outputs_view(final(out)@) == outputs_view(old(out)@).push(error_out(c, code, text@)),
{
    emit(out, Output::Send(Protocol::Error(c, Error::new(code, text))));
}

/// Tells client `author` about each exit in `conns`, in the order the map
/// yields them.
pub fn send_exits(author: ClientId, conns: &HashMap<u16, Connection>, out: &mut Vec<Output>)
    ensures
        exists|ks: Seq<u16>|
            key_order(ks, conns@.dom()) && outputs_view(final(out)@) == outputs_view(old(out)@)
                + connections_outputs(author, conns@.map_values(|c: Connection| c@), ks),
{
    let ghost cv = conns@.map_values(|c: Connection| c@);
    let ghost all = vstd::std_specs::hash::spec_keys_iter(conns).remaining().unref();
    let ghost start = outputs_view(out@);
    for k in it: conns.keys()
        invariant
            it.seq().unref() == all,
            all == vstd::std_specs::hash::spec_keys_iter(conns).remaining().unref(),
            all.to_set() == conns@.dom(),
            cv == conns@.map_values(|c: Connection| c@),
            outputs_view(out@) == start + connections_outputs(
                author,
                cv,
                all.take(it.index() as int),
            ),
    {
        let ghost i = it.index();
        let ghost before = outputs_view(out@);
        assert(all[i] == *k);
        assert(all.to_set().contains(*k));
        match conns.get(k) {
            Some(c) => {
                emit(out, Output::Send(Protocol::Connection(author, c.to_packet())));
            },
            None => {},
        }
        assert(connections_outputs(author, cv, all.take(i + 1)) =~= connections_outputs(
            author,
            cv,
            all.take(i),
        ).push(OutputV::Send(ProtocolV::Connection(author, cv[*k].packet()))));
    }
    assert(all.take(all.len() as int) =~= all);
    assert(key_order(all, conns@.dom()));
}

impl GameState {
    /// A game on the map `rooms`, with no players yet.
    pub fn new(rooms: HashMap<u16, Room>, config: Config) -> (g: GameState)
        ensures
            g@.players == Seq::<CharacterV>::empty(),
            g@.rooms == rooms_view(rooms@),
            g@.config == config@,
    {
        let g = GameState { players: Vec::new(), rooms, config };
        assert(g@.players =~= Seq::<CharacterV>::empty());
        g
    }

    /// The first player played by client `client`, found by position.
    pub fn player_by_stream(&self, client: ClientId) -> (r: Option<usize>)
        ensures
            match r {
                Some(i) => first_author(self@.players, client) == Some(i as int),
                None => first_author(self@.players, client) is None,
            },
    {
        player_from_stream(&self.players, client)
    }

    /// Whether `player` may act: it has started and is ready. If not,
    /// client `author` is told to start the game first.
    pub fn ensure_started(player: &Character, author: ClientId, out: &mut Vec<Output>) -> (ok:
        bool)
        ensures
            ok == started_and_ready(player@),
            outputs_view(final(out)@) == outputs_view(old(out)@) + if ok {
                Seq::<OutputV>::empty()
            } else {
                seq![error_out(author, ErrorCode::NOTREADY, "Start the game first!"@)]
            },
    {
        if !(player.flags.is_started() && player.flags.is_ready()) {
            emit_error(out, author, ErrorCode::NOTREADY, "Start the game first!");
            return false;
        }
        assert(outputs_view(out@) =~= outputs_view(out@) + Seq::<OutputV>::empty());
        true
    }

    /// Shows client `author` the players and then the monsters of `room`.
    pub fn send_room_contents(&self, author: ClientId, room: &Room, out: &mut Vec<Output>)
        ensures
            outputs_view(final(out)@) == outputs_view(old(out)@) + contents_outputs(
                self@.players,
                author,
                room@,
            ),
    {
        let ghost ps = self@.players;
        let ghost start = outputs_view(out@);
        let names = room.player_names();
        let ghost ns = names_view(names@);
        let mut k: usize = 0;
        while k < names.len()
            invariant
                k <= names@.len(),
                ps == self@.players,
                ns == names_view(names@),
                ns == room@.players,
                outputs_view(out@) == start + players_shown(ps, author, ns.take(k as int)),
            decreases names@.len() - k,
        {
            let ghost before = outputs_view(out@);
            assert(ns.take(k + 1).drop_last() =~= ns.take(k as int));
            assert(ns.take(k + 1).last() == names@[k as int]@);
            match player_by_name(&self.players, &names[k]) {
                Some(i) => {
                    emit(out, Output::Send(Protocol::Character(author, self.players[i].copy())));
                },
                None => {},
            }
            k = k + 1;
        }
        assert(ns.take(names@.len() as int) =~= ns);
        let ghost mid = outputs_view(out@);
        match &room.monsters {
            Some(monsters) => {
                let ghost ms = monsters_view(monsters@);
                let mut j: usize = 0;
                while j < monsters.len()
                    invariant
                        j <= monsters@.len(),
                        ms == monsters_view(monsters@),
                        outputs_view(out@) == mid + monsters_shown(author, ms.take(j as int)),
                    decreases monsters@.len() - j,
                {
                    assert(ms.take(j + 1).drop_last() =~= ms.take(j as int));
                    assert(ms.take(j + 1).last() == monsters@[j as int]@);
                    emit(out, Output::Send(Protocol::Character(author, monsters[j].to_packet())));
                    j = j + 1;
                }
                assert(ms.take(monsters@.len() as int) =~= ms);
            },
            None => {},
        }
    }

    /// Tells client `author` about each exit of room `room_id`, if the room
    /// exists.
    pub fn send_connections(&self, author: ClientId, room_id: u16, out: &mut Vec<Output>)
        ensures
            self@.rooms.contains_key(room_id) ==> exists|ks: Seq<u16>|
                key_order(ks, self@.rooms[room_id].connections.dom()) && outputs_view(
                    final(out)@,
                ) == outputs_view(old(out)@) + connections_outputs(
                    author,
                    self@.rooms[room_id].connections,
                    ks,
                ),
            !self@.rooms.contains_key(room_id) ==> final(out)@ == old(out)@,
    {
        match self.rooms.get(&room_id) {
            Some(room) => {
                assert(self@.rooms[room_id] == room@);
                assert(room@.connections.dom() =~= room.connections@.dom());
                send_exits(author, &room.connections, out);
            },
            None => {},
        }
    }

    /// Sends each connected player a notice from the server.
    pub fn broadcast(&self, message: &str, out: &mut Vec<Output>)
        ensures
            outputs_view(final(out)@) == outputs_view(old(out)@) + broadcast_outputs(
                self@.players,
                message@,
            ),
    {
        broadcast(&self.players, message, out);
    }

    /// Sends each connected player in `room` a message, as narration or as a
    /// notice from the server.
    pub fn message_room(&self, room: &Room, message: &str, narration: bool, out: &mut Vec<Output>)
        ensures
            outputs_view(final(out)@) == outputs_view(old(out)@) + message_outputs(
                self@.players,
                room@.players,
                message@,
                narration,
            ),
    {
        message_room(&self.players, room, message, narration, out);
    }

    /// Sends each connected player in `room` the character `alert`.
    pub fn alert_room(&self, room: &Room, alert: &Character, out: &mut Vec<Output>)
        ensures
            outputs_view(final(out)@) == outputs_view(old(out)@) + alert_outputs(
                self@.players,
                room@.players,
                alert@,
            ),
    {
        alert_room(&self.players, room, alert, out);
    }
}

} // verus!
