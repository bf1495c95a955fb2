use vstd::prelude::*;

use crate::logic::{ExtendedProtocol, ExtendedProtocolV, Output, OutputV, outputs_view};
use crate::logic::handlers::change_room::{change_room_shows_exits, change_room_spec};
use crate::logic::handlers::character::character_spec;
use crate::logic::handlers::command::command_spec;
use crate::logic::handlers::fight::{fight_overflows, fight_spec};
use crate::logic::handlers::leave::leave_spec;
use crate::logic::handlers::loot::{loot_overflows, loot_spec};
use crate::logic::handlers::message::message_spec;
use crate::logic::handlers::start::{start_shows_exits, start_spec};
use crate::logic::command::CommandV;
use crate::logic::config::{Config, ConfigV};
use crate::protocol::codec::len16;
use crate::protocol::packet::pkt_game::{Game, GameV};
use crate::protocol::packet::pkt_version::{Version, VersionV};
use crate::protocol::pkt_type::PktType;
use crate::logic::state::{GameState, GameStateV, emit, error_out, key_order};
use crate::protocol::ClientId;
use crate::protocol::packet::pkt_change_room::ChangeRoom;
use crate::protocol::error::ErrorCode;
use crate::protocol::packet::{Protocol, ProtocolV};

verus! {

/// Whether handling event `e` in state `s` would add up more than a 16-bit
/// field holds: one past the stat budget when a character arrives, a
/// fight's total attack, or a player's gold after looting.
pub open spec fn event_overflows(s: GameStateV, e: ExtendedProtocolV) -> bool {
    match e {
        ExtendedProtocolV::Client(_, ProtocolV::Character(_, _)) => s.config.initial_points
            == u16::MAX,
        ExtendedProtocolV::Client(id, ProtocolV::Fight(_, _)) => fight_overflows(s, id),
        ExtendedProtocolV::Client(id, ProtocolV::Loot(_, l)) => loot_overflows(s, id, l),
        _ => false,
    }
}

/// Whether `s2` and `o` are what the operator's command `c` gives in state
/// `s`, for some order of the rooms.
pub open spec fn command_outcome(s: GameStateV, c: CommandV, s2: GameStateV, o: Seq<OutputV>) -> bool {
    exists|ks: Seq<u16>|
        #![trigger command_spec(s, c, ks)]
        key_order(ks, s.rooms.dom()) && s2 == command_spec(s, c, ks).0 && o == command_spec(
            s,
            c,
            ks,
        ).1
}

/// Whether `s2` and `o` are what client `id` starting gives in state `s`,
/// for some order of the first room's exits.
pub open spec fn start_outcome(s: GameStateV, id: ClientId, s2: GameStateV, o: Seq<OutputV>) -> bool {
    exists|ks: Seq<u16>|
        #![trigger start_spec(s, id, ks)]
        {
            &&& start_shows_exits(s, id) ==> key_order(ks, s.rooms[0].connections.dom())
            &&& s2 == start_spec(s, id, ks).0
            &&& o == start_spec(s, id, ks).1
        }
}

/// Whether `s2` and `o` are what client `id` moving as `cr` asks gives in
/// state `s`, for some order of the new room's exits.
pub open spec fn change_room_outcome(
    s: GameStateV,
    id: ClientId,
    cr: ChangeRoom,
    s2: GameStateV,
    o: Seq<OutputV>,
) -> bool {
    exists|ks: Seq<u16>|
        #![trigger change_room_spec(s, id, cr, ks)]
        {
            &&& change_room_shows_exits(s, id, cr) ==> key_order(
                ks,
                s.rooms[cr.room_number].connections.dom(),
            )
            &&& s2 == change_room_spec(s, id, cr, ks).0
            &&& o == change_room_spec(s, id, cr, ks).1
        }
}

/// Whether state `s2` and outputs `o` are what handling event `e` in state
/// `s` gives. A packet from a client is handled on behalf of the client the
/// event names; a client that leaves is disconnected in any case; packets
/// that only the server sends are ignored.
pub open spec fn event_outcome(
    s: GameStateV,
    e: ExtendedProtocolV,
    s2: GameStateV,
    o: Seq<OutputV>,
) -> bool {
    match e {
        ExtendedProtocolV::Connect(_) => s2 == s && o == Seq::<OutputV>::empty(),
        ExtendedProtocolV::Command(c) => command_outcome(s, c, s2, o),
        ExtendedProtocolV::Client(id, p) => match p {
            ProtocolV::Character(_, c) => s2 == character_spec(s, id, c).0 && o == character_spec(
                s,
                id,
                c,
            ).1,
            ProtocolV::Start(_, _) => start_outcome(s, id, s2, o),
            ProtocolV::ChangeRoom(_, cr) => change_room_outcome(s, id, cr, s2, o),
            ProtocolV::Fight(_, _) => s2 == fight_spec(s, id).0 && o == fight_spec(s, id).1,
            ProtocolV::PVPFight(_, _) => s2 == s && o == seq![
                error_out(id, ErrorCode::NOPLAYERCOMBAT, "No player combat allowed"@),
            ],
            ProtocolV::Loot(_, l) => s2 == loot_spec(s, id, l).0 && o == loot_spec(s, id, l).1,
            ProtocolV::Message(_, m) => s2 == s && o == message_spec(s, id, m),
            ProtocolV::Leave(_, _) => s2 == leave_spec(s, id).0 && o == leave_spec(s, id).1.push(
                OutputV::Disconnect(id),
            ),
            _ => s2 == s && o == Seq::<OutputV>::empty(),
        },
    }
}

/// What a client is sent when it connects: the protocol version, then the
/// game's stat budget and description.
pub open spec fn greeting_outputs(id: ClientId, c: ConfigV, description: Seq<char>) -> Seq<OutputV> {
    seq![
        OutputV::Send(
            ProtocolV::Version(
                id,
                VersionV {
                    message_type: PktType::Version,
                    major_rev: c.major_rev,
                    minor_rev: c.minor_rev,
                    extension_len: 0,
                    extensions: None,
                },
            ),
        ),
        OutputV::Send(
            ProtocolV::Game(
                id,
                GameV {
                    message_type: PktType::Game,
                    initial_points: c.initial_points,
                    stat_limit: c.stat_limit,
                    description_len: len16(description),
                    description,
                },
            ),
        ),
    ]
}

/// What client `id` is sent when it connects.
pub fn greeting(id: ClientId, config: &Config, description: &str) -> (out: Vec<Output>)
    ensures
        outputs_view(out@) == greeting_outputs(id, config@, description@),
{
    let mut out: Vec<Output> = Vec::new();
    emit(&mut out, Output::Send(Protocol::Version(id, Version::new(config.major_rev, config.minor_rev))));
    emit(
        &mut out,
        Output::Send(
            Protocol::Game(id, Game::new(config.initial_points, config.stat_limit, description)),
        ),
    );
    assert(outputs_view(out@) =~= greeting_outputs(id, config@, description@));
    out
}

impl GameState {
    /// Handles one event: a client connected, a client sent a packet, or the
    /// operator typed a command. Gives `None`, and leaves the state as it
    /// is, where the event would overflow a 16-bit field.
    pub fn handle_event(&mut self, event: ExtendedProtocol) -> (r: Option<Vec<Output>>)
        requires
            old(self)@.wf(),
        ensures
            final(self)@.wf(),
            event_overflows(old(self)@, event@) ==> r is None && final(self)@ == old(self)@,
            !event_overflows(old(self)@, event@) ==> r is Some && event_outcome(
                old(self)@,
                event@,
                final(self)@,
                outputs_view(r.unwrap()@),
            ),
    {
        let ghost s = self@;
        let ghost e = event@;
        match event {
            ExtendedProtocol::Connect(_) => {
                let out: Vec<Output> = Vec::new();
                assert(outputs_view(out@) =~= Seq::<OutputV>::empty());
                Some(out)
            },
            ExtendedProtocol::Command(action) => {
                    let ghost c = action@;
                    assert(e == ExtendedProtocolV::Command(c));
                    let out = self.handle_command(action);
                    let ghost ks = choose|ks: Seq<u16>|
                        key_order(ks, s.rooms.dom()) && self@ == command_spec(s, c, ks).0
                            && outputs_view(out@) == command_spec(s, c, ks).1;
                    assert(key_order(ks, s.rooms.dom()));
                    assert(self@ == command_spec(s, c, ks).0);
                    assert(outputs_view(out@) == command_spec(s, c, ks).1);
                    assert(command_outcome(s, c, self@, outputs_view(out@)));
                    assert(event_outcome(s, e, self@, outputs_view(out@)));
                    Some(out)
                },
            ExtendedProtocol::Client(id, p) => match p {
                Protocol::Character(_, c) => {
                    if self.config.initial_points == u16::MAX {
                        return None;
                    }
                    let out = self.handle_character(id, c);
                    assert(event_outcome(s, e, self@, outputs_view(out@)));
                    Some(out)
                },
                Protocol::Start(_, c) => {
                    let out = self.handle_start(id, c);
                    assert(event_outcome(s, e, self@, outputs_view(out@)));
                    Some(out)
                },
                Protocol::ChangeRoom(_, c) => {
                    let out = self.handle_change_room(id, c);
                    assert(event_outcome(s, e, self@, outputs_view(out@)));
                    Some(out)
                },
                Protocol::Fight(_, c) => {
                    if self.fight_would_overflow(id) {
                        None
                    } else {
                        Some(self.handle_fight(id, c))
                    }
                },
                Protocol::PVPFight(_, c) => {
                    let out = self.handle_pvp_fight(id, c);
                    assert(event_outcome(s, e, self@, outputs_view(out@)));
                    Some(out)
                },
                Protocol::Loot(_, c) => {
                    if self.loot_would_overflow(id, &c) {
                        None
                    } else {
                        Some(self.handle_loot(id, c))
                    }
                },
                Protocol::Message(_, c) => {
                    let out = self.handle_message(id, c);
                    assert(event_outcome(s, e, self@, outputs_view(out@)));
                    Some(out)
                },
                Protocol::Leave(_, c) => {
                    let mut out = self.handle_leave(id, c);
                    emit(&mut out, Output::Disconnect(id));
                    assert(event_outcome(s, e, self@, outputs_view(out@)));
                    Some(out)
                },
                _ => {
                    let out: Vec<Output> = Vec::new();
                    assert(outputs_view(out@) =~= Seq::<OutputV>::empty());
                    Some(out)
                },
            },
        }
    }
}

} // verus!
