use vstd::prelude::*;

verus! {

/// The kind of a Lurk packet, carried in its first byte.
#[derive(Clone, Copy, Debug, PartialEq, Eq, Structural)]
pub enum PktType {
    Default,
    Message,
    ChangeRoom,
    Fight,
    PVPFight,
    Loot,
    Start,
    Error,
    Accept,
    Room,
    Character,
    Game,
    Leave,
    Connection,
    Version,
}

/// The byte that stands for a packet kind on the wire.
pub open spec fn pkt_type_code(t: PktType) -> u8 {
    match t {
        PktType::Default => 0,
        PktType::Message => 1,
        PktType::ChangeRoom => 2,
        PktType::Fight => 3,
        PktType::PVPFight => 4,
        PktType::Loot => 5,
        PktType::Start => 6,
        PktType::Error => 7,
        PktType::Accept => 8,
        PktType::Room => 9,
        PktType::Character => 10,
        PktType::Game => 11,
        PktType::Leave => 12,
        PktType::Connection => 13,
        PktType::Version => 14,
    }
}

/// The packet kind that a byte stands for; unknown bytes read as `Default`.
pub open spec fn pkt_type_of(v: u8) -> PktType {
    if v == 1 { PktType::Message }
    else if v == 2 { PktType::ChangeRoom }
    else if v == 3 { PktType::Fight }
    else if v == 4 { PktType::PVPFight }
    else if v == 5 { PktType::Loot }
    else if v == 6 { PktType::Start }
    else if v == 7 { PktType::Error }
    else if v == 8 { PktType::Accept }
    else if v == 9 { PktType::Room }
    else if v == 10 { PktType::Character }
    else if v == 11 { PktType::Game }
    else if v == 12 { PktType::Leave }
    else if v == 13 { PktType::Connection }
    else if v == 14 { PktType::Version }
    else { PktType::Default }
}

impl PktType {
    pub fn code(self) -> (b: u8)
        ensures
            b == pkt_type_code(self),
    {
        match self {
            PktType::Default => 0,
            PktType::Message => 1,
            PktType::ChangeRoom => 2,
            PktType::Fight => 3,
            PktType::PVPFight => 4,
            PktType::Loot => 5,
            PktType::Start => 6,
            PktType::Error => 7,
            PktType::Accept => 8,
            PktType::Room => 9,
            PktType::Character => 10,
            PktType::Game => 11,
            PktType::Leave => 12,
            PktType::Connection => 13,
            PktType::Version => 14,
        }
    }
}

impl From<u8> for PktType {
    fn from(value: u8) -> (t: PktType) {
        match value {
            1 => PktType::Message,
            2 => PktType::ChangeRoom,
            3 => PktType::Fight,
            4 => PktType::PVPFight,
            5 => PktType::Loot,
            6 => PktType::Start,
            7 => PktType::Error,
            8 => PktType::Accept,
            9 => PktType::Room,
            10 => PktType::Character,
            11 => PktType::Game,
            12 => PktType::Leave,
            13 => PktType::Connection,
            14 => PktType::Version,
            _ => PktType::Default,
        }
    }
}

impl vstd::std_specs::convert::FromSpecImpl<u8> for PktType {
    open spec fn obeys_from_spec() -> bool {
        true
    }

    open spec fn from_spec(v: u8) -> PktType {
        pkt_type_of(v)
    }
}

impl From<PktType> for u8 {
    fn from(t: PktType) -> (b: u8) {
        t.code()
    }
}

impl vstd::std_specs::convert::FromSpecImpl<PktType> for u8 {
    open spec fn obeys_from_spec() -> bool {
        true
    }

    open spec fn from_spec(t: PktType) -> u8 {
        pkt_type_code(t)
    }
}

impl Default for PktType {
    fn default() -> (t: PktType)
        ensures
            t == PktType::Default,
    {
        PktType::Default
    }
}

/// The name under which a packet kind is shown.
pub open spec fn pkt_type_label(t: PktType) -> Seq<char> {
    match t {
        PktType::Default => "Default"@,
        PktType::Message => "Message"@,
        PktType::ChangeRoom => "ChangeRoom"@,
        PktType::Fight => "Fight"@,
        PktType::PVPFight => "PVPFight"@,
        PktType::Loot => "Loot"@,
        PktType::Start => "Start"@,
        PktType::Error => "Error"@,
        PktType::Accept => "Accept"@,
        PktType::Room => "Room"@,
        PktType::Character => "Character"@,
        PktType::Game => "Game"@,
        PktType::Leave => "Leave"@,
        PktType::Connection => "Connection"@,
        PktType::Version => "Version"@,
    }
}

impl PktType {
    /// The name under which the kind is shown.
    pub fn label(self) -> (s: &'static str)
        ensures
            s@ == pkt_type_label(self),
    {
        match self {
            PktType::Default => "Default",
            PktType::Message => "Message",
            PktType::ChangeRoom => "ChangeRoom",
            PktType::Fight => "Fight",
            PktType::PVPFight => "PVPFight",
            PktType::Loot => "Loot",
            PktType::Start => "Start",
            PktType::Error => "Error",
            PktType::Accept => "Accept",
            PktType::Room => "Room",
            PktType::Character => "Character",
            PktType::Game => "Game",
            PktType::Leave => "Leave",
            PktType::Connection => "Connection",
            PktType::Version => "Version",
        }
    }
}

/// Every packet kind survives the trip through its byte.
pub proof fn lemma_pkt_type_code_roundtrip(t: PktType)
    ensures
        pkt_type_of(pkt_type_code(t)) == t,
{
}

} // verus!
