use vstd::prelude::*;

verus! {

/// The error codes of a Lurk `Error` packet.
#[derive(Clone, Copy, Debug, PartialEq, Eq, Structural)]
pub enum ErrorCode {
    OTHER,
    BADROOM,
    PLAYEREXISTS,
    BADMONSTER,
    STATERROR,
    NOTREADY,
    NOTARGET,
    NOFIGHT,
    NOPLAYERCOMBAT,
}

/// The byte that stands for an error code on the wire.
pub open spec fn error_code_byte(e: ErrorCode) -> u8 {
    match e {
        ErrorCode::OTHER => 0,
        ErrorCode::BADROOM => 1,
        ErrorCode::PLAYEREXISTS => 2,
        ErrorCode::BADMONSTER => 3,
        ErrorCode::STATERROR => 4,
        ErrorCode::NOTREADY => 5,
        ErrorCode::NOTARGET => 6,
        ErrorCode::NOFIGHT => 7,
        ErrorCode::NOPLAYERCOMBAT => 8,
    }
}

/// The error code a byte stands for; unknown bytes read as `OTHER`.
pub open spec fn error_code_of(v: u8) -> ErrorCode {
    if v == 1 { ErrorCode::BADROOM }
    else if v == 2 { ErrorCode::PLAYEREXISTS }
    else if v == 3 { ErrorCode::BADMONSTER }
    else if v == 4 { ErrorCode::STATERROR }
    else if v == 5 { ErrorCode::NOTREADY }
    else if v == 6 { ErrorCode::NOTARGET }
    else if v == 7 { ErrorCode::NOFIGHT }
    else if v == 8 { ErrorCode::NOPLAYERCOMBAT }
    else { ErrorCode::OTHER }
}

/// The name under which an error code is shown.
pub open spec fn error_code_label(e: ErrorCode) -> Seq<char> {
    match e {
        ErrorCode::OTHER => "Other"@,
        ErrorCode::BADROOM => "BadRoom"@,
        ErrorCode::PLAYEREXISTS => "PlayerExists"@,
        ErrorCode::BADMONSTER => "BadMonster"@,
        ErrorCode::STATERROR => "StatError"@,
        ErrorCode::NOTREADY => "NotReady"@,
        ErrorCode::NOTARGET => "NoTarget"@,
        ErrorCode::NOFIGHT => "NoFight"@,
        ErrorCode::NOPLAYERCOMBAT => "NoPlayerCombat"@,
    }
}

impl Default for ErrorCode {
    fn default() -> (e: ErrorCode)
        ensures
            e == ErrorCode::OTHER,
    {
        ErrorCode::OTHER
    }
}

impl From<u8> for ErrorCode {
    fn from(value: u8) -> (e: ErrorCode) {
        match value {
            0 => ErrorCode::OTHER,
            1 => ErrorCode::BADROOM,
            2 => ErrorCode::PLAYEREXISTS,
            3 => ErrorCode::BADMONSTER,
            4 => ErrorCode::STATERROR,
            5 => ErrorCode::NOTREADY,
            6 => ErrorCode::NOTARGET,
            7 => ErrorCode::NOFIGHT,
            8 => ErrorCode::NOPLAYERCOMBAT,
            _ => ErrorCode::OTHER,
        }
    }
}

impl vstd::std_specs::convert::FromSpecImpl<u8> for ErrorCode {
    open spec fn obeys_from_spec() -> bool {
        true
    }

    open spec fn from_spec(v: u8) -> ErrorCode {
        error_code_of(v)
    }
}

impl From<ErrorCode> for u8 {
    fn from(e: ErrorCode) -> (b: u8) {
        e.code()
    }
}

impl vstd::std_specs::convert::FromSpecImpl<ErrorCode> for u8 {
    open spec fn obeys_from_spec() -> bool {
        true
    }

    open spec fn from_spec(e: ErrorCode) -> u8 {
        error_code_byte(e)
    }
}

impl ErrorCode {
    /// The byte of the code.
    pub fn code(self) -> (b: u8)
        ensures
            b == error_code_byte(self),
    {
        match self {
            ErrorCode::OTHER => 0,
            ErrorCode::BADROOM => 1,
            ErrorCode::PLAYEREXISTS => 2,
            ErrorCode::BADMONSTER => 3,
            ErrorCode::STATERROR => 4,
            ErrorCode::NOTREADY => 5,
            ErrorCode::NOTARGET => 6,
            ErrorCode::NOFIGHT => 7,
            ErrorCode::NOPLAYERCOMBAT => 8,
        }
    }

    /// The name under which the code is shown.
    pub fn label(self) -> (s: &'static str)
        ensures
            s@ == error_code_label(self),
    {
        match self {
            ErrorCode::OTHER => "Other",
            ErrorCode::BADROOM => "BadRoom",
            ErrorCode::PLAYEREXISTS => "PlayerExists",
            ErrorCode::BADMONSTER => "BadMonster",
            ErrorCode::STATERROR => "StatError",
            ErrorCode::NOTREADY => "NotReady",
            ErrorCode::NOTARGET => "NoTarget",
            ErrorCode::NOFIGHT => "NoFight",
            ErrorCode::NOPLAYERCOMBAT => "NoPlayerCombat",
        }
    }
}

/// Every error code survives the trip through its byte.
pub proof fn lemma_error_code_roundtrip(e: ErrorCode)
    ensures
        error_code_of(error_code_byte(e)) == e,
{
}

/// A byte that names an error code survives the trip through the code.
pub proof fn lemma_error_byte_roundtrip(v: u8)
    requires
        v <= 8,
    ensures
        error_code_byte(error_code_of(v)) == v,
{
}

} // verus!
