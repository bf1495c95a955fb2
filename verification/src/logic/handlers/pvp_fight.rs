use vstd::prelude::*;

use crate::logic::{Output, outputs_view};
use crate::logic::state::{GameState, emit_error, error_out};
use crate::protocol::ClientId;
use crate::protocol::error::ErrorCode;
use crate::protocol::packet::pkt_pvp_fight::PVPFight;

verus! {

impl GameState {
    /// Players may not fight each other: the client is told so.
    pub fn handle_pvp_fight(&self, author: ClientId, content: PVPFight) -> (out: Vec<Output>)
        ensures
            outputs_view(out@) == seq![
                error_out(author, ErrorCode::NOPLAYERCOMBAT, "No player combat allowed"@),
            ],
    {
        let mut out: Vec<Output> = Vec::new();
        emit_error(&mut out, author, ErrorCode::NOPLAYERCOMBAT, "No player combat allowed");
        assert(outputs_view(out@) =~= seq![
            error_out(author, ErrorCode::NOPLAYERCOMBAT, "No player combat allowed"@),
        ]);
        out
    }
}

} // verus!
