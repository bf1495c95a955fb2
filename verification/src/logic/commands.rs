use vstd::prelude::*;

verus! {

/// An operator's command, under the name the game state handles it by.
pub type Action = crate::logic::command::Command;

} // verus!
