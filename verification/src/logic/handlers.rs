//! The handlers for the packets clients send and for the operator's
//! commands, each from the game's state to its next state and outputs.

pub mod change_room;
pub mod character;
pub mod command;
pub mod fight;
pub mod leave;
pub mod loot;
pub mod message;
pub mod pvp_fight;
pub mod start;
