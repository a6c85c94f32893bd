//! Dealing of hidden roles for a table of Avalon players: the role pool of
//! each table size, the game's state machine (new game, ready, deal, poll),
//! what each role is told about the others, and the admin views.

pub mod role;
pub mod text;
pub mod api;
pub mod model;
pub mod skill;
pub mod roster;
pub mod laws;
pub mod chance;
pub mod game;
pub mod assets;
pub mod net;
