//! Core of a monitor for a running game server session: it follows the console
//! log, keeps the set of connected players and classifies them against saved
//! rule lists.

pub mod command_manager;
pub mod gui;
pub mod logwatcher;
pub mod player;
pub mod player_checker;
pub mod regexes;
pub mod server;
pub mod settings;
pub mod state;
pub mod text;
pub mod timer;
pub mod trusted;
