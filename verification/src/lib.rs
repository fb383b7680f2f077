//! Game-state logic of the Quantsum arena shooter: the snapshot wire format
//! and delta compression, the snapshot history kept by the server, id
//! pooling, weapon firing decisions, game-mode rules and small gameplay
//! helpers.

pub mod bytes;
pub mod components;
pub mod console;
pub mod gamemode;
pub mod gameplay;
pub mod hud;
pub mod ids;
pub mod monsters;
pub mod net;
pub mod pickups;
pub mod player;
pub mod snapshot;
pub mod spawn;
pub mod states;
pub mod vfx;
pub mod weapons;
