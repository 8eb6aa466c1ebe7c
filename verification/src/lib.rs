pub mod text;
pub mod dice;
pub mod notation;
pub mod character;
pub mod class;
pub mod race;
pub mod stat_mod;
pub mod spell;
pub mod combat;
pub mod enemy;
pub mod item;
pub mod inventory;
pub mod proficiency;
pub mod player;
pub mod mortal_wounds;
pub mod registry;
pub mod packets;
pub mod requests;
pub mod map;
pub mod party;
pub mod tabs;
pub mod commands;
pub mod chat;
pub mod server;
pub mod turns;
pub mod keyed;
pub mod save;
pub mod roster;
pub mod client;
