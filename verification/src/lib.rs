//! The logic of a Discord bot that keeps watch over a Minecraft server.
//!
//! Everything here is a function of its arguments, or of a state that the
//! caller owns: no sockets, no environment, and of clock and chance only the
//! seed of [`fortuna::EntropyRolls`]. The program in `app/` performs the
//! Discord, RCON and container calls and hands this library plain values.

pub mod changelog;
pub mod chronicle;
pub mod clock;
pub mod commands;
pub mod config;
pub mod docker;
pub mod fill;
pub mod fortuna;
pub mod heraldo;
pub mod monitor;
pub mod parse;
pub mod patterns;
pub mod rcon;
pub mod text;
pub mod watch;
