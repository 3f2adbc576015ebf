//! A client session for a turn-based game server.
//!
//! The crate keeps a local view of a game that a server runs: it frames
//! messages for a byte stream, takes whole frames out of the bytes that
//! arrive, applies the server's events to the last known position, and guards
//! the one move that a player may submit per turn. It performs no I/O: bytes
//! that arrived are handed in, bytes to send are handed out.
//!
//! - `codec`: numbers and booleans as bytes, and the trait of what travels in
//!   a frame;
//! - `ser_de`: the frames, `ser` and `de`, and what holds of them;
//! - `protocol`: positions, commands and events, and their payloads;
//! - `game`: the view of the game and how an event changes it;
//! - `session`: the buffers around that view, and one cycle of work;
//! - `client`: the operations that an application calls.
//!
//! Numbers and booleans are encoded and decoded by `bincode`, and the pick of
//! a move at random comes from `rand`. What those calls return is stated
//! where they are made and taken on trust; every other function is verified
//! against its contract.

pub mod codec;
pub mod ser_de;
pub mod protocol;
pub mod game;
pub mod session;
pub mod client;
