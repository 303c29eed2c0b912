//! Core of a small bridge that relays payloads from many socket clients to the
//! system clipboard: the payload decoder, the connection multiplexer's per-tick
//! decisions, the idle backoff, the acceptor's id assignment and the interrupt
//! guard that coordinates shutdown. The sockets, the clipboard and the signal
//! handler themselves live with the program that drives these types.
//!
//! Beside it stands a small integer inspector: reading an integer in a radix
//! and the lines that show it as 32- and 64-bit values.

pub mod acceptor;
pub mod backoff;
pub mod decode;
pub mod multiplexer;
pub mod numinfo;
pub mod shutdown;
