//! Authoritative state replication for a small multiplayer world.
//!
//! One server owns the true state: who takes part and where each avatar
//! stands. Every client keeps a mirror of it that lags by the messages
//! still in flight. This crate holds the protocol between them and the
//! bookkeeping on both sides. It moves no bytes and draws nothing: a host
//! program hands it what the transport delivered and does what it asks for.
//!
//! - [`message`], [`input`]: the values that travel.
//! - [`channel`]: the channels they travel on, and what each one promises.
//! - [`wire`], [`codec`]: how they lie on the wire.
//! - [`server`]: the server's lobby and what each event makes of it.
//! - [`identity`], [`client`]: the client's identity map, its mirror of the
//!   lobby, and the reconciliation of what the server sends against them.
//! - [`convergence`]: why the mirror catches up with the lobby.
//! - [`tilemap`]: the name of a host's tile-map stage.

pub mod channel;
pub mod client;
pub mod codec;
pub mod convergence;
pub mod identity;
pub mod input;
pub mod message;
pub mod server;
pub mod tilemap;
pub mod wire;
