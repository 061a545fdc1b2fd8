//! Multiplexed byte streams carried over one remote-desktop virtual channel.
//!
//! - `api`: the chunk framing and the messages between dispatcher and transport;
//! - `reassembly`: chunks rebuilt from raw channel reads;
//! - `stream`: one logical stream, its write buffering and shutdown states;
//! - `channel`: the registry of streams and the dispatcher step;
//! - `control`: the frontend's view of the host-driven channel lifecycle;
//! - `credit`: the bound on host writes waiting for completion;
//! - `pdu`: the headers that hosts put before channel data;
//! - `service`: the services that streams are opened for;
//! - `naming`: the channel name and the log level;
//! - `wire`, `clipboard`, `forward`, `ftp`: the service sub-protocols.

pub mod api;
pub mod channel;
pub mod clipboard;
pub mod control;
pub mod credit;
pub mod forward;
pub mod ftp;
pub mod naming;
pub mod pdu;
pub mod reassembly;
pub mod service;
pub mod stream;
pub mod wire;
