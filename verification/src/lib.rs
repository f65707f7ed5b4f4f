//! A live dashboard library for one infrastructure node.
//!
//! The crate aggregates streaming telemetry (version, capacity, CPU and
//! memory figures, network addresses) into one shared view and drives a
//! fixed-cadence render loop. Its centrepiece is a wire-compatible
//! network-address codec: byte-level decoding of IP addresses and netmasks
//! as a foreign runtime lays them out, and their canonical text forms.
//!
//! Everything here is pure logic with contracts; transport, terminal and
//! file handling live with the binary that embeds the library.

pub mod cmdline;
pub mod environment;
pub mod flag;
pub mod kernel;
pub mod net;
pub mod poller;
pub mod render;
pub mod services;
pub mod state;
pub mod text;
