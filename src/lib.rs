//! A two-way byte relay between two channels: the verified parts of it.
//!
//! The library holds what the relay decides: which channel a descriptor
//! string names, what the event loop does next, and how a TCP server's peers
//! are read from, written to and pruned. Sockets and `poll` stay with the
//! caller, which performs each action and reports its outcome.

mod descriptor;

pub use descriptor::{ChannelSpec, ChannelSpecView, SpecError, parse_channel_str, parse_port};
mod outcome;
mod relay;

pub use outcome::{AcceptOutcome, ReadOutcome, Side, WriteOutcome, bytes_read};
pub use relay::{Action, Event, Fault, Relay, RelayView, any_ready};
mod peers;

pub use peers::{Gather, GatherView, PeerList, write_survivors};
mod console;

pub use console::Stdio;
