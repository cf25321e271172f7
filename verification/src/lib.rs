//! A minimal MIDI-to-plugin bridge: a shared event buffer that a driver
//! callback appends captured MIDI messages to, and that a dispatcher loop
//! snapshots, hands to a plugin's event entry point, and clears, one batch
//! per processing cycle.

pub mod buffer;
pub mod events;
pub mod laws;
pub mod ports;
pub mod shared;
