//! Adaptive network quality-of-service control for handheld and streaming
//! devices: bandwidth shaping targets, game-mode detection, power-save and
//! interrupt-coalescing toggles, and wireless band steering.
//!
//! Every decision in this crate is a function from plain values to plain
//! values; reading counters, talking to the connectivity service and running
//! system tools is left to the program that embeds the library.

pub mod config;
pub mod firmware;
pub mod network;
pub mod system;
pub mod text;
