//! The machine the daemon runs on: processor load and power.

pub mod command;
pub mod cpu;
pub mod optimizer;
pub mod power;
