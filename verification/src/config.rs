//! Configuration of the daemon.

pub mod structs;
