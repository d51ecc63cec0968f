//! Per-interface network control: estimation, sampling and orchestration.

pub mod backend_tuner;
pub mod governor;
pub mod governor_laws;
pub mod link_rate;
pub mod nm;
pub mod stats;
pub mod steering;
pub mod tc;
pub mod tc_laws;
pub mod tracker;
pub mod wifi;
