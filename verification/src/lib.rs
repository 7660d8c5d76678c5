//! A verified single-agent turn engine: structured message content, a keyed
//! session store with per-key exclusivity, agent context assembly, and a
//! runner state machine that turns model output into an ordered event stream
//! while keeping the session transcript consistent.

pub mod agent;
pub mod content;
pub mod errors;
pub mod event;
pub mod laws;
pub mod runner;
pub mod session;
