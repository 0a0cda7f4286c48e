//! Coordination of a fleet of agents: each agent runs a small finite state
//! machine driven by broadcast commands, and a coordinator fans commands out
//! and collects one status report per processed command under a bounded wait.
//!
//! The library holds the decisions only. Waiting on channels, timers and
//! spawning tasks is done by the caller, which feeds each outcome back in as
//! an event and performs the action that comes out.

pub mod types;
pub mod agent;
pub mod coordinator;
