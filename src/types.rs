use vstd::prelude::*;

verus! {

/// Unique identifier of an agent for the lifetime of a run.
pub type AgentId = u32;

/// Two-dimensional position of an agent.
///
/// Each coordinate is kept as the IEEE-754 bit pattern of a double
/// (`f64::to_bits`). The coordination logic never computes with coordinates,
/// it only carries them from a command into an agent and out in a report,
/// so the bit pattern is kept exactly.
#[derive(Debug, Clone, Copy, PartialEq, Eq, Structural)]
pub struct Position {
    pub x: u64,
    pub y: u64,
}

/// Velocity of an agent, as bit patterns of doubles like [`Position`].
#[derive(Debug, Clone, Copy, PartialEq, Eq, Structural)]
pub struct Velocity {
    pub dx: u64,
    pub dy: u64,
}

/// The states an agent can be in.
#[derive(Debug, Clone, Copy, PartialEq, Eq, Structural)]
pub enum State {
    Idle,
    Moving,
    Scanning,
}

/// Commands from the coordinator to the agents, and the reports back.
#[derive(Debug, Clone, Copy, PartialEq, Eq, Structural)]
pub enum Message {
    /// Move to the given position.
    MoveTo(Position),
    /// Start scanning the current sector.
    ScanSector,
    /// An agent's report of its identity, state and position.
    StatusReport(AgentId, State, Position),
}

/// Errors of an agent's runtime.
#[derive(Debug, Clone, PartialEq, Eq)]
pub enum AgentError {
    /// The agent failed to apply a command.
    ProcessingError(AgentId),
    /// The agent's report could not reach the coordinator.
    ChannelError(String),
}

} // verus!
