use vstd::prelude::*;
use crate::types::{AgentError, AgentId, Message, Position, State};

verus! {

/// What can be observed of an agent: its identity, state and position.
pub struct AgentView {
    pub id: AgentId,
    pub state: State,
    pub position: Position,
}

/// State after applying `cmd` in state `s`: the transition table.
pub open spec fn next_state(s: State, cmd: Message) -> State {
    match cmd {
        Message::MoveTo(_) => State::Moving,
        Message::ScanSector => State::Scanning,
        Message::StatusReport(..) => s,
    }
}

/// Position after applying `cmd` at position `p`: only `MoveTo` moves.
pub open spec fn next_position(p: Position, cmd: Message) -> Position {
    match cmd {
        Message::MoveTo(q) => q,
        _ => p,
    }
}

/// The agent after applying `cmd`; its identity never changes.
pub open spec fn apply(a: AgentView, cmd: Message) -> AgentView {
    AgentView { id: a.id, state: next_state(a.state, cmd), position: next_position(a.position, cmd) }
}

/// The report an agent sends about itself.
pub open spec fn report_of(a: AgentView) -> Message {
    Message::StatusReport(a.id, a.state, a.position)
}

/// The agent after applying every command of `cmds` in order.
pub open spec fn apply_all(a: AgentView, cmds: Seq<Message>) -> AgentView
    decreases cmds.len(),
{
    if cmds.len() == 0 {
        a
    } else {
        apply(apply_all(a, cmds.drop_last()), cmds.last())
    }
}

/// The reports an agent sends while it processes `cmds` in order: one after
/// each command, describing the agent as that command left it.
pub open spec fn reports_for(a: AgentView, cmds: Seq<Message>) -> Seq<Message>
    decreases cmds.len(),
{
    if cmds.len() == 0 {
        Seq::empty()
    } else {
        reports_for(a, cmds.drop_last()).push(report_of(apply_all(a, cmds)))
    }
}

/// All reports that the agents `agents` send when each of them processes
/// `cmds`, agent by agent.
pub open spec fn swarm_reports(agents: Seq<AgentView>, cmds: Seq<Message>) -> Seq<Message>
    decreases agents.len(),
{
    if agents.len() == 0 {
        Seq::empty()
    } else {
        swarm_reports(agents.drop_last(), cmds) + reports_for(agents.last(), cmds)
    }
}

/// What happened to an agent's runtime while it waited.
#[derive(Debug, Clone, PartialEq, Eq)]
pub enum AgentEvent {
    /// A command arrived on the subscription.
    Received(Message),
    /// The subscription is closed or can deliver no more commands.
    SubscriptionEnded,
    /// The last report could not be handed to the coordinator.
    ReportRejected,
}

/// What an agent's runtime has to do next.
#[derive(Debug, PartialEq, Eq)]
pub enum AgentAction {
    /// Send this report to the coordinator, then wait for the next command.
    SendReport(Message),
    /// Stop the runtime with this outcome.
    Finish(Result<(), AgentError>),
}

/// A patrol agent: identity, current state and position.
pub struct Agent {
    id: AgentId,
    state: State,
    position: Position,
}

impl View for Agent {
    type V = AgentView;

    closed spec fn view(&self) -> AgentView {
        AgentView { id: self.id, state: self.state, position: self.position }
    }
}

impl Agent {
    /// A new agent, `Idle` at `start_pos`.
    pub fn new(id: AgentId, start_pos: Position) -> (r: Self)
        ensures
            r@ == (AgentView { id: id, state: State::Idle, position: start_pos }),
    {
        Agent { id, state: State::Idle, position: start_pos }
    }

    pub fn id(&self) -> (r: AgentId)
        ensures
            r == self@.id,
    {
        self.id
    }

    pub fn state(&self) -> (r: State)
        ensures
            r == self@.state,
    {
        self.state
    }

    pub fn position(&self) -> (r: Position)
        ensures
            r == self@.position,
    {
        self.position
    }

    /// Applies a command to the agent's state machine. The table is total,
    /// so this always succeeds; a status report is ignored.
    pub fn process_command(&mut self, cmd: &Message) -> (r: Result<(), AgentError>)
        ensures
            final(self)@ == apply(old(self)@, *cmd),
            r is Ok,
    {
        match cmd {
            Message::MoveTo(new_pos) => {
                self.state = State::Moving;
                self.position = *new_pos;
            },
            Message::ScanSector => {
                self.state = State::Scanning;
            },
            Message::StatusReport(..) => {},
        }
        Ok(())
    }

    /// The report describing the agent as it is now.
    pub fn report(&self) -> (r: Message)
        ensures
            r == report_of(self@),
    {
        Message::StatusReport(self.id, self.state, self.position)
    }

    /// One step of the agent's runtime: a received command is applied and
    /// answered by exactly one report; the end of the subscription is a clean
    /// stop; a rejected report is a channel error.
    pub fn handle(&mut self, event: AgentEvent) -> (r: AgentAction)
        ensures
            match event {
                AgentEvent::Received(cmd) => {
                    &&& final(self)@ == apply(old(self)@, cmd)
                    &&& r == AgentAction::SendReport(report_of(final(self)@))
                },
                AgentEvent::SubscriptionEnded => {
                    &&& final(self)@ == old(self)@
                    &&& r == AgentAction::Finish(Ok(()))
                },
                AgentEvent::ReportRejected => {
                    &&& final(self)@ == old(self)@
                    &&& r matches AgentAction::Finish(Err(AgentError::ChannelError(_)))
                },
            },
    {
        match event {
            AgentEvent::Received(cmd) => {
                match self.process_command(&cmd) {
                    Ok(()) => AgentAction::SendReport(self.report()),
                    Err(e) => AgentAction::Finish(Err(e)),
                }
            },
            AgentEvent::SubscriptionEnded => AgentAction::Finish(Ok(())),
            AgentEvent::ReportRejected => AgentAction::Finish(
                Err(AgentError::ChannelError("lost the connection to the coordinator".to_owned())),
            ),
        }
    }
}

/// Applying a command gives `Moving` at exactly the target for `MoveTo`,
/// `Scanning` at the same position for `ScanSector`, and leaves the agent
/// unchanged for a `StatusReport`, whatever state the agent was in.
pub proof fn lemma_transition_table(a: AgentView, cmd: Message)
    ensures
        apply(a, cmd).id == a.id,
        cmd matches Message::MoveTo(p) ==> apply(a, cmd).state == State::Moving
            && apply(a, cmd).position == p,
        cmd is ScanSector ==> apply(a, cmd).state == State::Scanning
            && apply(a, cmd).position == a.position,
        cmd is StatusReport ==> apply(a, cmd) == a,
{
}

/// Scanning twice in a row leaves the agent as scanning once does.
pub proof fn lemma_scan_idempotent(a: AgentView)
    ensures
        apply(apply(a, Message::ScanSector), Message::ScanSector) == apply(a, Message::ScanSector),
{
}

/// An agent that processes `cmds` sends exactly one report per command.
pub proof fn lemma_one_report_per_command(a: AgentView, cmds: Seq<Message>)
    ensures
        reports_for(a, cmds).len() == cmds.len(),
    decreases cmds.len(),
{
    if cmds.len() > 0 {
        lemma_one_report_per_command(a, cmds.drop_last());
    }
}

/// Everything an agent sends while processing commands is a status report.
pub proof fn lemma_reports_are_status_reports(a: AgentView, cmds: Seq<Message>)
    ensures
        forall|i: int| 0 <= i < reports_for(a, cmds).len() ==> #[trigger] reports_for(a, cmds)[i] is StatusReport,
    decreases cmds.len(),
{
    if cmds.len() > 0 {
        lemma_reports_are_status_reports(a, cmds.drop_last());
    }
}

/// Everything a swarm sends while processing commands is a status report.
pub proof fn lemma_swarm_reports_are_status_reports(agents: Seq<AgentView>, cmds: Seq<Message>)
    ensures
        forall|i: int| 0 <= i < swarm_reports(agents, cmds).len() ==> #[trigger] swarm_reports(agents, cmds)[i] is StatusReport,
    decreases agents.len(),
{
    if agents.len() > 0 {
        lemma_swarm_reports_are_status_reports(agents.drop_last(), cmds);
        lemma_reports_are_status_reports(agents.last(), cmds);
        let head = swarm_reports(agents.drop_last(), cmds);
        let tail = reports_for(agents.last(), cmds);
        assert forall|i: int| 0 <= i < swarm_reports(agents, cmds).len() implies #[trigger] swarm_reports(agents, cmds)[i] is StatusReport by {
            if i >= head.len() {
                assert(swarm_reports(agents, cmds)[i] == tail[i - head.len()]);
            } else {
                assert(swarm_reports(agents, cmds)[i] == head[i]);
            }
        }
    }
}

/// `n` agents that each process the same `k` commands send `n * k` reports
/// in all.
pub proof fn lemma_swarm_report_count(agents: Seq<AgentView>, cmds: Seq<Message>)
    ensures
        swarm_reports(agents, cmds).len() == agents.len() * cmds.len(),
    decreases agents.len(),
{
    if agents.len() > 0 {
        lemma_swarm_report_count(agents.drop_last(), cmds);
        lemma_one_report_per_command(agents.last(), cmds);
        assert(agents.len() * cmds.len() == (agents.len() - 1) * cmds.len() + cmds.len())
            by (nonlinear_arith);
    }
}

} // verus!
