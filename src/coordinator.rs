use vstd::prelude::*;
use crate::types::Message;
use crate::agent::{AgentView, swarm_reports, lemma_swarm_report_count, lemma_swarm_reports_are_status_reports};

verus! {

/// Why the collection of reports ended.
#[derive(Debug, Clone, Copy, PartialEq, Eq, Structural)]
pub enum CollectionEnd {
    /// Every expected report arrived.
    CountReached,
    /// No report arrived within the wait allowed for one.
    TimedOut,
    /// Every sender of reports is gone.
    StreamClosed,
    /// Something other than a status report arrived.
    UnexpectedMessage,
}

/// What the coordinator's wait for the next report gave.
#[derive(Debug, Clone, Copy, PartialEq, Eq, Structural)]
pub enum CollectEvent {
    Received(Message),
    TimedOut,
    StreamClosed,
}

/// What can be observed of a coordinator.
pub struct CoordinatorView {
    /// Number of agents in the run.
    pub total_agents: nat,
    /// The commands to broadcast, in order.
    pub commands: Seq<Message>,
    /// Number of agents that have subscribed to the command stream.
    pub subscribed: nat,
    /// Number of commands broadcast so far.
    pub sent: nat,
    /// Number of reports to collect: one per agent and command.
    pub expected: nat,
    /// Number of reports collected so far.
    pub collected: nat,
    /// Why collection ended, once it has.
    pub end: Option<CollectionEnd>,
}

/// The invariant of a coordinator.
pub open spec fn wf_view(v: CoordinatorView) -> bool {
    &&& v.subscribed <= v.total_agents
    &&& v.sent <= v.commands.len()
    &&& v.expected == v.total_agents * v.commands.len()
    &&& v.collected <= v.expected
    &&& (v.end == Some(CollectionEnd::CountReached) <==> v.collected == v.expected)
}

/// The coordinator after the wait for a report gave `ev`. Once collection
/// has ended nothing changes.
pub open spec fn collect_step(v: CoordinatorView, ev: CollectEvent) -> CoordinatorView {
    if v.end is Some {
        v
    } else {
        match ev {
            CollectEvent::Received(Message::StatusReport(..)) => {
                if v.collected + 1 == v.expected {
                    CoordinatorView {
                        collected: v.collected + 1,
                        end: Some(CollectionEnd::CountReached),
                        ..v
                    }
                } else {
                    CoordinatorView { collected: v.collected + 1, ..v }
                }
            },
            CollectEvent::Received(_) => CoordinatorView {
                end: Some(CollectionEnd::UnexpectedMessage),
                ..v
            },
            CollectEvent::TimedOut => CoordinatorView { end: Some(CollectionEnd::TimedOut), ..v },
            CollectEvent::StreamClosed => CoordinatorView {
                end: Some(CollectionEnd::StreamClosed),
                ..v
            },
        }
    }
}

/// The coordinator after the waits for reports gave `evs`, in order.
pub open spec fn collect_all(v: CoordinatorView, evs: Seq<CollectEvent>) -> CoordinatorView
    decreases evs.len(),
{
    if evs.len() == 0 {
        v
    } else {
        collect_all(collect_step(v, evs[0]), evs.skip(1))
    }
}

/// The decisions of the coordinator of a run: it waits until every agent has
/// subscribed, broadcasts its commands in order, then counts reports until
/// all have arrived or a wait for one ends without a report.
pub struct Coordinator {
    total_agents: u32,
    commands: Vec<Message>,
    subscribed: u32,
    sent: usize,
    expected: u64,
    collected: u64,
    end: Option<CollectionEnd>,
}

impl View for Coordinator {
    type V = CoordinatorView;

    closed spec fn view(&self) -> CoordinatorView {
        CoordinatorView {
            total_agents: self.total_agents as nat,
            commands: self.commands@,
            subscribed: self.subscribed as nat,
            sent: self.sent as nat,
            expected: self.expected as nat,
            collected: self.collected as nat,
            end: self.end,
        }
    }
}

impl Coordinator {
    /// A coordinator for `total_agents` agents that will broadcast `commands`.
    /// Where no report is expected, collection is complete from the start.
    pub fn new(total_agents: u32, commands: Vec<Message>) -> (r: Self)
        requires
            total_agents * commands@.len() <= u64::MAX,
        ensures
            wf_view(r@),
            r@.total_agents == total_agents,
            r@.commands == commands@,
            r@.subscribed == 0,
            r@.sent == 0,
            r@.collected == 0,
            r@.end == (if r@.expected == 0 {
                Some(CollectionEnd::CountReached)
            } else {
                None::<CollectionEnd>
            }),
    {
        let expected: u64 = total_agents as u64 * commands.len() as u64;
        let end = if expected == 0 {
            Some(CollectionEnd::CountReached)
        } else {
            None
        };
        Coordinator { total_agents, commands, subscribed: 0, sent: 0, expected, collected: 0, end }
    }

    /// Records that one more agent has subscribed to the command stream.
    /// Subscriptions beyond the number of agents are not counted.
    pub fn on_subscribed(&mut self)
        requires
            wf_view(old(self)@),
        ensures
            wf_view(final(self)@),
            final(self)@ == (CoordinatorView {
                subscribed: if old(self)@.subscribed < old(self)@.total_agents {
                    old(self)@.subscribed + 1
                } else {
                    old(self)@.subscribed
                },
                ..old(self)@
            }),
    {
        if self.subscribed < self.total_agents {
            self.subscribed = self.subscribed + 1;
        }
    }

    /// Whether every agent has subscribed, so that a broadcast reaches all.
    pub fn all_subscribed(&self) -> (r: bool)
        ensures
            r == (self@.subscribed == self@.total_agents),
    {
        self.subscribed == self.total_agents
    }

    /// The next command to broadcast. There is none before every agent has
    /// subscribed, since an agent never sees a command sent before it
    /// subscribed; after that the commands come once each, in order.
    pub fn next_broadcast(&mut self) -> (r: Option<Message>)
        requires
            wf_view(old(self)@),
        ensures
            wf_view(final(self)@),
            r is Some ==> old(self)@.subscribed == old(self)@.total_agents,
            if old(self)@.subscribed == old(self)@.total_agents && old(self)@.sent
                < old(self)@.commands.len() {
                &&& r == Some(old(self)@.commands[old(self)@.sent as int])
                &&& final(self)@ == (CoordinatorView { sent: old(self)@.sent + 1, ..old(self)@ })
            } else {
                &&& r is None
                &&& final(self)@ == old(self)@
            },
    {
        if self.subscribed == self.total_agents && self.sent < self.commands.len() {
            let cmd = self.commands[self.sent];
            self.sent = self.sent + 1;
            Some(cmd)
        } else {
            None
        }
    }

    /// Takes in what the wait for a report gave, and returns whether to
    /// wait for another one. Every report counts; collection ends once the
    /// expected number has arrived, or as soon as a wait gives no report.
    pub fn collect(&mut self, ev: CollectEvent) -> (r: bool)
        requires
            wf_view(old(self)@),
        ensures
            wf_view(final(self)@),
            final(self)@ == collect_step(old(self)@, ev),
            r == (final(self)@.end is None),
    {
        if self.end.is_some() {
            return false;
        }
        match ev {
            CollectEvent::Received(Message::StatusReport(..)) => {
                self.collected = self.collected + 1;
                if self.collected == self.expected {
                    self.end = Some(CollectionEnd::CountReached);
                }
            },
            CollectEvent::Received(_) => {
                self.end = Some(CollectionEnd::UnexpectedMessage);
            },
            CollectEvent::TimedOut => {
                self.end = Some(CollectionEnd::TimedOut);
            },
            CollectEvent::StreamClosed => {
                self.end = Some(CollectionEnd::StreamClosed);
            },
        }
        self.end.is_none()
    }

    /// Number of reports collected so far.
    pub fn collected(&self) -> (r: u64)
        ensures
            r == self@.collected,
    {
        self.collected
    }

    /// Number of reports expected: one per agent and command.
    pub fn expected_reports(&self) -> (r: u64)
        ensures
            r == self@.expected,
    {
        self.expected
    }

    /// Why collection ended, or `None` while it goes on.
    pub fn outcome(&self) -> (r: Option<CollectionEnd>)
        ensures
            r == self@.end,
    {
        self.end
    }
}

/// Once collection has ended, further waits change nothing.
pub proof fn lemma_ended_stays(v: CoordinatorView, evs: Seq<CollectEvent>)
    requires
        v.end is Some,
    ensures
        collect_all(v, evs) == v,
    decreases evs.len(),
{
    if evs.len() > 0 {
        lemma_ended_stays(v, evs.skip(1));
    }
}

/// Collection never waits without bound: whatever the waits give, it has
/// ended after as many waits as there are reports still missing, and the
/// count it gives never exceeds the expected one. A wait that gives no report
/// ends it with the count gathered so far.
pub proof fn lemma_collection_ends(v: CoordinatorView, evs: Seq<CollectEvent>)
    requires
        wf_view(v),
        evs.len() >= v.expected - v.collected,
    ensures
        wf_view(collect_all(v, evs)),
        collect_all(v, evs).end is Some,
        v.collected <= collect_all(v, evs).collected <= v.expected,
    decreases evs.len(),
{
    if v.end is Some {
        lemma_ended_stays(v, evs);
    } else {
        let w = collect_step(v, evs[0]);
        if w.end is Some {
            lemma_ended_stays(w, evs.skip(1));
        } else {
            lemma_collection_ends(w, evs.skip(1));
        }
    }
}

/// Reports that are all status reports, as many as are missing, complete
/// the collection by its count.
pub proof fn lemma_reports_complete(v: CoordinatorView, evs: Seq<CollectEvent>)
    requires
        wf_view(v),
        v.end is None,
        evs.len() == v.expected - v.collected,
        forall|i: int| 0 <= i < evs.len() ==> (#[trigger] evs[i] matches CollectEvent::Received(m) && m is StatusReport),
    ensures
        collect_all(v, evs).end == Some(CollectionEnd::CountReached),
        collect_all(v, evs).collected == v.expected,
    decreases evs.len(),
{
    let w = collect_step(v, evs[0]);
    assert(evs[0] matches CollectEvent::Received(m) && m is StatusReport);
    if evs.len() == 1 {
        lemma_ended_stays(w, evs.skip(1));
    } else {
        assert forall|i: int| 0 <= i < evs.skip(1).len() implies (#[trigger] evs.skip(1)[i] matches CollectEvent::Received(m) && m is StatusReport) by {
            assert(evs.skip(1)[i] == evs[i + 1]);
        }
        lemma_reports_complete(w, evs.skip(1));
    }
}

/// The reports of a swarm, as the waits for reports give them.
pub open spec fn received_all(reports: Seq<Message>) -> Seq<CollectEvent> {
    reports.map_values(|m: Message| CollectEvent::Received(m))
}

/// When the coordinator of `n` agents and `k` commands receives the reports
/// that the agents send for those commands, it collects exactly `n * k`
/// reports and ends because the count was reached, not by a timeout.
pub proof fn lemma_swarm_completes(v: CoordinatorView, agents: Seq<AgentView>)
    requires
        wf_view(v),
        v.total_agents == agents.len(),
        v.collected == 0,
        v.end is None,
    ensures
        collect_all(v, received_all(swarm_reports(agents, v.commands))).end == Some(CollectionEnd::CountReached),
        collect_all(v, received_all(swarm_reports(agents, v.commands))).collected == agents.len() * v.commands.len(),
{
    let reports = swarm_reports(agents, v.commands);
    lemma_swarm_report_count(agents, v.commands);
    lemma_swarm_reports_are_status_reports(agents, v.commands);
    let evs = received_all(reports);
    assert forall|i: int| 0 <= i < evs.len() implies (#[trigger] evs[i] matches CollectEvent::Received(m) && m is StatusReport) by {
        assert(evs[i] == CollectEvent::Received(reports[i]));
    }
    lemma_reports_complete(v, evs);
}

} // verus!
