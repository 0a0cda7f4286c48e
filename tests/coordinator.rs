use swarm::agent::{Agent, AgentAction, AgentEvent};
use swarm::coordinator::{CollectEvent, CollectionEnd, Coordinator};
use swarm::types::{Message, Position, State};

fn pos(x: f64, y: f64) -> Position {
    Position { x: x.to_bits(), y: y.to_bits() }
}

fn mission() -> Vec<Message> {
    vec![Message::MoveTo(pos(150.0, 200.0)), Message::ScanSector]
}

fn report(id: u32) -> CollectEvent {
    CollectEvent::Received(Message::StatusReport(id, State::Scanning, pos(0.0, 0.0)))
}

#[test]
fn no_broadcast_before_all_subscribed() {
    let mut c = Coordinator::new(3, mission());
    assert_eq!(c.next_broadcast(), None);
    c.on_subscribed();
    c.on_subscribed();
    assert!(!c.all_subscribed());
    assert_eq!(c.next_broadcast(), None);
    c.on_subscribed();
    assert!(c.all_subscribed());
    assert_eq!(c.next_broadcast(), Some(Message::MoveTo(pos(150.0, 200.0))));
    assert_eq!(c.next_broadcast(), Some(Message::ScanSector));
    assert_eq!(c.next_broadcast(), None);
}

#[test]
fn extra_subscription_not_counted() {
    let mut c = Coordinator::new(1, mission());
    c.on_subscribed();
    c.on_subscribed();
    assert!(c.all_subscribed());
    assert_eq!(c.next_broadcast(), Some(Message::MoveTo(pos(150.0, 200.0))));
}

#[test]
fn three_agents_two_commands_collect_six() {
    let mut c = Coordinator::new(3, mission());
    for _ in 0..3 {
        c.on_subscribed();
    }
    let mut agents: Vec<Agent> = (1..=3u32).map(|id| Agent::new(id, pos(id as f64 * 10.0, 0.0))).collect();
    let mut reports = Vec::new();
    while let Some(cmd) = c.next_broadcast() {
        for agent in agents.iter_mut() {
            match agent.handle(AgentEvent::Received(cmd)) {
                AgentAction::SendReport(r) => reports.push(r),
                AgentAction::Finish(_) => panic!("agent stopped"),
            }
        }
    }
    assert_eq!(c.expected_reports(), 6);
    assert_eq!(reports.len(), 6);
    let mut waiting = true;
    for r in reports {
        assert!(waiting);
        waiting = c.collect(CollectEvent::Received(r));
    }
    assert!(!waiting);
    assert_eq!(c.collected(), 6);
    assert_eq!(c.outcome(), Some(CollectionEnd::CountReached));
}

#[test]
fn timeout_gives_partial_count() {
    let mut c = Coordinator::new(3, mission());
    assert!(c.collect(report(1)));
    assert!(c.collect(report(2)));
    assert!(!c.collect(CollectEvent::TimedOut));
    assert_eq!(c.collected(), 2);
    assert_eq!(c.outcome(), Some(CollectionEnd::TimedOut));
    assert!(!c.collect(report(3)));
    assert_eq!(c.collected(), 2);
}

#[test]
fn closed_stream_ends_collection() {
    let mut c = Coordinator::new(2, mission());
    assert!(c.collect(report(1)));
    assert!(!c.collect(CollectEvent::StreamClosed));
    assert_eq!(c.collected(), 1);
    assert_eq!(c.outcome(), Some(CollectionEnd::StreamClosed));
}

#[test]
fn unexpected_message_ends_collection() {
    let mut c = Coordinator::new(2, mission());
    assert!(!c.collect(CollectEvent::Received(Message::ScanSector)));
    assert_eq!(c.collected(), 0);
    assert_eq!(c.outcome(), Some(CollectionEnd::UnexpectedMessage));
}

#[test]
fn nothing_expected_is_complete_at_once() {
    let mut c = Coordinator::new(0, mission());
    assert_eq!(c.expected_reports(), 0);
    assert_eq!(c.outcome(), Some(CollectionEnd::CountReached));
    assert!(!c.collect(report(1)));
    assert_eq!(c.collected(), 0);
}

#[test]
fn collection_in_progress_has_no_outcome() {
    let mut c = Coordinator::new(4, mission());
    assert_eq!(c.expected_reports(), 8);
    assert_eq!(c.outcome(), None);
    assert!(c.collect(report(1)));
    assert_eq!(c.outcome(), None);
}
