use redshell::agents::{Agent, ControlFlow, NopAgent};
use redshell::event::Event;

#[test]
fn nop_agent_dies_on_start() {
    let mut replies: Vec<Event> = Vec::new();
    assert_eq!(NopAgent.start(&mut replies), ControlFlow::Kill);
    assert_eq!(replies.len(), 0);
}

#[test]
fn nop_agent_doesnt_react() {
    let mut replies: Vec<Event> = Vec::new();
    assert_eq!(
        NopAgent.react(&Event::CommandDone, &mut replies),
        ControlFlow::Kill
    );
    assert_eq!(replies.len(), 0);
}

struct OnlyReact;

impl Agent<u64> for OnlyReact {
    fn react(&mut self, event: &u64, replies: &mut Vec<u64>) -> ControlFlow {
        replies.push(*event + 1);
        ControlFlow::Continue
    }
}

#[test]
fn default_start_continues() {
    // an agent that only overrides react stays alive through start
    let mut replies: Vec<u64> = Vec::new();
    let mut a = OnlyReact;
    assert_eq!(a.start(&mut replies), ControlFlow::Continue);
    assert_eq!(replies.len(), 0);
}

struct OnlyStart;

impl Agent<u64> for OnlyStart {
    fn start(&mut self, replies: &mut Vec<u64>) -> ControlFlow {
        replies.push(5);
        ControlFlow::Continue
    }
}

#[test]
fn default_react_kills() {
    // an agent without a custom react dies on its first event
    let mut replies: Vec<u64> = Vec::new();
    let mut a = OnlyStart;
    assert_eq!(a.start(&mut replies), ControlFlow::Continue);
    assert_eq!(replies, vec![5]);
    assert_eq!(a.react(&7, &mut replies), ControlFlow::Kill);
    assert_eq!(replies, vec![5]);
}
