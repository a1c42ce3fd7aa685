use redshell::agents::{Agent, ControlFlow, NopAgent, WaitHandle};
use redshell::game::{Game, Replies, Response, Runner};
use redshell::input::{Action, Key};
use redshell::output::Screen;

/// A host that tallies every event it sees, in order, and never quits.
#[derive(Default)]
struct LogGame {
    seen: Vec<u64>,
}

impl Game for LogGame {
    type Message = u64;

    fn input(&mut self, _input: Action, _replies: &mut Replies<u64>) -> Response {
        Response::Nothing
    }

    fn event(&mut self, event: &u64) -> Response {
        self.seen.push(*event);
        Response::Nothing
    }

    fn render(&mut self, _onto: &mut Screen) {}
}

/// Queues `1000 + id` from its one start and `2000 + id` from every react.
struct Marker {
    id: u64,
}

impl Agent<u64> for Marker {
    fn start(&mut self, replies: &mut Vec<u64>) -> ControlFlow {
        replies.push(1000 + self.id);
        ControlFlow::Continue
    }

    fn react(&mut self, _event: &u64, replies: &mut Vec<u64>) -> ControlFlow {
        replies.push(2000 + self.id);
        ControlFlow::Continue
    }
}

#[test]
fn start_runs_once_before_any_react() {
    let mut runner = Runner::new(LogGame::default()).spawn(Marker { id: 1 });
    runner.run_rounds(4);
    let seen = runner.into_game().seen;
    // exactly one start marker, and it comes before every react marker
    let starts = seen.iter().filter(|v| **v == 1001).count();
    assert_eq!(starts, 1);
    let first_start = seen.iter().position(|v| *v == 1001).unwrap();
    for (i, v) in seen.iter().enumerate() {
        if *v == 2001 {
            assert!(first_start < i, "react delivered before start");
        }
    }
    assert!(seen.iter().any(|v| *v == 2001), "agent never reacted");
}

/// Dies on its first react, queueing a last word.
struct OneShot;

impl Agent<u64> for OneShot {
    fn react(&mut self, _event: &u64, replies: &mut Vec<u64>) -> ControlFlow {
        replies.push(77);
        ControlFlow::Kill
    }
}

#[test]
fn killed_agent_is_gone_next_round_and_never_called_again() {
    let mut runner = Runner::new(LogGame::default()).spawn(OneShot).queue(5);
    runner.run_rounds(1);
    // the agent answered Kill mid-round; the sweep removed it
    assert_eq!(runner.agent_count(), 0);
    runner.run_rounds(3);
    let seen = runner.into_game().seen;
    // its one reply was delivered, and no further react happened
    assert_eq!(seen.iter().filter(|v| **v == 77).count(), 1);
}

#[test]
fn kill_mid_round_stops_later_events_of_the_round() {
    // two events in the same round: the agent dies on the first and must
    // not see the second
    let mut runner = Runner::new(LogGame::default()).spawn(OneShot).queue(5).queue(6);
    runner.run_rounds(2);
    let seen = runner.into_game().seen;
    assert_eq!(seen.iter().filter(|v| **v == 77).count(), 1);
}

#[test]
fn nop_agent_is_swept_without_reacting() {
    let mut runner = Runner::new(LogGame::default()).spawn(NopAgent).queue(1);
    runner.run_rounds(1);
    assert_eq!(runner.agent_count(), 0);
    runner.run_rounds(3);
    let seen = runner.into_game().seen;
    assert_eq!(seen, vec![1]);
}

/// Sleeps on a handle handed in from outside.
struct Sleeper {
    handle: Option<WaitHandle>,
}

impl Agent<u64> for Sleeper {
    fn start(&mut self, _replies: &mut Vec<u64>) -> ControlFlow {
        match self.handle.take() {
            Some(h) => ControlFlow::Handle(h),
            None => ControlFlow::Handle(WaitHandle::new()),
        }
    }

    fn react(&mut self, _event: &u64, replies: &mut Vec<u64>) -> ControlFlow {
        replies.push(88);
        ControlFlow::Kill
    }
}

#[test]
fn orphaned_sleeper_is_swept() {
    // nobody else holds the handle, so nobody could ever wake it
    let mut runner = Runner::new(LogGame::default()).spawn(Sleeper { handle: None });
    runner.run_rounds(1);
    assert_eq!(runner.agent_count(), 0);
}

#[test]
fn held_sleeper_survives_and_wakes() {
    let h = WaitHandle::new();
    let mut runner = Runner::new(LogGame::default()).spawn(Sleeper {
        handle: Some(h.clone()),
    });
    runner.run_rounds(2);
    // the test still holds a clone, so the sleeper is kept, asleep
    assert_eq!(runner.agent_count(), 1);
    h.wake();
    let mut runner = runner.queue(3);
    runner.run_rounds(2);
    let seen = runner.into_game().seen;
    assert!(seen.iter().any(|v| *v == 88), "woken sleeper never reacted");
}

#[test]
fn timed_sleeper_is_not_dispatched_before_its_deadline() {
    // rounds run far faster than the ten-minute deadline: no react happens
    struct LateRiser;
    impl Agent<u64> for LateRiser {
        fn start(&mut self, _replies: &mut Vec<u64>) -> ControlFlow {
            ControlFlow::sleep_for(600_000)
        }
        fn react(&mut self, _event: &u64, replies: &mut Vec<u64>) -> ControlFlow {
            replies.push(99);
            ControlFlow::Continue
        }
    }
    let mut runner = Runner::new(LogGame::default()).spawn(LateRiser).spawn(Relay).queue(1);
    runner.run_rounds(5);
    let seen = runner.into_game().seen;
    assert!(!seen.iter().any(|v| *v == 99), "sleeper dispatched early");
}

#[test]
fn elapsed_sleeper_is_dispatched() {
    struct EarlyRiser;
    impl Agent<u64> for EarlyRiser {
        fn start(&mut self, _replies: &mut Vec<u64>) -> ControlFlow {
            ControlFlow::sleep_for(0)
        }
        fn react(&mut self, _event: &u64, replies: &mut Vec<u64>) -> ControlFlow {
            replies.push(99);
            ControlFlow::Continue
        }
    }
    let mut runner = Runner::new(LogGame::default()).spawn(EarlyRiser).queue(1);
    runner.run_rounds(2);
    let seen = runner.into_game().seen;
    assert!(seen.iter().any(|v| *v == 99), "ready sleeper never dispatched");
}

/// Passes every event on, one round later, increased by one.
struct Relay;

impl Agent<u64> for Relay {
    fn react(&mut self, event: &u64, replies: &mut Vec<u64>) -> ControlFlow {
        replies.push(*event + 1);
        ControlFlow::Continue
    }
}

#[test]
fn queued_messages_become_next_round_events_in_order() {
    let mut runner = Runner::new(LogGame::default())
        .spawn(Relay)
        .queue(10)
        .queue(20)
        .queue(30);
    runner.run_rounds(3);
    let seen = runner.into_game().seen;
    // each round's events are exactly the previous round's replies, in
    // order, and nothing reappears uninvited
    assert_eq!(seen, vec![10, 20, 30, 11, 21, 31, 12, 22, 32]);
}

#[test]
fn replies_buffer_collects_in_order() {
    let mut replies: Replies<u64> = Replies::default();
    assert_eq!(replies.queue_len(), 0);
    assert_eq!(replies.spawn_len(), 0);
    replies.queue(4);
    replies.queue_all(vec![5, 6]);
    assert_eq!(replies.messages(), &[4, 5, 6]);
    assert_eq!(replies.queue_len(), 3);
    replies.spawn(NopAgent);
    replies.spawn_boxed(Box::new(Relay));
    assert_eq!(replies.spawn_len(), 2);
    assert_eq!(replies.agents().len(), 2);
}

/// A host that spawns an agent and queues a message on any key press, and
/// quits when told the window closed.
#[derive(Default)]
struct SpawnOnInput {
    seen: Vec<u64>,
}

impl Game for SpawnOnInput {
    type Message = u64;

    fn input(&mut self, _input: Action, replies: &mut Replies<u64>) -> Response {
        replies.spawn(Marker { id: 7 });
        replies.queue(42);
        Response::Redraw
    }

    fn event(&mut self, event: &u64) -> Response {
        self.seen.push(*event);
        Response::Nothing
    }

    fn render(&mut self, _onto: &mut Screen) {}
}

#[test]
fn host_input_spawns_and_queues() {
    let mut runner = Runner::new(SpawnOnInput::default());
    let out = runner.round(Some(Action::KeyPress { key: Key::Char('a') }));
    assert!(out.tainted);
    assert!(!out.quit);
    // the spawn was requested this round: admitted at the next boundary
    let out = runner.round(None);
    assert!(!out.quit);
    assert_eq!(runner.agent_count(), 1);
    // the queued message was that round's one event; the marker's start and
    // react replies become the round after
    let out = runner.round(None);
    assert!(!out.quit);
    let seen = runner.into_game().seen;
    assert_eq!(seen, vec![42, 1007, 2007]);
}

#[test]
fn closed_window_quits_the_round() {
    let mut runner = Runner::new(LogGame::default()).queue(9);
    let out = runner.round(Some(Action::Closed));
    assert!(out.quit);
    // the round stopped before dispatch: nothing was seen
    assert_eq!(runner.into_game().seen, Vec::<u64>::new());
}
