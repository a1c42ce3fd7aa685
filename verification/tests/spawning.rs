use redshell::agents::{Agent, Bundle, ControlFlow};
use redshell::game::{Game, Replies, Response, Runner};
use redshell::input::Action;
use redshell::output::Screen;

/// A message type of the driver's own, whose `Spawn` variant carries a
/// bundled agent across the round boundary.
enum Msg {
    Spawn(Bundle<Box<dyn Agent<Msg>>>),
    Num(u64),
}

impl Clone for Msg {
    fn clone(&self) -> Msg {
        match self {
            // a copy of a spawn event never duplicates the payload
            Msg::Spawn(_) => Msg::Spawn(Bundle::empty()),
            Msg::Num(v) => Msg::Num(*v),
        }
    }
}

/// Queues a greeting forever once started.
struct Child;

impl Agent<Msg> for Child {
    fn react(&mut self, _event: &Msg, replies: &mut Vec<Msg>) -> ControlFlow {
        replies.push(Msg::Num(7));
        ControlFlow::Continue
    }
}

/// On start, asks the scheduler (through its driver) to admit a `Child`, by
/// queueing a bundle event; then dies.
struct Parent;

impl Agent<Msg> for Parent {
    fn start(&mut self, replies: &mut Vec<Msg>) -> ControlFlow {
        replies.push(Msg::Spawn(Bundle::new(Box::new(Child))));
        replies.push(Msg::Num(1));
        ControlFlow::Kill
    }
}

#[derive(Default)]
struct CountGame {
    nums: Vec<u64>,
    spawn_events: usize,
}

impl Game for CountGame {
    type Message = Msg;

    fn input(&mut self, _input: Action, _replies: &mut Replies<Msg>) -> Response {
        Response::Nothing
    }

    fn event(&mut self, event: &Msg) -> Response {
        match event {
            Msg::Spawn(_) => self.spawn_events += 1,
            Msg::Num(v) => self.nums.push(*v),
        }
        Response::Nothing
    }

    fn render(&mut self, _onto: &mut Screen) {}
}

/// Consume every spawn bundle among the current events — the driver is their
/// sole designated consumer — and admit the carried agents; the emptied
/// events stay in place for the round to deliver.
fn consume_spawns(runner: &mut Runner<CountGame>) -> usize {
    let mut taken = 0;
    let mut evs = runner.take_events();
    for ev in evs.iter_mut() {
        if let Msg::Spawn(b) = ev {
            if let Some(agent) = b.take() {
                runner.enlist(agent);
                taken += 1;
            }
        }
    }
    runner.give_events(evs);
    taken
}

#[test]
fn agents_spawn_agents_through_bundles() {
    let mut runner = Runner::new(CountGame::default()).spawn(Parent);
    // round 1: the parent starts, queues the bundle event, and dies
    runner.round(None);
    assert_eq!(runner.agent_count(), 0);
    // the bundle event is now current: the driver consumes it exactly once
    assert_eq!(consume_spawns(&mut runner), 1);
    assert_eq!(consume_spawns(&mut runner), 0);
    // round 2: the child is admitted and sees the (emptied) event
    runner.round(None);
    assert_eq!(runner.agent_count(), 1);
    // round 3: the child's reply arrives
    runner.round(None);
    let game = runner.into_game();
    assert_eq!(game.spawn_events, 1);
    assert_eq!(game.nums, vec![1, 7, 7]);
}
