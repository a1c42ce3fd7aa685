use redshell::agents::Agent;
use redshell::cf::ControlFlow;
use redshell::event::{drain_installs, Event, Tool};
use redshell::game::{Game, Replies, Response, Runner};
use redshell::input::Action;
use redshell::output::Screen;

struct Ls;

impl Tool for Ls {
    fn name(&self) -> String {
        String::from("ls")
    }
}

struct Touch;

impl Tool for Touch {
    fn name(&self) -> String {
        String::from("touch")
    }
}

#[test]
fn npc_chat_builds_the_message() {
    let e = Event::npc_chat("alice", "hello there", &["hi", "hello", "sup"]);
    match e {
        Event::NPCChatMessage { from, text, options } => {
            assert_eq!(from, "alice");
            assert_eq!(text, "hello there");
            assert_eq!(options, vec!["hi", "hello", "sup"]);
        }
        _ => panic!("wrong variant"),
    }
}

#[test]
fn player_chat_builds_the_message() {
    let e = Event::player_chat("bob", "sup");
    match e {
        Event::PlayerChatMessage { to, text } => {
            assert_eq!(to, "bob");
            assert_eq!(text, "sup");
        }
        _ => panic!("wrong variant"),
    }
}

#[test]
fn cloned_install_event_has_no_payload() {
    let e = Event::install(Ls);
    let c = e.clone();
    match c {
        Event::Install(mut b) => assert!(b.take().is_none()),
        _ => panic!("wrong variant"),
    }
    // the original still carries the tool
    match e {
        Event::Install(mut b) => assert_eq!(b.take().unwrap().name(), "ls"),
        _ => panic!("wrong variant"),
    }
}

#[test]
fn chat_events_clone_deeply() {
    let e = Event::npc_chat("alice", "hi", &["yes", "no"]);
    let c = e.clone();
    match (e, c) {
        (
            Event::NPCChatMessage { from: f1, text: t1, options: o1 },
            Event::NPCChatMessage { from: f2, text: t2, options: o2 },
        ) => {
            assert_eq!(f1, f2);
            assert_eq!(t1, t2);
            assert_eq!(o1, o2);
        }
        _ => panic!("wrong variants"),
    }
}

#[test]
fn drain_installs_hands_each_tool_out_once() {
    let mut events = vec![
        Event::install(Ls),
        Event::CommandDone,
        Event::install(Touch),
    ];
    let tools = drain_installs(&mut events);
    assert_eq!(tools.len(), 2);
    assert_eq!(tools[0].name(), "ls");
    assert_eq!(tools[1].name(), "touch");
    // the events stay in place, emptied; a second consumer gets nothing
    assert_eq!(events.len(), 3);
    let tools = drain_installs(&mut events);
    assert_eq!(tools.len(), 0);
}

/// A host whose game runs on `Event` messages and never quits.
#[derive(Default)]
struct ChatGame {
    chats: usize,
}

impl Game for ChatGame {
    type Message = Event;

    fn input(&mut self, _input: Action, _replies: &mut Replies<Event>) -> Response {
        Response::Nothing
    }

    fn event(&mut self, event: &Event) -> Response {
        if let Event::NPCChatMessage { .. } = event {
            self.chats += 1;
        }
        Response::Nothing
    }

    fn render(&mut self, _onto: &mut Screen) {}
}

/// Answers any chat with a chat of its own.
struct Chatty;

impl Agent<Event> for Chatty {
    fn react(&mut self, event: &Event, replies: &mut Vec<Event>) -> ControlFlow {
        if let Event::NPCChatMessage { from, .. } = event {
            replies.push(Event::player_chat(from.as_str(), "hi"));
        }
        ControlFlow::Continue
    }
}

#[test]
fn runner_take_tools_consumes_install_bundles() {
    let mut runner = Runner::new(ChatGame::default())
        .queue(Event::install(Ls))
        .queue(Event::npc_chat("alice", "hello", &[]))
        .queue(Event::install(Touch));
    let tools = runner.take_tools();
    assert_eq!(tools.len(), 2);
    assert_eq!(tools[0].name(), "ls");
    assert_eq!(tools[1].name(), "touch");
    // the emptied events still flow through the round
    assert_eq!(runner.event_count(), 3);
    let tools = runner.take_tools();
    assert_eq!(tools.len(), 0);
}

#[test]
fn event_games_run_rounds() {
    let mut runner = Runner::new(ChatGame::default())
        .spawn(Chatty)
        .queue(Event::npc_chat("alice", "hello", &[]))
        .queue(Event::npc_chat("bob", "hey", &[]));
    runner.run_rounds(2);
    assert_eq!(runner.agent_count(), 1);
    assert_eq!(runner.into_game().chats, 2);
}
