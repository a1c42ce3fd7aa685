use redshell::input::{Action, Key};
use redshell::output::{Color, Text};
use redshell::text_input::{TextInput, TextInputRequest};

fn plain(s: &str) -> Text {
    Text::plain(s)
}

fn bw(s: &str) -> Text {
    Text::plain(s).fg(Color::BrightWhite)
}

fn bw_u(s: &str) -> Text {
    Text::plain(s).fg(Color::BrightWhite).underline()
}

fn bb(s: &str) -> Text {
    Text::plain(s).fg(Color::BrightBlack)
}

fn bb_u(s: &str) -> Text {
    Text::plain(s).fg(Color::BrightBlack).underline()
}

fn u(s: &str) -> Text {
    Text::plain(s).underline()
}

fn press(ti: &mut TextInput, key: Key) -> TextInputRequest {
    ti.action(Action::KeyPress { key })
}

/// Feed a key as press and release, expecting both to need nothing.
fn feed_key(ti: &mut TextInput, key: Key) {
    let a = ti.action(Action::KeyPress { key });
    let b = ti.action(Action::KeyRelease { key });
    assert_eq!(a, TextInputRequest::Nothing);
    assert_eq!(b, TextInputRequest::Nothing);
}

/// Type a string, holding shift through its uppercase stretches.
fn feed_str(ti: &mut TextInput, s: &str) {
    let mut shifted = false;
    for ch in s.chars() {
        let want = ch.is_uppercase();
        if want != shifted {
            if want {
                assert_eq!(
                    ti.action(Action::KeyPress { key: Key::LeftShift }),
                    TextInputRequest::Nothing
                );
            } else {
                assert_eq!(
                    ti.action(Action::KeyRelease { key: Key::LeftShift }),
                    TextInputRequest::Nothing
                );
            }
            shifted = want;
        }
        feed_key(ti, Key::Char(ch));
    }
    if shifted {
        assert_eq!(
            ti.action(Action::KeyRelease { key: Key::LeftShift }),
            TextInputRequest::Nothing
        );
    }
}

#[test]
fn blank_renders_to_prompt() {
    let mut ti = TextInput::new("> ", 0);
    assert!(ti.tainted(), "not tainted to force initial draw");
    assert_eq!(ti.render(), vec![plain("> "), bw(""), u(" ")]);
    assert!(!ti.tainted(), "render doesn't untaint");
}

#[test]
fn text_renders_to_prompt() {
    let mut ti = TextInput::new("> ", 0);
    feed_str(&mut ti, "abcdef");
    assert!(ti.tainted(), "text input not tainted after render-relevant inputs");
    assert_eq!(ti.render(), vec![plain("> "), bw("abcdef"), u(" ")]);
}

#[test]
fn blank_renders_to_prompt_with_autocomplete() {
    let mut ti = TextInput::new("> ", 0);
    ti.set_complete("mlem".into());
    assert_eq!(
        ti.render(),
        vec![plain("> "), bw(""), bb_u("m"), bb("lem")]
    );
    assert!(!ti.tainted(), "render doesn't untaint");
}

#[test]
fn text_renders_to_prompt_with_autocomplete() {
    let mut ti = TextInput::new("> ", 0);
    feed_str(&mut ti, "abcdef");
    assert!(ti.tainted(), "text input not tainted after render-relevant inputs");
    ti.set_complete("mlem".into());
    assert!(ti.tainted(), "not tainted after visually important changes");
    assert_eq!(
        ti.render(),
        vec![plain("> "), bw("abcdef"), bb_u("m"), bb("lem")]
    );
}

#[test]
fn text_renders_to_prompt_moved_cursor() {
    let mut ti = TextInput::new("> ", 0);
    feed_str(&mut ti, "abcdef");
    feed_key(&mut ti, Key::Left);
    feed_key(&mut ti, Key::Left);
    assert!(ti.tainted(), "text input not tainted after render-relevant inputs");
    assert_eq!(
        ti.render(),
        vec![plain("> "), bw("abcd"), bw_u("e"), bw("f")]
    );
}

#[test]
fn text_renders_to_prompt_with_autocomplete_moved_cursor() {
    let mut ti = TextInput::new("> ", 0);
    feed_str(&mut ti, "abcdef");
    feed_key(&mut ti, Key::Left);
    feed_key(&mut ti, Key::Left);
    feed_key(&mut ti, Key::Left);
    feed_key(&mut ti, Key::Right);
    assert!(ti.tainted(), "text input not tainted after render-relevant inputs");
    ti.set_complete("mlem".into());
    assert!(ti.tainted(), "not tainted after visually important changes");
    assert_eq!(
        ti.render(),
        vec![plain("> "), bw("abcd"), bb_u("m"), bb("lem"), bw("ef")]
    );
}

#[test]
fn typing_uppercase() {
    let mut ti = TextInput::new("> ", 0);
    feed_str(&mut ti, "abCDef");
    assert!(ti.tainted(), "text input not tainted after render-relevant inputs");
    assert_eq!(ti.render(), vec![plain("> "), bw("abCDef"), u(" ")]);
}

#[test]
fn backspacing_chars() {
    let mut ti = TextInput::new("> ", 0);
    feed_str(&mut ti, "abcd");
    feed_key(&mut ti, Key::Backspace);
    feed_key(&mut ti, Key::Backspace);
    feed_str(&mut ti, "ef");
    assert_eq!(ti.render(), vec![plain("> "), bw("abef"), u(" ")]);
}

#[test]
fn deleting_chars() {
    let mut ti = TextInput::new("> ", 0);
    feed_str(&mut ti, "abcd");
    feed_key(&mut ti, Key::Left);
    feed_key(&mut ti, Key::Left);
    feed_key(&mut ti, Key::Delete);
    feed_key(&mut ti, Key::Delete);
    feed_str(&mut ti, "ef");
    assert_eq!(ti.render(), vec![plain("> "), bw("abef"), u(" ")]);
}

#[test]
fn tab_triggers_autocomplete() {
    let mut ti = TextInput::new("> ", 0);
    feed_str(&mut ti, "abc");
    assert_eq!(
        press(&mut ti, Key::Tab),
        TextInputRequest::Autocomplete
    );
    assert_eq!(ti.completable().as_str(), "abc");
    ti.set_complete("mlem".into());
    assert_eq!(
        ti.render(),
        vec![plain("> "), bw("abc"), bb_u("m"), bb("lem")]
    );
}

#[test]
fn tab_twice_finishes_autocomplete() {
    let mut ti = TextInput::new("> ", 0);
    feed_str(&mut ti, "abc");
    assert_eq!(
        press(&mut ti, Key::Tab),
        TextInputRequest::Autocomplete
    );
    assert_eq!(ti.completable().as_str(), "abc");
    ti.set_complete("mlem".into());
    feed_key(&mut ti, Key::Tab);
    assert_eq!(ti.render(), vec![plain("> "), bw("abcmlem"), u(" ")]);
}

#[test]
fn enter_sends_line() {
    let mut ti = TextInput::new("> ", 0);
    feed_str(&mut ti, "abc");
    assert_eq!(
        press(&mut ti, Key::Enter),
        TextInputRequest::Line("abc".into())
    );
    assert_eq!(ti.render(), vec![plain("> "), bw(""), u(" ")]);
}

#[test]
fn history_scrolls_with_arrows() {
    let mut ti = TextInput::new("> ", 10);
    feed_str(&mut ti, "abc");
    assert_eq!(
        press(&mut ti, Key::Enter),
        TextInputRequest::Line("abc".into())
    );
    feed_str(&mut ti, "def");
    assert_eq!(
        press(&mut ti, Key::Enter),
        TextInputRequest::Line("def".into())
    );
    feed_str(&mut ti, "ghi");
    assert_eq!(
        press(&mut ti, Key::Enter),
        TextInputRequest::Line("ghi".into())
    );
    assert_eq!(ti.render(), vec![plain("> "), bw(""), u(" ")]);
    feed_key(&mut ti, Key::Up);
    feed_key(&mut ti, Key::Up);
    feed_key(&mut ti, Key::Up);
    assert!(ti.tainted(), "text input not tainted after render-relevant inputs");
    assert_eq!(ti.render(), vec![plain("> "), bw("abc"), u(" ")]);
    feed_key(&mut ti, Key::Down);
    assert!(ti.tainted(), "text input not tainted after render-relevant inputs");
    assert_eq!(ti.render(), vec![plain("> "), bw("def"), u(" ")]);
}

#[test]
fn history_scroll_to_bottom_doesnt_reset_line() {
    let mut ti = TextInput::new("> ", 10);
    feed_str(&mut ti, "abc");
    assert_eq!(
        press(&mut ti, Key::Enter),
        TextInputRequest::Line("abc".into())
    );
    feed_str(&mut ti, "def");
    assert_eq!(
        press(&mut ti, Key::Enter),
        TextInputRequest::Line("def".into())
    );
    feed_str(&mut ti, "ghi");
    assert_eq!(
        press(&mut ti, Key::Enter),
        TextInputRequest::Line("ghi".into())
    );
    feed_str(&mut ti, "jkl");
    assert_eq!(ti.render(), vec![plain("> "), bw("jkl"), u(" ")]);
    feed_key(&mut ti, Key::Up);
    assert!(ti.tainted(), "text input not tainted after render-relevant inputs");
    assert_eq!(ti.render(), vec![plain("> "), bw("ghi"), u(" ")]);
    feed_key(&mut ti, Key::Down);
    assert!(ti.tainted(), "text input not tainted after render-relevant inputs");
    assert_eq!(ti.render(), vec![plain("> "), bw("jkl"), u(" ")]);
}

#[test]
fn history_selects_with_typing() {
    let mut ti = TextInput::new("> ", 10);
    feed_str(&mut ti, "abc");
    assert_eq!(
        press(&mut ti, Key::Enter),
        TextInputRequest::Line("abc".into())
    );
    feed_str(&mut ti, "def");
    assert_eq!(
        press(&mut ti, Key::Enter),
        TextInputRequest::Line("def".into())
    );
    feed_str(&mut ti, "ghi");
    assert_eq!(
        press(&mut ti, Key::Enter),
        TextInputRequest::Line("ghi".into())
    );
    feed_key(&mut ti, Key::Up);
    assert_eq!(ti.render(), vec![plain("> "), bw("ghi"), u(" ")]);
    feed_key(&mut ti, Key::Char('j'));
    assert!(ti.tainted(), "text input not tainted after render-relevant inputs");
    assert_eq!(ti.render(), vec![plain("> "), bw("ghij"), u(" ")]);
    feed_key(&mut ti, Key::Up);
    assert!(ti.tainted(), "text input not tainted after render-relevant inputs");
    assert_eq!(ti.render(), vec![plain("> "), bw("ghi"), u(" ")]);
    feed_key(&mut ti, Key::Up);
    assert!(ti.tainted(), "text input not tainted after render-relevant inputs");
    assert_eq!(ti.render(), vec![plain("> "), bw("def"), u(" ")]);
}

#[test]
fn history_selects_with_backspace() {
    let mut ti = TextInput::new("> ", 10);
    feed_str(&mut ti, "abc");
    assert_eq!(
        press(&mut ti, Key::Enter),
        TextInputRequest::Line("abc".into())
    );
    feed_str(&mut ti, "def");
    assert_eq!(
        press(&mut ti, Key::Enter),
        TextInputRequest::Line("def".into())
    );
    feed_str(&mut ti, "ghi");
    assert_eq!(
        press(&mut ti, Key::Enter),
        TextInputRequest::Line("ghi".into())
    );
    feed_key(&mut ti, Key::Up);
    assert_eq!(ti.render(), vec![plain("> "), bw("ghi"), u(" ")]);
    feed_key(&mut ti, Key::Backspace);
    assert!(ti.tainted(), "text input not tainted after render-relevant inputs");
    assert_eq!(ti.render(), vec![plain("> "), bw("gh"), u(" ")]);
    feed_key(&mut ti, Key::Up);
    assert!(ti.tainted(), "text input not tainted after render-relevant inputs");
    assert_eq!(ti.render(), vec![plain("> "), bw("ghi"), u(" ")]);
    feed_key(&mut ti, Key::Up);
    assert!(ti.tainted(), "text input not tainted after render-relevant inputs");
    assert_eq!(ti.render(), vec![plain("> "), bw("def"), u(" ")]);
}

#[test]
fn history_selects_with_enter() {
    let mut ti = TextInput::new("> ", 10);
    feed_str(&mut ti, "abc");
    assert_eq!(
        press(&mut ti, Key::Enter),
        TextInputRequest::Line("abc".into())
    );
    feed_str(&mut ti, "def");
    assert_eq!(
        press(&mut ti, Key::Enter),
        TextInputRequest::Line("def".into())
    );
    feed_str(&mut ti, "ghi");
    assert_eq!(
        press(&mut ti, Key::Enter),
        TextInputRequest::Line("ghi".into())
    );
    feed_key(&mut ti, Key::Up);
    assert_eq!(ti.render(), vec![plain("> "), bw("ghi"), u(" ")]);
    assert_eq!(
        press(&mut ti, Key::Enter),
        TextInputRequest::Line("ghi".into())
    );
    assert_eq!(ti.render(), vec![plain("> "), bw(""), u(" ")]);
    feed_key(&mut ti, Key::Up);
    assert!(ti.tainted(), "text input not tainted after render-relevant inputs");
    assert_eq!(ti.render(), vec![plain("> "), bw("ghi"), u(" ")]);
    feed_key(&mut ti, Key::Up);
    assert!(ti.tainted(), "text input not tainted after render-relevant inputs");
    assert_eq!(ti.render(), vec![plain("> "), bw("ghi"), u(" ")]);
    feed_key(&mut ti, Key::Up);
    assert!(ti.tainted(), "text input not tainted after render-relevant inputs");
    assert_eq!(ti.render(), vec![plain("> "), bw("def"), u(" ")]);
}

#[test]
fn shift_uppercases_and_plain_lowercases() {
    let mut ti = TextInput::new("> ", 0);
    // holding shift turns a lowercase key uppercase
    assert_eq!(
        ti.action(Action::KeyPress { key: Key::LeftShift }),
        TextInputRequest::Nothing
    );
    feed_key(&mut ti, Key::Char('a'));
    assert_eq!(
        ti.action(Action::KeyRelease { key: Key::LeftShift }),
        TextInputRequest::Nothing
    );
    // without shift, an uppercase key is lowered
    feed_key(&mut ti, Key::Char('Q'));
    assert_eq!(ti.render(), vec![plain("> "), bw("Aq"), u(" ")]);
}

#[test]
fn hotkeys_do_not_type() {
    let mut ti = TextInput::new("> ", 0);
    assert_eq!(
        ti.action(Action::KeyPress { key: Key::LeftCtrl }),
        TextInputRequest::Nothing
    );
    feed_key(&mut ti, Key::Char('c'));
    assert_eq!(
        ti.action(Action::KeyRelease { key: Key::LeftCtrl }),
        TextInputRequest::Nothing
    );
    assert_eq!(ti.render(), vec![plain("> "), bw(""), u(" ")]);
}
