use redshell::input::{Action, Key, ModState};
use redshell::output::{Cell, Color, Screen, Text, XY};
use redshell::widgets::Horizontal;

#[test]
fn screen_starts_blank() {
    let s = Screen::new(XY(4, 3));
    assert_eq!(s.size(), XY(4, 3));
    for y in 0..3 {
        for x in 0..4 {
            assert_eq!(s.cell(x, y), Cell::plain(' '));
        }
    }
}

#[test]
fn resize_clears_to_the_new_size() {
    let mut s = Screen::new(XY(2, 2));
    s.set_cell(1, 1, Cell::plain('x'));
    s.resize(XY(3, 1));
    assert_eq!(s.size(), XY(3, 1));
    for x in 0..3 {
        assert_eq!(s.cell(x, 0), Cell::plain(' '));
    }
}

#[test]
fn set_cell_changes_exactly_one_cell() {
    let mut s = Screen::new(XY(3, 2));
    s.set_cell(2, 1, Cell::plain('q'));
    assert_eq!(s.cell(2, 1), Cell::plain('q'));
    assert_eq!(s.cell(0, 0), Cell::plain(' '));
    assert_eq!(s.cell(2, 0), Cell::plain(' '));
    assert_eq!(s.cell(1, 1), Cell::plain(' '));
}

#[test]
fn horizontal_fills_its_row() {
    let mut s = Screen::new(XY(5, 3));
    Horizontal::new(1).apply(&mut s);
    for x in 0..5 {
        assert_eq!(s.cell(x, 1), Cell::plain('-'));
        assert_eq!(s.cell(x, 0), Cell::plain(' '));
        assert_eq!(s.cell(x, 2), Cell::plain(' '));
    }
}

#[test]
fn horizontal_respects_bounds_and_fill() {
    let mut s = Screen::new(XY(6, 2));
    Horizontal::new(0).start(1).end(4).fill('=').apply(&mut s);
    assert_eq!(s.cell(0, 0), Cell::plain(' '));
    assert_eq!(s.cell(1, 0), Cell::plain('='));
    assert_eq!(s.cell(3, 0), Cell::plain('='));
    assert_eq!(s.cell(4, 0), Cell::plain(' '));
}

#[test]
fn text_builders_set_fields() {
    let t = Text::plain("hi").fg(Color::Red).bg(Color::Black).bold().underline().invert();
    assert_eq!(t.text, "hi");
    assert_eq!(t.fg, Some(Color::Red));
    assert_eq!(t.bg, Some(Color::Black));
    assert!(t.bold);
    assert!(t.underline);
    assert!(t.invert);
}

#[test]
fn xy_components() {
    let p = XY(7, 9);
    assert_eq!(p.x(), 7);
    assert_eq!(p.y(), 9);
}

#[test]
fn modifier_keys_are_consumed_and_tracked() {
    let mut m = ModState::default();
    assert!(!m.hotkeying());
    assert!(m.action(&Action::KeyPress { key: Key::LeftShift }));
    assert!(m.shift);
    assert!(!m.hotkeying());
    assert!(m.action(&Action::KeyPress { key: Key::RightCtrl }));
    assert!(m.ctrl);
    assert!(m.hotkeying());
    assert!(m.action(&Action::KeyRelease { key: Key::RightCtrl }));
    assert!(!m.ctrl);
    assert!(!m.action(&Action::KeyPress { key: Key::Char('a') }));
    assert!(!m.action(&Action::Resized));
}

#[test]
fn nop_io_runner_builds_and_clones() {
    let r = redshell::iosys::NopIoRunner::new();
    let _copy = r.clone();
}
