//! A line editor: the text input widget with cursor movement, tab-completion
//! hooks, and a scrollable history of entered lines.

use vstd::prelude::*;
use crate::input::Action;
use crate::input::Key;
use crate::input::ModState;
use crate::input::apply_modifier;
use crate::input::is_modifier_action;
use crate::output::Color;
use crate::output::Text;

verus! {

/// What the text input needs from its owner after an action.
#[derive(Debug, PartialEq, Eq)]
pub enum TextInputRequest {
    /// The action needs no response.
    Nothing,
    /// The user asked to autocomplete what stands before the cursor.
    Autocomplete,
    /// The user submitted this line by pressing Enter.
    Line(String),
}

/// The uppercase expansion of one character, as the standard case mapping
/// defines it.
pub uninterp spec fn upper_of(c: char) -> Seq<char>;

/// The lowercase expansion of one character, as the standard case mapping
/// defines it.
pub uninterp spec fn lower_of(c: char) -> Seq<char>;

/// Relies on `char::to_uppercase`: the expansion depends on the character
/// alone and yields at least one character.
#[verifier::external_body]
fn upper_chars(c: char) -> (r: Vec<char>)
    ensures
        r@ == upper_of(c),
        r@.len() >= 1,
{
    c.to_uppercase().collect()
}

/// Relies on `char::to_lowercase`: the expansion depends on the character
/// alone and yields at least one character.
#[verifier::external_body]
fn lower_chars(c: char) -> (r: Vec<char>)
    ensures
        r@ == lower_of(c),
        r@.len() >= 1,
{
    c.to_lowercase().collect()
}

/// Relies on `String`'s `FromIterator<char>`: collecting characters gives
/// the string of exactly those characters.
#[verifier::external_body]
fn chars_to_string(v: &[char]) -> (r: String)
    ensures
        r@ == v@,
{
    v.iter().collect()
}

/// Relies on `str::chars`: the characters of a string, in order.
#[verifier::external_body]
fn string_to_chars(s: &str) -> (r: Vec<char>)
    ensures
        r@ == s@,
{
    s.chars().collect()
}

/// The characters of `v` in positions `[a, b)`.
fn chars_range(v: &Vec<char>, a: usize, b: usize) -> (r: Vec<char>)
    requires
        a <= b <= v@.len(),
    ensures
        r@ == v@.subrange(a as int, b as int),
{
    let mut r: Vec<char> = Vec::new();
    let mut i: usize = a;
    while i < b
        invariant
            a <= i <= b <= v@.len(),
            r@ == v@.subrange(a as int, i as int),
        decreases b - i,
    {
        r.push(v[i]);
        proof {
            assert(v@.subrange(a as int, i + 1 as int) == v@.subrange(a as int, i as int).push(
                v@[i as int],
            ));
        }
        i = i + 1;
    }
    r
}

/// Whether the line is blank: nothing but spaces, tabs and line breaks.
/// Only these plain blank characters count; any other character, exotic
/// whitespace included, makes the line worth remembering.
pub open spec fn blank_line(s: Seq<char>) -> bool {
    forall|i: int| 0 <= i < s.len() ==> is_blank_char(#[trigger] s[i])
}

/// The characters a blank line may consist of.
pub open spec fn is_blank_char(c: char) -> bool {
    c == ' ' || c == '\t' || c == '\n' || c == '\r'
}

fn is_blank(v: &Vec<char>) -> (r: bool)
    ensures
        r == blank_line(v@),
{
    let mut i: usize = 0;
    while i < v.len()
        invariant
            i <= v@.len(),
            forall|j: int| 0 <= j < i ==> is_blank_char(#[trigger] v@[j]),
        decreases v@.len() - i,
    {
        let c = v[i];
        if !(c == ' ' || c == '\t' || c == '\n' || c == '\r') {
            return false;
        }
        i = i + 1;
    }
    true
}

/// The views of the history entries, oldest first.
pub open spec fn line_views(h: Seq<Vec<char>>) -> Seq<Seq<char>> {
    h.map_values(|v: Vec<char>| v@)
}

/// Lets the user type a line of text, rendering it into a bounded area, with
/// tab-based autocomplete hooks and a history of entered lines.
#[derive(Clone)]
pub struct TextInput {
    /// The prompt displayed before the user's text.
    prompt: String,
    /// The line currently being typed.
    line: Vec<char>,
    /// The cursor position in the line being shown.
    cursor: usize,
    /// Any autocomplete text that has been offered.
    autocomplete: Vec<char>,
    /// Whether the widget needs to be redrawn since it was last rendered.
    tainted: bool,
    /// The state of the keyboard modifiers.
    modstate: ModState,
    /// Lines entered before, oldest first.
    history: Vec<Vec<char>>,
    /// Where in the history the view stands; `history.len()` means the line
    /// being typed.
    hist_pos: usize,
    /// How many history entries are kept.
    hist_cap: usize,
}

impl TextInput {
    /// The characters currently shown: a history entry while scrolled back,
    /// the line being typed otherwise.
    pub closed spec fn shown(&self) -> Seq<char> {
        if self.hist_pos < self.history@.len() {
            self.history@[self.hist_pos as int]@
        } else {
            self.line@
        }
    }

    /// The line being typed (what Enter would submit while not scrolled).
    pub closed spec fn line_view(&self) -> Seq<char> {
        self.line@
    }

    /// The prompt's characters.
    pub closed spec fn prompt_view(&self) -> Seq<char> {
        self.prompt@
    }

    /// The autocomplete text on offer.
    pub closed spec fn complete_view(&self) -> Seq<char> {
        self.autocomplete@
    }

    /// The cursor position within [`Self::shown`].
    pub closed spec fn cursor_at(&self) -> nat {
        self.cursor as nat
    }

    /// The views of the entered lines the history holds, oldest first.
    pub closed spec fn history_view(&self) -> Seq<Seq<char>> {
        line_views(self.history@)
    }

    /// How far back the view is scrolled; `history_view().len()` means not
    /// scrolled at all.
    pub closed spec fn hist_pos_at(&self) -> nat {
        self.hist_pos as nat
    }

    /// The modifier state the widget tracks.
    pub closed spec fn mods(&self) -> ModState {
        self.modstate
    }

    /// Whether the widget needs to be redrawn.
    pub closed spec fn needs_redraw(&self) -> bool {
        self.tainted
    }

    /// The widget's invariant: the cursor stays inside the shown line, the
    /// scroll position inside the history, and the history inside its cap.
    pub closed spec fn wf(&self) -> bool {
        &&& self.cursor <= self.shown().len()
        &&& self.hist_pos <= self.history@.len()
        &&& self.history@.len() <= self.hist_cap
    }

    /// A fresh text input: empty line, untainted prompt shown, remembering up
    /// to `history` entered lines.
    pub fn new(prompt: &str, history: usize) -> (r: TextInput)
        ensures
            r.wf(),
            r.prompt_view() == prompt@,
            r.line_view().len() == 0,
            r.shown().len() == 0,
            r.cursor_at() == 0,
            r.complete_view().len() == 0,
            r.needs_redraw(),
            r.history_view().len() == 0,
            r.mods() == (ModState { shift: false, ctrl: false, alt: false }),
    {
        TextInput {
            prompt: prompt.to_owned(),
            line: Vec::new(),
            cursor: 0,
            autocomplete: Vec::new(),
            tainted: true,
            modstate: ModState { shift: false, ctrl: false, alt: false },
            history: Vec::new(),
            hist_pos: 0,
            hist_cap: history,
        }
    }

    /// The text before the cursor, which an autocompleter would complete.
    pub fn completable(&self) -> (r: String)
        requires
            self.wf(),
        ensures
            r@ == self.shown().subrange(0, self.cursor_at() as int),
    {
        let cl = self.cur_line();
        let prefix = chars_range(cl, 0, self.cursor);
        chars_to_string(prefix.as_slice())
    }

    /// Offer autocomplete text, to be shown (and accepted on Tab) until the
    /// next edit.
    pub fn set_complete(&mut self, text: String)
        requires
            old(self).wf(),
        ensures
            final(self).wf(),
            final(self).complete_view() == text@,
            final(self).needs_redraw(),
            final(self).line_view() == old(self).line_view(),
            final(self).cursor_at() == old(self).cursor_at(),
            final(self).history_view() == old(self).history_view(),
            final(self).hist_pos_at() == old(self).hist_pos_at(),
            final(self).prompt_view() == old(self).prompt_view(),
            final(self).mods() == old(self).mods(),
    {
        self.autocomplete = string_to_chars(text.as_str());
        self.tainted = true;
    }

    /// Whether the widget needs to be redrawn.
    pub fn tainted(&self) -> (r: bool)
        ensures
            r == self.needs_redraw(),
    {
        self.tainted
    }

    /// The line currently shown.
    fn cur_line(&self) -> (r: &Vec<char>)
        requires
            self.hist_pos <= self.history@.len(),
        ensures
            r@ == self.shown(),
    {
        if self.hist_pos < self.history.len() {
            &self.history[self.hist_pos]
        } else {
            &self.line
        }
    }

    /// If the view is scrolled back, make the shown history entry the line
    /// being typed, and scroll to the front.
    fn pick_hist(&mut self)
        requires
            old(self).wf(),
        ensures
            final(self).wf(),
            final(self).line_view() == old(self).shown(),
            final(self).shown() == old(self).shown(),
            final(self).hist_pos_at() == final(self).history_view().len(),
            final(self).history_view() == old(self).history_view(),
            final(self).cursor_at() == old(self).cursor_at(),
            final(self).complete_view() == old(self).complete_view(),
            final(self).prompt_view() == old(self).prompt_view(),
            final(self).needs_redraw() == old(self).needs_redraw(),
            final(self).mods() == old(self).mods(),
            final(self).hist_cap == old(self).hist_cap,
    {
        if self.hist_pos == self.history.len() {
            return ;
        }
        self.line = self.history[self.hist_pos].clone();
        proof {
            vstd::std_specs::vec::axiom_spec_len(&self.line);
        }
        assert(self.line@ == old(self).history@[old(self).hist_pos as int]@);
        self.hist_pos = self.history.len();
    }

    /// Handle one key press, editing the shown line in place.
    fn keypress(&mut self, key: Key) -> (r: TextInputRequest)
        requires
            old(self).wf(),
        ensures
            final(self).wf(),
            keypress_rel(*old(self), *final(self), key, r),
    {
        let shifted = self.modstate.shift;
        match key {
            Key::Char(ch) => {
                if self.modstate.hotkeying() {
                    return TextInputRequest::Nothing;
                }
                self.pick_hist();
                let chs = if shifted {
                    upper_chars(ch)
                } else {
                    lower_chars(ch)
                };
                let tail = chars_range(&self.line, self.cursor, self.line.len());
                self.line.truncate(self.cursor);
                let mut chs2 = chs;
                let mut tail2 = tail;
                self.line.append(&mut chs2);
                self.line.append(&mut tail2);
                let nl = self.line.len();
                proof {
                    assert(self.cursor < nl);
                }
                self.cursor = self.cursor + 1;
            },
            Key::Backspace => {
                if self.cursor == 0 {
                    return TextInputRequest::Nothing;
                }
                self.pick_hist();
                self.line.remove(self.cursor - 1);
                self.cursor = self.cursor - 1;
            },
            Key::Delete => {
                if self.cursor >= self.cur_line().len() {
                    return TextInputRequest::Nothing;
                }
                self.pick_hist();
                self.line.remove(self.cursor);
            },
            Key::Left => {
                if self.cursor == 0 {
                    return TextInputRequest::Nothing;
                }
                self.cursor = self.cursor - 1;
            },
            Key::Right => {
                if self.cursor >= self.cur_line().len() {
                    return TextInputRequest::Nothing;
                }
                self.cursor = self.cursor + 1;
            },
            Key::Up => {
                if self.hist_pos == 0 {
                    return TextInputRequest::Nothing;
                }
                self.hist_pos = self.hist_pos - 1;
                self.cursor = self.cur_line().len();
            },
            Key::Down => {
                if self.hist_pos >= self.history.len() {
                    return TextInputRequest::Nothing;
                }
                self.hist_pos = self.hist_pos + 1;
                self.cursor = self.cur_line().len();
            },
            Key::Tab => {
                if self.autocomplete.len() == 0 {
                    return TextInputRequest::Autocomplete;
                }
                self.pick_hist();
                let tail = chars_range(&self.line, self.cursor, self.line.len());
                let completion = chars_range(&self.autocomplete, 0, self.autocomplete.len());
                self.line.truncate(self.cursor);
                let mut completion2 = completion;
                let mut tail2 = tail;
                self.line.append(&mut completion2);
                self.line.append(&mut tail2);
                let nl = self.line.len();
                proof {
                    assert(self.cursor + self.autocomplete@.len() <= nl);
                    assert(self.line@ =~= old(self).shown().subrange(
                        0,
                        old(self).cursor as int,
                    ) + old(self).complete_view() + old(self).shown().subrange(
                        old(self).cursor as int,
                        old(self).shown().len() as int,
                    ));
                }
                self.cursor = self.cursor + self.autocomplete.len();
            },
            Key::Enter => {
                self.pick_hist();
                self.cursor = 0;
                self.autocomplete = Vec::new();
                let mut old_line: Vec<char> = Vec::new();
                core::mem::swap(&mut old_line, &mut self.line);
                self.tainted = true;
                let ghost pre_hist = self.history@;
                let blank = is_blank(&old_line);
                if !blank && self.hist_cap > 0 {
                    if self.history.len() == self.hist_cap {
                        self.history.remove(0);
                        proof {
                            assert(line_views(self.history@) =~= line_views(pre_hist).skip(1));
                        }
                    }
                    let ghost mid_hist = self.history@;
                    let entry = chars_range(&old_line, 0, old_line.len());
                    proof {
                        assert(entry@ =~= old_line@);
                    }
                    self.history.push(entry);
                    proof {
                        assert(self.history@ == mid_hist.push(entry));
                        assert(line_views(self.history@) =~= line_views(mid_hist).push(old_line@));
                    }
                }
                self.hist_pos = self.history.len();
                let submitted = chars_to_string(old_line.as_slice());
                proof {
                    let pre = *old(self);
                    assert(old_line@ == pre.shown());
                    if blank_line(pre.shown()) || pre.hist_cap_at() == 0 {
                        assert(self.history_view() == pre.history_view());
                    } else if pre.history_view().len() < pre.hist_cap_at() {
                        assert(self.history_view() =~= pre.history_view().push(pre.shown()));
                    } else {
                        assert(pre.history_view().skip(1) =~= line_views(pre_hist).skip(1));
                        assert(self.history_view() =~= pre.history_view().skip(1).push(
                            pre.shown(),
                        ));
                    }
                }
                return TextInputRequest::Line(submitted);
            },
            _ => {
                return TextInputRequest::Nothing;
            },
        }
        self.autocomplete = Vec::new();
        self.tainted = true;
        TextInputRequest::Nothing
    }

    /// Feed one action to the widget: modifier keys update the modifier
    /// state, key presses edit the line, and everything else is ignored.
    pub fn action(&mut self, action: Action) -> (r: TextInputRequest)
        requires
            old(self).wf(),
        ensures
            final(self).wf(),
            is_modifier_action(action) ==> r == TextInputRequest::Nothing && final(self).mods()
                == apply_modifier(old(self).mods(), action) && unedited(*old(self), *final(self)),
            !is_modifier_action(action) ==> final(self).mods() == old(self).mods(),
            !is_modifier_action(action) ==> match action {
                Action::KeyPress { key } => keypress_rel(*old(self), *final(self), key, r),
                _ => r == TextInputRequest::Nothing && *final(self) == *old(self),
            },
    {
        let consumed = self.modstate.action(&action);
        if consumed {
            return TextInputRequest::Nothing;
        }
        match action {
            Action::KeyPress { key } => self.keypress(key),
            _ => TextInputRequest::Nothing,
        }
    }

    /// Build the prompt line for rendering: the prompt, the shown text in
    /// bright white with the cursor underlined, and any autocomplete offer in
    /// bright black after the cursor. Rendering clears the redraw flag.
    pub fn render(&mut self) -> (r: Vec<Text>)
        requires
            old(self).wf(),
        ensures
            final(self).wf(),
            unedited(*old(self), *final(self)),
            final(self).mods() == old(self).mods(),
            !final(self).needs_redraw(),
            render_rel(*old(self), r@),
    {
        proof {
            reveal_strlit(" ");
            assert(" "@ =~= seq![' ']);
        }
        self.tainted = false;
        let cl_len = self.cur_line().len();
        let prompt = Text::plain(self.prompt.as_str());
        if self.cursor == cl_len {
            if self.autocomplete.len() == 0 {
                let cl = self.cur_line();
                let body = Text::of(chars_to_string(cl.as_slice())).fg(Color::BrightWhite);
                let cursor_cell = Text::plain(" ").underline();
                let mut r: Vec<Text> = Vec::new();
                r.push(prompt);
                r.push(body);
                r.push(cursor_cell);
                r
            } else {
                let cl = self.cur_line();
                let body = Text::of(chars_to_string(cl.as_slice())).fg(Color::BrightWhite);
                let head = chars_range(&self.autocomplete, 0, 1);
                let rest = chars_range(&self.autocomplete, 1, self.autocomplete.len());
                let head_t = Text::of(chars_to_string(head.as_slice())).fg(
                    Color::BrightBlack,
                ).underline();
                let rest_t = Text::of(chars_to_string(rest.as_slice())).fg(Color::BrightBlack);
                let mut r: Vec<Text> = Vec::new();
                r.push(prompt);
                r.push(body);
                r.push(head_t);
                r.push(rest_t);
                r
            }
        } else {
            if self.autocomplete.len() == 0 {
                let cl = self.cur_line();
                let before = chars_range(cl, 0, self.cursor);
                let at = chars_range(cl, self.cursor, self.cursor + 1);
                let after = chars_range(cl, self.cursor + 1, cl.len());
                let before_t = Text::of(chars_to_string(before.as_slice())).fg(Color::BrightWhite);
                let at_t = Text::of(chars_to_string(at.as_slice())).fg(
                    Color::BrightWhite,
                ).underline();
                let after_t = Text::of(chars_to_string(after.as_slice())).fg(Color::BrightWhite);
                let mut r: Vec<Text> = Vec::new();
                r.push(prompt);
                r.push(before_t);
                r.push(at_t);
                r.push(after_t);
                r
            } else {
                let cl = self.cur_line();
                let before = chars_range(cl, 0, self.cursor);
                let after = chars_range(cl, self.cursor, cl.len());
                let head = chars_range(&self.autocomplete, 0, 1);
                let rest = chars_range(&self.autocomplete, 1, self.autocomplete.len());
                let before_t = Text::of(chars_to_string(before.as_slice())).fg(Color::BrightWhite);
                let head_t = Text::of(chars_to_string(head.as_slice())).fg(
                    Color::BrightBlack,
                ).underline();
                let rest_t = Text::of(chars_to_string(rest.as_slice())).fg(Color::BrightBlack);
                let after_t = Text::of(chars_to_string(after.as_slice())).fg(Color::BrightWhite);
                let mut r: Vec<Text> = Vec::new();
                r.push(prompt);
                r.push(before_t);
                r.push(head_t);
                r.push(rest_t);
                r.push(after_t);
                r
            }
        }
    }
}

/// The widget with everything but the modifier state and redraw flag as it
/// was: no edit happened.
pub open spec fn unedited(pre: TextInput, post: TextInput) -> bool {
    &&& post.line_view() == pre.line_view()
    &&& post.cursor_at() == pre.cursor_at()
    &&& post.complete_view() == pre.complete_view()
    &&& post.history_view() == pre.history_view()
    &&& post.hist_pos_at() == pre.hist_pos_at()
    &&& post.prompt_view() == pre.prompt_view()
}

/// The fields every handled key leaves behind: the autocomplete offer is
/// gone and a redraw is due, while prompt and modifiers stand.
pub open spec fn touched_common(pre: TextInput, post: TextInput) -> bool {
    &&& post.complete_view().len() == 0
    &&& post.needs_redraw()
    &&& post.prompt_view() == pre.prompt_view()
    &&& post.mods() == pre.mods()
}

/// The edited-line fields after an editing key: additionally, any history
/// scrollback was committed, so the view stands at the line being typed.
pub open spec fn edited_common(pre: TextInput, post: TextInput) -> bool {
    &&& touched_common(pre, post)
    &&& post.hist_pos_at() == post.history_view().len()
}

/// What one key press does: the exact relation between the widget before and
/// after [`TextInput::action`] handles a (non-modifier) key press.
pub open spec fn keypress_rel(pre: TextInput, post: TextInput, key: Key, r: TextInputRequest) -> bool {
    let shown = pre.shown();
    let c = pre.cursor_at() as int;
    match key {
        Key::Char(ch) => if pre.mods().ctrl || pre.mods().alt {
            r == TextInputRequest::Nothing && post == pre
        } else {
            let inserted = if pre.mods().shift {
                upper_of(ch)
            } else {
                lower_of(ch)
            };
            &&& r == TextInputRequest::Nothing
            &&& edited_common(pre, post)
            &&& post.history_view() == pre.history_view()
            &&& post.line_view() == shown.subrange(0, c) + inserted + shown.subrange(
                c,
                shown.len() as int,
            )
            &&& post.cursor_at() == pre.cursor_at() + 1
        },
        Key::Backspace => if pre.cursor_at() == 0 {
            r == TextInputRequest::Nothing && post == pre
        } else {
            &&& r == TextInputRequest::Nothing
            &&& edited_common(pre, post)
            &&& post.history_view() == pre.history_view()
            &&& post.line_view() == shown.remove(c - 1)
            &&& post.cursor_at() == pre.cursor_at() - 1
        },
        Key::Delete => if pre.cursor_at() >= shown.len() {
            r == TextInputRequest::Nothing && post == pre
        } else {
            &&& r == TextInputRequest::Nothing
            &&& edited_common(pre, post)
            &&& post.history_view() == pre.history_view()
            &&& post.line_view() == shown.remove(c)
            &&& post.cursor_at() == pre.cursor_at()
        },
        Key::Left => if pre.cursor_at() == 0 {
            r == TextInputRequest::Nothing && post == pre
        } else {
            &&& r == TextInputRequest::Nothing
            &&& touched_common(pre, post)
            &&& post.line_view() == pre.line_view()
            &&& post.history_view() == pre.history_view()
            &&& post.hist_pos_at() == pre.hist_pos_at()
            &&& post.cursor_at() == pre.cursor_at() - 1
        },
        Key::Right => if pre.cursor_at() >= shown.len() {
            r == TextInputRequest::Nothing && post == pre
        } else {
            &&& r == TextInputRequest::Nothing
            &&& touched_common(pre, post)
            &&& post.line_view() == pre.line_view()
            &&& post.history_view() == pre.history_view()
            &&& post.hist_pos_at() == pre.hist_pos_at()
            &&& post.cursor_at() == pre.cursor_at() + 1
        },
        Key::Up => if pre.hist_pos_at() == 0 {
            r == TextInputRequest::Nothing && post == pre
        } else {
            &&& r == TextInputRequest::Nothing
            &&& touched_common(pre, post)
            &&& post.line_view() == pre.line_view()
            &&& post.history_view() == pre.history_view()
            &&& post.hist_pos_at() == pre.hist_pos_at() - 1
            &&& post.cursor_at() == post.shown().len()
        },
        Key::Down => if pre.hist_pos_at() >= pre.history_view().len() {
            r == TextInputRequest::Nothing && post == pre
        } else {
            &&& r == TextInputRequest::Nothing
            &&& touched_common(pre, post)
            &&& post.line_view() == pre.line_view()
            &&& post.history_view() == pre.history_view()
            &&& post.hist_pos_at() == pre.hist_pos_at() + 1
            &&& post.cursor_at() == post.shown().len()
        },
        Key::Tab => if pre.complete_view().len() == 0 {
            r == TextInputRequest::Autocomplete && post == pre
        } else {
            &&& r == TextInputRequest::Nothing
            &&& edited_common(pre, post)
            &&& post.history_view() == pre.history_view()
            &&& post.line_view() == shown.subrange(0, c) + pre.complete_view() + shown.subrange(
                c,
                shown.len() as int,
            )
            &&& post.cursor_at() == pre.cursor_at() + pre.complete_view().len()
        },
        Key::Enter => {
            &&& (r matches TextInputRequest::Line(s) && s@ == shown)
            &&& edited_common(pre, post)
            &&& post.line_view().len() == 0
            &&& post.cursor_at() == 0
            &&& post.history_view() == (if blank_line(shown) || pre.hist_cap_at() == 0 {
                pre.history_view()
            } else if pre.history_view().len() < pre.hist_cap_at() {
                pre.history_view().push(shown)
            } else {
                pre.history_view().skip(1).push(shown)
            })
        },
        _ => r == TextInputRequest::Nothing && post == pre,
    }
}

impl TextInput {
    /// How many history entries the widget keeps.
    pub closed spec fn hist_cap_at(&self) -> nat {
        self.hist_cap as nat
    }
}

/// A formatted run with the given text, foreground, and underline, and
/// nothing else set.
pub open spec fn is_run(t: Text, s: Seq<char>, fg: Option<Color>, underline: bool) -> bool {
    &&& t.text@ == s
    &&& t.fg == fg
    &&& t.bg is None
    &&& !t.bold
    &&& t.underline == underline
    &&& !t.invert
}

/// What rendering shows for a given widget state: the prompt, the shown text
/// in bright white with the cursor underlined, and any autocomplete offer in
/// bright black.
pub open spec fn render_rel(pre: TextInput, r: Seq<Text>) -> bool {
    let shown = pre.shown();
    let c = pre.cursor_at() as int;
    let a = pre.complete_view();
    if pre.cursor_at() == shown.len() {
        if a.len() == 0 {
            &&& r.len() == 3
            &&& is_run(r[0], pre.prompt_view(), None, false)
            &&& is_run(r[1], shown, Some(Color::BrightWhite), false)
            &&& is_run(r[2], seq![' '], None, true)
        } else {
            &&& r.len() == 4
            &&& is_run(r[0], pre.prompt_view(), None, false)
            &&& is_run(r[1], shown, Some(Color::BrightWhite), false)
            &&& is_run(r[2], a.subrange(0, 1), Some(Color::BrightBlack), true)
            &&& is_run(r[3], a.subrange(1, a.len() as int), Some(Color::BrightBlack), false)
        }
    } else {
        if a.len() == 0 {
            &&& r.len() == 4
            &&& is_run(r[0], pre.prompt_view(), None, false)
            &&& is_run(r[1], shown.subrange(0, c), Some(Color::BrightWhite), false)
            &&& is_run(r[2], shown.subrange(c, c + 1), Some(Color::BrightWhite), true)
            &&& is_run(r[3], shown.subrange(c + 1, shown.len() as int), Some(Color::BrightWhite), false)
        } else {
            &&& r.len() == 5
            &&& is_run(r[0], pre.prompt_view(), None, false)
            &&& is_run(r[1], shown.subrange(0, c), Some(Color::BrightWhite), false)
            &&& is_run(r[2], a.subrange(0, 1), Some(Color::BrightBlack), true)
            &&& is_run(r[3], a.subrange(1, a.len() as int), Some(Color::BrightBlack), false)
            &&& is_run(r[4], shown.subrange(c, shown.len() as int), Some(Color::BrightWhite), false)
        }
    }
}

} // verus!
