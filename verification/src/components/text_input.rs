//! A single-line text input over a text-editing widget, driven by the widget's own
//! key map or by a small modal (Vim-style) state machine.
use ratatui_textarea::Key::{
    Backspace, Char, Delete, Down, End, Enter, Esc, Home, Left, Null, PageDown, PageUp, Right, Tab,
    Up, F,
};
use ratatui_textarea::{CursorMove, TextArea};
use vstd::prelude::*;
use vstd::string::*;

use crate::config::EditingMode;
use crate::keys::{KeyCode, KeyEvent};
use crate::text::{join, joined_with, texts};

verus! {

// ── The editing widget ──────────────────────────────────────────────────────

/// A key as the editing widget takes it.
#[derive(Clone, Copy, Debug, PartialEq, Eq, Structural)]
pub enum InputKey {
    Char(char),
    F(u8),
    Backspace,
    Enter,
    Left,
    Right,
    Up,
    Down,
    Tab,
    Delete,
    Home,
    End,
    PageUp,
    PageDown,
    Esc,
    Null,
}

/// A key with its modifiers, as the editing widget takes it.
#[derive(Clone, Copy, Debug, PartialEq, Eq, Structural)]
pub struct Input {
    pub key: InputKey,
    pub ctrl: bool,
    pub alt: bool,
    pub shift: bool,
}

/// A movement of the cursor.
#[derive(Clone, Copy, Debug, PartialEq, Eq, Structural)]
pub enum Motion {
    Back,
    Forward,
    Up,
    Down,
    Head,
    End,
    WordForward,
    WordEnd,
    WordBack,
}

/// One operation on the editing widget.
pub ghost enum Edit {
    /// A key through the widget's own key map.
    Shortcut(Input),
    /// A key that only edits.
    Plain(Input),
    Text(Seq<char>),
    Move(Motion),
    DeleteNextChar,
    DeleteToEnd,
    Paste,
    Undo,
    Redo,
    StartSelection,
    CancelSelection,
    Cut,
    Copy,
    Mask(char),
}

/// `ratatui_textarea::TextArea`, which owns the text, the cursor, the selection,
/// the yank buffer and the undo history. It is only ever driven by the operations
/// below, never drawn, so what it holds follows from those operations alone. The keys that
/// would scroll what is drawn do not reach it.
#[verifier::external_body]
pub struct Editor {
    area: TextArea<'static>,
}

/// The operations that an editor has gone through since it was made.
pub uninterp spec fn edits(e: Editor) -> Seq<Edit>;

/// The lines that the operations leave in an editor.
pub uninterp spec fn lines_after(log: Seq<Edit>) -> Seq<Seq<char>>;

/// Where the operations leave the cursor: row and column, in characters.
pub uninterp spec fn cursor_after(log: Seq<Edit>) -> (usize, usize);

/// The selection that the operations leave, from its smaller end to its larger.
pub uninterp spec fn selection_after(log: Seq<Edit>) -> Option<((usize, usize), (usize, usize))>;

/// The text that was typed, where the operations only type at the end: plain
/// characters, pasted text without line breaks, and moves to the end of the line.
pub open spec fn typed(log: Seq<Edit>) -> Option<Seq<char>>
    decreases log.len(),
{
    if log.len() == 0 {
        Some(Seq::empty())
    } else {
        match (typed(log.drop_last()), log.last()) {
            (Some(t), Edit::Plain(i)) => match i.key {
                InputKey::Char(c) if !i.ctrl && !i.alt && c != '\n' && c != '\r' => Some(t.push(c)),
                _ => None,
            },
            (Some(t), Edit::Shortcut(i)) => match i.key {
                InputKey::Char(c) if !i.ctrl && !i.alt && c != '\n' && c != '\r' => Some(t.push(c)),
                _ => None,
            },
            (Some(t), Edit::Text(s)) => if !s.contains('\n') && !s.contains('\r') {
                Some(t + s)
            } else {
                None
            },
            (Some(t), Edit::Move(Motion::End)) => Some(t),
            (Some(t), Edit::Mask(_)) => Some(t),
            _ => None,
        }
    }
}

/// `TextArea::default`: an editor with one empty line.
#[verifier::external_body]
fn editor_new() -> (r: Editor)
    ensures
        edits(r) == Seq::<Edit>::empty(),
{
    Editor { area: TextArea::default() }
}

/// `TextArea::input`: one key through the widget's own key map.
#[verifier::external_body]
fn editor_input(e: &mut Editor, i: Input)
    ensures
        edits(*final(e)) == edits(*old(e)).push(Edit::Shortcut(i)),
{
    let key = match i.key {
        InputKey::Char(c) => Char(c), InputKey::F(n) => F(n),
        InputKey::Backspace => Backspace, InputKey::Enter => Enter,
        InputKey::Left => Left, InputKey::Right => Right,
        InputKey::Up => Up, InputKey::Down => Down,
        InputKey::Tab => Tab, InputKey::Delete => Delete,
        InputKey::Home => Home, InputKey::End => End,
        InputKey::PageUp => PageUp, InputKey::PageDown => PageDown,
        InputKey::Esc => Esc, InputKey::Null => Null,
    };
    e.area.input(ratatui_textarea::Input { key, ctrl: i.ctrl, alt: i.alt, shift: i.shift });
}

/// `TextArea::input_without_shortcuts`: one key that only edits.
#[verifier::external_body]
fn editor_input_plain(e: &mut Editor, i: Input)
    ensures
        edits(*final(e)) == edits(*old(e)).push(Edit::Plain(i)),
{
    let key = match i.key {
        InputKey::Char(c) => Char(c), InputKey::F(n) => F(n),
        InputKey::Backspace => Backspace, InputKey::Enter => Enter,
        InputKey::Left => Left, InputKey::Right => Right,
        InputKey::Up => Up, InputKey::Down => Down,
        InputKey::Tab => Tab, InputKey::Delete => Delete,
        InputKey::Home => Home, InputKey::End => End,
        InputKey::PageUp => PageUp, InputKey::PageDown => PageDown,
        InputKey::Esc => Esc, InputKey::Null => Null,
    };
    e.area.input_without_shortcuts(ratatui_textarea::Input { key, ctrl: i.ctrl, alt: i.alt, shift: i.shift });
}

/// `TextArea::insert_str`: text at the cursor.
#[verifier::external_body]
fn editor_insert(e: &mut Editor, s: &str)
    ensures
        edits(*final(e)) == edits(*old(e)).push(Edit::Text(s@)),
{
    e.area.insert_str(s);
}

/// `TextArea::move_cursor`: one movement of the cursor.
#[verifier::external_body]
fn editor_move(e: &mut Editor, m: Motion)
    ensures
        edits(*final(e)) == edits(*old(e)).push(Edit::Move(m)),
{
    e.area.move_cursor(match m {
        Motion::Back => CursorMove::Back,
        Motion::Forward => CursorMove::Forward,
        Motion::Up => CursorMove::Up,
        Motion::Down => CursorMove::Down,
        Motion::Head => CursorMove::Head,
        Motion::End => CursorMove::End,
        Motion::WordForward => CursorMove::WordForward,
        Motion::WordEnd => CursorMove::WordEnd,
        Motion::WordBack => CursorMove::WordBack,
    });
}

/// `TextArea::delete_next_char`: deletes the character under the cursor.
#[verifier::external_body]
fn editor_delete_next_char(e: &mut Editor)
    ensures
        edits(*final(e)) == edits(*old(e)).push(Edit::DeleteNextChar),
{
    e.area.delete_next_char();
}

/// `TextArea::delete_line_by_end`: deletes from the cursor to the end of the line.
#[verifier::external_body]
fn editor_delete_to_end(e: &mut Editor)
    ensures
        edits(*final(e)) == edits(*old(e)).push(Edit::DeleteToEnd),
{
    e.area.delete_line_by_end();
}

/// `TextArea::paste`: the yank buffer at the cursor.
#[verifier::external_body]
fn editor_paste(e: &mut Editor)
    ensures
        edits(*final(e)) == edits(*old(e)).push(Edit::Paste),
{
    e.area.paste();
}

/// `TextArea::undo`: takes back the last modification.
#[verifier::external_body]
fn editor_undo(e: &mut Editor)
    ensures
        edits(*final(e)) == edits(*old(e)).push(Edit::Undo),
{
    e.area.undo();
}

/// `TextArea::redo`: repeats the modification last taken back.
#[verifier::external_body]
fn editor_redo(e: &mut Editor)
    ensures
        edits(*final(e)) == edits(*old(e)).push(Edit::Redo),
{
    e.area.redo();
}

/// `TextArea::start_selection`: begins a selection at the cursor.
#[verifier::external_body]
fn editor_start_selection(e: &mut Editor)
    ensures
        edits(*final(e)) == edits(*old(e)).push(Edit::StartSelection),
{
    e.area.start_selection();
}

/// `TextArea::cancel_selection`: gives the selection up.
#[verifier::external_body]
fn editor_cancel_selection(e: &mut Editor)
    ensures
        edits(*final(e)) == edits(*old(e)).push(Edit::CancelSelection),
{
    e.area.cancel_selection();
}

/// `TextArea::cut`: moves the selected text into the yank buffer.
#[verifier::external_body]
fn editor_cut(e: &mut Editor)
    ensures
        edits(*final(e)) == edits(*old(e)).push(Edit::Cut),
{
    e.area.cut();
}

/// `TextArea::copy`: copies the selected text into the yank buffer.
#[verifier::external_body]
fn editor_copy(e: &mut Editor)
    ensures
        edits(*final(e)) == edits(*old(e)).push(Edit::Copy),
{
    e.area.copy();
}

/// `TextArea::set_mask_char`: shows every character as `c`.
#[verifier::external_body]
fn editor_mask(e: &mut Editor, c: char)
    ensures
        edits(*final(e)) == edits(*old(e)).push(Edit::Mask(c)),
{
    e.area.set_mask_char(c);
}

/// `TextArea::lines`: the text. Where the operations only typed at the end, it is
/// one line that holds what was typed.
#[verifier::external_body]
fn editor_lines(e: &Editor) -> (r: Vec<String>)
    ensures
        texts(r@) == lines_after(edits(*e)),
        typed(edits(*e)) matches Some(t) ==> texts(r@) == seq![t],
{
    e.area.lines().to_vec()
}

/// `TextArea::cursor`: where the cursor stands.
#[verifier::external_body]
fn editor_cursor(e: &Editor) -> (r: (usize, usize))
    ensures
        r == cursor_after(edits(*e)),
{
    let c = e.area.cursor();
    (c.0, c.1)
}

/// `TextArea::selection_range`: what is selected.
#[verifier::external_body]
fn editor_selection(e: &Editor) -> (r: Option<((usize, usize), (usize, usize))>)
    ensures
        r == selection_after(edits(*e)),
{
    e.area.selection_range()
}

/// The key that the widget takes for a key event.
pub open spec fn input_key(code: KeyCode) -> InputKey {
    match code {
        KeyCode::Char(c) => InputKey::Char(c),
        KeyCode::Backspace => InputKey::Backspace,
        KeyCode::Enter => InputKey::Enter,
        KeyCode::Left => InputKey::Left,
        KeyCode::Right => InputKey::Right,
        KeyCode::Up => InputKey::Up,
        KeyCode::Down => InputKey::Down,
        KeyCode::Tab => InputKey::Tab,
        KeyCode::Delete => InputKey::Delete,
        KeyCode::Home => InputKey::Home,
        KeyCode::End => InputKey::End,
        KeyCode::PageUp => InputKey::PageUp,
        KeyCode::PageDown => InputKey::PageDown,
        KeyCode::Esc => InputKey::Esc,
        KeyCode::F(n) => InputKey::F(n),
        _ => InputKey::Null,
    }
}

/// What the widget takes for a key event.
pub open spec fn input_of(key: KeyEvent) -> Input {
    Input {
        key: input_key(key.code),
        ctrl: key.modifiers.control,
        alt: key.modifiers.alt,
        shift: key.modifiers.shift,
    }
}

/// Converts a key event into what the widget takes.
pub fn to_input(key: KeyEvent) -> (r: Input)
    ensures
        r == input_of(key),
{
    let k = match key.code {
        KeyCode::Char(c) => InputKey::Char(c),
        KeyCode::Backspace => InputKey::Backspace,
        KeyCode::Enter => InputKey::Enter,
        KeyCode::Left => InputKey::Left,
        KeyCode::Right => InputKey::Right,
        KeyCode::Up => InputKey::Up,
        KeyCode::Down => InputKey::Down,
        KeyCode::Tab => InputKey::Tab,
        KeyCode::Delete => InputKey::Delete,
        KeyCode::Home => InputKey::Home,
        KeyCode::End => InputKey::End,
        KeyCode::PageUp => InputKey::PageUp,
        KeyCode::PageDown => InputKey::PageDown,
        KeyCode::Esc => InputKey::Esc,
        KeyCode::F(n) => InputKey::F(n),
        _ => InputKey::Null,
    };
    Input {
        key: k,
        ctrl: key.modifiers.control,
        alt: key.modifiers.alt,
        shift: key.modifiers.shift,
    }
}

// ── Scrolling ───────────────────────────────────────────────────────────────

/// The movement of a key that scrolls by a page. The widget scrolls by the lines that it has
/// drawn and keeps the cursor among them, in its column. A field is drawn one line high, so
/// that the cursor goes one line down or up, or stays where there is no further line.
pub open spec fn page_motion(i: Input) -> Option<Motion> {
    if i.key == InputKey::PageDown || (i.key == InputKey::Char('v') && i.ctrl && !i.alt) {
        Some(Motion::Down)
    } else if i.key == InputKey::PageUp || (i.key == InputKey::Char('v') && !i.ctrl && i.alt) {
        Some(Motion::Up)
    } else {
        None
    }
}

/// What a key does under Emacs-style editing, after these operations: the widget's own key
/// map decides, but for the keys that scroll. Such a key extends the selection with shift,
/// and gives it up without.
pub open spec fn emacs_edits(log: Seq<Edit>, i: Input) -> Seq<Edit> {
    match page_motion(i) {
        None => seq![Edit::Shortcut(i)],
        Some(m) => if !i.shift {
            seq![Edit::CancelSelection, Edit::Move(m)]
        } else if selection_after(log) is None {
            seq![Edit::StartSelection, Edit::Move(m)]
        } else {
            seq![Edit::Move(m)]
        },
    }
}

fn emacs_key(e: &mut Editor, i: Input)
    ensures
        edits(*final(e)) == edits(*old(e)) + emacs_edits(edits(*old(e)), i),
{
    let ghost start = edits(*e);
    let down: bool = i.key == InputKey::PageDown || (i.key == InputKey::Char('v') && i.ctrl
        && !i.alt);
    let up: bool = i.key == InputKey::PageUp || (i.key == InputKey::Char('v') && !i.ctrl && i.alt);
    if down || up {
        if !i.shift {
            editor_cancel_selection(e);
        } else if editor_selection(e).is_none() {
            editor_start_selection(e);
        }
        editor_move(
            e,
            if down {
                Motion::Down
            } else {
                Motion::Up
            },
        );
    } else {
        editor_input(e, i);
    }
    proof {
        assert(edits(*e) =~= start + emacs_edits(start, i));
    }
}

// ── The modal state machine ─────────────────────────────────────────────────

/// The sub-mode of a field under Vim-style editing.
#[derive(Clone, Copy, Debug, PartialEq, Eq, Structural)]
pub enum VimMode {
    /// Motions and operators.
    Normal,
    /// Plain text entry.
    Insert,
    /// A selection is active.
    Visual,
    /// An operator waits for a motion.
    Operator(char),
}

/// The state of Vim-style editing.
#[derive(Clone, Copy, Debug, PartialEq, Eq, Structural)]
pub struct VimState {
    pub mode: VimMode,
    /// The count typed so far, as the `2` in `2dw`.
    pub count: Option<usize>,
}

/// Normal mode without a count.
pub open spec fn vim_start() -> VimState {
    VimState { mode: VimMode::Normal, count: None }
}

impl Default for VimState {
    fn default() -> (r: VimState)
        ensures
            r == vim_start(),
    {
        VimState { mode: VimMode::Normal, count: None }
    }
}

/// The command character of a key: arrows stand for `hjkl`, Home and End for `0`
/// and `$`.
pub open spec fn command_of(i: Input) -> Option<char> {
    match i.key {
        InputKey::Char(c) => Some(c),
        InputKey::Left | InputKey::Backspace => Some('h'),
        InputKey::Right => Some('l'),
        InputKey::Up => Some('k'),
        InputKey::Down => Some('j'),
        InputKey::Home => Some('0'),
        InputKey::End => Some('$'),
        InputKey::Delete => Some('x'),
        _ => None,
    }
}

/// Whether a command character extends the count: a digit, but a `0` only once a
/// count has begun.
pub open spec fn is_count(v: VimState, c: char) -> bool {
    '0' <= c && c <= '9' && (c != '0' || v.count is Some)
}

/// The count with one more digit.
pub open spec fn next_count(v: VimState, c: char) -> int {
    (match v.count {
        Some(n) => n as int,
        None => 0,
    }) * 10 + (c as int - 48)
}

/// How often a command is carried out.
pub open spec fn repeats(v: VimState) -> nat {
    match v.count {
        Some(n) => n as nat,
        None => 1,
    }
}

/// The same operation `n` times.
pub open spec fn times(n: nat, e: Edit) -> Seq<Edit> {
    Seq::new(n, |i: int| e)
}

/// The edits that a motion character stands for, carried out `n` times where the
/// motion takes a count.
pub open spec fn motion_edits(c: char, n: nat) -> Option<Seq<Edit>> {
    if c == 'h' {
        Some(times(n, Edit::Move(Motion::Back)))
    } else if c == 'l' {
        Some(times(n, Edit::Move(Motion::Forward)))
    } else if c == 'w' {
        Some(times(n, Edit::Move(Motion::WordForward)))
    } else if c == 'e' {
        Some(times(n, Edit::Move(Motion::WordEnd)))
    } else if c == 'b' {
        Some(times(n, Edit::Move(Motion::WordBack)))
    } else if c == '0' || c == '^' {
        Some(seq![Edit::Move(Motion::Head)])
    } else if c == '$' {
        Some(seq![Edit::Move(Motion::End)])
    } else {
        None
    }
}

/// What a key does in Insert mode.
pub open spec fn insert_step(v: VimState, i: Input) -> (VimState, Seq<Edit>) {
    if i.key == InputKey::Esc || (i.ctrl && i.key == InputKey::Char('c')) {
        (VimState { mode: VimMode::Normal, ..v }, seq![Edit::Move(Motion::Back)])
    } else {
        (v, seq![Edit::Plain(i)])
    }
}

/// What a command character does in Normal mode, once the count is taken.
pub open spec fn normal_command(c: char, n: nat) -> (VimMode, Seq<Edit>) {
    let none = Seq::<Edit>::empty();
    match motion_edits(c, n) {
        Some(es) => (VimMode::Normal, es),
        None => if c == 'j' {
            (VimMode::Normal, times(n, Edit::Move(Motion::Down)))
        } else if c == 'k' {
            (VimMode::Normal, times(n, Edit::Move(Motion::Up)))
        } else if c == 'i' {
            (VimMode::Insert, none)
        } else if c == 'I' {
            (VimMode::Insert, seq![Edit::Move(Motion::Head)])
        } else if c == 'a' {
            (VimMode::Insert, seq![Edit::Move(Motion::Forward)])
        } else if c == 'A' || c == 'o' || c == 'O' {
            (VimMode::Insert, seq![Edit::Move(Motion::End)])
        } else if c == 'x' {
            (VimMode::Normal, times(n, Edit::DeleteNextChar))
        } else if c == 'D' {
            (VimMode::Normal, seq![Edit::DeleteToEnd])
        } else if c == 'C' {
            (VimMode::Insert, seq![Edit::DeleteToEnd])
        } else if c == 's' {
            (VimMode::Insert, seq![Edit::DeleteNextChar])
        } else if c == 'p' || c == 'P' {
            (VimMode::Normal, seq![Edit::Paste])
        } else if c == 'u' {
            (VimMode::Normal, seq![Edit::Undo])
        } else if c == 'v' {
            (VimMode::Visual, seq![Edit::StartSelection])
        } else if c == 'd' || c == 'c' || c == 'y' {
            (VimMode::Operator(c), none)
        } else {
            (VimMode::Normal, none)
        },
    }
}

/// What a key does in Normal mode. A count before an operator waits with it for the motion.
pub open spec fn normal_step(v: VimState, i: Input) -> (VimState, Seq<Edit>) {
    let none = Seq::<Edit>::empty();
    if i.ctrl && i.key == InputKey::Char('r') {
        (VimState { count: None, ..v }, seq![Edit::Redo])
    } else {
        match command_of(i) {
            None => (VimState { count: None, ..v }, none),
            Some(c) => if is_count(v, c) {
                (VimState { count: Some(next_count(v, c) as usize), ..v }, none)
            } else {
                let (mode, es) = normal_command(c, repeats(v));
                let count = if mode is Operator {
                    v.count
                } else {
                    None
                };
                (VimState { mode, count }, es)
            },
        }
    }
}

/// What a key does while a selection is active.
pub open spec fn visual_step(v: VimState, i: Input) -> (VimState, Seq<Edit>) {
    let none = Seq::<Edit>::empty();
    if i.key == InputKey::Esc {
        (VimState { mode: VimMode::Normal, ..v }, seq![Edit::CancelSelection])
    } else {
        match command_of(i) {
            None => (v, none),
            Some(c) => if is_count(v, c) {
                (VimState { count: Some(next_count(v, c) as usize), ..v }, none)
            } else {
                let (mode, es) = match motion_edits(c, repeats(v)) {
                    Some(es) => (VimMode::Visual, es),
                    None => if c == 'd' || c == 'x' {
                        (VimMode::Normal, seq![Edit::Cut])
                    } else if c == 'c' {
                        (VimMode::Insert, seq![Edit::Cut])
                    } else if c == 'y' {
                        (VimMode::Normal, seq![Edit::Copy, Edit::CancelSelection])
                    } else if c == 'v' {
                        (VimMode::Normal, seq![Edit::CancelSelection])
                    } else {
                        (VimMode::Visual, none)
                    },
                };
                (VimState { mode, count: None }, es)
            },
        }
    }
}

/// What an operator does to the selection.
pub open spec fn operator_end(op: char) -> (VimMode, Seq<Edit>) {
    if op == 'd' {
        (VimMode::Normal, seq![Edit::Cut])
    } else if op == 'c' {
        (VimMode::Insert, seq![Edit::Cut])
    } else if op == 'y' {
        (VimMode::Normal, seq![Edit::Copy, Edit::CancelSelection])
    } else {
        (VimMode::Normal, Seq::empty())
    }
}

/// What a key does while an operator waits for a motion: a doubled operator takes
/// the whole line, a motion takes what it moves across, anything else gives up.
pub open spec fn operator_step(v: VimState, op: char, i: Input) -> (VimState, Seq<Edit>) {
    if i.key == InputKey::Esc {
        (vim_start(), Seq::empty())
    } else {
        match command_of(i) {
            None => (vim_start(), Seq::empty()),
            Some(c) => if c == op {
                let (mode, es) = operator_end(op);
                (
                    VimState { mode, count: None },
                    seq![
                        Edit::Move(Motion::Head),
                        Edit::StartSelection,
                        Edit::Move(Motion::End),
                    ] + es,
                )
            } else {
                match motion_edits(c, repeats(v)) {
                    Some(ms) => {
                        let (mode, es) = operator_end(op);
                        (VimState { mode, count: None }, seq![Edit::StartSelection] + ms + es)
                    },
                    None => (vim_start(), seq![Edit::StartSelection, Edit::CancelSelection]),
                }
            },
        }
    }
}

/// What a key does to the state, and the operations that it hands to the widget.
pub open spec fn vim_step(v: VimState, i: Input) -> (VimState, Seq<Edit>) {
    match v.mode {
        VimMode::Insert => insert_step(v, i),
        VimMode::Normal => normal_step(v, i),
        VimMode::Visual => visual_step(v, i),
        VimMode::Operator(op) => operator_step(v, op, i),
    }
}

/// Whether a key keeps the count within what a `usize` holds.
pub open spec fn vim_accepts(v: VimState, i: Input) -> bool {
    match (v.mode, command_of(i)) {
        (VimMode::Normal, Some(c)) => is_count(v, c) && !(i.ctrl && i.key == InputKey::Char('r'))
            ==> next_count(v, c) <= usize::MAX,
        (VimMode::Visual, Some(c)) => is_count(v, c) ==> next_count(v, c) <= usize::MAX,
        _ => true,
    }
}

/// The command character of a key.
fn command_char(i: Input) -> (r: Option<char>)
    ensures
        r == command_of(i),
{
    match i.key {
        InputKey::Char(c) => Some(c),
        InputKey::Left | InputKey::Backspace => Some('h'),
        InputKey::Right => Some('l'),
        InputKey::Up => Some('k'),
        InputKey::Down => Some('j'),
        InputKey::Home => Some('0'),
        InputKey::End => Some('$'),
        InputKey::Delete => Some('x'),
        _ => None,
    }
}

/// Moves the cursor `n` times.
fn move_times(e: &mut Editor, m: Motion, n: usize)
    ensures
        edits(*final(e)) == edits(*old(e)) + times(n as nat, Edit::Move(m)),
{
    let ghost start = edits(*e);
    let mut i: usize = 0;
    proof {
        assert(start + times(0, Edit::Move(m)) =~= start);
    }
    while i < n
        invariant
            i <= n,
            edits(*e) == start + times(i as nat, Edit::Move(m)),
        decreases n - i,
    {
        editor_move(e, m);
        proof {
            assert((start + times(i as nat, Edit::Move(m))).push(Edit::Move(m)) =~= start + times(
                (i + 1) as nat,
                Edit::Move(m),
            ));
        }
        i = i + 1;
    }
}

/// Carries a motion character out, if it is one.
fn run_motion(e: &mut Editor, c: char, n: usize) -> (r: bool)
    ensures
        r == (motion_edits(c, n as nat) is Some),
        edits(*final(e)) == (match motion_edits(c, n as nat) {
            Some(es) => edits(*old(e)) + es,
            None => edits(*old(e)),
        }),
{
    let ghost start = edits(*e);
    if c == 'h' {
        move_times(e, Motion::Back, n);
        true
    } else if c == 'l' {
        move_times(e, Motion::Forward, n);
        true
    } else if c == 'w' {
        move_times(e, Motion::WordForward, n);
        true
    } else if c == 'e' {
        move_times(e, Motion::WordEnd, n);
        true
    } else if c == 'b' {
        move_times(e, Motion::WordBack, n);
        true
    } else if c == '0' || c == '^' {
        editor_move(e, Motion::Head);
        proof {
            assert(edits(*e) =~= start + seq![Edit::Move(Motion::Head)]);
        }
        true
    } else if c == '$' {
        editor_move(e, Motion::End);
        proof {
            assert(edits(*e) =~= start + seq![Edit::Move(Motion::End)]);
        }
        true
    } else {
        false
    }
}

impl VimState {
    /// Drives the widget from one key.
    pub fn on_key(&mut self, e: &mut Editor, input: Input)
        requires
            vim_accepts(*old(self), input),
        ensures
            *final(self) == vim_step(*old(self), input).0,
            edits(*final(e)) == edits(*old(e)) + vim_step(*old(self), input).1,
    {
        match self.mode {
            VimMode::Insert => self.insert_key(e, input),
            VimMode::Normal => self.normal_key(e, input),
            VimMode::Visual => self.visual_key(e, input),
            VimMode::Operator(op) => self.operator_key(e, op, input),
        }
    }

    /// In Insert mode every key edits, but Esc and Ctrl-C leave to Normal mode.
    pub fn insert_key(&mut self, e: &mut Editor, input: Input)
        ensures
            *final(self) == insert_step(*old(self), input).0,
            edits(*final(e)) == edits(*old(e)) + insert_step(*old(self), input).1,
    {
        let ghost start = edits(*e);
        if input.key == InputKey::Esc || (input.ctrl && input.key == InputKey::Char('c')) {
            self.mode = VimMode::Normal;
            editor_move(e, Motion::Back);
            proof {
                assert(edits(*e) =~= start + seq![Edit::Move(Motion::Back)]);
            }
        } else {
            editor_input_plain(e, input);
            proof {
                assert(edits(*e) =~= start + seq![Edit::Plain(input)]);
            }
        }
    }

    /// In Normal mode keys are commands.
    pub fn normal_key(&mut self, e: &mut Editor, input: Input)
        requires
            old(self).mode == VimMode::Normal,
            vim_accepts(*old(self), input),
        ensures
            *final(self) == normal_step(*old(self), input).0,
            edits(*final(e)) == edits(*old(e)) + normal_step(*old(self), input).1,
    {
        let ghost start = edits(*e);
        proof {
            assert(start + Seq::<Edit>::empty() =~= start);
        }
        if input.ctrl && input.key == InputKey::Char('r') {
            editor_redo(e);
            self.count = None;
            proof {
                assert(edits(*e) =~= start + seq![Edit::Redo]);
            }
            return;
        }
        let c = match command_char(input) {
            Some(c) => c,
            None => {
                self.count = None;
                return;
            },
        };
        if '0' <= c && c <= '9' && (c != '0' || self.count.is_some()) {
            let so_far: usize = match self.count {
                Some(n) => n,
                None => 0,
            };
            self.count = Some(so_far * 10 + (c as usize - 48));
            return;
        }
        let n: usize = match self.count {
            Some(n) => n,
            None => 1,
        };
        let counted: Option<usize> = self.count;
        self.count = None;
        if run_motion(e, c, n) {
            return;
        }
        self.normal_edit(e, c, n);
        if let VimMode::Operator(_) = self.mode {
            self.count = counted;
        }
    }

    /// The commands of Normal mode that are no plain motion.
    fn normal_edit(&mut self, e: &mut Editor, c: char, n: usize)
        requires
            *old(self) == vim_start(),
            motion_edits(c, n as nat) is None,
        ensures
            final(self).count is None,
            final(self).mode == normal_command(c, n as nat).0,
            edits(*final(e)) == edits(*old(e)) + normal_command(c, n as nat).1,
    {
        let ghost start = edits(*e);
        proof {
            assert(start + Seq::<Edit>::empty() =~= start);
            assert forall|x: Edit| #[trigger] start.push(x) == start + seq![x] by {
                assert(start.push(x) =~= start + seq![x]);
            }
        }
        if c == 'j' {
            move_times(e, Motion::Down, n);
        } else if c == 'k' {
            move_times(e, Motion::Up, n);
        } else if c == 'i' {
            self.mode = VimMode::Insert;
        } else if c == 'I' {
            editor_move(e, Motion::Head);
            self.mode = VimMode::Insert;
        } else if c == 'a' {
            editor_move(e, Motion::Forward);
            self.mode = VimMode::Insert;
        } else if c == 'A' || c == 'o' || c == 'O' {
            editor_move(e, Motion::End);
            self.mode = VimMode::Insert;
        } else if c == 'x' {
            let mut i: usize = 0;
            proof {
                assert(start + times(0, Edit::DeleteNextChar) =~= start);
            }
            while i < n
                invariant
                    i <= n,
                    edits(*e) == start + times(i as nat, Edit::DeleteNextChar),
                decreases n - i,
            {
                editor_delete_next_char(e);
                proof {
                    assert((start + times(i as nat, Edit::DeleteNextChar)).push(
                        Edit::DeleteNextChar,
                    ) =~= start + times((i + 1) as nat, Edit::DeleteNextChar));
                }
                i = i + 1;
            }
        } else if c == 'D' {
            editor_delete_to_end(e);
        } else if c == 'C' {
            editor_delete_to_end(e);
            self.mode = VimMode::Insert;
        } else if c == 's' {
            editor_delete_next_char(e);
            self.mode = VimMode::Insert;
        } else if c == 'p' || c == 'P' {
            editor_paste(e);
        } else if c == 'u' {
            editor_undo(e);
        } else if c == 'v' {
            editor_start_selection(e);
            self.mode = VimMode::Visual;
        } else if c == 'd' || c == 'c' || c == 'y' {
            self.mode = VimMode::Operator(c);
        }
    }

    /// While a selection is active, motions extend it and operators act on it.
    pub fn visual_key(&mut self, e: &mut Editor, input: Input)
        requires
            old(self).mode == VimMode::Visual,
            vim_accepts(*old(self), input),
        ensures
            *final(self) == visual_step(*old(self), input).0,
            edits(*final(e)) == edits(*old(e)) + visual_step(*old(self), input).1,
    {
        let ghost start = edits(*e);
        proof {
            assert(start + Seq::<Edit>::empty() =~= start);
            assert forall|x: Edit| #[trigger] start.push(x) == start + seq![x] by {
                assert(start.push(x) =~= start + seq![x]);
            }
            assert(start.push(Edit::Copy).push(Edit::CancelSelection) =~= start + seq![
                Edit::Copy,
                Edit::CancelSelection,
            ]);
        }
        if input.key == InputKey::Esc {
            editor_cancel_selection(e);
            self.mode = VimMode::Normal;
            return;
        }
        let c = match command_char(input) {
            Some(c) => c,
            None => {
                return;
            },
        };
        if '0' <= c && c <= '9' && (c != '0' || self.count.is_some()) {
            let so_far: usize = match self.count {
                Some(n) => n,
                None => 0,
            };
            self.count = Some(so_far * 10 + (c as usize - 48));
            return;
        }
        let n: usize = match self.count {
            Some(n) => n,
            None => 1,
        };
        self.count = None;
        if run_motion(e, c, n) {
            return;
        }
        if c == 'd' || c == 'x' {
            editor_cut(e);
            self.mode = VimMode::Normal;
        } else if c == 'c' {
            editor_cut(e);
            self.mode = VimMode::Insert;
        } else if c == 'y' {
            editor_copy(e);
            editor_cancel_selection(e);
            self.mode = VimMode::Normal;
        } else if c == 'v' {
            editor_cancel_selection(e);
            self.mode = VimMode::Normal;
        }
    }

    /// While an operator waits, the key says what it acts on.
    pub fn operator_key(&mut self, e: &mut Editor, op: char, input: Input)
        ensures
            *final(self) == operator_step(*old(self), op, input).0,
            edits(*final(e)) == edits(*old(e)) + operator_step(*old(self), op, input).1,
    {
        let ghost start = edits(*e);
        proof {
            assert(start + Seq::<Edit>::empty() =~= start);
        }
        if input.key == InputKey::Esc {
            self.mode = VimMode::Normal;
            self.count = None;
            return;
        }
        let c = match command_char(input) {
            Some(c) => c,
            None => {
                self.mode = VimMode::Normal;
                self.count = None;
                return;
            },
        };
        let n: usize = match self.count {
            Some(n) => n,
            None => 1,
        };
        self.count = None;
        if c == op {
            editor_move(e, Motion::Head);
            editor_start_selection(e);
            editor_move(e, Motion::End);
            let ghost mid = edits(*e);
            self.finish_operator(e, op);
            proof {
                let whole = seq![
                    Edit::Move(Motion::Head),
                    Edit::StartSelection,
                    Edit::Move(Motion::End),
                ];
                assert(mid =~= start + whole);
                assert((start + whole) + operator_end(op).1 =~= start + (whole + operator_end(
                    op,
                ).1));
            }
            return;
        }
        editor_start_selection(e);
        let ghost mid = edits(*e);
        if run_motion(e, c, n) {
            let ghost moved = edits(*e);
            self.finish_operator(e, op);
            proof {
                let ms = motion_edits(c, n as nat)->0;
                assert(mid =~= start + seq![Edit::StartSelection]);
                assert((start + seq![Edit::StartSelection] + ms) + operator_end(op).1 =~= start + (
                seq![Edit::StartSelection] + ms + operator_end(op).1));
            }
        } else {
            editor_cancel_selection(e);
            self.mode = VimMode::Normal;
            proof {
                assert(edits(*e) =~= start + seq![Edit::StartSelection, Edit::CancelSelection]);
            }
        }
    }

    /// Applies an operator to the selection.
    fn finish_operator(&mut self, e: &mut Editor, op: char)
        ensures
            final(self).count == old(self).count,
            final(self).mode == operator_end(op).0,
            edits(*final(e)) == edits(*old(e)) + operator_end(op).1,
    {
        let ghost start = edits(*e);
        if op == 'd' {
            editor_cut(e);
            self.mode = VimMode::Normal;
            proof {
                assert(edits(*e) =~= start + seq![Edit::Cut]);
            }
        } else if op == 'c' {
            editor_cut(e);
            self.mode = VimMode::Insert;
            proof {
                assert(edits(*e) =~= start + seq![Edit::Cut]);
            }
        } else if op == 'y' {
            editor_copy(e);
            editor_cancel_selection(e);
            self.mode = VimMode::Normal;
            proof {
                assert(edits(*e) =~= start + seq![Edit::Copy, Edit::CancelSelection]);
            }
        } else {
            self.mode = VimMode::Normal;
            proof {
                assert(start + Seq::<Edit>::empty() =~= start);
            }
        }
    }
}

/// Esc always leads towards Normal mode: from every other mode it gets there in
/// one step.
pub proof fn law_escape_reaches_normal(v: VimState, i: Input)
    requires
        i.key == InputKey::Esc,
    ensures
        vim_step(v, i).0.mode == VimMode::Normal,
{
}

/// A count before an operator repeats the motion behind it: `2dw` selects across two words
/// and cuts what it selected.
pub proof fn law_count_reaches_the_motion(v: VimState, op: Input, motion: Input, c: char)
    requires
        v.mode == VimMode::Normal,
        op.key == InputKey::Char('d') && !op.ctrl,
        motion.key == InputKey::Char(c),
        c != 'd',
        motion_edits(c, repeats(v)) is Some,
    ensures
        ({
            let (pending, before) = vim_step(v, op);
            &&& before == Seq::<Edit>::empty()
            &&& vim_step(pending, motion) == (
                vim_start(),
                seq![Edit::StartSelection] + motion_edits(c, repeats(v))->0 + seq![Edit::Cut],
            )
        }),
{
}

/// In Normal mode no key types text into the field.
pub proof fn law_normal_mode_types_nothing(v: VimState, i: Input, k: int)
    requires
        v.mode == VimMode::Normal,
        0 <= k < vim_step(v, i).1.len(),
    ensures
        !(vim_step(v, i).1[k] is Plain),
        !(vim_step(v, i).1[k] is Shortcut),
        !(vim_step(v, i).1[k] is Text),
{
}

// ── The field ───────────────────────────────────────────────────────────────

/// The label of a focused field's editing mode.
#[derive(Clone, Copy, Debug, PartialEq, Eq, Structural)]
pub enum EditorMode {
    Normal,
    Insert,
    Visual,
    OperatorPending,
}

impl EditorMode {
    /// The label.
    pub open spec fn text(self) -> Seq<char> {
        match self {
            EditorMode::Normal => "NORMAL"@,
            EditorMode::Insert => "INSERT"@,
            EditorMode::Visual => "VISUAL"@,
            EditorMode::OperatorPending => "O-PENDING"@,
        }
    }

    /// The label.
    pub fn label(self) -> (r: &'static str)
        ensures
            r@ == self.text(),
    {
        match self {
            EditorMode::Normal => "NORMAL",
            EditorMode::Insert => "INSERT",
            EditorMode::Visual => "VISUAL",
            EditorMode::OperatorPending => "O-PENDING",
        }
    }
}

/// The character that stands for each character of a password.
pub const MASK_CHAR: char = '\u{2022}';

/// A single-line text input.
pub struct TextInput {
    pub editing_mode: EditingMode,
    /// Whether the field takes the keys that are typed.
    pub capturing: bool,
    /// Whether the contents are shown as bullets.
    pub mask: bool,
    pub label: String,
    pub editor: Editor,
    pub vim: VimState,
}

/// What a text input holds.
#[verifier::ext_equal]
pub ghost struct FieldView {
    pub editing_mode: EditingMode,
    pub capturing: bool,
    pub mask: bool,
    pub label: Seq<char>,
    pub log: Seq<Edit>,
    pub vim: VimState,
}

impl View for TextInput {
    type V = FieldView;

    open spec fn view(&self) -> FieldView {
        FieldView {
            editing_mode: self.editing_mode,
            capturing: self.capturing,
            mask: self.mask,
            label: self.label@,
            log: edits(self.editor),
            vim: self.vim,
        }
    }
}

/// The operations that make a fresh editor.
pub open spec fn fresh_log(mask: bool) -> Seq<Edit> {
    if mask {
        seq![Edit::Mask(MASK_CHAR)]
    } else {
        Seq::empty()
    }
}

impl FieldView {
    /// The contents of the field.
    pub open spec fn contents(self) -> Seq<char> {
        joined_with(lines_after(self.log), Seq::empty())
    }

    /// The field with keyboard focus: it captures, the cursor stands at the end, and
    /// Vim-style editing starts over. The contents stay.
    pub open spec fn focused(self) -> FieldView {
        FieldView {
            capturing: true,
            log: self.log.push(Edit::Move(Motion::End)),
            vim: vim_start(),
            ..self
        }
    }

    /// The field without keyboard focus.
    pub open spec fn blurred(self) -> FieldView {
        FieldView { capturing: false, ..self }
    }

    /// The field with new contents.
    pub open spec fn holding(self, s: Seq<char>) -> FieldView {
        FieldView { log: fresh_log(self.mask).push(Edit::Text(s)), vim: vim_start(), ..self }
    }

    /// The field emptied.
    pub open spec fn emptied(self) -> FieldView {
        FieldView { log: fresh_log(self.mask), vim: vim_start(), ..self }
    }

    /// Whether the field can take a key: under Vim-style editing, a count must not
    /// grow beyond what a `usize` holds.
    pub open spec fn accepts(self, key: KeyEvent) -> bool {
        self.capturing && self.editing_mode == EditingMode::Vim ==> vim_accepts(
            self.vim,
            input_of(key),
        )
    }

    /// The field after a key.
    pub open spec fn after_key(self, key: KeyEvent) -> FieldView {
        if !self.capturing {
            self
        } else {
            match self.editing_mode {
                EditingMode::Emacs => FieldView {
                    log: self.log + emacs_edits(self.log, input_of(key)),
                    ..self
                },
                EditingMode::Vim => {
                    let (vim, es) = vim_step(self.vim, input_of(key));
                    FieldView { vim, log: self.log + es, ..self }
                },
            }
        }
    }

    /// The field after a paste.
    pub open spec fn after_paste(self, text: Seq<char>) -> FieldView {
        if self.capturing {
            FieldView { log: self.log.push(Edit::Text(text)), ..self }
        } else {
            self
        }
    }

    /// Whether an Esc is the field's own: under Vim-style editing, outside Normal
    /// mode.
    pub open spec fn takes_escape(self) -> bool {
        self.editing_mode == EditingMode::Vim && self.vim.mode != VimMode::Normal
    }

    /// The editing mode to show, for a focused field under Vim-style editing.
    pub open spec fn shown_mode(self) -> Option<EditorMode> {
        if self.editing_mode != EditingMode::Vim || !self.capturing {
            None
        } else {
            Some(
                match self.vim.mode {
                    VimMode::Normal => EditorMode::Normal,
                    VimMode::Insert => EditorMode::Insert,
                    VimMode::Visual => EditorMode::Visual,
                    VimMode::Operator(_) => EditorMode::OperatorPending,
                },
            )
        }
    }
}

/// A fresh field with this label.
pub open spec fn new_field(label: Seq<char>, mask: bool) -> FieldView {
    FieldView {
        editing_mode: EditingMode::Emacs,
        capturing: false,
        mask,
        label,
        log: fresh_log(mask),
        vim: vim_start(),
    }
}

/// A fresh editor.
fn build_editor(mask: bool) -> (r: Editor)
    ensures
        edits(r) == fresh_log(mask),
{
    let mut e = editor_new();
    if mask {
        editor_mask(&mut e, MASK_CHAR);
        proof {
            assert(edits(e) =~= fresh_log(mask));
        }
    }
    e
}

impl TextInput {
    /// A field labelled `Input`.
    pub fn new() -> (r: TextInput)
        ensures
            r@ == new_field("Input"@, false),
    {
        TextInput::labelled("Input", false)
    }

    /// A field with this label, shown as bullets where it is masked.
    pub fn labelled(label: &str, mask: bool) -> (r: TextInput)
        ensures
            r@ == new_field(label@, mask),
    {
        TextInput {
            editing_mode: EditingMode::Emacs,
            capturing: false,
            mask,
            label: label.to_owned(),
            editor: build_editor(mask),
            vim: VimState::default(),
        }
    }

    /// Sets the editing mode.
    pub fn edit_as(&mut self, mode: EditingMode)
        ensures
            final(self)@ == (FieldView { editing_mode: mode, ..old(self)@ }),
    {
        self.editing_mode = mode;
    }

    /// Gives the field keyboard focus; the contents stay.
    pub fn focus(&mut self)
        ensures
            final(self)@ == old(self)@.focused(),
    {
        self.capturing = true;
        editor_move(&mut self.editor, Motion::End);
        self.vim = VimState::default();
    }

    /// Takes keyboard focus away; the contents stay.
    pub fn blur(&mut self)
        ensures
            final(self)@ == old(self)@.blurred(),
    {
        self.capturing = false;
    }

    /// The contents.
    pub fn value(&self) -> (r: String)
        ensures
            r@ == self@.contents(),
            typed(self@.log) matches Some(t) ==> r@ == t,
    {
        let lines = editor_lines(&self.editor);
        proof {
            reveal_strlit("");
            assert(""@ =~= Seq::<char>::empty());
            if let Some(t) = typed(self@.log) {
                assert(texts(lines@).len() == 1);
            }
        }
        join(&lines, "")
    }

    /// Where the cursor stands.
    pub fn cursor(&self) -> (r: (usize, usize))
        ensures
            r == cursor_after(self@.log),
    {
        editor_cursor(&self.editor)
    }

    /// What is selected.
    pub fn selection(&self) -> (r: Option<((usize, usize), (usize, usize))>)
        ensures
            r == selection_after(self@.log),
    {
        editor_selection(&self.editor)
    }

    /// Replaces the contents.
    pub fn set_value(&mut self, value: &str)
        ensures
            final(self)@ == old(self)@.holding(value@),
    {
        let mut e = build_editor(self.mask);
        editor_insert(&mut e, value);
        self.editor = e;
        self.vim = VimState::default();
    }

    /// Empties the field.
    pub fn reset(&mut self)
        ensures
            final(self)@ == old(self)@.emptied(),
    {
        self.editor = build_editor(self.mask);
        self.vim = VimState::default();
    }

    /// Starts capturing in an emptied field.
    pub fn start_capture(&mut self)
        ensures
            final(self)@ == (FieldView { capturing: true, ..old(self)@.emptied() }),
    {
        self.capturing = true;
        self.reset();
    }

    /// Whether the field can take a key.
    pub fn accepts_key(&self, key: KeyEvent) -> (r: bool)
        ensures
            r == self@.accepts(key),
    {
        if !self.capturing || self.editing_mode != EditingMode::Vim {
            return true;
        }
        let i = to_input(key);
        match self.vim.mode {
            VimMode::Normal => {
                if i.ctrl && i.key == InputKey::Char('r') {
                    return true;
                }
            },
            VimMode::Visual => {},
            _ => {
                return true;
            },
        }
        match command_char(i) {
            None => true,
            Some(c) => {
                if '0' <= c && c <= '9' && (c != '0' || self.vim.count.is_some()) {
                    let so_far: usize = match self.vim.count {
                        Some(n) => n,
                        None => 0,
                    };
                    match so_far.checked_mul(10) {
                        Some(m) => m.checked_add(c as usize - 48).is_some(),
                        None => false,
                    }
                } else {
                    true
                }
            },
        }
    }

    /// Takes a key.
    pub fn handle_key_event(&mut self, key: KeyEvent)
        requires
            old(self)@.accepts(key),
        ensures
            final(self)@ == old(self)@.after_key(key),
    {
        if !self.capturing {
            return;
        }
        let input = to_input(key);
        match self.editing_mode {
            EditingMode::Emacs => {
                emacs_key(&mut self.editor, input);
            },
            EditingMode::Vim => {
                self.vim.on_key(&mut self.editor, input);
            },
        }
    }

    /// Takes pasted text.
    pub fn paste(&mut self, text: &str)
        ensures
            final(self)@ == old(self)@.after_paste(text@),
    {
        if self.capturing {
            editor_insert(&mut self.editor, text);
        }
    }

    /// Whether an Esc is the field's own.
    pub fn consumes_escape(&self) -> (r: bool)
        ensures
            r == self@.takes_escape(),
    {
        self.editing_mode == EditingMode::Vim && self.vim.mode != VimMode::Normal
    }

    /// The editing mode to show.
    pub fn editor_mode(&self) -> (r: Option<EditorMode>)
        ensures
            r == self@.shown_mode(),
    {
        if self.editing_mode != EditingMode::Vim || !self.capturing {
            return None;
        }
        Some(
            match self.vim.mode {
                VimMode::Normal => EditorMode::Normal,
                VimMode::Insert => EditorMode::Insert,
                VimMode::Visual => EditorMode::Visual,
                VimMode::Operator(_) => EditorMode::OperatorPending,
            },
        )
    }
}

/// A field that was given a value reads that value back, unless the value has a
/// line break in it.
pub proof fn law_set_value_reads_back(f: FieldView, s: Seq<char>)
    requires
        !s.contains('\n'),
        !s.contains('\r'),
    ensures
        typed(f.holding(s).log) == Some(s),
        typed(f.holding(s).focused().log) == Some(s),
{
    reveal_with_fuel(typed, 4);
    let log = f.holding(s).log;
    assert(log.drop_last() =~= fresh_log(f.mask));
    if f.mask {
        assert(fresh_log(true).drop_last() =~= Seq::<Edit>::empty());
    }
    assert(Seq::<char>::empty() + s =~= s);
    assert(f.holding(s).focused().log.drop_last() =~= log);
}

/// Typing a plain character into a focused field under Emacs-style editing adds it
/// to what was typed.
pub proof fn law_typing_appends(f: FieldView, key: KeyEvent, c: char, t: Seq<char>)
    requires
        f.capturing,
        f.editing_mode == EditingMode::Emacs,
        typed(f.log) == Some(t),
        key.code == KeyCode::Char(c),
        !key.modifiers.control,
        !key.modifiers.alt,
        c != '\n' && c != '\r',
    ensures
        typed(f.after_key(key).log) == Some(t.push(c)),
{
    assert(f.after_key(key).log =~= f.log.push(Edit::Shortcut(input_of(key))));
    assert(f.after_key(key).log.drop_last() =~= f.log);
}

} // verus!
