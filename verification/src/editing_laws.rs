//! What holds of editing a field: how the commands of Vim-style editing relate to each other.
use vstd::prelude::*;

use crate::components::text_input::{
    emacs_edits, fresh_log, input_of, selection_after, vim_start, vim_step, Edit, EditorMode, FieldView, Input,
    InputKey, Motion, VimMode, VimState,
};
use crate::config::EditingMode;
use crate::keys::{KeyCode, KeyEvent};

verus! {

/// A character that is typed without modifiers.
pub open spec fn plain(c: char) -> Input {
    Input { key: InputKey::Char(c), ctrl: false, alt: false, shift: false }
}

/// Two keys after each other: the state they leave, and the operations of both.
pub open spec fn both(v: VimState, a: Input, b: Input) -> (VimState, Seq<Edit>) {
    let (w, es) = vim_step(v, a);
    let (x, fs) = vim_step(w, b);
    (x, es + fs)
}

/// Whether a character moves the cursor along the line.
pub open spec fn is_motion(c: char) -> bool {
    c == 'h' || c == 'l' || c == 'w' || c == 'e' || c == 'b' || c == '0' || c == '^' || c == '$'
}

/// An operator and a motion do what selecting across the motion and the operator do: `dw` is
/// `vwd`, and so with `c` and `y` and every motion.
pub proof fn law_operator_is_a_selection(op: char, c: char)
    requires
        op == 'd' || op == 'c' || op == 'y',
        is_motion(c),
    ensures
        ({
            let start = vim_start();
            let short = both(start, plain(op), plain(c));
            let (w, es) = both(start, plain('v'), plain(c));
            let (x, fs) = vim_step(w, plain(op));
            &&& short.0 == x
            &&& short.1 == es + fs
            &&& x.mode == (if op == 'c' {
                VimMode::Insert
            } else {
                VimMode::Normal
            })
        }),
{
    let start = vim_start();
    let short = both(start, plain(op), plain(c));
    let (w, es) = both(start, plain('v'), plain(c));
    let (x, fs) = vim_step(w, plain(op));
    assert(short.1 =~= es + fs);
}

/// A doubled operator takes the whole line: `dd` is `0v$d`, and so with `c` and `y`.
pub proof fn law_doubled_operator_takes_the_line(op: char)
    requires
        op == 'd' || op == 'c' || op == 'y',
    ensures
        ({
            let start = vim_start();
            let short = both(start, plain(op), plain(op));
            let (w, es) = both(start, plain('0'), plain('v'));
            let (x, fs) = both(w, plain('$'), plain(op));
            &&& short.0 == x
            &&& short.1 == es + fs
        }),
{
    let start = vim_start();
    let short = both(start, plain(op), plain(op));
    let (w, es) = both(start, plain('0'), plain('v'));
    let (x, fs) = both(w, plain('$'), plain(op));
    assert(short.1 =~= es + fs);
}

/// The ways into Insert mode are a motion or a deletion and `i`: `I` is `0i`, `a` is `li`, `A`
/// is `$i`, `C` is `Di` and `s` is `xi`.
pub proof fn law_ways_into_insert_mode(v: VimState)
    requires
        v == vim_start(),
    ensures
        vim_step(v, plain('i')) == (VimState { mode: VimMode::Insert, count: None }, Seq::<
            Edit,
        >::empty()),
        vim_step(v, plain('I')) == both(v, plain('0'), plain('i')),
        vim_step(v, plain('a')) == both(v, plain('l'), plain('i')),
        vim_step(v, plain('A')) == both(v, plain('$'), plain('i')),
        vim_step(v, plain('C')) == both(v, plain('D'), plain('i')),
        vim_step(v, plain('s')) == both(v, plain('x'), plain('i')),
{
    assert(vim_step(v, plain('I')).1 =~= both(v, plain('0'), plain('i')).1);
    assert(vim_step(v, plain('a')).1 =~= both(v, plain('l'), plain('i')).1);
    assert(vim_step(v, plain('A')).1 =~= both(v, plain('$'), plain('i')).1);
    assert(vim_step(v, plain('C')).1 =~= both(v, plain('D'), plain('i')).1);
    assert(vim_step(v, plain('s')).1 =~= both(v, plain('x'), plain('i')).1);
}

/// A count is read in decimal, and says how often the next command is carried out; then it is
/// gone.
pub proof fn law_count_repeats(a: char, b: char)
    requires
        '1' <= a && a <= '9',
        '0' <= b && b <= '9',
    ensures
        ({
            let n = (a as int - 48) * 10 + (b as int - 48);
            let w = both(vim_start(), plain(a), plain(b));
            let h = vim_step(w.0, plain('h'));
            let l = vim_step(w.0, plain('l'));
            let x = vim_step(w.0, plain('x'));
            &&& w.1.len() == 0
            &&& w.0 == (VimState { mode: VimMode::Normal, count: Some(n as usize) })
            &&& h.1.len() == n && l.1.len() == n && x.1.len() == n
            &&& forall|i: int| 0 <= i < n ==> #[trigger] h.1[i] == Edit::Move(Motion::Back)
            &&& forall|i: int| 0 <= i < n ==> #[trigger] l.1[i] == Edit::Move(Motion::Forward)
            &&& forall|i: int| 0 <= i < n ==> #[trigger] x.1[i] == Edit::DeleteNextChar
            &&& h.0 == vim_start() && l.0 == vim_start() && x.0 == vim_start()
        }),
{
    let va = VimState { mode: VimMode::Normal, count: Some((a as int - 48) as usize) };
    assert(vim_step(vim_start(), plain(a)).0 == va);
    let w = both(vim_start(), plain(a), plain(b));
    assert(w.1 =~= Seq::<Edit>::empty());
}

/// Outside Insert mode the arrows are `h`, `j`, `k` and `l`, and the keys for the ends of the
/// line are `0` and `$`.
pub proof fn law_arrows_are_letters(v: VimState, i: Input)
    requires
        v.mode is Normal || v.mode is Visual,
        !i.ctrl,
        i.key != InputKey::Esc,
    ensures
        i.key == InputKey::Left ==> vim_step(v, i) == vim_step(v, plain('h')),
        i.key == InputKey::Down ==> vim_step(v, i) == vim_step(v, plain('j')),
        i.key == InputKey::Up ==> vim_step(v, i) == vim_step(v, plain('k')),
        i.key == InputKey::Right ==> vim_step(v, i) == vim_step(v, plain('l')),
        i.key == InputKey::End ==> vim_step(v, i) == vim_step(v, plain('$')),
        i.key == InputKey::Home ==> vim_step(v, i) == vim_step(v, plain('0')),
        i.key == InputKey::Delete ==> vim_step(v, i) == vim_step(v, plain('x')),
{
}

/// In Normal mode each of these keys carries out its operation once and stays there: undoing,
/// putting, deleting to the end, and, with Ctrl, redoing.
pub proof fn law_single_operations(v: VimState)
    requires
        v == vim_start(),
    ensures
        vim_step(v, plain('u')) == (v, seq![Edit::Undo]),
        vim_step(v, Input { ctrl: true, ..plain('r') }) == (v, seq![Edit::Redo]),
        vim_step(v, plain('p')) == (v, seq![Edit::Paste]),
        vim_step(v, plain('D')) == (v, seq![Edit::DeleteToEnd]),
        vim_step(v, plain('w')).1 == seq![Edit::Move(Motion::WordForward)],
        vim_step(v, plain('b')).1 == seq![Edit::Move(Motion::WordBack)],
        vim_step(v, plain('e')).1 == seq![Edit::Move(Motion::WordEnd)],
        vim_step(v, plain('$')).1 == seq![Edit::Move(Motion::End)],
        vim_step(v, plain('0')).1 == seq![Edit::Move(Motion::Head)],
        vim_step(v, plain('j')).1 == seq![Edit::Move(Motion::Down)],
        vim_step(v, plain('k')).1 == seq![Edit::Move(Motion::Up)],
{
    assert(vim_step(v, plain('w')).1 =~= seq![Edit::Move(Motion::WordForward)]);
    assert(vim_step(v, plain('b')).1 =~= seq![Edit::Move(Motion::WordBack)]);
    assert(vim_step(v, plain('e')).1 =~= seq![Edit::Move(Motion::WordEnd)]);
    assert(vim_step(v, plain('j')).1 =~= seq![Edit::Move(Motion::Down)]);
    assert(vim_step(v, plain('k')).1 =~= seq![Edit::Move(Motion::Up)]);
}

/// In Insert mode every key is typed, but for Esc and Ctrl with `c`, which lead back to Normal
/// mode and one character back.
pub proof fn law_insert_mode_types(v: VimState, i: Input)
    requires
        v.mode == VimMode::Insert,
    ensures
        ({
            let leaves = i.key == InputKey::Esc || (i.ctrl && i.key == InputKey::Char('c'));
            &&& leaves ==> vim_step(v, i).0.mode == VimMode::Normal && vim_step(v, i).1 == seq![
                Edit::Move(Motion::Back),
            ]
            &&& !leaves ==> vim_step(v, i) == (v, seq![Edit::Plain(i)])
        }),
{
}

/// A selection is given up by Esc and by `v`, without any other operation.
pub proof fn law_selection_is_given_up(v: VimState, i: Input)
    requires
        v.mode == VimMode::Visual,
        i.key == InputKey::Esc || i == plain('v'),
    ensures
        vim_step(v, i).0.mode == VimMode::Normal,
        vim_step(v, i).1 == seq![Edit::CancelSelection],
{
}

/// A field that does not capture takes neither keys nor pasted text; one that does takes pasted
/// text whole, and every key adds to what was done before.
pub proof fn law_only_capturing_fields_take_keys(f: FieldView, key: KeyEvent, text: Seq<char>)
    ensures
        !f.capturing ==> f.after_key(key) == f && f.after_paste(text) == f,
        f.capturing ==> f.after_paste(text).log == f.log.push(Edit::Text(text)),
        f.after_key(key).log.len() >= f.log.len(),
        f.after_key(key).log.take(f.log.len() as int) == f.log,
        f.after_key(key).mask == f.mask && f.after_key(key).label == f.label,
        f.after_key(key).capturing == f.capturing,
        f.focused().capturing && !f.blurred().capturing,
        f.emptied().log == fresh_log(f.mask),
{
    assert(f.after_key(key).log.take(f.log.len() as int) =~= f.log);
}

/// Under Emacs-style editing the editor's own keys decide, but for those that scroll: without
/// Shift they give a selection up.
pub proof fn law_emacs_keys(log: Seq<Edit>, key: KeyEvent)
    ensures
        key.code is Char && !key.modifiers.control && !key.modifiers.alt ==> emacs_edits(
            log,
            input_of(key),
        ) == seq![Edit::Shortcut(input_of(key))],
        key.code == KeyCode::PageDown && !key.modifiers.shift ==> emacs_edits(log, input_of(key))
            == seq![Edit::CancelSelection, Edit::Move(Motion::Down)],
        key.code == KeyCode::PageUp && !key.modifiers.shift ==> emacs_edits(log, input_of(key))
            == seq![Edit::CancelSelection, Edit::Move(Motion::Up)],
        input_of(key).ctrl == key.modifiers.control && input_of(key).alt == key.modifiers.alt,
        input_of(key).shift == key.modifiers.shift,
        key.code matches KeyCode::Char(c) ==> input_of(key).key == InputKey::Char(c),
{
}

/// A mode is shown for a field that captures under Vim-style editing, and only for one; an Esc is
/// the field's own unless that mode is Normal.
pub proof fn law_shown_mode(f: FieldView)
    ensures
        f.shown_mode() is Some == (f.capturing && f.editing_mode == EditingMode::Vim),
        f.shown_mode() == Some(EditorMode::Insert) ==> f.vim.mode == VimMode::Insert,
        f.shown_mode() == Some(EditorMode::Visual) ==> f.vim.mode == VimMode::Visual,
        f.shown_mode() == Some(EditorMode::Normal) ==> f.vim.mode == VimMode::Normal,
        f.shown_mode() is Some ==> f.takes_escape() == (f.shown_mode() != Some(EditorMode::Normal)),
        f.editing_mode != EditingMode::Vim ==> !f.takes_escape(),
{
}

/// In Normal mode Ctrl makes a difference to `r` alone: with it the last undoing is undone, and
/// without it nothing happens.
pub proof fn law_ctrl_in_normal_mode(v: VimState, c: char)
    requires
        v.mode == VimMode::Normal,
        c != 'r',
    ensures
        vim_step(v, Input { ctrl: true, ..plain(c) }) == vim_step(v, plain(c)),
        vim_step(v, plain('r')).1.len() == 0,
        vim_step(v, plain('r')).0 == vim_start(),
        vim_step(v, Input { ctrl: true, ..plain('r') }).1 == seq![Edit::Redo],
{
}

/// Under Emacs-style editing a key that scrolls extends the selection with Shift: it starts one
/// where there is none, and keeps the one there is.
pub proof fn law_emacs_selection(log: Seq<Edit>, key: KeyEvent)
    requires
        key.code == KeyCode::PageDown,
        key.modifiers.shift,
    ensures
        selection_after(log) is None ==> emacs_edits(log, input_of(key)) == seq![
            Edit::StartSelection,
            Edit::Move(Motion::Down),
        ],
        selection_after(log) is Some ==> emacs_edits(log, input_of(key)) == seq![
            Edit::Move(Motion::Down),
        ],
{
}

} // verus!
