//! What the forms and dialogs come to: what they start with, when they send what they hold,
//! and what their keys do.
use vstd::prelude::*;
use vstd::string::*;

use crate::action::ActionView;
use crate::components::button::{ButtonView, MouseEvent, Rect};
use crate::components::form_keys::FormCmd;
use crate::components::list_form::{
    create_start, rename_start, share_start, ListFormView, ListOp,
};
use crate::components::members::{hex_digit, hex_text, MembersCmd, MembersView};
use crate::components::fields::RowView;
use crate::components::modal::{BodyView, ModalCmd, ModalView};
use crate::components::register::{
    login_start, login_updated, register_start, register_updated, FieldFormView,
};
use crate::components::text_input::{fresh_log, law_set_value_reads_back, typed, Edit};
use crate::components::todo_form::{blank_form, edit_form, TodoFormView};
use crate::components::unlock::{unlock_start, UnlockView};
use crate::config::Config;
use crate::dates::{
    date_on, day_number, days_before_month, in_calendar, law_days_there_and_back,
    lemma_day_number_injective, lemma_in_range, Date,
};
use crate::keys::{KeyCode, KeyEvent};
use crate::model::{ListId, Priority, TodoView};
use crate::text::{is_space, joined_with, trimmed};
use crate::text_laws::law_trimmed_twice;

verus! {

// ── The form for a todo ─────────────────────────────────────────────────────

/// A form with a title is saved when it is submitted: to the list it was opened for, over the
/// todo it was opened on where there is one, and with what its fields hold. The due time is the
/// start of the day that the calendar stands on, where a due date is set.
pub proof fn law_todo_form_saves_what_it_holds(f: TodoFormView)
    requires
        f.row.fields.len() == 3,
        f.due_cursor.wf(),
        exists|i: int|
            0 <= i < f.row.fields[0].contents().len() && !is_space(
                #[trigger] f.row.fields[0].contents()[i],
            ),
    ensures
        ({
            let r = f.updated(ActionView::SubmitForm);
            &&& r.0.error is None
            &&& r.1.reply is None
            &&& r.1.sent matches Some(ActionView::SaveTodo { list_id, item_id, input }) && list_id
                == f.list_id && item_id == f.item_id && input.title == trimmed(
                f.row.fields[0].contents(),
            ) && input.title.len() > 0 && input.notes == trimmed(f.row.fields[1].contents())
                && input.priority == f.priority && input.due is Some == f.due_enabled && (
            input.due matches Some(d) ==> d as int == day_number(f.due_cursor) * 86400)
        }),
{
    law_trimmed_twice(f.row.fields[0].contents());
    lemma_day_range(f.due_cursor);
}

proof fn lemma_day_range(d: Date)
    requires
        d.wf(),
    ensures
        -5_000_000 < day_number(d) < 5_000_000,
{
    lemma_in_range(d);
    reveal_with_fuel(days_before_month, 13);
}

/// A form without a title is not saved: it says so, and sends nothing.
pub proof fn law_untitled_todo_is_not_saved(f: TodoFormView)
    requires
        f.row.fields.len() == 3,
        forall|i: int|
            0 <= i < f.row.fields[0].contents().len() ==> is_space(
                #[trigger] f.row.fields[0].contents()[i],
            ),
    ensures
        f.updated(ActionView::SubmitForm).0.error is Some,
        f.updated(ActionView::SubmitForm).1.sent is None,
        f.updated(ActionView::SubmitForm).0.row == f.row,
{
    law_trimmed_twice(f.row.fields[0].contents());
}

/// Nothing but a submission makes the form send, and no action changes what it is about.
pub proof fn law_only_submission_saves(f: TodoFormView, a: ActionView)
    ensures
        a != ActionView::SubmitForm ==> f.updated(a).1.sent is None,
        f.updated(a).0.list_id == f.list_id,
        f.updated(a).0.item_id == f.item_id,
        f.updated(a).0.priority == f.priority,
        f.updated(a).0.due_enabled == f.due_enabled,
        f.updated(a).0.due_cursor == f.due_cursor,
{
}

/// The form for changing a todo is about that todo of that list, and starts with its title, its
/// notes, its tags with commas between them, its priority and its due date.
pub proof fn law_edit_form_starts_with_the_todo(list_id: ListId, item: TodoView, today: Date)
    requires
        today.wf(),
        !item.title.contains('\n') && !item.title.contains('\r'),
        !item.notes.contains('\n') && !item.notes.contains('\r'),
        !joined_with(item.tags, ", "@).contains('\n'),
        !joined_with(item.tags, ", "@).contains('\r'),
    ensures
        ({
            let f = edit_form(list_id, item, today);
            &&& f.list_id == list_id
            &&& f.item_id == Some(item.id)
            &&& f.priority == item.priority
            &&& f.row.fields.len() == 3
            &&& typed(f.row.fields[0].log) == Some(item.title)
            &&& typed(f.row.fields[1].log) == Some(item.notes)
            &&& typed(f.row.fields[2].log) == Some(joined_with(item.tags, ", "@))
            &&& f.due_enabled == (item.due is Some && in_calendar(item.due->0))
            &&& !f.due_enabled ==> f.due_cursor == today
        }),
{
    let f = edit_form(list_id, item, today);
    let blank = crate::components::todo_form::blank_form(list_id, Some(item.id), today);
    law_set_value_reads_back(blank.row.fields[0], item.title);
    law_set_value_reads_back(blank.row.fields[1], item.notes);
    law_set_value_reads_back(blank.row.fields[2], joined_with(item.tags, ", "@));
}

/// A due time on a day that the calendar has is kept by the form, to the start of its day.
pub proof fn law_edit_form_keeps_the_due_day(
    list_id: ListId,
    item: TodoView,
    today: Date,
    due: i64,
    day: Date,
)
    requires
        item.due == Some(due),
        in_calendar(due),
        day.wf(),
        day_number(day) == due as int / 86400,
    ensures
        edit_form(list_id, item, today).due_cursor == day,
        edit_form(list_id, item, today).due_enabled,
        edit_form(list_id, item, today).input().due == Some((due - due as int % 86400) as i64),
{
    let d = date_on(due as int / 86400);
    assert(d.wf() && day_number(d) == due as int / 86400);
    lemma_day_number_injective(d, day);
    lemma_day_range(day);
}

/// While the calendar has the focus, the arrows step a day back or on, or a week; nothing else
/// of the form changes, and nothing is sent.
pub proof fn law_arrows_step_in_the_calendar(f: TodoFormView, key: KeyEvent, step: Date)
    requires
        f.row.focused == 3,
        f.due_cursor.wf(),
        step.wf(),
        match key.code {
            KeyCode::Left => day_number(step) == day_number(f.due_cursor) - 1,
            KeyCode::Right => day_number(step) == day_number(f.due_cursor) + 1,
            KeyCode::Up => day_number(step) == day_number(f.due_cursor) - 7,
            KeyCode::Down => day_number(step) == day_number(f.due_cursor) + 7,
            _ => false,
        },
    ensures
        f.after_key(key).0 == (TodoFormView { due_cursor: step, ..f }),
        f.after_key(key).1.sent is None && f.after_key(key).1.reply is None,
{
    let k = day_number(step) - day_number(f.due_cursor);
    law_days_there_and_back(f.due_cursor, k, step);
}

/// While the calendar has the focus, a page steps a month back or on: the day stays, or is the
/// last of a shorter month.
pub proof fn law_pages_step_months(f: TodoFormView, key: KeyEvent)
    requires
        f.row.focused == 3,
        f.due_cursor.wf(),
        key.code == KeyCode::PageUp || key.code == KeyCode::PageDown,
        -9999 < f.due_cursor.year < 9999,
    ensures
        ({
            let a = f.due_cursor;
            let b = f.after_key(key).0.due_cursor;
            let months = |d: Date| d.year * 12 + d.month;
            &&& b.wf()
            &&& key.code == KeyCode::PageDown ==> months(b) == months(a) + 1
            &&& key.code == KeyCode::PageUp ==> months(b) == months(a) - 1
            &&& b.day <= a.day
            &&& a.day <= 28 ==> b.day == a.day
            &&& f.after_key(key).0 == (TodoFormView { due_cursor: b, ..f })
        }),
{
}

/// While the calendar has the focus, a blank sets the due date or takes it away; twice leaves
/// the form as it was.
pub proof fn law_blank_sets_the_due_date(f: TodoFormView, key: KeyEvent)
    requires
        f.row.focused == 3,
        key.code == KeyCode::Char(' '),
    ensures
        f.after_key(key).0.due_enabled != f.due_enabled,
        f.after_key(key).0 == (TodoFormView { due_enabled: !f.due_enabled, ..f }),
        f.after_key(key).0.after_key(key).0 == f,
{
}

/// While the priority list has the focus, its keys go through none, low, medium and high, round
/// the ends, on or back; on and back is where it was.
pub proof fn law_priorities_go_round(f: TodoFormView, key: KeyEvent, other: KeyEvent)
    requires
        f.row.focused == 4,
        key.code != KeyCode::Esc,
        f.keys.command(key) == Some(FormCmd::CyclePriorityNext),
        other.code != KeyCode::Esc,
        f.keys.command(other) == Some(FormCmd::CyclePriorityPrev),
    ensures
        f.after_key(key).0.priority == (match f.priority {
            Priority::Unset => Priority::Low,
            Priority::Low => Priority::Med,
            Priority::Med => Priority::High,
            Priority::High => Priority::Unset,
        }),
        f.after_key(other).0.priority == (match f.priority {
            Priority::Unset => Priority::High,
            Priority::High => Priority::Med,
            Priority::Med => Priority::Low,
            Priority::Low => Priority::Unset,
        }),
        f.after_key(key).1.sent is None && f.after_key(other).1.sent is None,
        f.after_key(key).0.row == f.row && f.after_key(key).0.due_enabled == f.due_enabled,
{
}

/// The keys for the next and the previous field move the focus, from title to notes, tags,
/// calendar and priority and round; a key that submits moves on from a text field, and goes to
/// the buttons from the calendar and the priority.
pub proof fn law_form_keys_move_the_focus(f: TodoFormView, key: KeyEvent)
    requires
        f.row.fields.len() == 3,
        0 <= f.row.focused < 5,
        key.code != KeyCode::Esc && key.code != KeyCode::Char(' '),
        key.code != KeyCode::Left && key.code != KeyCode::Right && key.code != KeyCode::Up,
        key.code != KeyCode::Down && key.code != KeyCode::PageUp && key.code != KeyCode::PageDown,
    ensures
        ({
            let r = f.after_key(key);
            let on = if f.row.focused == 4 {
                0
            } else {
                f.row.focused + 1
            };
            let back = if f.row.focused == 0 {
                4
            } else {
                f.row.focused - 1
            };
            &&& f.keys.command(key) == Some(FormCmd::FieldNext) ==> r.0.row.focused == on
            &&& f.keys.command(key) == Some(FormCmd::FieldPrev) ==> r.0.row.focused == back
            &&& f.keys.command(key) == Some(FormCmd::Submit) && f.row.focused < 3
                ==> r.0.row.focused == on && r.1.reply is None
            &&& f.keys.command(key) == Some(FormCmd::Submit) && f.row.focused >= 3
                ==> r.0.row == f.row && r.1.reply == Some(ActionView::FocusButtons)
            &&& r.1.sent is None
        }),
{
}

// ── The other forms ─────────────────────────────────────────────────────────

/// The form of a list is submitted with the name in it, without the blanks around it: a new list
/// gets it, a list gets another, or a list is shared with a user of that name. Without a name
/// nothing is sent, and an error is shown.
pub proof fn law_list_form_sends_the_name(f: ListFormView)
    ensures
        ({
            let r = f.updated(ActionView::SubmitForm);
            let name = trimmed(f.field.contents());
            &&& name.len() == 0 ==> r.1.sent is None && r.0.error is Some
            &&& name.len() > 0 ==> r.0.error is None && (match f.op {
                ListOp::Create => r.1.sent == Some(ActionView::CreateList { name }),
                ListOp::Rename(id) => r.1.sent == Some(
                    ActionView::RenameList { list_id: id, name },
                ),
                ListOp::Share(id) => r.1.sent == Some(
                    ActionView::ShareList { list_id: id, username: name },
                ),
            })
            &&& r.0.field == f.field && r.0.op == f.op
        }),
{
}

/// The forms of lists are about what they were opened for; another name starts with the
/// current one.
pub proof fn law_list_forms_start(list_id: ListId, name: Seq<char>)
    requires
        !name.contains('\n') && !name.contains('\r'),
    ensures
        create_start().op == ListOp::Create,
        rename_start(list_id, name).op == ListOp::Rename(list_id),
        share_start(list_id).op == ListOp::Share(list_id),
        typed(rename_start(list_id, name).field.log) == Some(name),
{
    law_set_value_reads_back(crate::components::text_input::new_field("List name"@, false), name);
}

/// A registration is sent if and only if there are a user name and a password, and the password
/// is the same twice; otherwise an error is shown.
pub proof fn law_registration_is_sent(f: FieldFormView)
    requires
        f.row.fields.len() == 3,
    ensures
        ({
            let r = register_updated(f, ActionView::SubmitForm);
            let username = trimmed(f.row.fields[0].contents());
            let password = f.row.fields[1].contents();
            let complete = username.len() > 0 && password.len() > 0 && password
                == f.row.fields[2].contents();
            &&& complete ==> r.1.sent == Some(ActionView::Register { username, password })
                && r.0.busy && r.0.error is None
            &&& !complete ==> r.1.sent is None && r.0.error is Some && r.0.busy == f.busy
            &&& r.0.row == f.row
        }),
{
}

/// A login is sent if and only if there are a user name and a password; otherwise an error is
/// shown.
pub proof fn law_login_is_sent(f: FieldFormView)
    requires
        f.row.fields.len() == 2,
    ensures
        ({
            let r = login_updated(f, ActionView::SubmitForm);
            let username = trimmed(f.row.fields[0].contents());
            let password = f.row.fields[1].contents();
            let complete = username.len() > 0 && password.len() > 0;
            &&& complete ==> r.1.sent == Some(ActionView::Login { username, password })
                && r.0.busy && r.0.error is None
            &&& !complete ==> r.1.sent is None && r.0.error is Some && r.0.busy == f.busy
            &&& r.0.row == f.row
        }),
{
}

/// To unlock is sent if and only if there is a password, with that very password; otherwise an
/// error is shown.
pub proof fn law_unlock_is_sent(f: UnlockView)
    ensures
        ({
            let r = f.updated(ActionView::SubmitForm);
            let password = f.password.contents();
            &&& password.len() > 0 ==> r.1.sent == Some(ActionView::Unlock { password })
                && r.0.busy && r.0.error is None
            &&& password.len() == 0 ==> r.1.sent is None && r.0.error is Some && r.0.busy == f.busy
        }),
{
}

/// An error from outside is shown in the form that waits, which waits no longer; only a
/// submission sends.
pub proof fn law_forms_show_errors(
    f: FieldFormView,
    u: UnlockView,
    l: ListFormView,
    text: Seq<char>,
    a: ActionView,
)
    ensures
        register_updated(f, ActionView::Error(text)).0.error == Some(text),
        !register_updated(f, ActionView::Error(text)).0.busy,
        login_updated(f, ActionView::Error(text)).0.error == Some(text),
        !login_updated(f, ActionView::Error(text)).0.busy,
        u.updated(ActionView::Error(text)).0.error == Some(text),
        !u.updated(ActionView::Error(text)).0.busy,
        l.updated(ActionView::Error(text)).0.error == Some(text),
        a != ActionView::SubmitForm ==> register_updated(f, a).1.sent is None && login_updated(
            f,
            a,
        ).1.sent is None && u.updated(a).1.sent is None && l.updated(a).1.sent is None,
{
}

// ── Members ─────────────────────────────────────────────────────────────────

/// To remove the selected member sends that very member and that very list, unless it is
/// oneself; then nothing is sent.
pub proof fn law_selected_member_is_removed(v: MembersView, key: KeyEvent)
    requires
        0 <= v.selected < v.members.len(),
        v.keys.command(key) == Some(MembersCmd::Unshare),
    ensures
        ({
            let r = v.after_key(key);
            let m = v.members[v.selected];
            &&& m.id != v.me ==> r.1.sent == Some(
                ActionView::Unshare { list_id: v.list_id, member_id: m.id },
            )
            &&& m.id == v.me ==> r.1.sent is None
            &&& r.0.members == v.members && r.0.selected == v.selected && r.0.list_id == v.list_id
        }),
{
}

/// A step selects the next or the previous member, round the ends, and sends nothing.
pub proof fn law_steps_through_members(v: MembersView, key: KeyEvent)
    requires
        0 <= v.selected < v.members.len(),
    ensures
        ({
            let r = v.after_key(key);
            let n = v.members.len() as int;
            &&& v.keys.command(key) == Some(MembersCmd::SelectNext) ==> r.1.sent is None
                && r.0.selected == (if v.selected + 1 < n {
                v.selected + 1
            } else {
                0
            })
            &&& v.keys.command(key) == Some(MembersCmd::SelectPrev) ==> r.1.sent is None
                && r.0.selected == (if v.selected > 0 {
                v.selected - 1
            } else {
                n - 1
            })
            &&& r.0.members == v.members && r.0.list_id == v.list_id && r.0.me == v.me
        }),
{
    let n = v.members.len() as int;
    let i = v.selected;
    if i + 1 < n {
        vstd::arithmetic::div_mod::lemma_small_mod((i + 1) as nat, n as nat);
    } else {
        vstd::arithmetic::div_mod::lemma_mod_self_0(n);
    }
    if i > 0 {
        vstd::arithmetic::div_mod::lemma_small_mod((i - 1) as nat, n as nat);
    } else {
        vstd::arithmetic::div_mod::lemma_mod_add_multiples_vanish(-1, n);
        vstd::arithmetic::div_mod::lemma_small_mod((n - 1) as nat, n as nat);
    }
}

/// Bytes in hexadecimal have two digits each, and different bytes have different texts.
pub proof fn law_hex_tells_bytes_apart(a: Seq<u8>, b: Seq<u8>)
    requires
        hex_text(a) == hex_text(b),
    ensures
        a == b,
    decreases a.len() + b.len(),
{
    lemma_hex_len(a);
    lemma_hex_len(b);
    if a.len() > 0 {
        let x = a.last() as int;
        let y = b.last() as int;
        let s = hex_text(a);
        let t = hex_text(b);
        let n = s.len() as int;
        assert(s[n - 1] == hex_digit(x % 16) && s[n - 2] == hex_digit(x / 16));
        assert(t[n - 1] == hex_digit(y % 16) && t[n - 2] == hex_digit(y / 16));
        lemma_hex_digit(x % 16, y % 16);
        lemma_hex_digit(x / 16, y / 16);
        assert(x == y) by {
            assert(x == x / 16 * 16 + x % 16);
            assert(y == y / 16 * 16 + y % 16);
        }
        assert(s.take(n - 2) =~= hex_text(a.drop_last()));
        assert(t.take(n - 2) =~= hex_text(b.drop_last()));
        law_hex_tells_bytes_apart(a.drop_last(), b.drop_last());
        assert(a =~= a.drop_last().push(a.last()));
        assert(b =~= b.drop_last().push(b.last()));
    } else {
        assert(a =~= b);
    }
}

proof fn lemma_hex_len(a: Seq<u8>)
    ensures
        hex_text(a).len() == 2 * a.len(),
    decreases a.len(),
{
    if a.len() > 0 {
        lemma_hex_len(a.drop_last());
    }
}

proof fn lemma_hex_digit(x: int, y: int)
    requires
        0 <= x < 16,
        0 <= y < 16,
        hex_digit(x) == hex_digit(y),
    ensures
        x == y,
{
    assert(hex_digit(x) as u32 == if x < 10 { 48 + x } else { 87 + x });
    assert(hex_digit(y) as u32 == if y < 10 { 48 + y } else { 87 + y });
}

// ── Dialogs ─────────────────────────────────────────────────────────────────

/// While the buttons have the focus, to activate answers with the action of the button that has
/// it, and to cancel with the dialog's way out.
pub proof fn law_focused_button_is_pressed(m: ModalView, key: KeyEvent)
    requires
        key.code != KeyCode::Esc,
        !m.focus_body,
        0 <= m.focused < m.buttons.len(),
    ensures
        m.keys.command(key) == Some(ModalCmd::Activate) ==> m.after_key(key).1.reply == Some(
            m.buttons[m.focused].action,
        ) && m.after_key(key).1.sent is None,
        m.keys.command(key) == Some(ModalCmd::Cancel) ==> m.after_key(key).1.reply == Some(
            m.esc_action,
        ) && m.after_key(key).1.sent is None,
{
}

/// While the buttons have the focus, a step on or back gives it to the next or the previous
/// one, round the ends; a step back from the first goes into a body that takes keys.
pub proof fn law_steps_through_buttons(m: ModalView, key: KeyEvent)
    requires
        key.code != KeyCode::Esc,
        !m.focus_body,
        0 <= m.focused < m.buttons.len(),
    ensures
        ({
            let r = m.after_key(key).0;
            let n = m.buttons.len() as int;
            &&& m.keys.command(key) == Some(ModalCmd::FocusNext) ==> !r.focus_body && r.focused == (
            if m.focused + 1 < n {
                m.focused + 1
            } else {
                0
            })
            &&& m.keys.command(key) == Some(ModalCmd::FocusPrev) && m.focused > 0
                ==> !r.focus_body && r.focused == m.focused - 1
            &&& m.keys.command(key) == Some(ModalCmd::FocusPrev) && m.focused == 0
                && m.body.captures() ==> r.focus_body
            &&& m.keys.command(key) == Some(ModalCmd::FocusPrev) && m.focused == 0
                && !m.body.captures() ==> !r.focus_body && r.focused == n - 1
        }),
{
    let n = m.buttons.len() as int;
    let i = m.focused;
    if i + 1 < n {
        vstd::arithmetic::div_mod::lemma_small_mod((i + 1) as nat, n as nat);
    } else {
        vstd::arithmetic::div_mod::lemma_mod_self_0(n);
    }
    if i > 0 {
        vstd::arithmetic::div_mod::lemma_small_mod((i - 1) as nat, n as nat);
    } else {
        vstd::arithmetic::div_mod::lemma_mod_add_multiples_vanish(-1, n);
        vstd::arithmetic::div_mod::lemma_small_mod((n - 1) as nat, n as nat);
    }
}

/// A click presses the first button that it hits, and no button where it hits none. Only the
/// left button of the mouse presses.
pub proof fn law_click_presses_what_it_hits(m: ModalView, mouse: MouseEvent, from: int)
    requires
        0 <= from <= m.buttons.len(),
    ensures
        match m.clicked(mouse, from) {
            Some(a) => mouse.left_down && exists|i: int|
                from <= i < m.buttons.len() && (#[trigger] m.buttons[i]).action == a && hit(
                    m.buttons[i].last_area,
                    mouse,
                ) && forall|j: int|
                    from <= j < i ==> !hit((#[trigger] m.buttons[j]).last_area, mouse),
            None => !mouse.left_down || forall|j: int|
                from <= j < m.buttons.len() ==> !hit((#[trigger] m.buttons[j]).last_area, mouse),
        },
    decreases m.buttons.len() - from,
{
    if from < m.buttons.len() {
        if m.buttons[from].on_mouse(mouse) is None {
            law_click_presses_what_it_hits(m, mouse, from + 1);
            if let Some(a) = m.clicked(mouse, from + 1) {
                let i = choose|i: int|
                    from + 1 <= i < m.buttons.len() && (#[trigger] m.buttons[i]).action == a && hit(
                        m.buttons[i].last_area,
                        mouse,
                    ) && forall|j: int|
                        from + 1 <= j < i ==> !hit((#[trigger] m.buttons[j]).last_area, mouse);
                assert(m.buttons[i].action == a);
            }
        } else {
            assert(hit(m.buttons[from].last_area, mouse));
        }
    }
}

/// Whether a mouse event lies within a rectangle, whose right and lower edges are outside; no
/// cell lies beyond the last column and row.
pub open spec fn hit(area: Rect, mouse: MouseEvent) -> bool {
    &&& area.x <= mouse.column && area.y <= mouse.row
    &&& mouse.column - area.x < area.width && mouse.row - area.y < area.height
    &&& mouse.column < 65535 && mouse.row < 65535
}

// ── Fields ──────────────────────────────────────────────────────────────────

/// A key or a paste changes the field that has the focus, and no other; to start or stop typing
/// keeps what the fields hold but for where the cursor stands.
pub proof fn law_only_the_focused_field_changes(row: RowView, key: KeyEvent, text: Seq<char>, j: int)
    requires
        0 <= j < row.fields.len(),
    ensures
        row.after_key(key).fields.len() == row.fields.len(),
        row.after_key(key).focused == row.focused,
        j != row.focused ==> row.after_key(key).fields[j] == row.fields[j],
        j == row.focused ==> row.after_key(key).fields[j] == row.fields[j].after_key(key),
        j != row.focused ==> row.after_paste(text).fields[j] == row.fields[j],
        j == row.focused ==> row.after_paste(text).fields[j] == row.fields[j].after_paste(text),
        row.all_blurred().fields[j].log == row.fields[j].log,
        !row.all_blurred().fields[j].capturing,
        row.restarted().focused == 0,
        row.restarted().fields[j].capturing == (j == 0),
        j > 0 ==> row.restarted().fields[j].log == row.fields[j].log,
{
}

/// The keys of a form of text fields: to the next and the previous field and round, and on from
/// the last field to the buttons when it is submitted; every other key is typed into the field
/// that has the focus.
pub proof fn law_field_form_keys(f: FieldFormView, key: KeyEvent)
    requires
        key.code != KeyCode::Esc,
        0 <= f.row.focused < f.row.fields.len(),
    ensures
        ({
            let r = f.after_key(key);
            let n = f.row.fields.len() as int;
            let i = f.row.focused;
            let on = if i + 1 < n {
                i + 1
            } else {
                0
            };
            let back = if i > 0 {
                i - 1
            } else {
                n - 1
            };
            let cmd = f.keys.command(key);
            &&& cmd == Some(FormCmd::FieldNext) ==> r.0.row.focused == on && r.1.reply is None
            &&& cmd == Some(FormCmd::FieldPrev) ==> r.0.row.focused == back && r.1.reply is None
            &&& cmd == Some(FormCmd::Submit) && i < n - 1 ==> r.0.row.focused == i + 1
                && r.1.reply is None
            &&& cmd == Some(FormCmd::Submit) && i == n - 1 ==> r.0.row == f.row && r.1.reply == Some(
                ActionView::FocusButtons,
            )
            &&& cmd is None ==> r.0.row == f.row.after_key(key) && r.1.reply is None
            &&& r.1.sent is None
        }),
{
    let n = f.row.fields.len() as int;
    let i = f.row.focused;
    if i + 1 < n {
        vstd::arithmetic::div_mod::lemma_small_mod((i + 1) as nat, n as nat);
    } else {
        vstd::arithmetic::div_mod::lemma_mod_self_0(n);
    }
    if i > 0 {
        vstd::arithmetic::div_mod::lemma_mod_add_multiples_vanish(i - 1, n);
        vstd::arithmetic::div_mod::lemma_small_mod((i - 1) as nat, n as nat);
    } else {
        vstd::arithmetic::div_mod::lemma_small_mod((n - 1) as nat, n as nat);
    }
}

/// The form of a list has one field: a key that submits goes to the buttons, and any other key
/// that is bound to nothing is typed.
pub proof fn law_list_form_keys(f: ListFormView, key: KeyEvent)
    requires
        key.code != KeyCode::Esc,
    ensures
        f.keys.command(key) == Some(FormCmd::Submit) ==> f.after_key(key).1.reply == Some(
            ActionView::FocusButtons,
        ) && f.after_key(key).0.field == f.field,
        f.keys.command(key) is None ==> f.after_key(key).0.field == f.field.after_key(key)
            && f.after_key(key).1.reply is None,
        f.after_key(key).1.sent is None,
        f.after_key(key).0.op == f.op,
{
}

/// The form to unlock has one field: Enter goes into it, and from it to the buttons; a character
/// is typed.
pub proof fn law_unlock_form_keys(f: UnlockView, key: KeyEvent)
    ensures
        key.code == KeyCode::Enter && !f.focused ==> f.after_key(key).0.focused
            && f.after_key(key).0.password.capturing && f.after_key(key).1.reply is None,
        key.code == KeyCode::Enter && f.focused ==> f.after_key(key).0 == f && f.after_key(
            key,
        ).1.reply == Some(ActionView::FocusButtons),
        key.code is Char ==> f.after_key(key).0.password == f.password.after_key(key)
            && f.after_key(key).1.reply is None,
        f.after_key(key).1.sent is None,
{
}

/// To configure a dialog keeps what was typed into it, and what it is about.
pub proof fn law_configuring_keeps_what_is_typed(m: ModalView, config: Config, j: int)
    ensures
        ({
            let b = m.configured(config);
            &&& b.buttons == m.buttons && b.esc_action == m.esc_action && b.focused == m.focused
            &&& b.title == m.title && b.focus_body == m.focus_body
            &&& match m.body {
                BodyView::Todo(f) => b.body matches BodyView::Todo(g) && g.list_id == f.list_id
                    && g.item_id == f.item_id && g.priority == f.priority && g.due_cursor
                    == f.due_cursor && g.due_enabled == f.due_enabled && (0 <= j
                    < f.row.fields.len() ==> g.row.fields[j].log == f.row.fields[j].log
                    && g.row.fields[j].editing_mode == config.config.editing_mode),
                BodyView::List(f) => b.body matches BodyView::List(g) && g.op == f.op
                    && g.field.log == f.field.log && g.field.editing_mode
                    == config.config.editing_mode,
                BodyView::Register(f) => b.body matches BodyView::Register(g) && (0 <= j
                    < f.row.fields.len() ==> g.row.fields[j].log == f.row.fields[j].log),
                BodyView::Login(f) => b.body matches BodyView::Login(g) && (0 <= j
                    < f.row.fields.len() ==> g.row.fields[j].log == f.row.fields[j].log),
                BodyView::Unlock(f) => b.body matches BodyView::Unlock(g) && g.password.log
                    == f.password.log,
                BodyView::Members(v) => b.body matches BodyView::Members(w) && w.members
                    == v.members && w.list_id == v.list_id && w.me == v.me && w.selected
                    == v.selected,
                _ => b.body == m.body,
            }
        }),
{
}

/// Forms and the list of members take the keys that are typed; a question and a cheatsheet do
/// not.
pub proof fn law_which_bodies_take_keys(b: BodyView)
    ensures
        b is Prompt || b is Help ==> !b.captures(),
        !(b is Prompt) && !(b is Help) ==> b.captures(),
{
}

/// A button is pressed by Enter or a blank while it has the focus, and then answers with its own
/// action; no other key presses it.
pub proof fn law_button_keys(b: ButtonView, key: KeyEvent)
    ensures
        b.focused && (key.code == KeyCode::Enter || key.code == KeyCode::Char(' ')) ==> b.on_key(
            key,
        ) == Some(b.action),
        !b.focused || (key.code != KeyCode::Enter && key.code != KeyCode::Char(' ')) ==> b.on_key(
            key,
        ) is None,
{
}

/// Passwords are not shown as they are typed, user names are; and a form opens empty, without an
/// error and not waiting.
pub proof fn law_passwords_are_masked()
    ensures
        register_start().row.fields.len() == 3,
        !register_start().row.fields[0].mask,
        register_start().row.fields[1].mask && register_start().row.fields[2].mask,
        login_start().row.fields.len() == 2,
        !login_start().row.fields[0].mask && login_start().row.fields[1].mask,
        unlock_start().password.mask,
        !register_start().busy && !login_start().busy && !unlock_start().busy,
        register_start().error is None && login_start().error is None,
        unlock_start().error is None,
        typed(register_start().row.fields[0].log) == Some(Seq::<char>::empty()),
        typed(register_start().row.fields[1].log) == Some(Seq::<char>::empty()),
        typed(login_start().row.fields[0].log) == Some(Seq::<char>::empty()),
        typed(login_start().row.fields[1].log) == Some(Seq::<char>::empty()),
        typed(unlock_start().password.log) == Some(Seq::<char>::empty()),
{
    reveal_with_fuel(typed, 3);
    assert(fresh_log(true).drop_last() =~= Seq::<Edit>::empty());
}

/// The form for a new todo is about the list it was opened for and no todo, and starts without a
/// title, a due date or a priority, on the day it is.
pub proof fn law_new_todo_form_is_empty(list_id: ListId, today: Date)
    ensures
        ({
            let f = blank_form(list_id, None, today);
            &&& f.list_id == list_id && f.item_id is None
            &&& !f.due_enabled && f.due_cursor == today && f.priority == Priority::Unset
            &&& f.error is None && f.row.focused == 0 && f.row.fields.len() == 3
            &&& typed(f.row.fields[0].log) == Some(Seq::<char>::empty())
            &&& typed(f.row.fields[1].log) == Some(Seq::<char>::empty())
            &&& typed(f.row.fields[2].log) == Some(Seq::<char>::empty())
            &&& f.input().due is None && f.input().priority == Priority::Unset
        }),
{
    reveal_with_fuel(typed, 2);
}

} // verus!
