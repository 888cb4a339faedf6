//! The form for a todo: title, notes and tags as text, a calendar for the due
//! date, and a list of priorities.
use vstd::prelude::*;
use vstd::string::*;

use crate::action::{answers, quiet, sends, Action, ActionView, Outcome, OutcomeView};
use crate::components::fields::{FieldRow, RowView};
use crate::components::form_keys::{form_keys_of, FormCmd, FormKeys};
use crate::components::surface::{unbound, SurfaceView};
use crate::components::text_input::{new_field, TextInput};
use crate::config::Config;
use crate::dates::{
    date_at, date_of_time, day_number, days_later, months_later, shift_month, Date,
};
use crate::keymap::opt_text;
use crate::keys::{KeyCode, KeyEvent};
use crate::model::{InputView, ListId, Priority, TodoItem, TodoItemInput, TodoView};
use crate::text::{join, joined, joined_with, pieces, split, texts, trim, trimmed};

verus! {

/// The position of the calendar, after the three text fields.
pub const DUE: usize = 3;

/// The position of the priority list, the last one.
pub const PRIORITY: usize = 4;

/// The positions that can have the focus.
pub const FIELD_COUNT: usize = 5;

/// How a key moves the calendar's cursor.
#[derive(Clone, Copy, Debug, PartialEq, Eq, Structural)]
pub enum CursorMove {
    PrevDay,
    NextDay,
    PrevWeek,
    NextWeek,
    PrevMonth,
    NextMonth,
}

/// The date to which a move leads.
pub open spec fn moved(date: Date, mv: CursorMove) -> Date {
    match mv {
        CursorMove::PrevDay => days_later(date, -1),
        CursorMove::NextDay => days_later(date, 1),
        CursorMove::PrevWeek => days_later(date, -7),
        CursorMove::NextWeek => days_later(date, 7),
        CursorMove::PrevMonth => months_later(date, -1),
        CursorMove::NextMonth => months_later(date, 1),
    }
}

/// The move that a key makes in the calendar.
pub open spec fn move_of(code: KeyCode) -> Option<CursorMove> {
    match code {
        KeyCode::Left => Some(CursorMove::PrevDay),
        KeyCode::Right => Some(CursorMove::NextDay),
        KeyCode::Up => Some(CursorMove::PrevWeek),
        KeyCode::Down => Some(CursorMove::NextWeek),
        KeyCode::PageUp => Some(CursorMove::PrevMonth),
        KeyCode::PageDown => Some(CursorMove::NextMonth),
        _ => None,
    }
}

/// The form for a todo.
pub struct TodoForm {
    pub list_id: ListId,
    /// The todo that is edited; `None` for a new one.
    pub item_id: Option<String>,
    pub row: FieldRow,
    /// The day on which the calendar's cursor stands.
    pub due_cursor: Date,
    /// Whether the cursor's day is the due date.
    pub due_enabled: bool,
    pub priority: Priority,
    pub error: Option<String>,
    pub keys: FormKeys,
}

/// What the form for a todo holds.
#[verifier::ext_equal]
pub ghost struct TodoFormView {
    pub list_id: ListId,
    pub item_id: Option<Seq<char>>,
    pub row: RowView,
    pub due_cursor: Date,
    pub due_enabled: bool,
    pub priority: Priority,
    pub error: Option<Seq<char>>,
    pub keys: SurfaceView<FormCmd>,
}

impl View for TodoForm {
    type V = TodoFormView;

    open spec fn view(&self) -> TodoFormView {
        TodoFormView {
            list_id: self.list_id,
            item_id: opt_text(self.item_id),
            row: self.row@,
            due_cursor: self.due_cursor,
            due_enabled: self.due_enabled,
            priority: self.priority,
            error: opt_text(self.error),
            keys: self.keys@,
        }
    }
}

/// The empty form.
pub open spec fn blank_form(list_id: ListId, item_id: Option<Seq<char>>, today: Date) -> TodoFormView {
    TodoFormView {
        list_id,
        item_id,
        row: RowView {
            fields: seq![
                new_field("Title"@, false),
                new_field("Notes"@, false),
                new_field("Tags (comma-separated)"@, false),
            ],
            focused: 0,
        },
        due_cursor: today,
        due_enabled: false,
        priority: Priority::Unset,
        error: None,
        keys: unbound::<FormCmd>(),
    }
}

/// The form for changing a todo: it starts with what the todo holds. A due time
/// beyond the calendar counts as none.
pub open spec fn edit_form(list_id: ListId, item: TodoView, today: Date) -> TodoFormView {
    let due = date_at(item.due);
    let blank = blank_form(list_id, Some(item.id), today);
    TodoFormView {
        row: RowView {
            fields: seq![
                blank.row.fields[0].holding(item.title),
                blank.row.fields[1].holding(item.notes),
                blank.row.fields[2].holding(joined_with(item.tags, ", "@)),
            ],
            focused: 0,
        },
        due_cursor: match due {
            Some(d) => d,
            None => today,
        },
        due_enabled: due is Some,
        priority: item.priority,
        ..blank
    }
}

/// The tags in a text: its parts between commas, without the white space around
/// them, and without those that are blank.
pub open spec fn tags_in(parts: Seq<Seq<char>>) -> Seq<Seq<char>>
    decreases parts.len(),
{
    if parts.len() == 0 {
        Seq::empty()
    } else {
        let init = tags_in(parts.drop_last());
        let t = trimmed(parts.last());
        if t.len() == 0 {
            init
        } else {
            init.push(t)
        }
    }
}

impl TodoFormView {
    /// The form with the focus moved, and without an error.
    pub open spec fn focus_on(self, idx: int) -> TodoFormView {
        TodoFormView { row: self.row.refocused(idx), error: None, ..self }
    }

    /// The form with the focus one position further.
    pub open spec fn next(self) -> TodoFormView {
        self.focus_on((self.row.focused + 1) % 5)
    }

    /// The form with the focus one position back.
    pub open spec fn prev(self) -> TodoFormView {
        self.focus_on((self.row.focused + 4) % 5)
    }

    /// The form after a key was resolved.
    pub open spec fn pressed(self, key: KeyEvent) -> TodoFormView {
        TodoFormView { keys: self.keys.after(key), ..self }
    }

    /// What a key does while the calendar has the focus.
    pub open spec fn due_key(self, key: KeyEvent) -> (TodoFormView, OutcomeView) {
        match move_of(key.code) {
            Some(mv) => (
                TodoFormView { due_cursor: moved(self.due_cursor, mv), ..self },
                quiet(),
            ),
            None => if key.code == KeyCode::Char(' ') {
                (TodoFormView { due_enabled: !self.due_enabled, ..self }, quiet())
            } else if key.code == KeyCode::Esc {
                (self, quiet())
            } else {
                let p = self.pressed(key);
                match self.keys.command(key) {
                    Some(FormCmd::FieldNext) => (p.next(), quiet()),
                    Some(FormCmd::FieldPrev) => (p.prev(), quiet()),
                    Some(FormCmd::Submit) => (p, answers(ActionView::FocusButtons)),
                    _ => (p, quiet()),
                }
            },
        }
    }

    /// What a key does while the priority list has the focus.
    pub open spec fn priority_key(self, key: KeyEvent) -> (TodoFormView, OutcomeView) {
        if key.code == KeyCode::Esc {
            (self, quiet())
        } else {
            let p = self.pressed(key);
            match self.keys.command(key) {
                Some(FormCmd::FieldNext) => (p.next(), quiet()),
                Some(FormCmd::FieldPrev) => (p.prev(), quiet()),
                Some(FormCmd::Submit) => (p, answers(ActionView::FocusButtons)),
                Some(FormCmd::CyclePriorityNext) => (
                    TodoFormView {
                        priority: Priority::of_level((self.priority.level() + 1) % 4),
                        ..p
                    },
                    quiet(),
                ),
                Some(FormCmd::CyclePriorityPrev) => (
                    TodoFormView {
                        priority: Priority::of_level((self.priority.level() + 3) % 4),
                        ..p
                    },
                    quiet(),
                ),
                None => (p, quiet()),
            }
        }
    }

    /// What a key does while a text field has the focus.
    pub open spec fn text_key(self, key: KeyEvent) -> (TodoFormView, OutcomeView) {
        if key.code == KeyCode::Esc {
            (TodoFormView { row: self.row.after_key(key), ..self }, quiet())
        } else {
            let p = self.pressed(key);
            match self.keys.command(key) {
                Some(FormCmd::FieldNext) | Some(FormCmd::Submit) => (p.next(), quiet()),
                Some(FormCmd::FieldPrev) => (p.prev(), quiet()),
                _ => (TodoFormView { row: self.row.after_key(key), ..p }, quiet()),
            }
        }
    }

    /// What a key does.
    pub open spec fn after_key(self, key: KeyEvent) -> (TodoFormView, OutcomeView) {
        if self.row.focused == 3 {
            self.due_key(key)
        } else if self.row.focused == 4 {
            self.priority_key(key)
        } else {
            self.text_key(key)
        }
    }

    /// Whether the form can take a key.
    pub open spec fn accepts(self, key: KeyEvent) -> bool {
        self.row.accepts(key)
    }

    /// What the form says of the todo. The due date is midnight, in UTC.
    pub open spec fn input(self) -> InputView {
        InputView {
            title: trimmed(self.row.fields[0].contents()),
            notes: trimmed(self.row.fields[1].contents()),
            due: if self.due_enabled {
                Some((day_number(self.due_cursor) * 86400) as i64)
            } else {
                None
            },
            priority: self.priority,
            tags: tags_in(pieces(self.row.fields[2].contents(), ',')),
        }
    }

    /// What submitting does: without a title an error, else the todo is saved.
    pub open spec fn submitted(self) -> (TodoFormView, OutcomeView) {
        if self.input().title.len() == 0 {
            (TodoFormView { error: Some("Title is required"@), ..self }, quiet())
        } else {
            (
                TodoFormView { error: None, ..self },
                sends(
                    ActionView::SaveTodo {
                        list_id: self.list_id,
                        item_id: self.item_id,
                        input: self.input(),
                    },
                ),
            )
        }
    }

    /// What an action does.
    pub open spec fn updated(self, a: ActionView) -> (TodoFormView, OutcomeView) {
        match a {
            ActionView::StartCapture => (
                TodoFormView { row: self.row.restarted(), error: None, ..self },
                quiet(),
            ),
            ActionView::StopCapture => (
                TodoFormView { row: self.row.all_blurred(), ..self },
                quiet(),
            ),
            ActionView::SubmitForm => self.submitted(),
            ActionView::Error(m) => (TodoFormView { error: Some(m), ..self }, quiet()),
            _ => (self, quiet()),
        }
    }

    /// The title of the calendar.
    pub open spec fn due_title(self) -> Seq<char> {
        if self.due_enabled {
            "Due: "@ + self.due_cursor.text()
        } else {
            "Due: none"@
        }
    }
}

/// How the calendar marks its cursor.
#[derive(Clone, Copy, Debug, PartialEq, Eq, Structural)]
pub enum DueMark {
    /// The cursor's day is the due date.
    Chosen,
    /// The cursor is moved about, but no due date is set.
    Cursor,
    /// Nothing is marked.
    Unmarked,
}

impl TodoForm {
    /// The three fields are there, a position has the focus, the calendar stands on
    /// a date, and the keymap is valid.
    pub open spec fn wf(&self) -> bool {
        &&& self.keys.wf()
        &&& self@.row.fields.len() == 3
        &&& 0 <= self@.row.focused < 5
        &&& self.due_cursor.wf()
    }

    fn blank(list_id: ListId, item_id: Option<String>, today: Date) -> (r: TodoForm)
        requires
            today.wf(),
        ensures
            r.wf(),
            r@ == blank_form(list_id, opt_text(item_id), today),
    {
        let mut fields: Vec<TextInput> = Vec::new();
        fields.push(TextInput::labelled("Title", false));
        fields.push(TextInput::labelled("Notes", false));
        fields.push(TextInput::labelled("Tags (comma-separated)", false));
        let r = TodoForm {
            list_id,
            item_id,
            row: FieldRow { fields, focused: 0 },
            due_cursor: today,
            due_enabled: false,
            priority: Priority::Unset,
            error: None,
            keys: FormKeys::new(),
        };
        proof {
            assert(r@.row.fields =~= blank_form(list_id, opt_text(item_id), today).row.fields);
            assert(r@ =~= blank_form(list_id, opt_text(item_id), today));
        }
        r
    }

    /// The form for a new todo.
    pub fn add(list_id: ListId, today: Date) -> (r: TodoForm)
        requires
            today.wf(),
        ensures
            r.wf(),
            r@ == blank_form(list_id, None, today),
    {
        TodoForm::blank(list_id, None, today)
    }

    /// The form for changing a todo.
    pub fn edit(list_id: ListId, item: &TodoItem, today: Date) -> (r: TodoForm)
        requires
            today.wf(),
        ensures
            r.wf(),
            r@ == edit_form(list_id, item@, today),
    {
        let mut form = TodoForm::blank(list_id, Some(item.id.clone()), today);
        let ghost b = form@;
        proof {
            assert(b.row.fields[0] == form.row.fields@[0]@);
            assert(b.row.fields[1] == form.row.fields@[1]@);
            assert(b.row.fields[2] == form.row.fields@[2]@);
        }
        form.row.fields[0].set_value(item.title.as_str());
        form.row.fields[1].set_value(item.notes.as_str());
        let due: Option<Date> = date_of_time(item.due);
        if let Some(d) = due {
            form.due_cursor = d;
            form.due_enabled = true;
        }
        let tags = join(&item.tags, ", ");
        form.row.fields[2].set_value(tags.as_str());
        form.priority = item.priority;
        proof {
            let e = edit_form(list_id, item@, today);
            assert(form@.row.fields =~= e.row.fields);
            assert(form@ =~= e);
        }
        form
    }

    /// Applies the configuration.
    pub fn configure(&mut self, config: &Config)
        requires
            old(self).wf(),
            config.wf(),
        ensures
            final(self).wf(),
            final(self)@ == (TodoFormView {
                row: old(self)@.row.edited_as(config.config.editing_mode),
                keys: form_keys_of(old(self)@.keys, *config),
                ..old(self)@
            }),
    {
        self.row.edit_as(config.config.editing_mode);
        self.keys.configure(config);
    }

    fn focus_next(&mut self)
        requires
            old(self).wf(),
        ensures
            final(self).wf(),
            final(self)@ == old(self)@.next(),
    {
        let at: usize = self.row.focused;
        self.row.set_focus((at + 1) % FIELD_COUNT);
        self.error = None;
    }

    fn focus_prev(&mut self)
        requires
            old(self).wf(),
        ensures
            final(self).wf(),
            final(self)@ == old(self)@.prev(),
    {
        let at: usize = self.row.focused;
        self.row.set_focus((at + FIELD_COUNT - 1) % FIELD_COUNT);
        self.error = None;
    }

    /// Moves the calendar's cursor.
    pub fn move_cursor(&mut self, mv: CursorMove)
        requires
            old(self).wf(),
        ensures
            final(self).wf(),
            final(self)@ == (TodoFormView {
                due_cursor: moved(old(self)@.due_cursor, mv),
                ..old(self)@
            }),
    {
        let d = self.due_cursor;
        self.due_cursor = match mv {
            CursorMove::PrevDay => d.plus_days(-1),
            CursorMove::NextDay => d.plus_days(1),
            CursorMove::PrevWeek => d.plus_days(-7),
            CursorMove::NextWeek => d.plus_days(7),
            CursorMove::PrevMonth => shift_month(d, -1),
            CursorMove::NextMonth => shift_month(d, 1),
        };
    }

    fn handle_due_key(&mut self, key: KeyEvent) -> (r: Outcome)
        requires
            old(self).wf(),
        ensures
            final(self).wf(),
            (final(self)@, r@) == old(self)@.due_key(key),
    {
        match key.code {
            KeyCode::Left => self.move_cursor(CursorMove::PrevDay),
            KeyCode::Right => self.move_cursor(CursorMove::NextDay),
            KeyCode::Up => self.move_cursor(CursorMove::PrevWeek),
            KeyCode::Down => self.move_cursor(CursorMove::NextWeek),
            KeyCode::PageUp => self.move_cursor(CursorMove::PrevMonth),
            KeyCode::PageDown => self.move_cursor(CursorMove::NextMonth),
            KeyCode::Char(' ') => {
                self.due_enabled = !self.due_enabled;
            },
            KeyCode::Esc => {},
            _ => {
                match self.keys.resolve(key) {
                    Some(FormCmd::FieldNext) => self.focus_next(),
                    Some(FormCmd::FieldPrev) => self.focus_prev(),
                    Some(FormCmd::Submit) => {
                        return Outcome::answer(Action::FocusButtons);
                    },
                    _ => {},
                }
            },
        }
        Outcome::none()
    }

    fn handle_priority_key(&mut self, key: KeyEvent) -> (r: Outcome)
        requires
            old(self).wf(),
        ensures
            final(self).wf(),
            (final(self)@, r@) == old(self)@.priority_key(key),
    {
        if key.code == KeyCode::Esc {
            return Outcome::none();
        }
        match self.keys.resolve(key) {
            Some(FormCmd::FieldNext) => self.focus_next(),
            Some(FormCmd::FieldPrev) => self.focus_prev(),
            Some(FormCmd::Submit) => {
                return Outcome::answer(Action::FocusButtons);
            },
            Some(FormCmd::CyclePriorityNext) => {
                self.priority = self.priority.next();
            },
            Some(FormCmd::CyclePriorityPrev) => {
                self.priority = self.priority.prev();
            },
            None => {},
        }
        Outcome::none()
    }

    /// Takes a key.
    pub fn handle_key_event(&mut self, key: KeyEvent) -> (r: Outcome)
        requires
            old(self).wf(),
            old(self)@.accepts(key),
        ensures
            final(self).wf(),
            (final(self)@, r@) == old(self)@.after_key(key),
    {
        if self.row.focused == DUE {
            return self.handle_due_key(key);
        }
        if self.row.focused == PRIORITY {
            return self.handle_priority_key(key);
        }
        if key.code != KeyCode::Esc {
            match self.keys.resolve(key) {
                Some(FormCmd::FieldNext) | Some(FormCmd::Submit) => {
                    self.focus_next();
                    return Outcome::none();
                },
                Some(FormCmd::FieldPrev) => {
                    self.focus_prev();
                    return Outcome::none();
                },
                _ => {},
            }
        }
        self.row.type_key(key);
        Outcome::none()
    }

    /// Validates the form and saves the todo.
    fn submit(&mut self) -> (r: Outcome)
        requires
            old(self).wf(),
        ensures
            final(self).wf(),
            (final(self)@, r@) == old(self)@.submitted(),
    {
        proof {
            assert(self@.row.fields[0] == self.row.fields@[0]@);
            assert(self@.row.fields[1] == self.row.fields@[1]@);
            assert(self@.row.fields[2] == self.row.fields@[2]@);
        }
        let raw_title = self.row.fields[0].value();
        let title = trim(raw_title.as_str());
        if title.as_str().is_empty() {
            self.error = Some("Title is required".to_owned());
            return Outcome::none();
        }
        let due: Option<i64> = if self.due_enabled {
            Some(self.due_cursor.midnight())
        } else {
            None
        };
        let raw_tags = self.row.fields[2].value();
        let tags = read_tags(raw_tags.as_str());
        let raw_notes = self.row.fields[1].value();
        let notes = trim(raw_notes.as_str());
        let input = TodoItemInput { title, notes, due, priority: self.priority, tags };
        self.error = None;
        let item_id = crate::action::copy_opt(&self.item_id);
        Outcome::send(Action::SaveTodo { list_id: self.list_id, item_id, input })
    }

    /// Reacts to an action.
    pub fn update(&mut self, action: &Action) -> (r: Outcome)
        requires
            old(self).wf(),
        ensures
            final(self).wf(),
            (final(self)@, r@) == old(self)@.updated(action@),
    {
        match action {
            Action::StartCapture => {
                self.row.restart();
                self.error = None;
                Outcome::none()
            },
            Action::StopCapture => {
                self.row.blur_all();
                Outcome::none()
            },
            Action::SubmitForm => self.submit(),
            Action::Error(m) => {
                self.error = Some(m.clone());
                Outcome::none()
            },
            _ => Outcome::none(),
        }
    }

    /// Takes pasted text.
    pub fn paste(&mut self, text: &str)
        requires
            old(self).wf(),
        ensures
            final(self).wf(),
            final(self)@ == (TodoFormView { row: old(self)@.row.after_paste(text@), ..old(self)@ }),
    {
        self.row.paste(text);
    }

    /// The help for the focused position.
    pub fn help_text(&self) -> (r: &'static str)
        ensures
            r@ == (if self.row.focused == DUE {
                "\u{2190}\u{2192} day \u{b7} \u{2191}\u{2193} week \u{b7} PgUp/Dn month \u{b7} Space toggle due \u{b7} Tab move \u{b7} Esc cancel"@
            } else if self.row.focused == PRIORITY {
                "\u{2190}\u{2192} / space change priority \u{b7} Tab move \u{b7} Enter submit \u{b7} Esc cancel"@
            } else {
                "Tab/\u{2191}\u{2193} move \u{b7} Enter next \u{b7} Esc cancel"@
            }),
    {
        if self.row.focused == DUE {
            "\u{2190}\u{2192} day \u{b7} \u{2191}\u{2193} week \u{b7} PgUp/Dn month \u{b7} Space toggle due \u{b7} Tab move \u{b7} Esc cancel"
        } else if self.row.focused == PRIORITY {
            "\u{2190}\u{2192} / space change priority \u{b7} Tab move \u{b7} Enter submit \u{b7} Esc cancel"
        } else {
            "Tab/\u{2191}\u{2193} move \u{b7} Enter next \u{b7} Esc cancel"
        }
    }

    /// The title of the calendar.
    pub fn due_title(&self) -> (r: String)
        requires
            self.wf(),
        ensures
            r@ == self@.due_title(),
    {
        if self.due_enabled {
            let d = self.due_cursor.to_text();
            joined("Due: ", d.as_str())
        } else {
            "Due: none".to_owned()
        }
    }

    /// How the calendar marks its cursor: as chosen where a due date is set, as a
    /// mere cursor while the calendar has the focus, else not at all.
    pub fn due_mark(&self) -> (r: DueMark)
        ensures
            r == (if self.due_enabled {
                DueMark::Chosen
            } else if self.row.focused == DUE {
                DueMark::Cursor
            } else {
                DueMark::Unmarked
            }),
    {
        if self.due_enabled {
            DueMark::Chosen
        } else if self.row.focused == DUE {
            DueMark::Cursor
        } else {
            DueMark::Unmarked
        }
    }

    /// The line beneath the form: the error, else the help.
    pub fn status(&self) -> (r: String)
        ensures
            r@ == (match self.error {
                Some(e) => e@,
                None => (if self.row.focused == DUE {
                    "\u{2190}\u{2192} day \u{b7} \u{2191}\u{2193} week \u{b7} PgUp/Dn month \u{b7} Space toggle due \u{b7} Tab move \u{b7} Esc cancel"@
                } else if self.row.focused == PRIORITY {
                    "\u{2190}\u{2192} / space change priority \u{b7} Tab move \u{b7} Enter submit \u{b7} Esc cancel"@
                } else {
                    "Tab/\u{2191}\u{2193} move \u{b7} Enter next \u{b7} Esc cancel"@
                }),
            }),
    {
        match &self.error {
            Some(e) => e.clone(),
            None => self.help_text().to_owned(),
        }
    }
}

/// Reads the tags of a text.
pub fn read_tags(text: &str) -> (r: Vec<String>)
    ensures
        texts(r@) == tags_in(pieces(text@, ',')),
{
    let parts = split(text, ',');
    let ghost ps = texts(parts@);
    let mut out: Vec<String> = Vec::new();
    let mut i: usize = 0;
    proof {
        assert(ps.take(0) =~= Seq::<Seq<char>>::empty());
        assert(texts(out@) =~= Seq::<Seq<char>>::empty());
    }
    while i < parts.len()
        invariant
            i <= parts@.len(),
            ps == texts(parts@),
            texts(out@) == tags_in(ps.take(i as int)),
        decreases parts@.len() - i,
    {
        proof {
            assert(ps.take(i + 1).drop_last() =~= ps.take(i as int));
            assert(ps.take(i + 1).last() == parts@[i as int]@);
        }
        let t = trim(parts[i].as_str());
        if !t.as_str().is_empty() {
            let ghost before = out@;
            out.push(t);
            proof {
                assert(texts(out@) =~= texts(before).push(t@));
            }
        }
        i = i + 1;
    }
    proof {
        assert(ps.take(ps.len() as int) =~= ps);
    }
    out
}

/// No tag is blank or has white space around it.
pub proof fn law_tags_are_clean(parts: Seq<Seq<char>>, i: int)
    requires
        0 <= i < tags_in(parts).len(),
    ensures
        tags_in(parts)[i].len() > 0,
        exists|j: int| 0 <= j < parts.len() && tags_in(parts)[i] == trimmed(#[trigger] parts[j]),
    decreases parts.len(),
{
    if parts.len() > 0 {
        let init = parts.drop_last();
        if i < tags_in(init).len() {
            law_tags_are_clean(init, i);
            let j = choose|j: int| 0 <= j < init.len() && tags_in(init)[i] == trimmed(#[trigger] init[j]);
            assert(parts[j] == init[j]);
        } else {
            assert(tags_in(parts)[i] == trimmed(parts[parts.len() - 1]));
        }
    }
}

/// Tabbing through all positions comes back to where it started.
pub proof fn law_focus_cycles(f: TodoFormView)
    requires
        0 <= f.row.focused < 5,
    ensures
        f.next().prev().row.focused == f.row.focused,
        f.next().next().next().next().next().row.focused == f.row.focused,
{
}

} // verus!
