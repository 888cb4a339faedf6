//! The dialog that lies over a screen: a title, a body, and a row of buttons.
use vstd::prelude::*;
use vstd::string::*;

use crate::action::{answers, opt_action, quiet, Action, ActionView, Outcome, OutcomeView};
use crate::components::button::{new_button, Button, ButtonView, MouseEvent};
use crate::components::legend::{Help, HelpView};
use crate::components::list_form::{ListForm, ListFormView};
use crate::components::members::{Members, MembersCmd, MembersView};
use crate::components::register::{login_updated, register_updated, FieldFormView, Login, Register};
use crate::components::form_keys::form_keys_of;
use crate::components::surface::{compiled_from, unbound, Surface, SurfaceView};
use crate::components::text_input::{EditorMode, FieldView};
use crate::components::todo_form::{TodoForm, TodoFormView};
use crate::components::unlock::{Unlock, UnlockView};
use crate::config::{Config, KeyContext};
use crate::cycle::{next_of, prev_of, step};
use crate::keymap::{SameVerb, Verb};
use crate::keys::{KeyCode, KeyEvent};
use crate::text::same;

verus! {

/// What a key can do on the button row of a modal.
#[derive(Clone, Copy, Debug, PartialEq, Eq, Structural)]
pub enum ModalCmd {
    FocusNext,
    FocusPrev,
    Activate,
    Cancel,
}

impl Verb for ModalCmd {
    open spec fn named(name: Seq<char>) -> Option<ModalCmd> {
        if name == "focus_next"@ {
            Some(ModalCmd::FocusNext)
        } else if name == "focus_prev"@ {
            Some(ModalCmd::FocusPrev)
        } else if name == "activate"@ {
            Some(ModalCmd::Activate)
        } else if name == "cancel"@ {
            Some(ModalCmd::Cancel)
        } else {
            None
        }
    }

    fn parse(name: &str) -> (r: Option<ModalCmd>) {
        if same(name, "focus_next") {
            Some(ModalCmd::FocusNext)
        } else if same(name, "focus_prev") {
            Some(ModalCmd::FocusPrev)
        } else if same(name, "activate") {
            Some(ModalCmd::Activate)
        } else if same(name, "cancel") {
            Some(ModalCmd::Cancel)
        } else {
            None
        }
    }
}

impl SameVerb for ModalCmd {
    fn is(&self, other: &ModalCmd) -> (r: bool) {
        *self == *other
    }
}

// ── The body ────────────────────────────────────────────────────────────────

/// What a modal shows above its buttons.
pub enum Body {
    Register(Register),
    Login(Login),
    Unlock(Unlock),
    List(ListForm),
    Todo(TodoForm),
    Members(Members),
    Help(Help),
    /// A short message.
    Prompt(String),
}

/// What the body of a modal holds.
pub ghost enum BodyView {
    Register(FieldFormView),
    Login(FieldFormView),
    Unlock(UnlockView),
    List(ListFormView),
    Todo(TodoFormView),
    Members(MembersView),
    Help(HelpView),
    Prompt(Seq<char>),
}

impl View for Body {
    type V = BodyView;

    open spec fn view(&self) -> BodyView {
        match self {
            Body::Register(f) => BodyView::Register(f.form@),
            Body::Login(f) => BodyView::Login(f.form@),
            Body::Unlock(f) => BodyView::Unlock(f@),
            Body::List(f) => BodyView::List(f@),
            Body::Todo(f) => BodyView::Todo(f@),
            Body::Members(m) => BodyView::Members(m@),
            Body::Help(h) => BodyView::Help(h@),
            Body::Prompt(s) => BodyView::Prompt(s@),
        }
    }
}

impl BodyView {
    /// Whether the body takes the keys that are typed.
    pub open spec fn captures(self) -> bool {
        !(self is Help) && !(self is Prompt)
    }

    /// Whether the focused field takes a key, whatever the form's own keys make of it.
    pub open spec fn surely_accepts(self, key: KeyEvent) -> bool {
        match self {
            BodyView::Register(f) => f.row.accepts(key),
            BodyView::Login(f) => f.row.accepts(key),
            BodyView::Unlock(f) => f.accepts(key),
            BodyView::List(f) => f.field.accepts(key),
            BodyView::Todo(f) => f.accepts(key),
            _ => true,
        }
    }

    /// Whether the body can take a key.
    pub open spec fn accepts(self, key: KeyEvent) -> bool {
        match self {
            BodyView::Register(f) => f.accepts(key),
            BodyView::Login(f) => f.accepts(key),
            BodyView::Unlock(f) => f.accepts(key),
            BodyView::List(f) => f.accepts(key),
            BodyView::Todo(f) => f.accepts(key),
            _ => true,
        }
    }

    /// What a key does to the body.
    pub open spec fn after_key(self, key: KeyEvent) -> (BodyView, OutcomeView) {
        match self {
            BodyView::Register(f) => (BodyView::Register(f.after_key(key).0), f.after_key(key).1),
            BodyView::Login(f) => (BodyView::Login(f.after_key(key).0), f.after_key(key).1),
            BodyView::Unlock(f) => (BodyView::Unlock(f.after_key(key).0), f.after_key(key).1),
            BodyView::List(f) => (BodyView::List(f.after_key(key).0), f.after_key(key).1),
            BodyView::Todo(f) => (BodyView::Todo(f.after_key(key).0), f.after_key(key).1),
            BodyView::Members(m) => (BodyView::Members(m.after_key(key).0), m.after_key(key).1),
            _ => (self, quiet()),
        }
    }

    /// What an action does to the body.
    pub open spec fn updated(self, a: ActionView) -> (BodyView, OutcomeView) {
        match self {
            BodyView::Register(f) => (
                BodyView::Register(register_updated(f, a).0),
                register_updated(f, a).1,
            ),
            BodyView::Login(f) => (BodyView::Login(login_updated(f, a).0), login_updated(f, a).1),
            BodyView::Unlock(f) => (BodyView::Unlock(f.updated(a).0), f.updated(a).1),
            BodyView::List(f) => (BodyView::List(f.updated(a).0), f.updated(a).1),
            BodyView::Todo(f) => (BodyView::Todo(f.updated(a).0), f.updated(a).1),
            _ => (self, quiet()),
        }
    }

    /// The body after a paste: the forms hand it to the focused field.
    pub open spec fn after_paste(self, text: Seq<char>) -> BodyView {
        match self {
            BodyView::Register(f) => BodyView::Register(
                FieldFormView { row: f.row.after_paste(text), ..f },
            ),
            BodyView::Login(f) => BodyView::Login(
                FieldFormView { row: f.row.after_paste(text), ..f },
            ),
            BodyView::List(f) => BodyView::List(
                ListFormView { field: f.field.after_paste(text), ..f },
            ),
            BodyView::Todo(f) => BodyView::Todo(
                TodoFormView { row: f.row.after_paste(text), ..f },
            ),
            _ => self,
        }
    }

    /// Whether an Esc is the body's own.
    pub open spec fn takes_escape(self) -> bool {
        match self {
            BodyView::Register(f) => f.row.takes_escape(),
            BodyView::Login(f) => f.row.takes_escape(),
            BodyView::Unlock(f) => f.password.takes_escape(),
            BodyView::List(f) => f.field.takes_escape(),
            BodyView::Todo(f) => f.row.takes_escape(),
            _ => false,
        }
    }

    /// The editing mode of the body's focused field.
    pub open spec fn shown_mode(self) -> Option<EditorMode> {
        match self {
            BodyView::Register(f) => f.row.shown_mode(),
            BodyView::Login(f) => f.row.shown_mode(),
            BodyView::Unlock(f) => f.password.shown_mode(),
            BodyView::List(f) => f.field.shown_mode(),
            BodyView::Todo(f) => f.row.shown_mode(),
            _ => None,
        }
    }

    /// The body under a configuration.
    pub open spec fn configured(self, config: Config) -> BodyView {
        let mode = config.config.editing_mode;
        match self {
            BodyView::Register(f) => BodyView::Register(
                FieldFormView {
                    row: f.row.edited_as(mode),
                    keys: form_keys_of(f.keys, config),
                    ..f
                },
            ),
            BodyView::Login(f) => BodyView::Login(
                FieldFormView {
                    row: f.row.edited_as(mode),
                    keys: form_keys_of(f.keys, config),
                    ..f
                },
            ),
            BodyView::Unlock(f) => BodyView::Unlock(
                UnlockView { password: FieldView { editing_mode: mode, ..f.password }, ..f },
            ),
            BodyView::List(f) => BodyView::List(
                ListFormView {
                    field: FieldView { editing_mode: mode, ..f.field },
                    keys: form_keys_of(f.keys, config),
                    ..f
                },
            ),
            BodyView::Todo(f) => BodyView::Todo(
                TodoFormView {
                    row: f.row.edited_as(mode),
                    keys: form_keys_of(f.keys, config),
                    ..f
                },
            ),
            BodyView::Members(m) => BodyView::Members(
                MembersView {
                    keys: SurfaceView {
                        map: compiled_from::<MembersCmd>(
                            config.keybindings.at(KeyContext::Members),
                        ),
                        ..m.keys
                    },
                    ..m
                },
            ),
            _ => self,
        }
    }
}

impl BodyView {
    /// The number of lines of the body.
    pub open spec fn height(self) -> int {
        match self {
            BodyView::Register(_) | BodyView::Login(_) | BodyView::Unlock(_) => 13,
            BodyView::List(_) => 5,
            BodyView::Todo(_) => 26,
            BodyView::Members(m) => if m.members.len() == 0 {
                3
            } else if m.members.len() > 10 {
                12
            } else {
                m.members.len() as int + 2
            },
            BodyView::Help(h) => h.rows.len() as int + 2,
            BodyView::Prompt(_) => 2,
        }
    }
}

impl Body {
    /// The number of lines of the body: the forms have theirs, up to ten members have a
    /// line each within a border, and a cheatsheet has two more than rows.
    pub fn height(&self) -> (r: u64)
        requires
            self@ matches BodyView::Help(h) ==> h.rows.len() < 0xffff_ffff,
        ensures
            r == self@.height(),
            r <= 0x1_0000_0000,
    {
        match self {
            Body::Register(_) | Body::Login(_) | Body::Unlock(_) => 13,
            Body::List(_) => 5,
            Body::Todo(_) => 26,
            Body::Members(m) => {
                let n: usize = m.members.len();
                if n == 0 {
                    3
                } else if n > 10 {
                    12
                } else {
                    n as u64 + 2
                }
            },
            Body::Help(h) => h.height(),
            Body::Prompt(_) => 2,
        }
    }

    /// The body is valid.
    pub open spec fn wf(&self) -> bool {
        match self {
            Body::Register(f) => f.wf(),
            Body::Login(f) => f.wf(),
            Body::List(f) => f.wf(),
            Body::Todo(f) => f.wf(),
            Body::Members(m) => m.wf(),
            _ => true,
        }
    }

    /// Whether the body takes the keys that are typed.
    pub fn captures_input(&self) -> (r: bool)
        ensures
            r == self@.captures(),
    {
        match self {
            Body::Help(_) | Body::Prompt(_) => false,
            _ => true,
        }
    }

    /// Whether the body can surely take a key.
    pub fn accepts_key(&self, key: KeyEvent) -> (r: bool)
        ensures
            r ==> self@.accepts(key),
            r == self@.surely_accepts(key),
    {
        match self {
            Body::Register(f) => f.form.accepts_key(key),
            Body::Login(f) => f.form.accepts_key(key),
            Body::Unlock(f) => f.accepts_key(key),
            Body::List(f) => f.accepts_key(key),
            Body::Todo(f) => f.row.accepts_key(key),
            _ => true,
        }
    }

    /// Applies the configuration.
    pub fn configure(&mut self, config: &Config)
        requires
            old(self).wf(),
            config.wf(),
        ensures
            final(self).wf(),
            final(self)@ == old(self)@.configured(*config),
    {
        match self {
            Body::Register(f) => f.form.configure(config),
            Body::Login(f) => f.form.configure(config),
            Body::Unlock(f) => f.configure(config),
            Body::List(f) => f.configure(config),
            Body::Todo(f) => f.configure(config),
            Body::Members(m) => m.configure(config),
            _ => {},
        }
    }

    /// Takes a key.
    pub fn handle_key_event(&mut self, key: KeyEvent) -> (r: Outcome)
        requires
            old(self).wf(),
            old(self)@.accepts(key),
        ensures
            final(self).wf(),
            (final(self)@, r@) == old(self)@.after_key(key),
    {
        match self {
            Body::Register(f) => f.form.handle_key_event(key),
            Body::Login(f) => f.form.handle_key_event(key),
            Body::Unlock(f) => f.handle_key_event(key),
            Body::List(f) => f.handle_key_event(key),
            Body::Todo(f) => f.handle_key_event(key),
            Body::Members(m) => m.handle_key_event(key),
            _ => Outcome::none(),
        }
    }

    /// Reacts to an action.
    pub fn update(&mut self, action: &Action) -> (r: Outcome)
        requires
            old(self).wf(),
        ensures
            final(self).wf(),
            (final(self)@, r@) == old(self)@.updated(action@),
    {
        match self {
            Body::Register(f) => f.update(action),
            Body::Login(f) => f.update(action),
            Body::Unlock(f) => f.update(action),
            Body::List(f) => f.update(action),
            Body::Todo(f) => f.update(action),
            _ => Outcome::none(),
        }
    }

    /// Takes pasted text.
    pub fn paste(&mut self, text: &str)
        requires
            old(self).wf(),
        ensures
            final(self).wf(),
            final(self)@ == old(self)@.after_paste(text@),
    {
        match self {
            Body::Register(f) => f.form.paste(text),
            Body::Login(f) => f.form.paste(text),
            Body::List(f) => f.paste(text),
            Body::Todo(f) => f.paste(text),
            _ => {},
        }
    }

    /// Whether an Esc is the body's own.
    pub fn consumes_escape(&self) -> (r: bool)
        ensures
            r == self@.takes_escape(),
    {
        match self {
            Body::Register(f) => f.form.consumes_escape(),
            Body::Login(f) => f.form.consumes_escape(),
            Body::Unlock(f) => f.consumes_escape(),
            Body::List(f) => f.consumes_escape(),
            Body::Todo(f) => f.row.consumes_escape(),
            _ => false,
        }
    }

    /// The editing mode of the body's focused field.
    pub fn editor_mode(&self) -> (r: Option<EditorMode>)
        ensures
            r == self@.shown_mode(),
    {
        match self {
            Body::Register(f) => f.form.editor_mode(),
            Body::Login(f) => f.form.editor_mode(),
            Body::Unlock(f) => f.editor_mode(),
            Body::List(f) => f.editor_mode(),
            Body::Todo(f) => f.row.editor_mode(),
            _ => None,
        }
    }
}

// ── The modal ───────────────────────────────────────────────────────────────

/// A dialog over a screen.
pub struct Modal {
    pub title: String,
    pub body: Body,
    pub buttons: Vec<Button>,
    /// The button that has the focus.
    pub focused: usize,
    /// Whether the body has the focus rather than the buttons.
    pub focus_body: bool,
    /// What Esc stands for.
    pub esc_action: Action,
    pub surface: Surface<ModalCmd>,
}

/// What a modal holds.
#[verifier::ext_equal]
pub ghost struct ModalView {
    pub title: Seq<char>,
    pub body: BodyView,
    pub buttons: Seq<ButtonView>,
    pub focused: int,
    pub focus_body: bool,
    pub esc_action: ActionView,
    pub keys: SurfaceView<ModalCmd>,
}

/// What buttons hold.
pub open spec fn button_views(v: Seq<Button>) -> Seq<ButtonView> {
    v.map_values(|b: Button| b@)
}

impl View for Modal {
    type V = ModalView;

    open spec fn view(&self) -> ModalView {
        ModalView {
            title: self.title@,
            body: self.body@,
            buttons: button_views(self.buttons@),
            focused: self.focused as int,
            focus_body: self.focus_body,
            esc_action: self.esc_action@,
            keys: self.surface@,
        }
    }
}

/// A modal as it opens: the focus is in a body that takes keys, else on the first
/// button.
pub open spec fn new_modal(
    title: Seq<char>,
    body: BodyView,
    buttons: Seq<ButtonView>,
    esc_action: ActionView,
) -> ModalView {
    (ModalView {
        title,
        body,
        buttons,
        focused: 0,
        focus_body: body.captures(),
        esc_action,
        keys: unbound::<ModalCmd>(),
    }).synced()
}

/// A modal with a message and a button that closes it.
pub open spec fn message_modal(title: Seq<char>, body: BodyView) -> ModalView {
    new_modal(
        title,
        body,
        seq![new_button("Close"@, ActionView::CloseModal)],
        ActionView::CloseModal,
    )
}

/// A modal with a form, a button that submits it, and one that cancels it.
pub open spec fn form_modal(title: Seq<char>, body: BodyView, cancel: ActionView) -> ModalView {
    new_modal(
        title,
        body,
        seq![new_button("Submit"@, ActionView::SubmitForm), new_button("Cancel"@, cancel)],
        cancel,
    )
}

/// A modal that asks yes or no.
pub open spec fn confirm_modal(title: Seq<char>, body: BodyView, yes: ActionView) -> ModalView {
    new_modal(
        title,
        body,
        seq![new_button("Yes"@, yes), new_button("No"@, ActionView::CloseModal)],
        ActionView::CloseModal,
    )
}

impl ModalView {
    /// The modal with at most one button highlighted: the focused one, and none while
    /// the body has the focus.
    pub open spec fn synced(self) -> ModalView {
        ModalView {
            buttons: Seq::new(
                self.buttons.len(),
                |i: int|
                    ButtonView {
                        focused: !self.focus_body && i == self.focused,
                        ..self.buttons[i]
                    },
            ),
            ..self
        }
    }

    /// The modal with the focus one button further or back.
    pub open spec fn button_step(self, delta: int) -> ModalView {
        if self.buttons.len() == 0 {
            self
        } else {
            (ModalView {
                focused: step(self.focused, delta, self.buttons.len() as int),
                ..self
            }).synced()
        }
    }

    /// Whether the focus is inside a body that takes keys.
    pub open spec fn in_body(self) -> bool {
        self.focus_body && self.body.captures()
    }

    /// Whether the modal can take a key.
    pub open spec fn accepts(self, key: KeyEvent) -> bool {
        self.body.accepts(key)
    }

    /// What Esc does: a field that edits takes it, else it is the modal's way out.
    pub open spec fn escape(self, key: KeyEvent) -> (ModalView, OutcomeView) {
        if self.in_body() && self.body.takes_escape() {
            let (body, out) = self.body.after_key(key);
            (ModalView { body, ..self }, out)
        } else {
            (self, answers(self.esc_action))
        }
    }

    /// What a key does while the body has the focus: a form that is done hands the
    /// focus to the first button and stops capturing.
    pub open spec fn body_key(self, key: KeyEvent) -> (ModalView, OutcomeView) {
        let (body, out) = self.body.after_key(key);
        if out.reply == Some(ActionView::FocusButtons) {
            (
                (ModalView {
                    body: body.updated(ActionView::StopCapture).0,
                    focus_body: false,
                    focused: 0,
                    ..self
                }).synced(),
                OutcomeView { reply: None, ..out },
            )
        } else {
            (ModalView { body, ..self }, out)
        }
    }

    /// What a key does while the buttons have the focus. A step back from the first
    /// button returns to a body that takes keys.
    pub open spec fn button_key(self, key: KeyEvent) -> (ModalView, OutcomeView) {
        let p = ModalView { keys: self.keys.after(key), ..self };
        match self.keys.command(key) {
            Some(ModalCmd::FocusNext) => (p.button_step(1), quiet()),
            Some(ModalCmd::FocusPrev) => if self.focused == 0 && self.body.captures() {
                (
                    (ModalView {
                        focus_body: true,
                        body: self.body.updated(ActionView::StartCapture).0,
                        ..p
                    }).synced(),
                    quiet(),
                )
            } else {
                (p.button_step(-1), quiet())
            },
            Some(ModalCmd::Activate) => if 0 <= self.focused < self.buttons.len() {
                (p, answers(self.buttons[self.focused].action))
            } else {
                (p, quiet())
            },
            Some(ModalCmd::Cancel) => (p, answers(self.esc_action)),
            None => if self.body.captures() {
                (p, quiet())
            } else {
                let (body, out) = self.body.after_key(key);
                (ModalView { body, ..p }, out)
            },
        }
    }

    /// What a key does.
    pub open spec fn after_key(self, key: KeyEvent) -> (ModalView, OutcomeView) {
        if key.code == KeyCode::Esc {
            self.escape(key)
        } else if self.in_body() {
            self.body_key(key)
        } else {
            self.button_key(key)
        }
    }

    /// What an action does.
    pub open spec fn updated(self, a: ActionView) -> (ModalView, OutcomeView) {
        let (body, out) = self.body.updated(a);
        (ModalView { body, ..self }, out)
    }

    /// The modal after a paste.
    pub open spec fn after_paste(self, text: Seq<char>) -> ModalView {
        if self.in_body() {
            ModalView { body: self.body.after_paste(text), ..self }
        } else {
            self
        }
    }

    /// The first of the buttons from `from` on that a mouse event presses.
    pub open spec fn clicked(self, mouse: MouseEvent, from: int) -> Option<ActionView>
        decreases self.buttons.len() - from,
    {
        if from < 0 || from >= self.buttons.len() {
            None
        } else {
            match self.buttons[from].on_mouse(mouse) {
                Some(a) => Some(a),
                None => self.clicked(mouse, from + 1),
            }
        }
    }

    /// The modal under a configuration.
    pub open spec fn configured(self, config: Config) -> ModalView {
        ModalView {
            body: self.body.configured(config),
            keys: SurfaceView {
                map: compiled_from::<ModalCmd>(config.keybindings.at(KeyContext::Modal)),
                ..self.keys
            },
            ..self
        }
    }
}

impl Modal {
    /// The body and the keymap are valid, and a button has the focus where there is
    /// one.
    pub open spec fn wf(&self) -> bool {
        &&& self.body.wf()
        &&& self.surface.wf()
        &&& self@.buttons.len() > 0 ==> self.focused < self@.buttons.len()
    }

    /// A modal with these buttons.
    pub fn new(title: &str, body: Body, buttons: Vec<Button>, esc_action: Action) -> (r: Modal)
        requires
            body.wf(),
        ensures
            r.wf(),
            r@ == new_modal(title@, body@, button_views(buttons@), esc_action@),
    {
        let focus_body = body.captures_input();
        let mut modal = Modal {
            title: title.to_owned(),
            body,
            buttons,
            focused: 0,
            focus_body,
            esc_action,
            surface: Surface::new(),
        };
        modal.sync_focus();
        modal
    }

    /// A modal with a message.
    pub fn message(title: &str, body: Body) -> (r: Modal)
        requires
            body.wf(),
        ensures
            r.wf(),
            r@ == message_modal(title@, body@),
    {
        let mut buttons: Vec<Button> = Vec::new();
        buttons.push(Button::new("Close", Action::CloseModal));
        proof {
            assert(button_views(buttons@) =~= seq![new_button("Close"@, ActionView::CloseModal)]);
        }
        Modal::new(title, body, buttons, Action::CloseModal)
    }

    /// A modal with a form.
    pub fn form(title: &str, body: Body, cancel_action: Action) -> (r: Modal)
        requires
            body.wf(),
        ensures
            r.wf(),
            r@ == form_modal(title@, body@, cancel_action@),
    {
        let mut buttons: Vec<Button> = Vec::new();
        buttons.push(Button::new("Submit", Action::SubmitForm));
        buttons.push(Button::new("Cancel", cancel_action.copy()));
        proof {
            assert(button_views(buttons@) =~= seq![
                new_button("Submit"@, ActionView::SubmitForm),
                new_button("Cancel"@, cancel_action@),
            ]);
        }
        Modal::new(title, body, buttons, cancel_action)
    }

    /// A modal that asks yes or no.
    pub fn confirm(title: &str, body: Body, yes_action: Action) -> (r: Modal)
        requires
            body.wf(),
        ensures
            r.wf(),
            r@ == confirm_modal(title@, body@, yes_action@),
    {
        let ghost yes = yes_action@;
        let mut buttons: Vec<Button> = Vec::new();
        buttons.push(Button::new("Yes", yes_action));
        buttons.push(Button::new("No", Action::CloseModal));
        proof {
            assert(button_views(buttons@) =~= seq![
                new_button("Yes"@, yes),
                new_button("No"@, ActionView::CloseModal),
            ]);
        }
        Modal::new(title, body, buttons, Action::CloseModal)
    }

    /// Hands the focus down to the buttons.
    fn sync_focus(&mut self)
        ensures
            final(self)@ == old(self)@.synced(),
            final(self).body == old(self).body,
            final(self).surface == old(self).surface,
            final(self).focused == old(self).focused,
    {
        let ghost v0 = self@;
        let n: usize = self.buttons.len();
        let mut i: usize = 0;
        while i < n
            invariant
                i <= n,
                n == self.buttons@.len(),
                n == v0.buttons.len(),
                self.title@ == v0.title,
                self.body == old(self).body,
                self.surface == old(self).surface,
                self.focused == old(self).focused,
                self.body@ == v0.body,
                self.focused == v0.focused,
                self.focus_body == v0.focus_body,
                self.esc_action@ == v0.esc_action,
                self.surface@ == v0.keys,
                forall|j: int|
                    0 <= j < n ==> #[trigger] self.buttons@[j]@ == (if j >= i {
                        v0.buttons[j]
                    } else {
                        (ButtonView {
                            focused: !v0.focus_body && j == v0.focused,
                            ..v0.buttons[j]
                        })
                    }),
            decreases n - i,
        {
            let on: bool = !self.focus_body && i == self.focused;
            self.buttons[i].set_focused(on);
            i = i + 1;
        }
        proof {
            assert(self@.buttons =~= v0.synced().buttons);
            assert(self@ =~= v0.synced());
        }
    }

    /// Applies the configuration.
    pub fn configure(&mut self, config: &Config)
        requires
            old(self).wf(),
            config.wf(),
        ensures
            final(self).wf(),
            final(self)@ == old(self)@.configured(*config),
    {
        self.body.configure(config);
        self.surface.configure(config.keybindings.context(KeyContext::Modal));
    }

    fn focus_next(&mut self)
        requires
            old(self).wf(),
        ensures
            final(self).wf(),
            final(self)@ == old(self)@.button_step(1),
    {
        let n: usize = self.buttons.len();
        if n > 0 {
            self.focused = next_of(self.focused, n);
            self.sync_focus();
        }
    }

    fn focus_prev(&mut self)
        requires
            old(self).wf(),
        ensures
            final(self).wf(),
            final(self)@ == old(self)@.button_step(-1),
    {
        let n: usize = self.buttons.len();
        if n > 0 {
            self.focused = prev_of(self.focused, n);
            self.sync_focus();
        }
    }

    /// The editing mode to show.
    pub fn editor_mode(&self) -> (r: Option<EditorMode>)
        ensures
            r == (if self@.in_body() {
                self@.body.shown_mode()
            } else {
                None
            }),
    {
        if self.focus_body && self.body.captures_input() {
            self.body.editor_mode()
        } else {
            None
        }
    }

    /// Takes pasted text.
    pub fn paste(&mut self, text: &str)
        requires
            old(self).wf(),
        ensures
            final(self).wf(),
            final(self)@ == old(self)@.after_paste(text@),
    {
        if self.focus_body && self.body.captures_input() {
            self.body.paste(text);
        }
    }

    fn handle_button_key(&mut self, key: KeyEvent) -> (r: Outcome)
        requires
            old(self).wf(),
            old(self)@.accepts(key),
        ensures
            final(self).wf(),
            (final(self)@, r@) == old(self)@.button_key(key),
    {
        match self.surface.press(key) {
            Some(ModalCmd::FocusNext) => {
                self.focus_next();
                Outcome::none()
            },
            Some(ModalCmd::FocusPrev) => {
                if self.focused == 0 && self.body.captures_input() {
                    self.focus_body = true;
                    let _ = self.body.update(&Action::StartCapture);
                    self.sync_focus();
                } else {
                    self.focus_prev();
                }
                Outcome::none()
            },
            Some(ModalCmd::Activate) => {
                if self.focused < self.buttons.len() {
                    Outcome::answer(self.buttons[self.focused].action())
                } else {
                    Outcome::none()
                }
            },
            Some(ModalCmd::Cancel) => Outcome::answer(self.esc_action.copy()),
            None => {
                if self.body.captures_input() {
                    Outcome::none()
                } else {
                    self.body.handle_key_event(key)
                }
            },
        }
    }

    /// Takes a key.
    pub fn handle_key_event(&mut self, key: KeyEvent) -> (r: Outcome)
        requires
            old(self).wf(),
            old(self)@.accepts(key),
        ensures
            final(self).wf(),
            (final(self)@, r@) == old(self)@.after_key(key),
    {
        if key.code == KeyCode::Esc {
            if self.focus_body && self.body.captures_input() && self.body.consumes_escape() {
                return self.body.handle_key_event(key);
            }
            return Outcome::answer(self.esc_action.copy());
        }
        if self.focus_body && self.body.captures_input() {
            let out = self.body.handle_key_event(key);
            let done: bool = match &out.reply {
                Some(Action::FocusButtons) => true,
                _ => false,
            };
            if done {
                self.focus_body = false;
                self.focused = 0;
                let _ = self.body.update(&Action::StopCapture);
                self.sync_focus();
                return Outcome { reply: None, sent: out.sent };
            }
            return out;
        }
        self.handle_button_key(key)
    }

    /// Takes a mouse event: a click presses the button under it, whichever has the
    /// focus.
    pub fn handle_mouse_event(&self, mouse: MouseEvent) -> (r: Option<Action>)
        ensures
            opt_action(r) == self@.clicked(mouse, 0),
    {
        let n: usize = self.buttons.len();
        let mut i: usize = 0;
        while i < n
            invariant
                i <= n,
                n == self.buttons@.len(),
                self@.clicked(mouse, 0) == self@.clicked(mouse, i as int),
            decreases n - i,
        {
            proof {
                assert(self@.buttons[i as int] == self.buttons@[i as int]@);
            }
            if let Some(a) = self.buttons[i].handle_mouse_event(mouse) {
                return Some(a);
            }
            i = i + 1;
        }
        None
    }

    /// Reacts to an action.
    pub fn update(&mut self, action: &Action) -> (r: Outcome)
        requires
            old(self).wf(),
        ensures
            final(self).wf(),
            (final(self)@, r@) == old(self)@.updated(action@),
    {
        self.body.update(action)
    }

    /// The height of the dialog: its body, three lines for the buttons, and two for the
    /// border.
    pub fn height(&self) -> (r: u64)
        requires
            self.body@ matches BodyView::Help(h) ==> h.rows.len() < 0xffff_ffff,
        ensures
            r == self@.body.height() + 5,
    {
        self.body.height() + 5
    }
}

/// At most one button is highlighted, and none while the body has the focus.
pub proof fn law_one_button_highlighted(m: ModalView, i: int, j: int)
    requires
        0 <= i < m.buttons.len(),
        0 <= j < m.buttons.len(),
    ensures
        m.synced().buttons[i].focused && m.synced().buttons[j].focused ==> i == j,
        m.focus_body ==> !m.synced().buttons[i].focused,
{
}

/// Esc is a way out of every modal, unless a field is in the middle of editing.
pub proof fn law_escape_leaves(m: ModalView, key: KeyEvent)
    requires
        key.code == KeyCode::Esc,
        !(m.in_body() && m.body.takes_escape()),
    ensures
        m.after_key(key) == (m, answers(m.esc_action)),
{
}

/// The signal to leave a form's fields never leaves the modal.
pub proof fn law_focus_buttons_stays_inside(m: ModalView, key: KeyEvent)
    requires
        m.esc_action != ActionView::FocusButtons,
        forall|i: int|
            0 <= i < m.buttons.len() ==> (#[trigger] m.buttons[i]).action
                != ActionView::FocusButtons,
        !(key.code == KeyCode::Esc && m.in_body()),
    ensures
        m.after_key(key).1.reply != Some(ActionView::FocusButtons),
{
}

} // verus!
