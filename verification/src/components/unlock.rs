//! The form that asks for the password of the local account.
use vstd::prelude::*;
use vstd::string::*;

use crate::action::{answers, quiet, sends, Action, ActionView, Outcome, OutcomeView};
use crate::components::text_input::{new_field, EditorMode, FieldView, TextInput};
use crate::config::Config;
use crate::keymap::opt_text;
use crate::keys::{KeyCode, KeyEvent};

verus! {

/// The unlock form: one password field.
pub struct Unlock {
    pub password: TextInput,
    pub error: Option<String>,
    /// Whether a request is on its way.
    pub busy: bool,
    /// Whether the field has the focus.
    pub focused: bool,
}

/// What the unlock form holds.
#[verifier::ext_equal]
pub ghost struct UnlockView {
    pub password: FieldView,
    pub error: Option<Seq<char>>,
    pub busy: bool,
    pub focused: bool,
}

impl View for Unlock {
    type V = UnlockView;

    open spec fn view(&self) -> UnlockView {
        UnlockView {
            password: self.password@,
            error: opt_text(self.error),
            busy: self.busy,
            focused: self.focused,
        }
    }
}

/// The unlock form as it opens.
pub open spec fn unlock_start() -> UnlockView {
    UnlockView {
        password: new_field("Password"@, true),
        error: None,
        busy: false,
        focused: false,
    }
}

impl UnlockView {
    /// The form with its field focused and without an error.
    pub open spec fn refocused(self) -> UnlockView {
        UnlockView { password: self.password.focused(), focused: true, error: None, ..self }
    }

    /// Whether the form can take a key.
    pub open spec fn accepts(self, key: KeyEvent) -> bool {
        self.password.accepts(key)
    }

    /// What a key does. An Esc that is the field's own goes to the field.
    pub open spec fn after_key(self, key: KeyEvent) -> (UnlockView, OutcomeView) {
        match key.code {
            KeyCode::Tab | KeyCode::Down | KeyCode::BackTab | KeyCode::Up => (
                self.refocused(),
                quiet(),
            ),
            KeyCode::Enter => if !self.focused {
                (self.refocused(), quiet())
            } else {
                (self, answers(ActionView::FocusButtons))
            },
            KeyCode::Esc if !self.password.takes_escape() => (
                UnlockView { error: None, ..self },
                quiet(),
            ),
            _ => (UnlockView { password: self.password.after_key(key), ..self }, quiet()),
        }
    }

    /// What submitting does: without a password an error, else the unlock is sent.
    pub open spec fn submitted(self) -> (UnlockView, OutcomeView) {
        let password = self.password.contents();
        if password.len() == 0 {
            (UnlockView { error: Some("Password is required"@), ..self }, quiet())
        } else {
            (
                UnlockView { focused: false, error: None, busy: true, ..self },
                sends(ActionView::Unlock { password }),
            )
        }
    }

    /// What an action does.
    pub open spec fn updated(self, a: ActionView) -> (UnlockView, OutcomeView) {
        match a {
            ActionView::StartCapture => (UnlockView { busy: false, ..self.refocused() }, quiet()),
            ActionView::StopCapture => (
                UnlockView { password: self.password.blurred(), ..self },
                quiet(),
            ),
            ActionView::SubmitForm => self.submitted(),
            ActionView::Error(m) => (UnlockView { error: Some(m), busy: false, ..self }, quiet()),
            _ => (self, quiet()),
        }
    }
}

impl Unlock {
    /// An empty form.
    pub fn new() -> (r: Unlock)
        ensures
            r@ == unlock_start(),
    {
        Unlock {
            password: TextInput::labelled("Password", true),
            error: None,
            busy: false,
            focused: false,
        }
    }

    /// Applies the configuration.
    pub fn configure(&mut self, config: &Config)
        ensures
            final(self)@ == (UnlockView {
                password: FieldView {
                    editing_mode: config.config.editing_mode,
                    ..old(self)@.password
                },
                ..old(self)@
            }),
    {
        self.password.edit_as(config.config.editing_mode);
    }

    fn set_focus(&mut self)
        ensures
            final(self)@ == old(self)@.refocused(),
    {
        self.password.focus();
        self.focused = true;
        self.error = None;
    }

    /// Takes a key.
    pub fn handle_key_event(&mut self, key: KeyEvent) -> (r: Outcome)
        requires
            old(self)@.accepts(key),
        ensures
            (final(self)@, r@) == old(self)@.after_key(key),
    {
        match key.code {
            KeyCode::Tab | KeyCode::Down | KeyCode::BackTab | KeyCode::Up => {
                self.set_focus();
                Outcome::none()
            },
            KeyCode::Enter => {
                if !self.focused {
                    self.set_focus();
                    Outcome::none()
                } else {
                    Outcome::answer(Action::FocusButtons)
                }
            },
            KeyCode::Esc if !self.password.consumes_escape() => {
                self.error = None;
                Outcome::none()
            },
            _ => {
                self.password.handle_key_event(key);
                Outcome::none()
            },
        }
    }

    fn submit(&mut self) -> (r: Outcome)
        ensures
            (final(self)@, r@) == old(self)@.submitted(),
    {
        let password = self.password.value();
        if password.as_str().is_empty() {
            self.error = Some("Password is required".to_owned());
            return Outcome::none();
        }
        self.focused = false;
        self.error = None;
        self.busy = true;
        Outcome::send(Action::Unlock { password })
    }

    /// Reacts to an action.
    pub fn update(&mut self, action: &Action) -> (r: Outcome)
        ensures
            (final(self)@, r@) == old(self)@.updated(action@),
    {
        match action {
            Action::StartCapture => {
                self.set_focus();
                self.busy = false;
                Outcome::none()
            },
            Action::StopCapture => {
                self.password.blur();
                Outcome::none()
            },
            Action::SubmitForm => self.submit(),
            Action::Error(m) => {
                self.error = Some(m.clone());
                self.busy = false;
                Outcome::none()
            },
            _ => Outcome::none(),
        }
    }

    /// Whether an Esc is the field's own.
    pub fn consumes_escape(&self) -> (r: bool)
        ensures
            r == self@.password.takes_escape(),
    {
        self.password.consumes_escape()
    }

    /// The editing mode of the field.
    pub fn editor_mode(&self) -> (r: Option<EditorMode>)
        ensures
            r == self@.password.shown_mode(),
    {
        self.password.editor_mode()
    }

    /// Whether the form can take a key.
    pub fn accepts_key(&self, key: KeyEvent) -> (r: bool)
        ensures
            r == self@.accepts(key),
    {
        self.password.accepts_key(key)
    }
}

} // verus!
