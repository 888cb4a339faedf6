//! The registration and the login form: text fields, an inline error, and a flag
//! for the request that is on its way.
use vstd::prelude::*;
use vstd::string::*;

use crate::action::{answers, quiet, sends, Action, ActionView, Outcome, OutcomeView};
use crate::components::fields::{FieldRow, RowView};
use crate::components::form_keys::{
    classified, form_keys_of, keys_after, FormAction, FormCmd, FormKeys,
};
use crate::components::surface::{unbound, SurfaceView};
use crate::components::text_input::{new_field, EditorMode, TextInput};
use crate::config::Config;
use crate::keymap::opt_text;
use crate::keys::KeyEvent;
use crate::text::{same, trim, trimmed};

verus! {

/// A form of text fields.
pub struct FieldForm {
    pub row: FieldRow,
    /// The error shown beneath the fields.
    pub error: Option<String>,
    /// Whether a request is on its way.
    pub busy: bool,
    pub keys: FormKeys,
}

/// What a form of text fields holds.
#[verifier::ext_equal]
pub ghost struct FieldFormView {
    pub row: RowView,
    pub error: Option<Seq<char>>,
    pub busy: bool,
    pub keys: SurfaceView<FormCmd>,
}

impl View for FieldForm {
    type V = FieldFormView;

    open spec fn view(&self) -> FieldFormView {
        FieldFormView {
            row: self.row@,
            error: opt_text(self.error),
            busy: self.busy,
            keys: self.keys@,
        }
    }
}

impl FieldFormView {
    /// The form with the focus moved, and without an error.
    pub open spec fn focus_on(self, idx: int) -> FieldFormView {
        FieldFormView { row: self.row.refocused(idx), error: None, ..self }
    }

    /// The form with its first field focused, without an error, and not busy.
    pub open spec fn started(self) -> FieldFormView {
        FieldFormView { row: self.row.restarted(), error: None, busy: false, ..self }
    }

    /// The form showing an error.
    pub open spec fn failing(self, message: Seq<char>) -> FieldFormView {
        FieldFormView { error: Some(message), ..self }
    }

    /// The form while its request is on its way.
    pub open spec fn waiting(self) -> FieldFormView {
        FieldFormView { error: None, busy: true, ..self }
    }

    /// The contents of a field.
    pub open spec fn field(self, i: int) -> Seq<char> {
        self.row.fields[i].contents()
    }

    /// Whether the form can take a key.
    pub open spec fn accepts(self, key: KeyEvent) -> bool {
        classified(self.keys, key) is PassToField ==> self.row.accepts(key)
    }

    /// What a key does: it moves the focus, it leaves the last field for the buttons,
    /// or it edits the focused field.
    pub open spec fn after_key(self, key: KeyEvent) -> (FieldFormView, OutcomeView) {
        let n = self.row.fields.len() as int;
        let at = self.row.focused;
        let next = FieldFormView { keys: keys_after(self.keys, key), ..self };
        match classified(self.keys, key) {
            FormAction::Next => (next.focus_on((at + 1) % n), quiet()),
            FormAction::Prev => (next.focus_on((at + n - 1) % n), quiet()),
            FormAction::Submit => if at < n - 1 {
                (next.focus_on((at + 1) % n), quiet())
            } else {
                (next, answers(ActionView::FocusButtons))
            },
            FormAction::PassToField => (
                FieldFormView { row: self.row.after_key(key), ..next },
                quiet(),
            ),
        }
    }
}

impl FieldForm {
    /// A field has the focus, and the keymap is valid.
    pub open spec fn wf(&self) -> bool {
        self.keys.wf() && self@.row.on_field() && self@.row.fields.len() < 100
    }

    /// Applies the configuration.
    pub fn configure(&mut self, config: &Config)
        requires
            old(self).wf(),
            config.wf(),
        ensures
            final(self).wf(),
            final(self)@ == (FieldFormView {
                row: old(self)@.row.edited_as(config.config.editing_mode),
                keys: form_keys_of(old(self)@.keys, *config),
                ..old(self)@
            }),
    {
        let ghost n = self.row@.fields.len();
        self.row.edit_as(config.config.editing_mode);
        self.keys.configure(config);
        proof {
            assert(self.row@.fields.len() == n);
        }
    }

    fn set_focus(&mut self, idx: usize)
        requires
            old(self).wf(),
            idx < old(self).row.fields@.len(),
        ensures
            final(self).wf(),
            final(self)@ == old(self)@.focus_on(idx as int),
    {
        let ghost n = self.row@.fields.len();
        self.row.set_focus(idx);
        self.error = None;
        proof {
            assert(self.row@.fields.len() == n);
        }
    }

    /// Takes a key.
    pub fn handle_key_event(&mut self, key: KeyEvent) -> (r: Outcome)
        requires
            old(self).wf(),
            old(self)@.accepts(key),
        ensures
            final(self).wf(),
            (final(self)@, r@) == old(self)@.after_key(key),
    {
        let n: usize = self.row.fields.len();
        let at: usize = self.row.focused;
        match self.keys.classify(key) {
            FormAction::Next => {
                self.set_focus((at + 1) % n);
                Outcome::none()
            },
            FormAction::Prev => {
                self.set_focus((at + n - 1) % n);
                Outcome::none()
            },
            FormAction::Submit => {
                if at < n - 1 {
                    self.set_focus((at + 1) % n);
                    Outcome::none()
                } else {
                    Outcome::answer(Action::FocusButtons)
                }
            },
            FormAction::PassToField => {
                let ghost k = self.row@.fields.len();
                self.row.type_key(key);
                proof {
                    assert(self.row@.fields.len() == k);
                }
                Outcome::none()
            },
        }
    }

    /// Whether the focused field can take a key.
    pub fn accepts_key(&self, key: KeyEvent) -> (r: bool)
        ensures
            r == self@.row.accepts(key),
    {
        self.row.accepts_key(key)
    }

    /// Takes pasted text.
    pub fn paste(&mut self, text: &str)
        requires
            old(self).wf(),
        ensures
            final(self).wf(),
            final(self)@ == (FieldFormView { row: old(self)@.row.after_paste(text@), ..old(self)@ }),
    {
        let ghost n = self.row@.fields.len();
        self.row.paste(text);
        proof {
            assert(self.row@.fields.len() == n);
        }
    }

    /// Starts capturing in the first field.
    pub fn start(&mut self)
        requires
            old(self).wf(),
        ensures
            final(self).wf(),
            final(self)@ == old(self)@.started(),
    {
        let ghost n = self.row@.fields.len();
        self.row.restart();
        self.error = None;
        self.busy = false;
        proof {
            assert(self.row@.fields.len() == n);
        }
    }

    /// Stops capturing.
    pub fn stop(&mut self)
        requires
            old(self).wf(),
        ensures
            final(self).wf(),
            final(self)@ == (FieldFormView { row: old(self)@.row.all_blurred(), ..old(self)@ }),
    {
        let ghost n = self.row@.fields.len();
        self.row.blur_all();
        proof {
            assert(self.row@.fields.len() == n);
        }
    }

    /// Shows an error that came from outside.
    pub fn fail(&mut self, message: &String)
        requires
            old(self).wf(),
        ensures
            final(self).wf(),
            final(self)@ == (FieldFormView { busy: false, ..old(self)@.failing(message@) }),
    {
        self.error = Some(message.clone());
        self.busy = false;
    }

    fn refuse(&mut self, message: &str)
        requires
            old(self).wf(),
        ensures
            final(self).wf(),
            final(self)@ == old(self)@.failing(message@),
    {
        self.error = Some(message.to_owned());
    }

    fn wait(&mut self)
        requires
            old(self).wf(),
        ensures
            final(self).wf(),
            final(self)@ == old(self)@.waiting(),
    {
        self.error = None;
        self.busy = true;
    }

    /// Whether an Esc is the focused field's own.
    pub fn consumes_escape(&self) -> (r: bool)
        ensures
            r == self@.row.takes_escape(),
    {
        self.row.consumes_escape()
    }

    /// The editing mode of the focused field.
    pub fn editor_mode(&self) -> (r: Option<EditorMode>)
        ensures
            r == self@.row.shown_mode(),
    {
        self.row.editor_mode()
    }
}

// ── Registration ────────────────────────────────────────────────────────────

/// The registration form: user name, password, and the password once more.
pub struct Register {
    pub form: FieldForm,
}

/// The registration form as it opens.
pub open spec fn register_start() -> FieldFormView {
    FieldFormView {
        row: RowView {
            fields: seq![
                new_field("Username"@, false),
                new_field("Password"@, true),
                new_field("Repeat Password"@, true),
            ],
            focused: 0,
        },
        error: None,
        busy: false,
        keys: unbound::<FormCmd>(),
    }
}

/// What submitting a registration does: the first thing that is missing or wrong is
/// shown, otherwise the registration is sent.
pub open spec fn register_submitted(f: FieldFormView) -> (FieldFormView, OutcomeView) {
    let username = trimmed(f.field(0));
    if username.len() == 0 {
        (f.failing("Username is required"@), quiet())
    } else if f.field(1).len() == 0 {
        (f.failing("Password is required"@), quiet())
    } else if f.field(1) != f.field(2) {
        (f.failing("Passwords do not match"@), quiet())
    } else {
        (f.waiting(), sends(ActionView::Register { username, password: f.field(1) }))
    }
}

/// What an action does to the registration form.
pub open spec fn register_updated(f: FieldFormView, a: ActionView) -> (FieldFormView, OutcomeView) {
    match a {
        ActionView::StartCapture => (f.started(), quiet()),
        ActionView::StopCapture => (FieldFormView { row: f.row.all_blurred(), ..f }, quiet()),
        ActionView::SubmitForm => register_submitted(f),
        ActionView::Error(m) => (FieldFormView { busy: false, ..f.failing(m) }, quiet()),
        _ => (f, quiet()),
    }
}

impl Register {
    /// The three fields are there, and one of them has the focus.
    pub open spec fn wf(&self) -> bool {
        self.form.wf() && self.form@.row.fields.len() == 3
    }

    /// An empty form.
    pub fn new() -> (r: Register)
        ensures
            r.wf(),
            r.form@ == register_start(),
    {
        let mut fields: Vec<TextInput> = Vec::new();
        fields.push(TextInput::labelled("Username", false));
        fields.push(TextInput::labelled("Password", true));
        fields.push(TextInput::labelled("Repeat Password", true));
        let r = Register {
            form: FieldForm {
                row: FieldRow { fields, focused: 0 },
                error: None,
                busy: false,
                keys: FormKeys::new(),
            },
        };
        proof {
            assert(r.form@.row.fields =~= register_start().row.fields);
            assert(r.form@ =~= register_start());
        }
        r
    }

    /// Validates the form and sends the registration.
    fn submit(&mut self) -> (r: Outcome)
        requires
            old(self).wf(),
        ensures
            final(self).wf(),
            (final(self).form@, r@) == register_submitted(old(self).form@),
    {
        let ghost f = self.form@;
        proof {
            assert(f.row.fields[0] == self.form.row.fields@[0]@);
            assert(f.row.fields[1] == self.form.row.fields@[1]@);
            assert(f.row.fields[2] == self.form.row.fields@[2]@);
        }
        let raw = self.form.row.fields[0].value();
        let username = trim(raw.as_str());
        let password = self.form.row.fields[1].value();
        let confirm = self.form.row.fields[2].value();
        if username.as_str().is_empty() {
            self.form.refuse("Username is required");
            return Outcome::none();
        }
        if password.as_str().is_empty() {
            self.form.refuse("Password is required");
            return Outcome::none();
        }
        if !same(password.as_str(), confirm.as_str()) {
            self.form.refuse("Passwords do not match");
            return Outcome::none();
        }
        self.form.wait();
        Outcome::send(Action::Register { username, password })
    }

    /// Reacts to an action.
    pub fn update(&mut self, action: &Action) -> (r: Outcome)
        requires
            old(self).wf(),
        ensures
            final(self).wf(),
            (final(self).form@, r@) == register_updated(old(self).form@, action@),
    {
        let ghost n = self.form@.row.fields.len();
        match action {
            Action::StartCapture => {
                self.form.start();
                proof {
                    assert(self.form@.row.fields.len() == n);
                }
                Outcome::none()
            },
            Action::StopCapture => {
                self.form.stop();
                proof {
                    assert(self.form@.row.fields.len() == n);
                }
                Outcome::none()
            },
            Action::SubmitForm => self.submit(),
            Action::Error(m) => {
                self.form.fail(m);
                proof {
                    assert(self.form@.row.fields.len() == n);
                }
                Outcome::none()
            },
            _ => Outcome::none(),
        }
    }
}

/// A registration is only sent with a user name, with a password, and with the
/// password typed twice alike.
pub proof fn law_register_sends_only_valid(f: FieldFormView, a: ActionView)
    requires
        register_updated(f, a).1.sent is Some,
    ensures
        a == ActionView::SubmitForm,
        trimmed(f.field(0)).len() > 0,
        f.field(1).len() > 0,
        f.field(1) == f.field(2),
        register_updated(f, a).1.sent == Some(
            ActionView::Register { username: trimmed(f.field(0)), password: f.field(1) },
        ),
{
}

// ── Login ───────────────────────────────────────────────────────────────────

/// The login form: user name and password.
pub struct Login {
    pub form: FieldForm,
}

/// The login form as it opens.
pub open spec fn login_start() -> FieldFormView {
    FieldFormView {
        row: RowView {
            fields: seq![new_field("Username"@, false), new_field("Password"@, true)],
            focused: 0,
        },
        error: None,
        busy: false,
        keys: unbound::<FormCmd>(),
    }
}

/// What submitting a login does.
pub open spec fn login_submitted(f: FieldFormView) -> (FieldFormView, OutcomeView) {
    let username = trimmed(f.field(0));
    if username.len() == 0 {
        (f.failing("Username is required"@), quiet())
    } else if f.field(1).len() == 0 {
        (f.failing("Password is required"@), quiet())
    } else {
        (f.waiting(), sends(ActionView::Login { username, password: f.field(1) }))
    }
}

/// What an action does to the login form.
pub open spec fn login_updated(f: FieldFormView, a: ActionView) -> (FieldFormView, OutcomeView) {
    match a {
        ActionView::StartCapture => (f.started(), quiet()),
        ActionView::StopCapture => (FieldFormView { row: f.row.all_blurred(), ..f }, quiet()),
        ActionView::SubmitForm => login_submitted(f),
        ActionView::Error(m) => (FieldFormView { busy: false, ..f.failing(m) }, quiet()),
        _ => (f, quiet()),
    }
}

impl Login {
    /// The two fields are there, and one of them has the focus.
    pub open spec fn wf(&self) -> bool {
        self.form.wf() && self.form@.row.fields.len() == 2
    }

    /// An empty form.
    pub fn new() -> (r: Login)
        ensures
            r.wf(),
            r.form@ == login_start(),
    {
        let mut fields: Vec<TextInput> = Vec::new();
        fields.push(TextInput::labelled("Username", false));
        fields.push(TextInput::labelled("Password", true));
        let r = Login {
            form: FieldForm {
                row: FieldRow { fields, focused: 0 },
                error: None,
                busy: false,
                keys: FormKeys::new(),
            },
        };
        proof {
            assert(r.form@.row.fields =~= login_start().row.fields);
            assert(r.form@ =~= login_start());
        }
        r
    }

    /// Validates the form and sends the login.
    fn submit(&mut self) -> (r: Outcome)
        requires
            old(self).wf(),
        ensures
            final(self).wf(),
            (final(self).form@, r@) == login_submitted(old(self).form@),
    {
        let ghost f = self.form@;
        proof {
            assert(f.row.fields[0] == self.form.row.fields@[0]@);
            assert(f.row.fields[1] == self.form.row.fields@[1]@);
        }
        let raw = self.form.row.fields[0].value();
        let username = trim(raw.as_str());
        let password = self.form.row.fields[1].value();
        if username.as_str().is_empty() {
            self.form.refuse("Username is required");
            return Outcome::none();
        }
        if password.as_str().is_empty() {
            self.form.refuse("Password is required");
            return Outcome::none();
        }
        self.form.wait();
        Outcome::send(Action::Login { username, password })
    }

    /// Reacts to an action.
    pub fn update(&mut self, action: &Action) -> (r: Outcome)
        requires
            old(self).wf(),
        ensures
            final(self).wf(),
            (final(self).form@, r@) == login_updated(old(self).form@, action@),
    {
        let ghost n = self.form@.row.fields.len();
        match action {
            Action::StartCapture => {
                self.form.start();
                proof {
                    assert(self.form@.row.fields.len() == n);
                }
                Outcome::none()
            },
            Action::StopCapture => {
                self.form.stop();
                proof {
                    assert(self.form@.row.fields.len() == n);
                }
                Outcome::none()
            },
            Action::SubmitForm => self.submit(),
            Action::Error(m) => {
                self.form.fail(m);
                proof {
                    assert(self.form@.row.fields.len() == n);
                }
                Outcome::none()
            },
            _ => Outcome::none(),
        }
    }
}

} // verus!
