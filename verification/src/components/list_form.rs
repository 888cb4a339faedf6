//! The forms with one field: naming a list, and sharing it with a user.
use vstd::prelude::*;
use vstd::string::*;

use crate::action::{answers, quiet, sends, Action, ActionView, Outcome, OutcomeView};
use crate::components::form_keys::{
    classified, form_keys_of, keys_after, FormAction, FormCmd, FormKeys,
};
use crate::components::surface::{unbound, SurfaceView};
use crate::components::text_input::{new_field, EditorMode, FieldView, TextInput};
use crate::config::Config;
use crate::keymap::opt_text;
use crate::keys::KeyEvent;
use crate::model::ListId;
use crate::text::{trim, trimmed};

verus! {

/// What the form with one field is for.
#[derive(Clone, Copy, Debug)]
pub enum ListOp {
    Create,
    Rename(ListId),
    Share(ListId),
}

/// A form with one field.
pub struct ListForm {
    pub field: TextInput,
    pub op: ListOp,
    pub error: Option<String>,
    pub keys: FormKeys,
}

/// What a form with one field holds.
#[verifier::ext_equal]
pub ghost struct ListFormView {
    pub field: FieldView,
    pub op: ListOp,
    pub error: Option<Seq<char>>,
    pub keys: SurfaceView<FormCmd>,
}

impl View for ListForm {
    type V = ListFormView;

    open spec fn view(&self) -> ListFormView {
        ListFormView {
            field: self.field@,
            op: self.op,
            error: opt_text(self.error),
            keys: self.keys@,
        }
    }
}

/// The form for a new list.
pub open spec fn create_start() -> ListFormView {
    ListFormView {
        field: new_field("List name"@, false),
        op: ListOp::Create,
        error: None,
        keys: unbound::<FormCmd>(),
    }
}

/// The form for another name, which starts with the current one.
pub open spec fn rename_start(list_id: ListId, current: Seq<char>) -> ListFormView {
    ListFormView {
        field: new_field("List name"@, false).holding(current),
        op: ListOp::Rename(list_id),
        error: None,
        keys: unbound::<FormCmd>(),
    }
}

/// The form for sharing a list.
pub open spec fn share_start(list_id: ListId) -> ListFormView {
    ListFormView {
        field: new_field("Username"@, false),
        op: ListOp::Share(list_id),
        error: None,
        keys: unbound::<FormCmd>(),
    }
}

impl ListFormView {
    /// Whether the form can take a key.
    pub open spec fn accepts(self, key: KeyEvent) -> bool {
        classified(self.keys, key) is PassToField ==> self.field.accepts(key)
    }

    /// What a key does: there is no other field to move to, so only a submit leaves
    /// the field.
    pub open spec fn after_key(self, key: KeyEvent) -> (ListFormView, OutcomeView) {
        let next = ListFormView { keys: keys_after(self.keys, key), ..self };
        match classified(self.keys, key) {
            FormAction::Next | FormAction::Prev => (next, quiet()),
            FormAction::Submit => (next, answers(ActionView::FocusButtons)),
            FormAction::PassToField => (
                ListFormView { field: self.field.after_key(key), ..next },
                quiet(),
            ),
        }
    }

    /// What submitting does: without a name an error, else the request is sent.
    pub open spec fn submitted(self) -> (ListFormView, OutcomeView) {
        let name = trimmed(self.field.contents());
        if name.len() == 0 {
            (
                ListFormView {
                    error: Some(
                        match self.op {
                            ListOp::Share(_) => "Username is required"@,
                            _ => "Name is required"@,
                        },
                    ),
                    ..self
                },
                quiet(),
            )
        } else {
            (
                ListFormView { error: None, ..self },
                sends(
                    match self.op {
                        ListOp::Create => ActionView::CreateList { name },
                        ListOp::Rename(list_id) => ActionView::RenameList { list_id, name },
                        ListOp::Share(list_id) => ActionView::ShareList { list_id, username: name },
                    },
                ),
            )
        }
    }

    /// What an action does.
    pub open spec fn updated(self, a: ActionView) -> (ListFormView, OutcomeView) {
        match a {
            ActionView::StartCapture => (
                ListFormView { field: self.field.focused(), ..self },
                quiet(),
            ),
            ActionView::StopCapture => (
                ListFormView { field: self.field.blurred(), ..self },
                quiet(),
            ),
            ActionView::SubmitForm => self.submitted(),
            ActionView::Error(m) => (ListFormView { error: Some(m), ..self }, quiet()),
            _ => (self, quiet()),
        }
    }
}

impl ListForm {
    /// The keymap is valid.
    pub open spec fn wf(&self) -> bool {
        self.keys.wf()
    }

    /// The form for a new list.
    pub fn create() -> (r: ListForm)
        ensures
            r.wf(),
            r@ == create_start(),
    {
        ListForm {
            field: TextInput::labelled("List name", false),
            op: ListOp::Create,
            error: None,
            keys: FormKeys::new(),
        }
    }

    /// The form for another name.
    pub fn rename(list_id: ListId, current: &str) -> (r: ListForm)
        ensures
            r.wf(),
            r@ == rename_start(list_id, current@),
    {
        let mut field = TextInput::labelled("List name", false);
        field.set_value(current);
        ListForm { field, op: ListOp::Rename(list_id), error: None, keys: FormKeys::new() }
    }

    /// The form for sharing a list.
    pub fn share(list_id: ListId) -> (r: ListForm)
        ensures
            r.wf(),
            r@ == share_start(list_id),
    {
        ListForm {
            field: TextInput::labelled("Username", false),
            op: ListOp::Share(list_id),
            error: None,
            keys: FormKeys::new(),
        }
    }

    /// Applies the configuration.
    pub fn configure(&mut self, config: &Config)
        requires
            old(self).wf(),
            config.wf(),
        ensures
            final(self).wf(),
            final(self)@ == (ListFormView {
                field: FieldView { editing_mode: config.config.editing_mode, ..old(self)@.field },
                keys: form_keys_of(old(self)@.keys, *config),
                ..old(self)@
            }),
    {
        self.field.edit_as(config.config.editing_mode);
        self.keys.configure(config);
    }

    /// Takes a key.
    pub fn handle_key_event(&mut self, key: KeyEvent) -> (r: Outcome)
        requires
            old(self).wf(),
            old(self)@.accepts(key),
        ensures
            final(self).wf(),
            (final(self)@, r@) == old(self)@.after_key(key),
    {
        match self.keys.classify(key) {
            FormAction::Next | FormAction::Prev => Outcome::none(),
            FormAction::Submit => Outcome::answer(Action::FocusButtons),
            FormAction::PassToField => {
                self.field.handle_key_event(key);
                Outcome::none()
            },
        }
    }

    /// Validates the form and sends the request.
    fn submit(&mut self) -> (r: Outcome)
        requires
            old(self).wf(),
        ensures
            final(self).wf(),
            (final(self)@, r@) == old(self)@.submitted(),
    {
        let raw = self.field.value();
        let name = trim(raw.as_str());
        if name.as_str().is_empty() {
            self.error = Some(
                match self.op {
                    ListOp::Share(_) => "Username is required".to_owned(),
                    _ => "Name is required".to_owned(),
                },
            );
            return Outcome::none();
        }
        self.error = None;
        match self.op {
            ListOp::Create => Outcome::send(Action::CreateList { name }),
            ListOp::Rename(list_id) => Outcome::send(Action::RenameList { list_id, name }),
            ListOp::Share(list_id) => Outcome::send(Action::ShareList { list_id, username: name }),
        }
    }

    /// Reacts to an action.
    pub fn update(&mut self, action: &Action) -> (r: Outcome)
        requires
            old(self).wf(),
        ensures
            final(self).wf(),
            (final(self)@, r@) == old(self)@.updated(action@),
    {
        match action {
            Action::StartCapture => {
                self.field.focus();
                Outcome::none()
            },
            Action::StopCapture => {
                self.field.blur();
                Outcome::none()
            },
            Action::SubmitForm => self.submit(),
            Action::Error(m) => {
                self.error = Some(m.clone());
                Outcome::none()
            },
            _ => Outcome::none(),
        }
    }

    /// Takes pasted text.
    pub fn paste(&mut self, text: &str)
        requires
            old(self).wf(),
        ensures
            final(self).wf(),
            final(self)@ == (ListFormView { field: old(self)@.field.after_paste(text@), ..old(self)@ }),
    {
        self.field.paste(text);
    }

    /// Whether the field can take a key.
    pub fn accepts_key(&self, key: KeyEvent) -> (r: bool)
        ensures
            r == self@.field.accepts(key),
    {
        self.field.accepts_key(key)
    }

    /// Whether an Esc is the field's own.
    pub fn consumes_escape(&self) -> (r: bool)
        ensures
            r == self@.field.takes_escape(),
    {
        self.field.consumes_escape()
    }

    /// The editing mode of the field.
    pub fn editor_mode(&self) -> (r: Option<EditorMode>)
        ensures
            r == self@.field.shown_mode(),
    {
        self.field.editor_mode()
    }
}

/// A list is only created or renamed, and a share only asked for, under a name that
/// is not blank.
pub proof fn law_list_form_sends_only_named(f: ListFormView, a: ActionView)
    requires
        f.updated(a).1.sent is Some,
    ensures
        a == ActionView::SubmitForm,
        trimmed(f.field.contents()).len() > 0,
{
}

} // verus!
