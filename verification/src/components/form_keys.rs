//! The keys that every form shares: moving between fields and submitting.
use vstd::prelude::*;

use crate::components::surface::{compiled_from, unbound, Surface, SurfaceView};
use crate::config::{Config, KeyContext};
use crate::keymap::{SameVerb, Verb};
use crate::keys::{KeyCode, KeyEvent};
use crate::text::same;

verus! {

/// What a key can do in a form.
#[derive(Clone, Copy, Debug, PartialEq, Eq, Structural)]
pub enum FormCmd {
    /// To the next field.
    FieldNext,
    /// To the previous field.
    FieldPrev,
    /// To the next field, or from the last one to the buttons.
    Submit,
    /// To the next priority.
    CyclePriorityNext,
    /// To the previous priority.
    CyclePriorityPrev,
}

impl Verb for FormCmd {
    open spec fn named(name: Seq<char>) -> Option<FormCmd> {
        if name == "field_next"@ {
            Some(FormCmd::FieldNext)
        } else if name == "field_prev"@ {
            Some(FormCmd::FieldPrev)
        } else if name == "submit"@ {
            Some(FormCmd::Submit)
        } else if name == "cycle_priority_next"@ {
            Some(FormCmd::CyclePriorityNext)
        } else if name == "cycle_priority_prev"@ {
            Some(FormCmd::CyclePriorityPrev)
        } else {
            None
        }
    }

    fn parse(name: &str) -> (r: Option<FormCmd>) {
        if same(name, "field_next") {
            Some(FormCmd::FieldNext)
        } else if same(name, "field_prev") {
            Some(FormCmd::FieldPrev)
        } else if same(name, "submit") {
            Some(FormCmd::Submit)
        } else if same(name, "cycle_priority_next") {
            Some(FormCmd::CyclePriorityNext)
        } else if same(name, "cycle_priority_prev") {
            Some(FormCmd::CyclePriorityPrev)
        } else {
            None
        }
    }
}

impl SameVerb for FormCmd {
    fn is(&self, other: &FormCmd) -> (r: bool) {
        *self == *other
    }
}

/// What a form of text fields does with a key.
#[derive(Clone, Copy, Debug, PartialEq, Eq, Structural)]
pub enum FormAction {
    Next,
    Prev,
    Submit,
    /// The key is for the focused field.
    PassToField,
}

/// The keymap of a form.
pub struct FormKeys {
    pub surface: Surface<FormCmd>,
}

/// What the keymap of a form holds.
pub type FormKeysView = SurfaceView<FormCmd>;

impl View for FormKeys {
    type V = SurfaceView<FormCmd>;

    open spec fn view(&self) -> SurfaceView<FormCmd> {
        self.surface@
    }
}

/// What a form of text fields does with a key: Esc always goes to the field, and so
/// does a key that means something only to a priority list.
pub open spec fn classified(keys: SurfaceView<FormCmd>, key: KeyEvent) -> FormAction {
    if key.code == KeyCode::Esc {
        FormAction::PassToField
    } else {
        match keys.command(key) {
            Some(FormCmd::FieldNext) => FormAction::Next,
            Some(FormCmd::FieldPrev) => FormAction::Prev,
            Some(FormCmd::Submit) => FormAction::Submit,
            _ => FormAction::PassToField,
        }
    }
}

/// The keymap once a form of text fields has classified a key.
pub open spec fn keys_after(keys: SurfaceView<FormCmd>, key: KeyEvent) -> SurfaceView<FormCmd> {
    if key.code == KeyCode::Esc {
        keys
    } else {
        keys.after(key)
    }
}

/// The keymap of forms under a configuration.
pub open spec fn form_keys_of(old_keys: SurfaceView<FormCmd>, config: Config) -> SurfaceView<
    FormCmd,
> {
    SurfaceView {
        map: compiled_from::<FormCmd>(config.keybindings.at(KeyContext::Form)),
        ..old_keys
    }
}

impl FormKeys {
    /// The keymap is valid.
    pub open spec fn wf(&self) -> bool {
        self.surface.wf()
    }

    /// No bindings.
    pub fn new() -> (r: FormKeys)
        ensures
            r.wf(),
            r@ == unbound::<FormCmd>(),
    {
        FormKeys { surface: Surface::new() }
    }

    /// Compiles the bindings of forms.
    pub fn configure(&mut self, config: &Config)
        requires
            config.wf(),
        ensures
            final(self).wf(),
            final(self)@ == form_keys_of(old(self)@, *config),
    {
        self.surface.configure(config.keybindings.context(KeyContext::Form));
    }

    /// Resolves a key.
    pub fn resolve(&mut self, key: KeyEvent) -> (r: Option<FormCmd>)
        requires
            old(self).wf(),
        ensures
            final(self).wf(),
            r == old(self)@.command(key),
            final(self)@ == old(self)@.after(key),
    {
        self.surface.press(key)
    }

    /// Says what a form of text fields does with a key.
    pub fn classify(&mut self, key: KeyEvent) -> (r: FormAction)
        requires
            old(self).wf(),
        ensures
            final(self).wf(),
            r == classified(old(self)@, key),
            final(self)@ == keys_after(old(self)@, key),
    {
        if key.code == KeyCode::Esc {
            return FormAction::PassToField;
        }
        match self.resolve(key) {
            Some(FormCmd::FieldNext) => FormAction::Next,
            Some(FormCmd::FieldPrev) => FormAction::Prev,
            Some(FormCmd::Submit) => FormAction::Submit,
            _ => FormAction::PassToField,
        }
    }
}

} // verus!
