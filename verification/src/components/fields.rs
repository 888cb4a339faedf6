//! A column of text fields of which at most one has the keyboard focus.
use vstd::prelude::*;

use crate::components::text_input::{EditorMode, FieldView, TextInput};
use crate::config::EditingMode;
use crate::keys::KeyEvent;

verus! {

/// Text fields, and the position that has the focus. A position beyond the fields
/// stands for something that is no text field.
pub struct FieldRow {
    pub fields: Vec<TextInput>,
    pub focused: usize,
}

/// What a column of fields holds.
#[verifier::ext_equal]
pub ghost struct RowView {
    pub fields: Seq<FieldView>,
    pub focused: int,
}

/// What a list of fields holds.
pub open spec fn field_views(v: Seq<TextInput>) -> Seq<FieldView> {
    v.map_values(|f: TextInput| f@)
}

impl View for FieldRow {
    type V = RowView;

    open spec fn view(&self) -> RowView {
        RowView { fields: field_views(self.fields@), focused: self.focused as int }
    }
}

impl RowView {
    /// Whether a text field has the focus.
    pub open spec fn on_field(self) -> bool {
        0 <= self.focused < self.fields.len()
    }

    /// The column without any field capturing at the focused position.
    pub open spec fn left(self) -> Seq<FieldView> {
        if self.on_field() {
            self.fields.update(self.focused, self.fields[self.focused].blurred())
        } else {
            self.fields
        }
    }

    /// The column with the focus moved.
    pub open spec fn refocused(self, idx: int) -> RowView {
        RowView {
            fields: if 0 <= idx < self.fields.len() {
                self.left().update(idx, self.left()[idx].focused())
            } else {
                self.left()
            },
            focused: idx,
        }
    }

    /// The column with the focus on its first field and on no other.
    pub open spec fn restarted(self) -> RowView {
        RowView {
            fields: Seq::new(
                self.fields.len(),
                |i: int|
                    if i == 0 {
                        self.fields[i].focused()
                    } else {
                        self.fields[i].blurred()
                    },
            ),
            focused: 0,
        }
    }

    /// The column with no field capturing.
    pub open spec fn all_blurred(self) -> RowView {
        RowView {
            fields: Seq::new(self.fields.len(), |i: int| self.fields[i].blurred()),
            ..self
        }
    }

    /// The column under an editing mode.
    pub open spec fn edited_as(self, mode: EditingMode) -> RowView {
        RowView {
            fields: Seq::new(
                self.fields.len(),
                |i: int| FieldView { editing_mode: mode, ..self.fields[i] },
            ),
            ..self
        }
    }

    /// Whether the focused field can take a key.
    pub open spec fn accepts(self, key: KeyEvent) -> bool {
        self.on_field() ==> self.fields[self.focused].accepts(key)
    }

    /// The column after the focused field took a key.
    pub open spec fn after_key(self, key: KeyEvent) -> RowView {
        if self.on_field() {
            RowView {
                fields: self.fields.update(
                    self.focused,
                    self.fields[self.focused].after_key(key),
                ),
                ..self
            }
        } else {
            self
        }
    }

    /// The column after the focused field took pasted text.
    pub open spec fn after_paste(self, text: Seq<char>) -> RowView {
        if self.on_field() {
            RowView {
                fields: self.fields.update(
                    self.focused,
                    self.fields[self.focused].after_paste(text),
                ),
                ..self
            }
        } else {
            self
        }
    }

    /// Whether an Esc is the focused field's own.
    pub open spec fn takes_escape(self) -> bool {
        self.on_field() && self.fields[self.focused].takes_escape()
    }

    /// The editing mode of the focused field.
    pub open spec fn shown_mode(self) -> Option<EditorMode> {
        if self.on_field() {
            self.fields[self.focused].shown_mode()
        } else {
            None
        }
    }
}

impl FieldRow {
    /// Moves the focus.
    pub fn set_focus(&mut self, idx: usize)
        ensures
            final(self)@ == old(self)@.refocused(idx as int),
    {
        let ghost v0 = self@;
        if self.focused < self.fields.len() {
            let at: usize = self.focused;
            self.fields[at].blur();
        }
        proof {
            assert(field_views(self.fields@) =~= v0.left());
        }
        self.focused = idx;
        if idx < self.fields.len() {
            self.fields[idx].focus();
        }
        proof {
            assert(self@ =~= v0.refocused(idx as int));
        }
    }

    /// Moves the focus to the first field.
    pub fn restart(&mut self)
        ensures
            final(self)@ == old(self)@.restarted(),
    {
        let ghost v0 = self@;
        self.focused = 0;
        let n: usize = self.fields.len();
        let mut i: usize = 0;
        while i < n
            invariant
                i <= n,
                n == self.fields@.len(),
                n == v0.fields.len(),
                self.focused == 0,
                forall|j: int|
                    0 <= j < n ==> #[trigger] self.fields@[j]@ == (if j >= i {
                        v0.fields[j]
                    } else if j == 0 {
                        v0.fields[j].focused()
                    } else {
                        v0.fields[j].blurred()
                    }),
            decreases n - i,
        {
            if i == 0 {
                self.fields[i].focus();
            } else {
                self.fields[i].blur();
            }
            i = i + 1;
        }
        proof {
            assert(self@.fields =~= v0.restarted().fields);
        }
    }

    /// Takes the focus from every field.
    pub fn blur_all(&mut self)
        ensures
            final(self)@ == old(self)@.all_blurred(),
    {
        let ghost v0 = self@;
        let n: usize = self.fields.len();
        let mut i: usize = 0;
        while i < n
            invariant
                i <= n,
                n == self.fields@.len(),
                n == v0.fields.len(),
                self.focused == v0.focused,
                forall|j: int|
                    0 <= j < n ==> #[trigger] self.fields@[j]@ == (if j >= i {
                        v0.fields[j]
                    } else {
                        v0.fields[j].blurred()
                    }),
            decreases n - i,
        {
            self.fields[i].blur();
            i = i + 1;
        }
        proof {
            assert(self@.fields =~= v0.all_blurred().fields);
        }
    }

    /// Sets the editing mode of every field.
    pub fn edit_as(&mut self, mode: EditingMode)
        ensures
            final(self)@ == old(self)@.edited_as(mode),
    {
        let ghost v0 = self@;
        let n: usize = self.fields.len();
        let mut i: usize = 0;
        while i < n
            invariant
                i <= n,
                n == self.fields@.len(),
                n == v0.fields.len(),
                self.focused == v0.focused,
                forall|j: int|
                    0 <= j < n ==> #[trigger] self.fields@[j]@ == (if j >= i {
                        v0.fields[j]
                    } else {
                        (FieldView { editing_mode: mode, ..v0.fields[j] })
                    }),
            decreases n - i,
        {
            self.fields[i].edit_as(mode);
            i = i + 1;
        }
        proof {
            assert(self@.fields =~= v0.edited_as(mode).fields);
        }
    }

    /// Whether the focused field can take a key.
    pub fn accepts_key(&self, key: KeyEvent) -> (r: bool)
        ensures
            r == self@.accepts(key),
    {
        if self.focused < self.fields.len() {
            self.fields[self.focused].accepts_key(key)
        } else {
            true
        }
    }

    /// Hands a key to the focused field.
    pub fn type_key(&mut self, key: KeyEvent)
        requires
            old(self)@.accepts(key),
        ensures
            final(self)@ == old(self)@.after_key(key),
    {
        let ghost v0 = self@;
        if self.focused < self.fields.len() {
            let at: usize = self.focused;
            self.fields[at].handle_key_event(key);
        }
        proof {
            assert(self@ =~= v0.after_key(key));
        }
    }

    /// Hands pasted text to the focused field.
    pub fn paste(&mut self, text: &str)
        ensures
            final(self)@ == old(self)@.after_paste(text@),
    {
        let ghost v0 = self@;
        if self.focused < self.fields.len() {
            let at: usize = self.focused;
            self.fields[at].paste(text);
        }
        proof {
            assert(self@ =~= v0.after_paste(text@));
        }
    }

    /// Whether an Esc is the focused field's own.
    pub fn consumes_escape(&self) -> (r: bool)
        ensures
            r == self@.takes_escape(),
    {
        self.focused < self.fields.len() && self.fields[self.focused].consumes_escape()
    }

    /// The editing mode of the focused field.
    pub fn editor_mode(&self) -> (r: Option<EditorMode>)
        ensures
            r == self@.shown_mode(),
    {
        if self.focused < self.fields.len() {
            self.fields[self.focused].editor_mode()
        } else {
            None
        }
    }
}

/// After the focus moves to a field, that field captures, and the one that had the
/// focus does not; no other field changes.
pub proof fn law_focus_is_exclusive(row: RowView, idx: int, j: int)
    requires
        0 <= idx < row.fields.len(),
        0 <= j < row.fields.len(),
    ensures
        row.refocused(idx).fields[idx].capturing,
        j != idx && j == row.focused ==> !row.refocused(idx).fields[j].capturing,
        j != idx && j != row.focused ==> row.refocused(idx).fields[j] == row.fields[j],
{
}

} // verus!
