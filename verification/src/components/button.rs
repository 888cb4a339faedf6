//! A push button.
use vstd::prelude::*;
use vstd::string::*;

use crate::action::{opt_action, Action, ActionView};
use crate::keys::{KeyCode, KeyEvent};

verus! {

/// A rectangle of the screen.
#[derive(Clone, Copy, Debug, PartialEq, Eq, Structural)]
pub struct Rect {
    pub x: u16,
    pub y: u16,
    pub width: u16,
    pub height: u16,
}

impl Rect {
    /// Whether a cell lies in the rectangle, which ends at the last column and row
    /// that a `u16` holds.
    pub open spec fn covers(self, column: u16, row: u16) -> bool {
        let right = if self.x + self.width > 65535 { 65535int } else { self.x + self.width };
        let bottom = if self.y + self.height > 65535 { 65535int } else { self.y + self.height };
        self.x <= column && column < right && self.y <= row && row < bottom
    }

    /// Whether a cell lies in the rectangle.
    pub fn contains(self, column: u16, row: u16) -> (r: bool)
        ensures
            r == self.covers(column, row),
    {
        let right: u32 = self.x as u32 + self.width as u32;
        let bottom: u32 = self.y as u32 + self.height as u32;
        let r: u32 = if right > 65535 { 65535 } else { right };
        let b: u32 = if bottom > 65535 { 65535 } else { bottom };
        self.x <= column && (column as u32) < r && self.y <= row && (row as u32) < b
    }
}

/// A mouse event.
#[derive(Clone, Copy, Debug, PartialEq, Eq, Structural)]
pub struct MouseEvent {
    /// Whether the left button went down.
    pub left_down: bool,
    pub column: u16,
    pub row: u16,
}

/// A push button, which holds the action that it stands for.
pub struct Button {
    pub label: String,
    pub action: Action,
    pub focused: bool,
    /// Where the button was drawn last.
    pub last_area: Rect,
}

/// What a button holds.
#[verifier::ext_equal]
pub ghost struct ButtonView {
    pub label: Seq<char>,
    pub action: ActionView,
    pub focused: bool,
    pub last_area: Rect,
}

impl View for Button {
    type V = ButtonView;

    open spec fn view(&self) -> ButtonView {
        ButtonView {
            label: self.label@,
            action: self.action@,
            focused: self.focused,
            last_area: self.last_area,
        }
    }
}

/// A button that has not been drawn.
pub open spec fn new_button(label: Seq<char>, action: ActionView) -> ButtonView {
    ButtonView {
        label,
        action,
        focused: false,
        last_area: Rect { x: 0, y: 0, width: 0, height: 0 },
    }
}

impl ButtonView {
    /// What a key triggers: Enter and space press a focused button.
    pub open spec fn on_key(self, key: KeyEvent) -> Option<ActionView> {
        if self.focused && (key.code == KeyCode::Enter || key.code == KeyCode::Char(' ')) {
            Some(self.action)
        } else {
            None
        }
    }

    /// What a mouse event triggers: a click presses the button under it.
    pub open spec fn on_mouse(self, mouse: MouseEvent) -> Option<ActionView> {
        if mouse.left_down && self.last_area.covers(mouse.column, mouse.row) {
            Some(self.action)
        } else {
            None
        }
    }
}

impl Button {
    /// A button that stands for an action.
    pub fn new(label: &str, action: Action) -> (r: Button)
        ensures
            r@ == new_button(label@, action@),
    {
        Button {
            label: label.to_owned(),
            action,
            focused: false,
            last_area: Rect { x: 0, y: 0, width: 0, height: 0 },
        }
    }

    /// Gives or takes the focus.
    pub fn set_focused(&mut self, focused: bool)
        ensures
            final(self)@ == (ButtonView { focused, ..old(self)@ }),
    {
        self.focused = focused;
    }

    /// Notes where the button was drawn.
    pub fn set_area(&mut self, area: Rect)
        ensures
            final(self)@ == (ButtonView { last_area: area, ..old(self)@ }),
    {
        self.last_area = area;
    }

    /// The action that the button stands for.
    pub fn action(&self) -> (r: Action)
        ensures
            r@ == self@.action,
    {
        self.action.copy()
    }

    /// Takes a key.
    pub fn handle_key_event(&self, key: KeyEvent) -> (r: Option<Action>)
        ensures
            opt_action(r) == self@.on_key(key),
    {
        if !self.focused {
            return None;
        }
        match key.code {
            KeyCode::Enter | KeyCode::Char(' ') => Some(self.action.copy()),
            _ => None,
        }
    }

    /// Takes a mouse event.
    pub fn handle_mouse_event(&self, mouse: MouseEvent) -> (r: Option<Action>)
        ensures
            opt_action(r) == self@.on_mouse(mouse),
    {
        if mouse.left_down && self.last_area.contains(mouse.column, mouse.row) {
            return Some(self.action.copy());
        }
        None
    }
}

} // verus!
