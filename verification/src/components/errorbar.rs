//! The bar that shows an error for a while.
use vstd::prelude::*;
use vstd::string::*;

use crate::action::{Action, ActionView};

verus! {

/// The bar that shows an error for a while. Times are in milliseconds of one
/// running clock.
pub struct ErrorBar {
    pub show: bool,
    pub text: String,
    pub duration: u64,
    pub show_time: u64,
}

/// What the error bar holds.
#[verifier::ext_equal]
pub ghost struct ErrorBarView {
    pub show: bool,
    pub text: Seq<char>,
    pub duration: u64,
    pub show_time: u64,
}

impl View for ErrorBar {
    type V = ErrorBarView;

    open spec fn view(&self) -> ErrorBarView {
        ErrorBarView {
            show: self.show,
            text: self.text@,
            duration: self.duration,
            show_time: self.show_time,
        }
    }
}

impl ErrorBarView {
    /// The bar once it shows an error.
    pub open spec fn showing(self, message: Seq<char>, duration: u64, now: u64) -> ErrorBarView {
        ErrorBarView { show: true, text: message, duration, show_time: now }
    }

    /// The bar once it shows nothing.
    pub open spec fn cleared(self) -> ErrorBarView {
        ErrorBarView { show: false, text: Seq::empty(), ..self }
    }

    /// Whether the error has been shown long enough.
    pub open spec fn expired(self, now: u64) -> bool {
        self.show && now - self.show_time >= self.duration
    }

    /// What an action does: a tick takes an error away that was shown long enough,
    /// and clearing the screen takes it away at once.
    pub open spec fn updated(self, a: ActionView, now: u64) -> ErrorBarView {
        match a {
            ActionView::Tick => if self.expired(now) {
                self.cleared()
            } else {
                self
            },
            ActionView::ClearScreen => self.cleared(),
            _ => self,
        }
    }
}

impl ErrorBar {
    /// A bar that shows nothing.
    pub fn new(now: u64) -> (r: ErrorBar)
        ensures
            r@ == (ErrorBarView { show: false, text: Seq::empty(), duration: 0, show_time: now }),
    {
        let text = String::new();
        proof {
            assert(text@ =~= Seq::<char>::empty());
        }
        ErrorBar { show: false, text, duration: 0, show_time: now }
    }

    /// Shows an error.
    pub fn show_error(&mut self, message: String, duration: u64, now: u64)
        ensures
            final(self)@ == old(self)@.showing(message@, duration, now),
    {
        self.text = message;
        self.duration = duration;
        self.show_time = now;
        self.show = true;
    }

    fn clear(&mut self)
        ensures
            final(self)@ == old(self)@.cleared(),
    {
        self.show = false;
        self.text = String::new();
        proof {
            assert(self.text@ =~= Seq::<char>::empty());
        }
    }

    /// Reacts to an action.
    pub fn update(&mut self, action: &Action, now: u64)
        ensures
            final(self)@ == old(self)@.updated(action@, now),
    {
        match action {
            Action::Tick => {
                if self.show && now >= self.show_time && now - self.show_time >= self.duration {
                    self.clear();
                }
            },
            Action::ClearScreen => self.clear(),
            _ => {},
        }
    }

    /// The height of the bar.
    pub fn height(&self) -> (r: u16)
        ensures
            r == (if self.show {
                2u16
            } else {
                0u16
            }),
    {
        if self.show {
            2
        } else {
            0
        }
    }
}

} // verus!
