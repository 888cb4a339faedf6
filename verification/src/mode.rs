//! The screens of the application.
use vstd::prelude::*;

verus! {

/// The screen that is active.
#[derive(Clone, Copy, Debug, PartialEq, Eq, Structural)]
pub enum Mode {
    Home,
    Register,
    Login,
}

impl Default for Mode {
    fn default() -> (r: Mode)
        ensures
            r == Mode::Home,
    {
        Mode::Home
    }
}

/// Whether a component takes the keys that are typed, so that the application's
/// own key bindings must not act on them.
pub trait Captures {
    /// Whether keys are captured.
    spec fn captures(&self) -> bool;

    /// Whether keys are captured.
    fn captures_input(&self) -> (r: bool)
        ensures
            r == self.captures(),
    ;
}

impl Captures for Mode {
    /// The two forms capture; the workspace does not.
    open spec fn captures(&self) -> bool {
        *self != Mode::Home
    }

    fn captures_input(&self) -> (r: bool) {
        match self {
            Mode::Home => false,
            Mode::Register => true,
            Mode::Login => true,
        }
    }
}

impl Mode {
    /// The name of the screen.
    pub open spec fn text(self) -> Seq<char> {
        match self {
            Mode::Home => "Home"@,
            Mode::Register => "Register"@,
            Mode::Login => "Login"@,
        }
    }

    /// The name of the screen.
    pub fn name(self) -> (r: &'static str)
        ensures
            r@ == self.text(),
    {
        match self {
            Mode::Home => "Home",
            Mode::Register => "Register",
            Mode::Login => "Login",
        }
    }
}

} // verus!
