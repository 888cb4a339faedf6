//! The events that drive the interface, and how its event loop is stopped.
use vstd::prelude::*;

use crate::components::button::MouseEvent;
use crate::keys::{KeyEvent, KeyEventKind};

verus! {

/// What can happen to the interface.
#[derive(Debug)]
pub enum Event {
    Init,
    Quit,
    Error,
    Closed,
    Tick,
    Render,
    FocusGained,
    FocusLost,
    Paste(String),
    Key(KeyEvent),
    Mouse(MouseEvent),
    Resize(u16, u16),
}

/// Whether a key event counts: a press or a repeat does, a release does not.
pub fn key_counts(key: KeyEvent) -> (r: bool)
    ensures
        r == (key.kind == KeyEventKind::Press || key.kind == KeyEventKind::Repeat),
{
    key.kind == KeyEventKind::Press || key.kind == KeyEventKind::Repeat
}

/// What to do next about an event loop that is being stopped.
#[derive(Clone, Copy, Debug, PartialEq, Eq, Structural)]
pub enum StopStep {
    /// Wait for it to finish by itself.
    Wait,
    /// Abort it, and wait on.
    Abort,
    /// Abort it, and leave it.
    GiveUp,
}

/// What to do about an event loop that is still running after so many milliseconds.
pub fn stop_step(waited: u32) -> (r: StopStep)
    ensures
        r == (if waited > 100 {
            StopStep::GiveUp
        } else if waited > 50 {
            StopStep::Abort
        } else {
            StopStep::Wait
        }),
{
    if waited > 100 {
        StopStep::GiveUp
    } else if waited > 50 {
        StopStep::Abort
    } else {
        StopStep::Wait
    }
}

} // verus!
