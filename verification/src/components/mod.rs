//! The parts of the interface, as state machines over keys and actions.
pub mod text_input;
pub mod surface;
pub mod form_keys;
pub mod fields;
pub mod register;
pub mod unlock;
pub mod list_form;
pub mod todo_form;
pub mod legend;
pub mod members;
pub mod button;
pub mod errorbar;
pub mod modal;
pub mod home;
pub mod sidebar;
