//! What holds of the names of commands, of the keys they are bound to, and of colours.
use vstd::prelude::*;
use vstd::string::*;

use crate::action::Action;
use crate::components::form_keys::FormCmd;
use crate::components::home::HomeCmd;
use crate::components::members::MembersCmd;
use crate::components::modal::ModalCmd;
use crate::config::KeyContext;
use crate::defaults::shipped;
use crate::keymap::Verb;
use crate::keys::{named_code, KeyCode};
use crate::style::named_color;

verus! {

/// The names of the commands of the application: these are names and no others, and each names its
/// own command and no other.
pub proof fn law_application_command_names(name: Seq<char>)
    ensures
        <Action as Verb>::named(name) is Some == (
            name == "tick"@
            || name == "render"@
            || name == "suspend"@
            || name == "resume"@
            || name == "quit"@
            || name == "clear_screen"@
            || name == "help_modal"@
            || name == "auth_chooser"@
            || name == "register_modal"@
            || name == "login_modal"@
            || name == "close_modal"@
            || name == "focus_buttons"@
            || name == "submit_form"@
            || name == "start_capture"@
            || name == "stop_capture"@
            || name == "unlock_modal"@
            || name == "device_unlock"@
            || name == "toggle_sidebar"@
            || name == "refresh_lists"@
            || name == "new_list_modal"@
            || name == "cycle_sort"@
            || name == "open_edit_ready"@
            || name == "open_members_ready"@
        ),
        <Action as Verb>::named(name) == Some(Action::Tick) ==> name == "tick"@,
        <Action as Verb>::named(name) == Some(Action::Render) ==> name == "render"@,
        <Action as Verb>::named(name) == Some(Action::Suspend) ==> name == "suspend"@,
        <Action as Verb>::named(name) == Some(Action::Resume) ==> name == "resume"@,
        <Action as Verb>::named(name) == Some(Action::Quit) ==> name == "quit"@,
        <Action as Verb>::named(name) == Some(Action::ClearScreen) ==> name == "clear_screen"@,
        <Action as Verb>::named(name) == Some(Action::HelpModal) ==> name == "help_modal"@,
        <Action as Verb>::named(name) == Some(Action::AuthChooser) ==> name == "auth_chooser"@,
        <Action as Verb>::named(name) == Some(Action::RegisterModal) ==> name == "register_modal"@,
        <Action as Verb>::named(name) == Some(Action::LoginModal) ==> name == "login_modal"@,
        <Action as Verb>::named(name) == Some(Action::CloseModal) ==> name == "close_modal"@,
        <Action as Verb>::named(name) == Some(Action::FocusButtons) ==> name == "focus_buttons"@,
        <Action as Verb>::named(name) == Some(Action::SubmitForm) ==> name == "submit_form"@,
        <Action as Verb>::named(name) == Some(Action::StartCapture) ==> name == "start_capture"@,
        <Action as Verb>::named(name) == Some(Action::StopCapture) ==> name == "stop_capture"@,
        <Action as Verb>::named(name) == Some(Action::UnlockModal) ==> name == "unlock_modal"@,
        <Action as Verb>::named(name) == Some(Action::DeviceUnlock) ==> name == "device_unlock"@,
        <Action as Verb>::named(name) == Some(Action::ToggleSidebar) ==> name == "toggle_sidebar"@,
        <Action as Verb>::named(name) == Some(Action::RefreshLists) ==> name == "refresh_lists"@,
        <Action as Verb>::named(name) == Some(Action::NewListModal) ==> name == "new_list_modal"@,
        <Action as Verb>::named(name) == Some(Action::CycleSort) ==> name == "cycle_sort"@,
        <Action as Verb>::named(name) == Some(Action::OpenEditReady) ==> name == "open_edit_ready"@,
        <Action as Verb>::named(name) == Some(Action::OpenMembersReady)
            ==> name == "open_members_ready"@,
{
}

/// The names of the commands of the workspace: these are names and no others, and each names its
/// own command and no other.
pub proof fn law_workspace_command_names(name: Seq<char>)
    ensures
        <HomeCmd as Verb>::named(name) is Some == (
            name == "focus_sidebar"@
            || name == "focus_pane"@
            || name == "cycle_focus"@
            || name == "select_next"@
            || name == "select_prev"@
            || name == "open_selected"@
            || name == "split_horizontal"@
            || name == "split"@
            || name == "split_vertical"@
            || name == "cycle_pane"@
            || name == "close_pane"@
            || name == "grow_pane"@
            || name == "shrink_pane"@
            || name == "new_list"@
            || name == "cycle_sort"@
            || name == "share"@
            || name == "members"@
            || name == "add_todo"@
            || name == "edit_todo"@
            || name == "toggle_done"@
            || name == "rename"@
            || name == "delete"@
        ),
        <HomeCmd as Verb>::named(name) == Some(HomeCmd::FocusSidebar) ==> name == "focus_sidebar"@,
        <HomeCmd as Verb>::named(name) == Some(HomeCmd::FocusPane) ==> name == "focus_pane"@,
        <HomeCmd as Verb>::named(name) == Some(HomeCmd::CycleFocus) ==> name == "cycle_focus"@,
        <HomeCmd as Verb>::named(name) == Some(HomeCmd::SelectNext) ==> name == "select_next"@,
        <HomeCmd as Verb>::named(name) == Some(HomeCmd::SelectPrev) ==> name == "select_prev"@,
        <HomeCmd as Verb>::named(name) == Some(HomeCmd::OpenSelected) ==> name == "open_selected"@,
        <HomeCmd as Verb>::named(name) == Some(HomeCmd::SplitHorizontal)
            ==> name == "split_horizontal"@ || name == "split"@,
        <HomeCmd as Verb>::named(name) == Some(HomeCmd::SplitVertical)
            ==> name == "split_vertical"@,
        <HomeCmd as Verb>::named(name) == Some(HomeCmd::CyclePane) ==> name == "cycle_pane"@,
        <HomeCmd as Verb>::named(name) == Some(HomeCmd::ClosePane) ==> name == "close_pane"@,
        <HomeCmd as Verb>::named(name) == Some(HomeCmd::GrowPane) ==> name == "grow_pane"@,
        <HomeCmd as Verb>::named(name) == Some(HomeCmd::ShrinkPane) ==> name == "shrink_pane"@,
        <HomeCmd as Verb>::named(name) == Some(HomeCmd::NewList) ==> name == "new_list"@,
        <HomeCmd as Verb>::named(name) == Some(HomeCmd::CycleSort) ==> name == "cycle_sort"@,
        <HomeCmd as Verb>::named(name) == Some(HomeCmd::Share) ==> name == "share"@,
        <HomeCmd as Verb>::named(name) == Some(HomeCmd::Members) ==> name == "members"@,
        <HomeCmd as Verb>::named(name) == Some(HomeCmd::AddTodo) ==> name == "add_todo"@,
        <HomeCmd as Verb>::named(name) == Some(HomeCmd::EditTodo) ==> name == "edit_todo"@,
        <HomeCmd as Verb>::named(name) == Some(HomeCmd::ToggleDone) ==> name == "toggle_done"@,
        <HomeCmd as Verb>::named(name) == Some(HomeCmd::Rename) ==> name == "rename"@,
        <HomeCmd as Verb>::named(name) == Some(HomeCmd::Delete) ==> name == "delete"@,
{
}

/// The names of the commands of dialogs: these are names and no others, and each names its own
/// command and no other.
pub proof fn law_dialog_command_names(name: Seq<char>)
    ensures
        <ModalCmd as Verb>::named(name) is Some == (
            name == "focus_next"@
            || name == "focus_prev"@
            || name == "activate"@
            || name == "cancel"@
        ),
        <ModalCmd as Verb>::named(name) == Some(ModalCmd::FocusNext) ==> name == "focus_next"@,
        <ModalCmd as Verb>::named(name) == Some(ModalCmd::FocusPrev) ==> name == "focus_prev"@,
        <ModalCmd as Verb>::named(name) == Some(ModalCmd::Activate) ==> name == "activate"@,
        <ModalCmd as Verb>::named(name) == Some(ModalCmd::Cancel) ==> name == "cancel"@,
{
}

/// The names of the commands of forms: these are names and no others, and each names its own
/// command and no other.
pub proof fn law_form_command_names(name: Seq<char>)
    ensures
        <FormCmd as Verb>::named(name) is Some == (
            name == "field_next"@
            || name == "field_prev"@
            || name == "submit"@
            || name == "cycle_priority_next"@
            || name == "cycle_priority_prev"@
        ),
        <FormCmd as Verb>::named(name) == Some(FormCmd::FieldNext) ==> name == "field_next"@,
        <FormCmd as Verb>::named(name) == Some(FormCmd::FieldPrev) ==> name == "field_prev"@,
        <FormCmd as Verb>::named(name) == Some(FormCmd::Submit) ==> name == "submit"@,
        <FormCmd as Verb>::named(name) == Some(FormCmd::CyclePriorityNext)
            ==> name == "cycle_priority_next"@,
        <FormCmd as Verb>::named(name) == Some(FormCmd::CyclePriorityPrev)
            ==> name == "cycle_priority_prev"@,
{
}

/// The names of the commands of the list of members: these are names and no others, and each names
/// its own command and no other.
pub proof fn law_members_command_names(name: Seq<char>)
    ensures
        <MembersCmd as Verb>::named(name) is Some == (
            name == "select_next"@
            || name == "select_prev"@
            || name == "unshare"@
        ),
        <MembersCmd as Verb>::named(name) == Some(MembersCmd::SelectNext)
            ==> name == "select_next"@,
        <MembersCmd as Verb>::named(name) == Some(MembersCmd::SelectPrev)
            ==> name == "select_prev"@,
        <MembersCmd as Verb>::named(name) == Some(MembersCmd::Unshare) ==> name == "unshare"@,
{
}

/// Every key that is bound from the start has a command of its own surface.
pub proof fn law_shipped_bindings_have_commands(ctx: KeyContext, i: int)
    requires
        0 <= i < shipped(ctx).len(),
    ensures
        ctx == KeyContext::Global ==> <Action as Verb>::named(shipped(ctx)[i].1) is Some,
        ctx == KeyContext::Home ==> <HomeCmd as Verb>::named(shipped(ctx)[i].1) is Some,
        ctx == KeyContext::Modal ==> <ModalCmd as Verb>::named(shipped(ctx)[i].1) is Some,
        ctx == KeyContext::Form ==> <FormCmd as Verb>::named(shipped(ctx)[i].1) is Some,
        ctx == KeyContext::Members ==> <MembersCmd as Verb>::named(shipped(ctx)[i].1) is Some,
        ctx != KeyContext::Login && ctx != KeyContext::Register,
{
    reveal(shipped);
    let name = shipped(ctx)[i].1;
    law_application_command_names(name);
    law_workspace_command_names(name);
    law_dialog_command_names(name);
    law_form_command_names(name);
    law_members_command_names(name);
}

/// The names of colours: these sixteen are names and no others, each is that of its own entry of
/// the palette, and the bold ones come behind the plain ones.
pub proof fn law_names_of_colours(s: Seq<char>)
    ensures
        named_color(s) is Some == (
            s == "bold black"@
            || s == "bold red"@
            || s == "bold green"@
            || s == "bold yellow"@
            || s == "bold blue"@
            || s == "bold magenta"@
            || s == "bold cyan"@
            || s == "bold white"@
            || s == "black"@
            || s == "red"@
            || s == "green"@
            || s == "yellow"@
            || s == "blue"@
            || s == "magenta"@
            || s == "cyan"@
            || s == "white"@
        ),
        named_color(s) == Some(8u8) ==> s == "bold black"@,
        named_color(s) == Some(9u8) ==> s == "bold red"@,
        named_color(s) == Some(10u8) ==> s == "bold green"@,
        named_color(s) == Some(11u8) ==> s == "bold yellow"@,
        named_color(s) == Some(12u8) ==> s == "bold blue"@,
        named_color(s) == Some(13u8) ==> s == "bold magenta"@,
        named_color(s) == Some(14u8) ==> s == "bold cyan"@,
        named_color(s) == Some(15u8) ==> s == "bold white"@,
        named_color(s) == Some(0u8) ==> s == "black"@,
        named_color(s) == Some(1u8) ==> s == "red"@,
        named_color(s) == Some(2u8) ==> s == "green"@,
        named_color(s) == Some(3u8) ==> s == "yellow"@,
        named_color(s) == Some(4u8) ==> s == "blue"@,
        named_color(s) == Some(5u8) ==> s == "magenta"@,
        named_color(s) == Some(6u8) ==> s == "cyan"@,
        named_color(s) == Some(7u8) ==> s == "white"@,
{
}

/// The names of keys: each is that of its own key and of no other.
pub proof fn law_names_of_keys(s: Seq<char>)
    ensures
        named_code(s) == Some(KeyCode::Esc) ==> s == "esc"@,
        named_code(s) == Some(KeyCode::Enter) ==> s == "enter"@,
        named_code(s) == Some(KeyCode::Left) ==> s == "left"@,
        named_code(s) == Some(KeyCode::Right) ==> s == "right"@,
        named_code(s) == Some(KeyCode::Up) ==> s == "up"@,
        named_code(s) == Some(KeyCode::Down) ==> s == "down"@,
        named_code(s) == Some(KeyCode::Home) ==> s == "home"@,
        named_code(s) == Some(KeyCode::End) ==> s == "end"@,
        named_code(s) == Some(KeyCode::PageUp) ==> s == "pageup"@,
        named_code(s) == Some(KeyCode::PageDown) ==> s == "pagedown"@,
        named_code(s) == Some(KeyCode::BackTab) ==> s == "backtab"@,
        named_code(s) == Some(KeyCode::Backspace) ==> s == "backspace"@,
        named_code(s) == Some(KeyCode::Delete) ==> s == "delete"@,
        named_code(s) == Some(KeyCode::Insert) ==> s == "insert"@,
        named_code(s) == Some(KeyCode::F(1)) ==> s == "f1"@,
        named_code(s) == Some(KeyCode::F(2)) ==> s == "f2"@,
        named_code(s) == Some(KeyCode::F(3)) ==> s == "f3"@,
        named_code(s) == Some(KeyCode::F(4)) ==> s == "f4"@,
        named_code(s) == Some(KeyCode::F(5)) ==> s == "f5"@,
        named_code(s) == Some(KeyCode::F(6)) ==> s == "f6"@,
        named_code(s) == Some(KeyCode::F(7)) ==> s == "f7"@,
        named_code(s) == Some(KeyCode::F(8)) ==> s == "f8"@,
        named_code(s) == Some(KeyCode::F(9)) ==> s == "f9"@,
        named_code(s) == Some(KeyCode::F(10)) ==> s == "f10"@,
        named_code(s) == Some(KeyCode::F(11)) ==> s == "f11"@,
        named_code(s) == Some(KeyCode::F(12)) ==> s == "f12"@,
        named_code(s) == Some(KeyCode::Char(' ')) ==> s == "space"@,
        named_code(s) == Some(KeyCode::Char('-')) ==> s == "hyphen"@ || s == "minus"@,
        named_code(s) == Some(KeyCode::Tab) ==> s == "tab"@,
        named_code(s) is Some == (
            s == "esc"@
            || s == "enter"@
            || s == "left"@
            || s == "right"@
            || s == "up"@
            || s == "down"@
            || s == "home"@
            || s == "end"@
            || s == "pageup"@
            || s == "pagedown"@
            || s == "backtab"@
            || s == "backspace"@
            || s == "delete"@
            || s == "insert"@
            || s == "f1"@
            || s == "f2"@
            || s == "f3"@
            || s == "f4"@
            || s == "f5"@
            || s == "f6"@
            || s == "f7"@
            || s == "f8"@
            || s == "f9"@
            || s == "f10"@
            || s == "f11"@
            || s == "f12"@
            || s == "space"@
            || s == "hyphen"@
            || s == "minus"@
            || s == "tab"@
        ),
{
}

} // verus!
