//! The messages by which everything in the application changes.
use vstd::prelude::*;
use vstd::string::*;

use crate::auth::UnlockedKeys;
use crate::keymap::{opt_text, Verb};
use crate::mode::Mode;
use crate::model::{InputView, ListId, Member, MemberId, TodoItemInput, ViewTarget};
use crate::text::{decimal, joined, joined3, number, same};

verus! {

/// What a confirmed deletion deletes.
#[derive(Debug, PartialEq, Eq)]
pub enum DeleteTarget {
    List(ListId),
    Todo { list_id: ListId, item_id: String },
}

impl DeleteTarget {
    /// A copy of the target.
    pub fn copy(&self) -> (r: DeleteTarget)
        ensures
            r == *self,
    {
        match self {
            DeleteTarget::List(id) => DeleteTarget::List(*id),
            DeleteTarget::Todo { list_id, item_id } => DeleteTarget::Todo {
                list_id: *list_id,
                item_id: item_id.clone(),
            },
        }
    }
}

/// The single message type. Some messages carry a password or secret keys; their
/// text never does.
#[derive(Debug, PartialEq, Eq)]
#[allow(inconsistent_fields)]
pub enum Action {
    /// The periodic heartbeat.
    Tick,
    /// A request to draw.
    Render,
    /// The terminal has a new size.
    Resize(u16, u16),
    Suspend,
    Resume,
    Quit,
    ClearScreen,
    /// Shows an error for a while.
    Error(String),
    /// Opens the key bindings of the current screen.
    HelpModal,
    /// Opens the choice between login and registration.
    AuthChooser,
    RegisterModal,
    LoginModal,
    CloseModal,
    /// Moves the focus from a form's fields to its buttons.
    FocusButtons,
    /// Submits a form.
    SubmitForm,
    SetMode(Mode),
    /// Hands the keys to the focused field.
    StartCapture,
    StopCapture,
    UnlockModal,
    /// Unlocks with the device's own key.
    DeviceUnlock,
    /// Unlocks with the password. Carries the password.
    Unlock { password: String },
    /// Registers an account. Carries the password.
    Register { username: String, password: String },
    /// Logs in. Carries the password.
    Login { username: String, password: String },
    /// Installs the unlocked identity. Carries secret keys.
    Keys(UnlockedKeys),
    ToggleSidebar,
    /// Shows a list in a pane.
    OpenView { target: ViewTarget, pane: usize },
    /// Recomputes every pane.
    RefreshLists,
    NewListModal,
    CreateList { name: String },
    RenameListModal { list_id: ListId, name: String },
    RenameList { list_id: ListId, name: String },
    AddTodoModal(ListId),
    EditTodoModal { list_id: ListId, item_id: String },
    /// Adds a todo, or changes the one that is named.
    SaveTodo { list_id: ListId, item_id: Option<String>, input: TodoItemInput },
    ToggleDone { list_id: ListId, item_id: String },
    /// Asks before deleting.
    ConfirmDelete(DeleteTarget),
    DeleteList(ListId),
    DeleteTodo { list_id: ListId, item_id: String },
    ShareModal(ListId),
    /// Shares a list with a user, by name.
    ShareList { list_id: ListId, username: String },
    /// Shares a list with a user whose keys are known.
    AddResolvedMember { list_id: ListId, member: Member },
    MembersModal(ListId),
    Unshare { list_id: ListId, member_id: MemberId },
    /// Changes the sort order.
    CycleSort,
    /// The todo to edit has arrived.
    OpenEditReady,
    /// The members to show have arrived.
    OpenMembersReady,
}

/// What a deletion deletes.
pub ghost enum DeleteView {
    List(ListId),
    Todo { list_id: ListId, item_id: Seq<char> },
}

impl View for DeleteTarget {
    type V = DeleteView;

    open spec fn view(&self) -> DeleteView {
        match self {
            DeleteTarget::List(id) => DeleteView::List(*id),
            DeleteTarget::Todo { list_id, item_id } => DeleteView::Todo {
                list_id: *list_id,
                item_id: item_id@,
            },
        }
    }
}

/// What an action says.
#[allow(inconsistent_fields)]
pub ghost enum ActionView {
    Tick,
    Render,
    Suspend,
    Resume,
    Quit,
    ClearScreen,
    HelpModal,
    AuthChooser,
    RegisterModal,
    LoginModal,
    CloseModal,
    FocusButtons,
    SubmitForm,
    StartCapture,
    StopCapture,
    UnlockModal,
    DeviceUnlock,
    ToggleSidebar,
    RefreshLists,
    NewListModal,
    CycleSort,
    OpenEditReady,
    OpenMembersReady,
    Resize(u16, u16),
    Error(Seq<char>),
    SetMode(Mode),
    Unlock { password: Seq<char> },
    Register { username: Seq<char>, password: Seq<char> },
    Login { username: Seq<char>, password: Seq<char> },
    Keys(UnlockedKeys),
    OpenView { target: ViewTarget, pane: usize },
    CreateList { name: Seq<char> },
    RenameListModal { list_id: ListId, name: Seq<char> },
    RenameList { list_id: ListId, name: Seq<char> },
    AddTodoModal(ListId),
    EditTodoModal { list_id: ListId, item_id: Seq<char> },
    SaveTodo { list_id: ListId, item_id: Option<Seq<char>>, input: InputView },
    ToggleDone { list_id: ListId, item_id: Seq<char> },
    ConfirmDelete(DeleteView),
    DeleteList(ListId),
    DeleteTodo { list_id: ListId, item_id: Seq<char> },
    ShareModal(ListId),
    ShareList { list_id: ListId, username: Seq<char> },
    AddResolvedMember { list_id: ListId, member: Member },
    MembersModal(ListId),
    Unshare { list_id: ListId, member_id: MemberId },
}

impl View for Action {
    type V = ActionView;

    open spec fn view(&self) -> ActionView {
        match self {
            Action::Tick => ActionView::Tick,
            Action::Render => ActionView::Render,
            Action::Suspend => ActionView::Suspend,
            Action::Resume => ActionView::Resume,
            Action::Quit => ActionView::Quit,
            Action::ClearScreen => ActionView::ClearScreen,
            Action::HelpModal => ActionView::HelpModal,
            Action::AuthChooser => ActionView::AuthChooser,
            Action::RegisterModal => ActionView::RegisterModal,
            Action::LoginModal => ActionView::LoginModal,
            Action::CloseModal => ActionView::CloseModal,
            Action::FocusButtons => ActionView::FocusButtons,
            Action::SubmitForm => ActionView::SubmitForm,
            Action::StartCapture => ActionView::StartCapture,
            Action::StopCapture => ActionView::StopCapture,
            Action::UnlockModal => ActionView::UnlockModal,
            Action::DeviceUnlock => ActionView::DeviceUnlock,
            Action::ToggleSidebar => ActionView::ToggleSidebar,
            Action::RefreshLists => ActionView::RefreshLists,
            Action::NewListModal => ActionView::NewListModal,
            Action::CycleSort => ActionView::CycleSort,
            Action::OpenEditReady => ActionView::OpenEditReady,
            Action::OpenMembersReady => ActionView::OpenMembersReady,
            Action::Resize(w, h) => ActionView::Resize(*w, *h),
            Action::Error(m) => ActionView::Error(m@),
            Action::SetMode(m) => ActionView::SetMode(*m),
            Action::Unlock { password } => ActionView::Unlock { password: password@ },
            Action::Register { username, password } => ActionView::Register {
                username: username@,
                password: password@,
            },
            Action::Login { username, password } => ActionView::Login {
                username: username@,
                password: password@,
            },
            Action::Keys(k) => ActionView::Keys(*k),
            Action::OpenView { target, pane } => ActionView::OpenView {
                target: *target,
                pane: *pane,
            },
            Action::CreateList { name } => ActionView::CreateList { name: name@ },
            Action::RenameListModal { list_id, name } => ActionView::RenameListModal {
                list_id: *list_id,
                name: name@,
            },
            Action::RenameList { list_id, name } => ActionView::RenameList {
                list_id: *list_id,
                name: name@,
            },
            Action::AddTodoModal(l) => ActionView::AddTodoModal(*l),
            Action::EditTodoModal { list_id, item_id } => ActionView::EditTodoModal {
                list_id: *list_id,
                item_id: item_id@,
            },
            Action::SaveTodo { list_id, item_id, input } => ActionView::SaveTodo {
                list_id: *list_id,
                item_id: opt_text(*item_id),
                input: input@,
            },
            Action::ToggleDone { list_id, item_id } => ActionView::ToggleDone {
                list_id: *list_id,
                item_id: item_id@,
            },
            Action::ConfirmDelete(t) => ActionView::ConfirmDelete(t@),
            Action::DeleteList(l) => ActionView::DeleteList(*l),
            Action::DeleteTodo { list_id, item_id } => ActionView::DeleteTodo {
                list_id: *list_id,
                item_id: item_id@,
            },
            Action::ShareModal(l) => ActionView::ShareModal(*l),
            Action::ShareList { list_id, username } => ActionView::ShareList {
                list_id: *list_id,
                username: username@,
            },
            Action::AddResolvedMember { list_id, member } => ActionView::AddResolvedMember {
                list_id: *list_id,
                member: *member,
            },
            Action::MembersModal(l) => ActionView::MembersModal(*l),
            Action::Unshare { list_id, member_id } => ActionView::Unshare {
                list_id: *list_id,
                member_id: *member_id,
            },
        }
    }
}

/// What an optional action says.
pub open spec fn opt_action(a: Option<Action>) -> Option<ActionView> {
    match a {
        Some(x) => Some(x@),
        None => None,
    }
}

/// What a component does with an event: the action that it answers with, and the
/// action that it sends on its own.
pub struct Outcome {
    pub reply: Option<Action>,
    pub sent: Option<Action>,
}

/// What an outcome says.
pub ghost struct OutcomeView {
    pub reply: Option<ActionView>,
    pub sent: Option<ActionView>,
}

/// An outcome without any action.
pub open spec fn quiet() -> OutcomeView {
    OutcomeView { reply: None, sent: None }
}

/// An outcome that answers.
pub open spec fn answers(a: ActionView) -> OutcomeView {
    OutcomeView { reply: Some(a), sent: None }
}

/// An outcome that sends.
pub open spec fn sends(a: ActionView) -> OutcomeView {
    OutcomeView { reply: None, sent: Some(a) }
}

impl View for Outcome {
    type V = OutcomeView;

    open spec fn view(&self) -> OutcomeView {
        OutcomeView { reply: opt_action(self.reply), sent: opt_action(self.sent) }
    }
}

impl Outcome {
    /// An outcome without any action.
    pub fn none() -> (r: Outcome)
        ensures
            r@ == quiet(),
    {
        Outcome { reply: None, sent: None }
    }

    /// An outcome that answers.
    pub fn answer(a: Action) -> (r: Outcome)
        ensures
            r@ == answers(a@),
    {
        Outcome { reply: Some(a), sent: None }
    }

    /// An outcome that sends.
    pub fn send(a: Action) -> (r: Outcome)
        ensures
            r@ == sends(a@),
    {
        Outcome { reply: None, sent: Some(a) }
    }
}

impl Verb for Action {
    /// The actions without a payload have names.
    open spec fn named(name: Seq<char>) -> Option<Action> {
        if name == "tick"@ {
            Some(Action::Tick)
        } else if name == "render"@ {
            Some(Action::Render)
        } else if name == "suspend"@ {
            Some(Action::Suspend)
        } else if name == "resume"@ {
            Some(Action::Resume)
        } else if name == "quit"@ {
            Some(Action::Quit)
        } else if name == "clear_screen"@ {
            Some(Action::ClearScreen)
        } else if name == "help_modal"@ {
            Some(Action::HelpModal)
        } else if name == "auth_chooser"@ {
            Some(Action::AuthChooser)
        } else if name == "register_modal"@ {
            Some(Action::RegisterModal)
        } else if name == "login_modal"@ {
            Some(Action::LoginModal)
        } else if name == "close_modal"@ {
            Some(Action::CloseModal)
        } else if name == "focus_buttons"@ {
            Some(Action::FocusButtons)
        } else if name == "submit_form"@ {
            Some(Action::SubmitForm)
        } else if name == "start_capture"@ {
            Some(Action::StartCapture)
        } else if name == "stop_capture"@ {
            Some(Action::StopCapture)
        } else if name == "unlock_modal"@ {
            Some(Action::UnlockModal)
        } else if name == "device_unlock"@ {
            Some(Action::DeviceUnlock)
        } else if name == "toggle_sidebar"@ {
            Some(Action::ToggleSidebar)
        } else if name == "refresh_lists"@ {
            Some(Action::RefreshLists)
        } else if name == "new_list_modal"@ {
            Some(Action::NewListModal)
        } else if name == "cycle_sort"@ {
            Some(Action::CycleSort)
        } else if name == "open_edit_ready"@ {
            Some(Action::OpenEditReady)
        } else if name == "open_members_ready"@ {
            Some(Action::OpenMembersReady)
        } else {
            None
        }
    }

    fn parse(name: &str) -> (r: Option<Action>) {
        if same(name, "tick") {
            Some(Action::Tick)
        } else if same(name, "render") {
            Some(Action::Render)
        } else if same(name, "suspend") {
            Some(Action::Suspend)
        } else if same(name, "resume") {
            Some(Action::Resume)
        } else if same(name, "quit") {
            Some(Action::Quit)
        } else if same(name, "clear_screen") {
            Some(Action::ClearScreen)
        } else if same(name, "help_modal") {
            Some(Action::HelpModal)
        } else if same(name, "auth_chooser") {
            Some(Action::AuthChooser)
        } else if same(name, "register_modal") {
            Some(Action::RegisterModal)
        } else if same(name, "login_modal") {
            Some(Action::LoginModal)
        } else if same(name, "close_modal") {
            Some(Action::CloseModal)
        } else if same(name, "focus_buttons") {
            Some(Action::FocusButtons)
        } else if same(name, "submit_form") {
            Some(Action::SubmitForm)
        } else if same(name, "start_capture") {
            Some(Action::StartCapture)
        } else if same(name, "stop_capture") {
            Some(Action::StopCapture)
        } else if same(name, "unlock_modal") {
            Some(Action::UnlockModal)
        } else if same(name, "device_unlock") {
            Some(Action::DeviceUnlock)
        } else if same(name, "toggle_sidebar") {
            Some(Action::ToggleSidebar)
        } else if same(name, "refresh_lists") {
            Some(Action::RefreshLists)
        } else if same(name, "new_list_modal") {
            Some(Action::NewListModal)
        } else if same(name, "cycle_sort") {
            Some(Action::CycleSort)
        } else if same(name, "open_edit_ready") {
            Some(Action::OpenEditReady)
        } else if same(name, "open_members_ready") {
            Some(Action::OpenMembersReady)
        } else {
            None
        }
    }
}

/// A copy of an optional text.
pub fn copy_opt(s: &Option<String>) -> (r: Option<String>)
    ensures
        r == *s,
{
    match s {
        Some(t) => Some(t.clone()),
        None => None,
    }
}

impl Action {
    /// A copy of the action.
    pub fn copy(&self) -> (r: Action)
        ensures
            r@ == self@,
            !(*self is SaveTodo) ==> r == *self,
    {
        match self {
            Action::Tick => Action::Tick,
            Action::Render => Action::Render,
            Action::Suspend => Action::Suspend,
            Action::Resume => Action::Resume,
            Action::Quit => Action::Quit,
            Action::ClearScreen => Action::ClearScreen,
            Action::HelpModal => Action::HelpModal,
            Action::AuthChooser => Action::AuthChooser,
            Action::RegisterModal => Action::RegisterModal,
            Action::LoginModal => Action::LoginModal,
            Action::CloseModal => Action::CloseModal,
            Action::FocusButtons => Action::FocusButtons,
            Action::SubmitForm => Action::SubmitForm,
            Action::StartCapture => Action::StartCapture,
            Action::StopCapture => Action::StopCapture,
            Action::UnlockModal => Action::UnlockModal,
            Action::DeviceUnlock => Action::DeviceUnlock,
            Action::ToggleSidebar => Action::ToggleSidebar,
            Action::RefreshLists => Action::RefreshLists,
            Action::NewListModal => Action::NewListModal,
            Action::CycleSort => Action::CycleSort,
            Action::OpenEditReady => Action::OpenEditReady,
            Action::OpenMembersReady => Action::OpenMembersReady,
            Action::Resize(w, h) => Action::Resize(*w, *h),
            Action::Error(m) => Action::Error(m.clone()),
            Action::SetMode(m) => Action::SetMode(*m),
            Action::Unlock { password } => Action::Unlock { password: password.clone() },
            Action::Register { username, password } => Action::Register {
                username: username.clone(),
                password: password.clone(),
            },
            Action::Login { username, password } => Action::Login {
                username: username.clone(),
                password: password.clone(),
            },
            Action::Keys(k) => Action::Keys(k.copy()),
            Action::OpenView { target, pane } => Action::OpenView { target: *target, pane: *pane },
            Action::CreateList { name } => Action::CreateList { name: name.clone() },
            Action::RenameListModal { list_id, name } => Action::RenameListModal {
                list_id: *list_id,
                name: name.clone(),
            },
            Action::RenameList { list_id, name } => Action::RenameList {
                list_id: *list_id,
                name: name.clone(),
            },
            Action::AddTodoModal(l) => Action::AddTodoModal(*l),
            Action::EditTodoModal { list_id, item_id } => Action::EditTodoModal {
                list_id: *list_id,
                item_id: item_id.clone(),
            },
            Action::SaveTodo { list_id, item_id, input } => Action::SaveTodo {
                list_id: *list_id,
                item_id: copy_opt(item_id),
                input: input.copy(),
            },
            Action::ToggleDone { list_id, item_id } => Action::ToggleDone {
                list_id: *list_id,
                item_id: item_id.clone(),
            },
            Action::ConfirmDelete(t) => Action::ConfirmDelete(t.copy()),
            Action::DeleteList(l) => Action::DeleteList(*l),
            Action::DeleteTodo { list_id, item_id } => Action::DeleteTodo {
                list_id: *list_id,
                item_id: item_id.clone(),
            },
            Action::ShareModal(l) => Action::ShareModal(*l),
            Action::ShareList { list_id, username } => Action::ShareList {
                list_id: *list_id,
                username: username.clone(),
            },
            Action::AddResolvedMember { list_id, member } => Action::AddResolvedMember {
                list_id: *list_id,
                member: *member,
            },
            Action::MembersModal(l) => Action::MembersModal(*l),
            Action::Unshare { list_id, member_id } => Action::Unshare {
                list_id: *list_id,
                member_id: *member_id,
            },
        }
    }

    /// Whether the action carries a secret, so that it must not be logged.
    pub open spec fn is_secret(&self) -> bool {
        *self is Register || *self is Login || *self is Unlock || *self is Keys
    }

    /// Whether the action may be logged in full: none that carries a secret, and not
    /// the two that come all the time.
    pub fn is_loggable(&self) -> (r: bool)
        ensures
            r == !(self.is_secret() || *self is Tick || *self is Render),
    {
        match self {
            Action::Tick
            | Action::Render
            | Action::Register { .. }
            | Action::Login { .. }
            | Action::Unlock { .. }
            | Action::Keys(_) => false,
            _ => true,
        }
    }

    /// The text of an action; `target` is the printed form of the view or of the
    /// deletion that it speaks of, if it speaks of one. No secret stands in it.
    pub open spec fn text(&self, target: Seq<char>) -> Seq<char> {
        match self {
            Action::Tick => "Tick"@,
            Action::Render => "Render"@,
            Action::Suspend => "Suspend"@,
            Action::Resume => "Resume"@,
            Action::Quit => "Quit"@,
            Action::ClearScreen => "Clear screen"@,
            Action::HelpModal => "Help"@,
            Action::AuthChooser => "Auth chooser"@,
            Action::RegisterModal => "Register"@,
            Action::LoginModal => "Login"@,
            Action::CloseModal => "Close modal"@,
            Action::FocusButtons => "Focus buttons"@,
            Action::SubmitForm => "Submit form"@,
            Action::StartCapture => "Start key capture"@,
            Action::StopCapture => "Stop key capture"@,
            Action::UnlockModal => "Unlock todoers"@,
            Action::DeviceUnlock => "Device unlock"@,
            Action::Unlock { .. } => "Unlock keys"@,
            Action::ToggleSidebar => "Toggle sidebar"@,
            Action::Keys(_) => "Cryptographic keys"@,
            Action::RefreshLists => "Refresh lists"@,
            Action::NewListModal => "New list"@,
            Action::AddTodoModal(_) => "Add todo"@,
            Action::DeleteList(_) => "Delete list"@,
            Action::ShareModal(_) => "Share list"@,
            Action::AddResolvedMember { .. } => "Add resolved member"@,
            Action::MembersModal(_) => "List members"@,
            Action::Unshare { .. } => "Unshare"@,
            Action::CycleSort => "Cycle sort"@,
            Action::OpenEditReady => "Open edit (ready)"@,
            Action::OpenMembersReady => "Open members (ready)"@,
            Action::Error(msg) => "Error "@ + msg@,
            Action::Register { username, .. } => "Register "@ + username@,
            Action::Login { username, .. } => "Login "@ + username@,
            Action::CreateList { name } => "Create list "@ + name@,
            Action::RenameListModal { name, .. } => "Rename list "@ + name@,
            Action::RenameList { name, .. } => "Rename list "@ + name@,
            Action::EditTodoModal { item_id, .. } => "Edit todo "@ + item_id@,
            Action::SaveTodo { input, .. } => "Save todo "@ + input.title@,
            Action::ToggleDone { item_id, .. } => "Toggle done "@ + item_id@,
            Action::DeleteTodo { item_id, .. } => "Delete todo "@ + item_id@,
            Action::ShareList { username, .. } => "Share with "@ + username@,
            Action::Resize(w, h) => "Resize to "@ + decimal(*w as nat) + " x "@ + decimal(*h as nat),
            Action::SetMode(m) => "Go "@ + m.text(),
            Action::OpenView { pane, .. } => "Open view "@ + target + " in pane "@ + decimal(
                *pane as nat,
            ),
            Action::ConfirmDelete(_) => "Confirm delete "@ + target,
        }
    }

    /// The text of an action.
    pub fn describe(&self, target: &str) -> (r: String)
        ensures
            r@ == self.text(target@),
    {
        match self {
            Action::Tick => "Tick".to_owned(),
            Action::Render => "Render".to_owned(),
            Action::Suspend => "Suspend".to_owned(),
            Action::Resume => "Resume".to_owned(),
            Action::Quit => "Quit".to_owned(),
            Action::ClearScreen => "Clear screen".to_owned(),
            Action::HelpModal => "Help".to_owned(),
            Action::AuthChooser => "Auth chooser".to_owned(),
            Action::RegisterModal => "Register".to_owned(),
            Action::LoginModal => "Login".to_owned(),
            Action::CloseModal => "Close modal".to_owned(),
            Action::FocusButtons => "Focus buttons".to_owned(),
            Action::SubmitForm => "Submit form".to_owned(),
            Action::StartCapture => "Start key capture".to_owned(),
            Action::StopCapture => "Stop key capture".to_owned(),
            Action::UnlockModal => "Unlock todoers".to_owned(),
            Action::DeviceUnlock => "Device unlock".to_owned(),
            Action::Unlock { .. } => "Unlock keys".to_owned(),
            Action::ToggleSidebar => "Toggle sidebar".to_owned(),
            Action::Keys(_) => "Cryptographic keys".to_owned(),
            Action::RefreshLists => "Refresh lists".to_owned(),
            Action::NewListModal => "New list".to_owned(),
            Action::AddTodoModal(_) => "Add todo".to_owned(),
            Action::DeleteList(_) => "Delete list".to_owned(),
            Action::ShareModal(_) => "Share list".to_owned(),
            Action::AddResolvedMember { .. } => "Add resolved member".to_owned(),
            Action::MembersModal(_) => "List members".to_owned(),
            Action::Unshare { .. } => "Unshare".to_owned(),
            Action::CycleSort => "Cycle sort".to_owned(),
            Action::OpenEditReady => "Open edit (ready)".to_owned(),
            Action::OpenMembersReady => "Open members (ready)".to_owned(),
            Action::Error(msg) => joined("Error ", msg.as_str()),
            Action::Register { username, .. } => joined("Register ", username.as_str()),
            Action::Login { username, .. } => joined("Login ", username.as_str()),
            Action::CreateList { name } => joined("Create list ", name.as_str()),
            Action::RenameListModal { name, .. } => joined("Rename list ", name.as_str()),
            Action::RenameList { name, .. } => joined("Rename list ", name.as_str()),
            Action::EditTodoModal { item_id, .. } => joined("Edit todo ", item_id.as_str()),
            Action::SaveTodo { input, .. } => joined("Save todo ", input.title.as_str()),
            Action::ToggleDone { item_id, .. } => joined("Toggle done ", item_id.as_str()),
            Action::DeleteTodo { item_id, .. } => joined("Delete todo ", item_id.as_str()),
            Action::ShareList { username, .. } => joined("Share with ", username.as_str()),
            Action::Resize(w, h) => {
                let a = number(*w as u64);
                let b = number(*h as u64);
                let mut s = joined3("Resize to ", a.as_str(), " x ");
                s.append(b.as_str());
                s
            },
            Action::SetMode(m) => joined("Go ", m.name()),
            Action::OpenView { pane, .. } => {
                let n = number(*pane as u64);
                let mut s = joined3("Open view ", target, " in pane ");
                s.append(n.as_str());
                s
            },
            Action::ConfirmDelete(_) => joined("Confirm delete ", target),
        }
    }
}

/// Two actions that differ only in a password or in secret keys print the same.
pub proof fn law_text_hides_secrets(
    username: String,
    p: String,
    q: String,
    k: UnlockedKeys,
    l: UnlockedKeys,
    target: Seq<char>,
)
    ensures
        (Action::Unlock { password: p }).text(target) == (Action::Unlock { password: q }).text(
            target,
        ),
        (Action::Register { username, password: p }).text(target) == (Action::Register {
            username,
            password: q,
        }).text(target),
        (Action::Login { username, password: p }).text(target) == (Action::Login {
            username,
            password: q,
        }).text(target),
        Action::Keys(k).text(target) == Action::Keys(l).text(target),
{
}

} // verus!
