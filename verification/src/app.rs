//! The application: one state machine over events, actions and replies of the store.
//! It keeps a queue of actions and a list of the outside work that it asks for.
use vstd::prelude::*;
use vstd::string::*;

use crate::action::{Action, ActionView, DeleteTarget, DeleteView, Outcome, OutcomeView};
use crate::auth::{AccountRow, UnlockedKeys};
use crate::components::button::{new_button, Button};
use crate::components::errorbar::{ErrorBar, ErrorBarView};
use crate::components::home::{home_start, Home, HomeView};
use crate::components::legend::{footer_rows, help_sheet, row_texts, Help, Keys};
use crate::components::list_form::{create_start, rename_start, share_start, ListForm};
use crate::components::members::{members_start, Members};
use crate::components::modal::{
    button_views, form_modal, message_modal, new_modal, Body, BodyView, Modal, ModalView,
};
use crate::components::register::{login_start, register_start, Login, Register};
use crate::components::surface::compiled_from;
use crate::components::todo_form::{blank_form, edit_form, TodoForm};
use crate::components::unlock::{unlock_start, Unlock};
use crate::config::{Config, KeyContext};
use crate::dates::Date;
use crate::keymap::{compile_keymap, KeyMap};
use crate::keys::KeyEvent;
use crate::mode::Mode;
use crate::model::{
    InputView, ListId, Member, MemberId, MetaList, TodoItem, TodoView, ViewTarget,
};
use crate::store_worker::{CommandView, StoreCommand};
use crate::view::{blank_model, ModelView, PaneView, ViewModel};

verus! {

/// How long an error is shown, in milliseconds.
pub const ERROR_TIME: u64 = 5000;

/// Whether a key is always a command: a chord with Ctrl or Alt cannot be typed into a
/// field.
pub open spec fn global_chord(key: KeyEvent) -> bool {
    key.modifiers.control || key.modifiers.alt
}

/// Whether a key is always a command.
pub fn is_global_chord(key: &KeyEvent) -> (r: bool)
    ensures
        r == global_chord(*key),
{
    key.modifiers.control || key.modifiers.alt
}

/// Takes everything that is queued.
pub fn drain<T>(queue: &mut Vec<T>) -> (r: Vec<T>)
    ensures
        r@ == old(queue)@,
        final(queue)@ == Seq::<T>::empty(),
{
    let mut out: Vec<T> = Vec::new();
    out.append(queue);
    out
}

/// The time at which something is handled: a running clock in milliseconds, and the
/// date.
#[derive(Clone, Copy, Debug, PartialEq, Eq)]
pub struct Moment {
    pub now: u64,
    pub today: Date,
}

// ── Outside work ────────────────────────────────────────────────────────────

/// Outside work that the application asks for.
#[derive(Debug, PartialEq, Eq)]
pub enum Effect {
    /// Clear the terminal.
    ClearScreen,
    /// Resize the terminal, and draw.
    Resize(u16, u16),
    /// Draw.
    Render,
    /// Open the store with the unlocked keys.
    StartSession,
    /// Hand a command to the store.
    Store(StoreCommand),
    /// Unlock with the device's own key.
    DeviceUnlock,
    Register { username: String, password: String },
    Login { username: String, password: String },
    /// Look up the public keys of a user to share a list with.
    Lookup { list_id: ListId, username: String, token: String },
}

/// What an effect says.
#[allow(inconsistent_fields)]
pub ghost enum EffectView {
    ClearScreen,
    Resize(u16, u16),
    Render,
    StartSession,
    Store(CommandView),
    DeviceUnlock,
    Register { username: Seq<char>, password: Seq<char> },
    Login { username: Seq<char>, password: Seq<char> },
    Lookup { list_id: ListId, username: Seq<char>, token: Seq<char> },
}

impl View for Effect {
    type V = EffectView;

    open spec fn view(&self) -> EffectView {
        match self {
            Effect::ClearScreen => EffectView::ClearScreen,
            Effect::Resize(w, h) => EffectView::Resize(*w, *h),
            Effect::Render => EffectView::Render,
            Effect::StartSession => EffectView::StartSession,
            Effect::Store(c) => EffectView::Store(c@),
            Effect::DeviceUnlock => EffectView::DeviceUnlock,
            Effect::Register { username, password } => EffectView::Register {
                username: username@,
                password: password@,
            },
            Effect::Login { username, password } => EffectView::Login {
                username: username@,
                password: password@,
            },
            Effect::Lookup { list_id, username, token } => EffectView::Lookup {
                list_id: *list_id,
                username: username@,
                token: token@,
            },
        }
    }
}

// ── The state ───────────────────────────────────────────────────────────────

/// The application.
pub struct App {
    pub config: Config,
    /// The commands that are bound everywhere.
    pub global: KeyMap<Action>,
    /// Whether keys are named as on a Mac.
    pub mac: bool,
    pub account: Option<AccountRow>,
    pub acct_keys: Option<UnlockedKeys>,
    pub home: Home,
    pub view: ViewModel,
    pub should_quit: bool,
    pub should_suspend: bool,
    /// Whether a text field takes the keys that are typed.
    pub capturing: bool,
    pub prev_mode: Mode,
    pub mode: Mode,
    /// The dialog over the screen.
    pub modal: Option<Modal>,
    /// The keys of a half-typed sequence.
    pub pending: Vec<KeyEvent>,
    /// The legend at the foot of the screen.
    pub keys: Keys,
    pub errorbar: ErrorBar,
    pub account_verified: bool,
    pub device_unlock_attempted: bool,
    /// Whether the store is open.
    pub connected: bool,
    /// The todo whose form is about to open.
    pub pending_edit: Option<(ListId, TodoItem)>,
    /// The members whose dialog is about to open.
    pub pending_members: Option<(ListId, Vec<Member>, MemberId)>,
    /// The actions that are still to be dispatched.
    pub queue: Vec<Action>,
    /// The outside work that is still to be done.
    pub effects: Vec<Effect>,
}

/// What the application holds.
pub ghost struct AppView {
    pub config: Config,
    pub mac: bool,
    pub account: Option<AccountRow>,
    pub acct_keys: Option<UnlockedKeys>,
    pub home: HomeView,
    pub model: ModelView,
    pub should_quit: bool,
    pub should_suspend: bool,
    pub capturing: bool,
    pub prev_mode: Mode,
    pub mode: Mode,
    pub modal: Option<ModalView>,
    pub pending: Seq<KeyEvent>,
    pub errorbar: ErrorBarView,
    pub account_verified: bool,
    pub device_unlock_attempted: bool,
    pub connected: bool,
    pub pending_edit: Option<(ListId, TodoView)>,
    pub pending_members: Option<(ListId, Seq<Member>, MemberId)>,
    pub queue: Seq<ActionView>,
    pub effects: Seq<EffectView>,
}

/// What an optional modal holds.
pub open spec fn modal_view(m: Option<Modal>) -> Option<ModalView> {
    match m {
        Some(x) => Some(x@),
        None => None,
    }
}

/// What a todo and its list hold.
pub open spec fn edit_view(p: Option<(ListId, TodoItem)>) -> Option<(ListId, TodoView)> {
    match p {
        Some(x) => Some((x.0, x.1@)),
        None => None,
    }
}

/// What a list's members hold.
pub open spec fn members_view(p: Option<(ListId, Vec<Member>, MemberId)>) -> Option<
    (ListId, Seq<Member>, MemberId),
> {
    match p {
        Some(x) => Some((x.0, x.1@, x.2)),
        None => None,
    }
}

/// What actions say.
pub open spec fn action_views(v: Seq<Action>) -> Seq<ActionView> {
    v.map_values(|a: Action| a@)
}

/// What effects say.
pub open spec fn effect_views(v: Seq<Effect>) -> Seq<EffectView> {
    v.map_values(|e: Effect| e@)
}

impl View for App {
    type V = AppView;

    open spec fn view(&self) -> AppView {
        self.state()
    }
}

impl App {
    /// What the application holds.
    #[verifier::opaque]
    pub open spec fn state(&self) -> AppView {
        AppView {
            config: self.config,
            mac: self.mac,
            account: self.account,
            acct_keys: self.acct_keys,
            home: self.home@,
            model: self.view@,
            should_quit: self.should_quit,
            should_suspend: self.should_suspend,
            capturing: self.capturing,
            prev_mode: self.prev_mode,
            mode: self.mode,
            modal: modal_view(self.modal),
            pending: self.pending@,
            errorbar: self.errorbar@,
            account_verified: self.account_verified,
            device_unlock_attempted: self.device_unlock_attempted,
            connected: self.connected,
            pending_edit: edit_view(self.pending_edit),
            pending_members: members_view(self.pending_members),
            queue: action_views(self.queue@),
            effects: effect_views(self.effects@),
        }
    }
}

/// The text of the dialog that asks to log in or register.
pub open spec fn welcome_text() -> Seq<char> {
    "You're not signed in. Log in to an existing account, or register a new one."@
}

impl AppView {
    /// One more action in the queue.
    pub open spec fn queued(self, a: ActionView) -> AppView {
        AppView { queue: self.queue.push(a), ..self }
    }

    /// One more piece of outside work.
    pub open spec fn asks(self, e: EffectView) -> AppView {
        AppView { effects: self.effects.push(e), ..self }
    }

    /// The actions of an outcome in the queue: first what a component sent, then what
    /// it answered.
    pub open spec fn queued_outcome(self, out: OutcomeView) -> AppView {
        let first = match out.sent {
            Some(a) => self.queued(a),
            None => self,
        };
        match out.reply {
            Some(a) => first.queued(a),
            None => first,
        }
    }

    /// A command for the store, once it is open.
    pub open spec fn stored(self, c: CommandView) -> AppView {
        if self.connected {
            self.asks(EffectView::Store(c))
        } else {
            self
        }
    }

    /// Tells the store what the panes show.
    #[verifier::opaque]
    pub open spec fn view_sent(self) -> AppView {
        self.stored(
            CommandView::SetView {
                targets: self.model.panes.map_values(|p: PaneView| p.target),
                sort: self.model.sort,
            },
        )
    }

    /// A dialog over the screen.
    #[verifier::opaque]
    pub open spec fn overlaid(self, m: ModalView) -> AppView {
        AppView { modal: Some(m.configured(self.config)), ..self }
    }

    /// A form over the screen; to cancel it returns to the workspace.
    #[verifier::opaque]
    pub open spec fn form_opened(self, title: Seq<char>, body: BodyView) -> AppView {
        self.overlaid(form_modal(title, body, ActionView::CloseModal)).queued(
            ActionView::StartCapture,
        )
    }

    /// A form of the way in; to cancel it returns to the chooser.
    #[verifier::opaque]
    pub open spec fn gate_opened(self, title: Seq<char>, body: BodyView) -> AppView {
        self.overlaid(form_modal(title, body, ActionView::AuthChooser)).queued(
            ActionView::StartCapture,
        )
    }

    /// Another screen.
    #[verifier::opaque]
    pub open spec fn switched(self, mode: Mode) -> AppView {
        AppView {
            prev_mode: self.mode,
            mode,
            home: self.home.configured(self.config),
            ..self
        }
    }

    /// An error in the error bar.
    pub open spec fn complained(self, text: Seq<char>, now: u64) -> AppView {
        AppView { errorbar: self.errorbar.showing(text, ERROR_TIME, now), ..self }
    }

    /// A pane that shows something else.
    #[verifier::opaque]
    pub open spec fn retargeted(self, target: ViewTarget, pane: int) -> AppView {
        if 0 <= pane < self.model.panes.len() {
            AppView {
                model: ModelView {
                    panes: self.model.panes.update(
                        pane,
                        PaneView { target: Some(target), ..self.model.panes[pane] },
                    ),
                    ..self.model
                },
                ..self
            }
        } else {
            self
        }
    }

    /// Every pane that shows a list shows all tasks instead.
    #[verifier::opaque]
    pub open spec fn without_list(self, id: ListId) -> AppView {
        AppView {
            model: ModelView {
                panes: self.model.panes.map_values(|p: PaneView| pane_without(p, id)),
                ..self.model
            },
            ..self
        }
    }

    /// The dialog that asks before something is deleted.
    #[verifier::opaque]
    pub open spec fn delete_asked(self, target: DeleteView) -> AppView {
        let (text, action) = match target {
            DeleteView::List(id) => (
                "Delete this list and all of its todos? This cannot be undone."@,
                ActionView::DeleteList(id),
            ),
            DeleteView::Todo { list_id, item_id } => (
                "Delete this todo?"@,
                ActionView::DeleteTodo { list_id, item_id },
            ),
        };
        self.overlaid(
            new_modal(
                "Confirm Delete"@,
                BodyView::Prompt(text),
                seq![
                    new_button("Delete"@, action),
                    new_button("Cancel"@, ActionView::CloseModal),
                ],
                ActionView::CloseModal,
            ),
        )
    }

    /// The dialog that asks to log in or register.
    #[verifier::opaque]
    pub open spec fn chooser_opened(self) -> AppView {
        (AppView { prev_mode: self.mode, mode: Mode::Home, capturing: false, ..self }).overlaid(
            new_modal(
                "Welcome"@,
                BodyView::Prompt(welcome_text()),
                seq![
                    new_button("Login"@, ActionView::LoginModal),
                    new_button("Register"@, ActionView::RegisterModal),
                ],
                ActionView::Quit,
            ),
        )
    }

    /// Unlocks with the account's user name.
    pub open spec fn unlocking(self, password: Seq<char>, now: u64) -> AppView {
        match self.account {
            Some(a) => self.asks(EffectView::Login { username: a.username@, password }),
            None => self.complained(
                "No local account found; please register or log in."@,
                now,
            ),
        }
    }

    /// The bearer token of the session; empty where there is none.
    pub open spec fn token(self) -> Seq<char> {
        match self.acct_keys {
            Some(k) => k.token@,
            None => Seq::empty(),
        }
    }

    /// The form of the todo that was waited for.
    pub open spec fn edit_opened(self, today: Date) -> AppView {
        match self.pending_edit {
            Some((id, item)) => (AppView { pending_edit: None, ..self }).form_opened(
                "Edit Todo"@,
                BodyView::Todo(edit_form(id, item, today)),
            ),
            None => self,
        }
    }

    /// The dialog of the members that were waited for.
    pub open spec fn members_opened(self) -> AppView {
        match self.pending_members {
            Some((id, members, me)) => (AppView { pending_members: None, ..self }).overlaid(
                message_modal("Members"@, BodyView::Members(members_start(id, members, me))),
            ),
            None => self,
        }
    }

    /// A saved todo: a new one where it had no number, else a changed one.
    pub open spec fn saved(
        self,
        list_id: ListId,
        item_id: Option<Seq<char>>,
        input: InputView,
    ) -> AppView {
        self.stored(
            match item_id {
                Some(item_id) => CommandView::EditTodo { list_id, item_id, input },
                None => CommandView::AddTodo { list_id, input },
            },
        ).queued(ActionView::CloseModal)
    }

    /// What an action on members does; any other leaves the application as it is.
    #[verifier::opaque]
    pub open spec fn acted_sharing(self, a: ActionView, t: Moment) -> AppView {
        match a {
            ActionView::ShareModal(list_id) => self.form_opened(
                "Share List"@,
                BodyView::List(share_start(list_id)),
            ),
            ActionView::ShareList { list_id, username } => self.asks(
                EffectView::Lookup { list_id, username, token: self.token() },
            ),
            ActionView::AddResolvedMember { list_id, member } => self.stored(
                CommandView::AddMember { list_id, member },
            ).queued(ActionView::CloseModal),
            ActionView::MembersModal(list_id) => self.stored(CommandView::FetchMembers(list_id)),
            ActionView::Unshare { list_id, member_id } => self.stored(
                CommandView::RemoveMember { list_id, member_id },
            ).queued(ActionView::CloseModal),
            ActionView::OpenMembersReady => self.members_opened(),
            _ => self,
        }
    }

    /// What an action on todos does.
    #[verifier::opaque]
    pub open spec fn acted_todos(self, a: ActionView, t: Moment) -> AppView {
        match a {
            ActionView::AddTodoModal(list_id) => self.form_opened(
                "Add Todo"@,
                BodyView::Todo(blank_form(list_id, None, t.today)),
            ),
            ActionView::EditTodoModal { list_id, item_id } => self.stored(
                CommandView::FetchFullItem { list_id, item_id },
            ),
            ActionView::SaveTodo { list_id, item_id, input } => self.saved(
                list_id,
                item_id,
                input,
            ),
            ActionView::ToggleDone { list_id, item_id } => self.stored(
                CommandView::ToggleDone { list_id, item_id },
            ),
            ActionView::DeleteTodo { list_id, item_id } => self.stored(
                CommandView::DeleteTodo { list_id, item_id },
            ).queued(ActionView::CloseModal),
            ActionView::OpenEditReady => self.edit_opened(t.today),
            _ => self.acted_sharing(a, t),
        }
    }

    /// What an action on lists does.
    #[verifier::opaque]
    pub open spec fn acted_lists(self, a: ActionView, t: Moment) -> AppView {
        match a {
            ActionView::OpenView { target, pane } => self.retargeted(
                target,
                pane as int,
            ).view_sent(),
            ActionView::RefreshLists => self.view_sent(),
            ActionView::NewListModal => self.form_opened(
                "New List"@,
                BodyView::List(create_start()),
            ),
            ActionView::RenameListModal { list_id, name } => self.form_opened(
                "Rename List"@,
                BodyView::List(rename_start(list_id, name)),
            ),
            ActionView::CreateList { name } => self.stored(
                CommandView::CreateList { name },
            ).queued(ActionView::CloseModal),
            ActionView::RenameList { list_id, name } => self.stored(
                CommandView::RenameList { list_id, name },
            ).queued(ActionView::CloseModal),
            ActionView::ConfirmDelete(target) => self.delete_asked(target),
            ActionView::DeleteList(id) => self.stored(CommandView::DeleteList(id)).without_list(
                id,
            ).view_sent().queued(ActionView::CloseModal),
            ActionView::CycleSort => (AppView {
                model: ModelView { sort: self.model.sort.after(), ..self.model },
                ..self
            }).view_sent(),
            _ => self.acted_todos(a, t),
        }
    }

    /// What an action of the way in does.
    #[verifier::opaque]
    pub open spec fn acted_gate(self, a: ActionView, t: Moment) -> AppView {
        match a {
            ActionView::UnlockModal => (AppView {
                prev_mode: self.mode,
                mode: Mode::Home,
                ..self
            }).gate_opened("Unlock"@, BodyView::Unlock(unlock_start())),
            ActionView::DeviceUnlock => self.asks(EffectView::DeviceUnlock),
            ActionView::Register { username, password } => self.asks(
                EffectView::Register { username, password },
            ),
            ActionView::Login { username, password } => self.asks(
                EffectView::Login { username, password },
            ),
            ActionView::Unlock { password } => self.unlocking(password, t.now),
            ActionView::AuthChooser => self.chooser_opened(),
            ActionView::RegisterModal => (AppView { mode: Mode::Register, ..self }).gate_opened(
                "Register"@,
                BodyView::Register(register_start()),
            ),
            ActionView::LoginModal => (AppView { mode: Mode::Login, ..self }).gate_opened(
                "Login"@,
                BodyView::Login(login_start()),
            ),
            _ => self.acted_lists(a, t),
        }
    }

    /// What an action does to the application itself.
    pub open spec fn acted(self, a: ActionView, t: Moment) -> AppView {
        match a {
            ActionView::Tick => AppView { pending: Seq::empty(), ..self },
            ActionView::Quit => AppView { should_quit: true, ..self },
            ActionView::Suspend => AppView { should_suspend: true, ..self },
            ActionView::Resume => AppView { should_suspend: false, ..self },
            ActionView::ClearScreen => self.asks(EffectView::ClearScreen),
            ActionView::Resize(w, h) => self.asks(EffectView::Resize(w, h)),
            ActionView::SetMode(m) => self.switched(m),
            ActionView::StartCapture => AppView { capturing: true, ..self },
            ActionView::StopCapture => AppView { capturing: false, ..self },
            ActionView::Keys(k) => AppView { acct_keys: Some(k), ..self },
            ActionView::CloseModal => (AppView { modal: None, capturing: false, ..self }).switched(
                self.prev_mode,
            ),
            ActionView::Error(text) => self.complained(text, t.now),
            ActionView::HelpModal => self.overlaid(
                message_modal(
                    "Help"@,
                    BodyView::Help(help_sheet(self.config, self.mode, self.mac)),
                ),
            ),
            _ => self.acted_gate(a, t),
        }
    }

    /// Hands an action on: to the dialog while one is open, else to the workspace,
    /// and to the error bar in any case.
    #[verifier::opaque]
    pub open spec fn forwarded(self, a: ActionView, now: u64) -> AppView {
        let s = match self.modal {
            Some(m) => (AppView { modal: Some(m.updated(a).0), ..self }).queued_outcome(
                m.updated(a).1,
            ),
            None => AppView { home: self.home.updated(a), ..self },
        };
        AppView { errorbar: s.errorbar.updated(a, now), ..s }
    }

    /// What an action does.
    pub open spec fn dispatched(self, a: ActionView, t: Moment) -> AppView {
        self.acted(a, t).forwarded(a, t.now)
    }
}

/// A pane that shows all tasks where it showed a list.
pub open spec fn pane_without(p: PaneView, id: ListId) -> PaneView {
    if p.target == Some(ViewTarget::List(id)) {
        PaneView { target: Some(ViewTarget::Meta(MetaList::AllTasks)), ..p }
    } else {
        p
    }
}

// ── Dispatching ─────────────────────────────────────────────────────────────

impl App {
    /// Every part is valid, and the legend is that of the screen.
    pub open spec fn wf(&self) -> bool {
        &&& self.config.wf()
        &&& self.global.wf()
        &&& self.global@ == compiled_from::<Action>(
            self.config.keybindings.at(KeyContext::Global),
        )
        &&& self.home.wf()
        &&& self.view@.valid()
        &&& self.home@.fits(self.view@)
        &&& self.modal matches Some(m) ==> m.wf()
        &&& self.keys.mode == self.mode
        &&& row_texts(self.keys.rows@) == footer_rows(self.config, self.mode)
    }

    /// The application at the start.
    pub fn new(
        config: Config,
        account: Option<AccountRow>,
        acct_keys: Option<UnlockedKeys>,
        mac: bool,
        now: u64,
    ) -> (r: App)
        requires
            config.wf(),
        ensures
            r.wf(),
            r@ == (AppView {
                config,
                mac,
                account,
                acct_keys,
                home: home_start().configured(config),
                model: blank_model(),
                should_quit: false,
                should_suspend: false,
                capturing: false,
                prev_mode: Mode::Home,
                mode: Mode::Home,
                modal: None,
                pending: Seq::empty(),
                errorbar: ErrorBarView {
                    show: false,
                    text: Seq::empty(),
                    duration: 0,
                    show_time: now,
                },
                account_verified: false,
                device_unlock_attempted: false,
                connected: false,
                pending_edit: None,
                pending_members: None,
                queue: Seq::empty(),
                effects: Seq::empty(),
            }),
    {
        proof {
            reveal(App::state);
        }
        let mut home = Home::new();
        home.configure(&config);
        let global = compile_keymap::<Action>(config.keybindings.context(KeyContext::Global));
        let keys = Keys::new(Mode::Home, &config);
        let r = App {
            config,
            global,
            mac,
            account,
            acct_keys,
            home,
            view: ViewModel::default(),
            should_quit: false,
            should_suspend: false,
            capturing: false,
            prev_mode: Mode::Home,
            mode: Mode::Home,
            modal: None,
            pending: Vec::new(),
            keys,
            errorbar: ErrorBar::new(now),
            account_verified: false,
            device_unlock_attempted: false,
            connected: false,
            pending_edit: None,
            pending_members: None,
            queue: Vec::new(),
            effects: Vec::new(),
        };
        proof {
            assert(r@.queue =~= Seq::empty());
            assert(r@.effects =~= Seq::empty());
        }
        r
    }

    pub(crate) fn send(&mut self, a: Action)
        requires
            old(self).wf(),
        ensures
            final(self).wf(),
            final(self)@ == old(self)@.queued(a@),
    {
        proof {
            reveal(App::state);
        }
        let ghost q = self.queue@;
        self.queue.push(a);
        proof {
            assert(action_views(self.queue@) =~= action_views(q).push(a@));
        }
    }

    pub(crate) fn ask(&mut self, e: Effect)
        requires
            old(self).wf(),
        ensures
            final(self).wf(),
            final(self)@ == old(self)@.asks(e@),
    {
        proof {
            reveal(App::state);
        }
        let ghost q = self.effects@;
        self.effects.push(e);
        proof {
            assert(effect_views(self.effects@) =~= effect_views(q).push(e@));
        }
    }

    pub(crate) fn send_outcome(&mut self, out: Outcome)
        requires
            old(self).wf(),
        ensures
            final(self).wf(),
            final(self)@ == old(self)@.queued_outcome(out@),
    {
        if let Some(a) = out.sent {
            self.send(a);
        }
        if let Some(a) = out.reply {
            self.send(a);
        }
    }

    pub(crate) fn store_cmd(&mut self, c: StoreCommand)
        requires
            old(self).wf(),
        ensures
            final(self).wf(),
            final(self)@ == old(self)@.stored(c@),
    {
        proof {
            reveal(App::state);
        }
        if self.connected {
            self.ask(Effect::Store(c));
        }
    }

    fn store_and_close(&mut self, c: StoreCommand)
        requires
            old(self).wf(),
        ensures
            final(self).wf(),
            final(self)@ == old(self)@.stored(c@).queued(ActionView::CloseModal),
    {
        self.store_cmd(c);
        self.send(Action::CloseModal);
    }

    pub(crate) fn send_set_view(&mut self)
        requires
            old(self).wf(),
        ensures
            final(self).wf(),
            final(self)@ == old(self)@.view_sent(),
    {
        proof {
            reveal(AppView::view_sent);
            reveal(App::state);
        }
        let mut targets: Vec<Option<ViewTarget>> = Vec::new();
        let n: usize = self.view.panes.len();
        let mut i: usize = 0;
        while i < n
            invariant
                i <= n,
                n == self.view.panes@.len(),
                targets@.len() == i,
                forall|j: int| 0 <= j < i ==> #[trigger] targets@[j] == self.view.panes@[j].target,
            decreases n - i,
        {
            targets.push(self.view.panes[i].target);
            i = i + 1;
        }
        proof {
            assert(targets@ =~= self@.model.panes.map_values(|p: PaneView| p.target));
        }
        self.store_cmd(StoreCommand::SetView { targets, sort: self.view.sort });
    }

    fn overlay(&mut self, modal: Modal)
        requires
            old(self).wf(),
            modal.wf(),
        ensures
            final(self).wf(),
            final(self)@ == old(self)@.overlaid(modal@),
    {
        proof {
            reveal(AppView::overlaid);
            reveal(App::state);
        }
        let mut m = modal;
        m.configure(&self.config);
        self.modal = Some(m);
    }

    fn open_form_modal(&mut self, title: &str, body: Body)
        requires
            old(self).wf(),
            body.wf(),
        ensures
            final(self).wf(),
            final(self)@ == old(self)@.form_opened(title@, body@),
    {
        proof {
            reveal(AppView::form_opened);
        }
        self.overlay(Modal::form(title, body, Action::CloseModal));
        self.send(Action::StartCapture);
    }

    fn open_gate_modal(&mut self, title: &str, body: Body)
        requires
            old(self).wf(),
            body.wf(),
        ensures
            final(self).wf(),
            final(self)@ == old(self)@.gate_opened(title@, body@),
    {
        proof {
            reveal(AppView::gate_opened);
        }
        self.overlay(Modal::form(title, body, Action::AuthChooser));
        self.send(Action::StartCapture);
    }

    fn set_mode(&mut self, mode: Mode)
        requires
            old(self).wf(),
        ensures
            final(self).wf(),
            final(self)@ == (AppView { mode, ..old(self)@ }),
    {
        proof {
            reveal(App::state);
        }
        self.keys = Keys::new(mode, &self.config);
        self.mode = mode;
    }

    fn handle_switch_mode(&mut self, mode: Mode)
        requires
            old(self).wf(),
        ensures
            final(self).wf(),
            final(self)@ == old(self)@.switched(mode),
    {
        proof {
            reveal(AppView::switched);
            reveal(App::state);
        }
        self.prev_mode = self.mode;
        self.set_mode(mode);
        self.home.configure(&self.config);
    }

    fn complain(&mut self, text: String, now: u64)
        requires
            old(self).wf(),
        ensures
            final(self).wf(),
            final(self)@ == old(self)@.complained(text@, now),
    {
        proof {
            reveal(App::state);
        }
        self.errorbar.show_error(text, ERROR_TIME, now);
    }

    fn open_view(&mut self, target: ViewTarget, pane: usize)
        requires
            old(self).wf(),
        ensures
            final(self).wf(),
            final(self)@ == old(self)@.retargeted(target, pane as int).view_sent(),
    {
        proof {
            reveal(AppView::retargeted);
            reveal(App::state);
        }
        let ghost v0 = self@;
        if pane < self.view.panes.len() {
            self.view.panes[pane].target = Some(target);
            proof {
                assert(v0.model.panes[pane as int] == old(self).view.panes@[pane as int]@);
                assert(self.view@.panes =~= v0.retargeted(target, pane as int).model.panes);
            }
        }
        proof {
            assert(self@ == v0.retargeted(target, pane as int));
        }
        self.send_set_view();
    }

    fn leave_list(&mut self, id: ListId)
        requires
            old(self).wf(),
        ensures
            final(self).wf(),
            final(self)@ == old(self)@.without_list(id),
    {
        proof {
            reveal(AppView::without_list);
            reveal(App::state);
        }
        let ghost v0 = self@;
        let n: usize = self.view.panes.len();
        let mut i: usize = 0;
        while i < n
            invariant
                i <= n,
                n == self.view.panes@.len(),
                n == v0.model.panes.len(),
                v0.model.valid(),
                self.wf(),
                self@ == (AppView {
                    model: ModelView { panes: self@.model.panes, ..v0.model },
                    ..v0
                }),
                forall|j: int|
                    0 <= j < n ==> (#[trigger] self.view.panes@[j])@ == (if j < i {
                        pane_without(v0.model.panes[j], id)
                    } else {
                        v0.model.panes[j]
                    }),
            decreases n - i,
        {
            proof {
                    reveal(App::state);
            }
            if self.view.panes[i].target == Some(ViewTarget::List(id)) {
                self.view.panes[i].target = Some(ViewTarget::Meta(MetaList::AllTasks));
            }
            i = i + 1;
        }
        proof {
            assert(self@.model.panes =~= v0.without_list(id).model.panes);
        }
    }

    fn ask_delete(&mut self, target: &DeleteTarget)
        requires
            old(self).wf(),
        ensures
            final(self).wf(),
            final(self)@ == old(self)@.delete_asked(target@),
    {
        proof {
            reveal(AppView::delete_asked);
        }
        let (text, action) = match target {
            DeleteTarget::List(id) => (
                "Delete this list and all of its todos? This cannot be undone.",
                Action::DeleteList(*id),
            ),
            DeleteTarget::Todo { list_id, item_id } => (
                "Delete this todo?",
                Action::DeleteTodo { list_id: *list_id, item_id: item_id.clone() },
            ),
        };
        let ghost a = action@;
        let mut buttons: Vec<Button> = Vec::new();
        buttons.push(Button::new("Delete", action));
        buttons.push(Button::new("Cancel", Action::CloseModal));
        proof {
            assert(button_views(buttons@) =~= seq![
                new_button("Delete"@, a),
                new_button("Cancel"@, ActionView::CloseModal),
            ]);
        }
        self.overlay(
            Modal::new(
                "Confirm Delete",
                Body::Prompt(text.to_owned()),
                buttons,
                Action::CloseModal,
            ),
        );
    }

    fn open_chooser(&mut self)
        requires
            old(self).wf(),
        ensures
            final(self).wf(),
            final(self)@ == old(self)@.chooser_opened(),
    {
        proof {
            reveal(AppView::chooser_opened);
            reveal(App::state);
        }
        let mut buttons: Vec<Button> = Vec::new();
        buttons.push(Button::new("Login", Action::LoginModal));
        buttons.push(Button::new("Register", Action::RegisterModal));
        proof {
            assert(button_views(buttons@) =~= seq![
                new_button("Login"@, ActionView::LoginModal),
                new_button("Register"@, ActionView::RegisterModal),
            ]);
        }
        let text =
            "You're not signed in. Log in to an existing account, or register a new one.";
        self.prev_mode = self.mode;
        self.set_mode(Mode::Home);
        self.capturing = false;
        self.overlay(
            Modal::new("Welcome", Body::Prompt(text.to_owned()), buttons, Action::Quit),
        );
    }

    fn unlock(&mut self, password: &String, now: u64)
        requires
            old(self).wf(),
        ensures
            final(self).wf(),
            final(self)@ == old(self)@.unlocking(password@, now),
    {
        proof {
            reveal(App::state);
        }
        let username: Option<String> = match &self.account {
            Some(a) => Some(a.username.clone()),
            None => None,
        };
        match username {
            Some(username) => self.ask(Effect::Login { username, password: password.clone() }),
            None => self.complain(
                "No local account found; please register or log in.".to_owned(),
                now,
            ),
        }
    }

    fn look_up(&mut self, list_id: ListId, username: &String)
        requires
            old(self).wf(),
        ensures
            final(self).wf(),
            final(self)@ == old(self)@.asks(
                EffectView::Lookup { list_id, username: username@, token: old(self)@.token() },
            ),
    {
        proof {
            reveal(App::state);
        }
        let token: String = match &self.acct_keys {
            Some(k) => k.token.clone(),
            None => String::new(),
        };
        proof {
            assert(token@ =~= self@.token());
        }
        self.ask(Effect::Lookup { list_id, username: username.clone(), token });
    }

    fn open_edit(&mut self, today: Date)
        requires
            old(self).wf(),
            today.wf(),
        ensures
            final(self).wf(),
            final(self)@ == old(self)@.edit_opened(today),
    {
        proof {
            reveal(App::state);
        }
        let taken = self.pending_edit.take();
        if let Some((list_id, item)) = taken {
            let form = TodoForm::edit(list_id, &item, today);
            self.open_form_modal("Edit Todo", Body::Todo(form));
        }
    }

    fn open_members(&mut self)
        requires
            old(self).wf(),
        ensures
            final(self).wf(),
            final(self)@ == old(self)@.members_opened(),
    {
        proof {
            reveal(App::state);
        }
        let taken = self.pending_members.take();
        if let Some((list_id, members, me)) = taken {
            let body = Body::Members(Members::new(list_id, members, me));
            self.overlay(Modal::message("Members", body));
        }
    }

    fn save_todo(&mut self, list_id: ListId, item_id: &Option<String>, input: &crate::model::TodoItemInput)
        requires
            old(self).wf(),
        ensures
            final(self).wf(),
            final(self)@ == old(self)@.saved(
                list_id,
                crate::keymap::opt_text(*item_id),
                input@,
            ),
    {
        match item_id {
            Some(id) => self.store_and_close(
                StoreCommand::EditTodo { list_id, item_id: id.clone(), input: input.copy() },
            ),
            None => self.store_and_close(StoreCommand::AddTodo { list_id, input: input.copy() }),
        }
    }

    fn forget_keys(&mut self)
        requires
            old(self).wf(),
        ensures
            final(self).wf(),
            final(self)@ == (AppView { pending: Seq::empty(), ..old(self)@ }),
    {
        proof {
            reveal(App::state);
        }
        self.pending = Vec::new();
    }

    fn quit(&mut self)
        requires
            old(self).wf(),
        ensures
            final(self).wf(),
            final(self)@ == (AppView { should_quit: true, ..old(self)@ }),
    {
        proof {
            reveal(App::state);
        }
        self.should_quit = true;
    }

    fn set_suspend(&mut self, on: bool)
        requires
            old(self).wf(),
        ensures
            final(self).wf(),
            final(self)@ == (AppView { should_suspend: on, ..old(self)@ }),
    {
        proof {
            reveal(App::state);
        }
        self.should_suspend = on;
    }

    fn set_capturing(&mut self, on: bool)
        requires
            old(self).wf(),
        ensures
            final(self).wf(),
            final(self)@ == (AppView { capturing: on, ..old(self)@ }),
    {
        proof {
            reveal(App::state);
        }
        self.capturing = on;
    }

    fn install(&mut self, keys: &UnlockedKeys)
        requires
            old(self).wf(),
        ensures
            final(self).wf(),
            final(self)@ == (AppView { acct_keys: Some(*keys), ..old(self)@ }),
    {
        proof {
            reveal(App::state);
        }
        self.acct_keys = Some(keys.copy());
    }

    fn close_modal(&mut self)
        requires
            old(self).wf(),
        ensures
            final(self).wf(),
            final(self)@ == (AppView { modal: None, capturing: false, ..old(self)@ }).switched(
                old(self)@.prev_mode,
            ),
    {
        proof {
            reveal(App::state);
        }
        self.modal = None;
        self.capturing = false;
        self.handle_switch_mode(self.prev_mode);
    }

    fn open_help(&mut self)
        requires
            old(self).wf(),
        ensures
            final(self).wf(),
            final(self)@ == old(self)@.overlaid(
                message_modal(
                    "Help"@,
                    BodyView::Help(help_sheet(old(self)@.config, old(self)@.mode, old(self)@.mac)),
                ),
            ),
    {
        proof {
            reveal(App::state);
        }
        let help = Help::new(self.mode, &self.config, self.mac);
        self.overlay(Modal::message("Help", Body::Help(help)));
    }

    fn open_unlock(&mut self)
        requires
            old(self).wf(),
        ensures
            final(self).wf(),
            final(self)@ == (AppView {
                prev_mode: old(self)@.mode,
                mode: Mode::Home,
                ..old(self)@
            }).gate_opened("Unlock"@, BodyView::Unlock(unlock_start())),
    {
        proof {
            reveal(App::state);
        }
        self.prev_mode = self.mode;
        self.set_mode(Mode::Home);
        self.open_gate_modal("Unlock", Body::Unlock(Unlock::new()));
    }

    fn open_register(&mut self)
        requires
            old(self).wf(),
        ensures
            final(self).wf(),
            final(self)@ == (AppView { mode: Mode::Register, ..old(self)@ }).gate_opened(
                "Register"@,
                BodyView::Register(register_start()),
            ),
    {
        proof {
            reveal(App::state);
        }
        self.set_mode(Mode::Register);
        self.open_gate_modal("Register", Body::Register(Register::new()));
    }

    fn open_login(&mut self)
        requires
            old(self).wf(),
        ensures
            final(self).wf(),
            final(self)@ == (AppView { mode: Mode::Login, ..old(self)@ }).gate_opened(
                "Login"@,
                BodyView::Login(login_start()),
            ),
    {
        proof {
            reveal(App::state);
        }
        self.set_mode(Mode::Login);
        self.open_gate_modal("Login", Body::Login(Login::new()));
    }

    fn delete_list(&mut self, id: ListId)
        requires
            old(self).wf(),
        ensures
            final(self).wf(),
            final(self)@ == old(self)@.stored(CommandView::DeleteList(id)).without_list(
                id,
            ).view_sent().queued(ActionView::CloseModal),
    {
        self.store_cmd(StoreCommand::DeleteList(id));
        self.leave_list(id);
        self.send_set_view();
        self.send(Action::CloseModal);
    }

    fn cycle_sort(&mut self)
        requires
            old(self).wf(),
        ensures
            final(self).wf(),
            final(self)@ == (AppView {
                model: ModelView { sort: old(self)@.model.sort.after(), ..old(self)@.model },
                ..old(self)@
            }).view_sent(),
    {
        proof {
            reveal(App::state);
        }
        self.view.sort = self.view.sort.next();
        self.send_set_view();
    }

    /// Carries out an action on members.
    fn act_sharing(&mut self, action: &Action, t: Moment)
        requires
            old(self).wf(),
            t.today.wf(),
        ensures
            final(self).wf(),
            final(self)@ == old(self)@.acted_sharing(action@, t),
    {
        proof {
            reveal(AppView::acted_sharing);
        }
        match action {
            Action::ShareModal(list_id) => self.open_form_modal(
                "Share List",
                Body::List(ListForm::share(*list_id)),
            ),
            Action::ShareList { list_id, username } => self.look_up(*list_id, username),
            Action::AddResolvedMember { list_id, member } => self.store_and_close(
                StoreCommand::AddMember { list_id: *list_id, member: *member },
            ),
            Action::MembersModal(list_id) => self.store_cmd(StoreCommand::FetchMembers(*list_id)),
            Action::Unshare { list_id, member_id } => self.store_and_close(
                StoreCommand::RemoveMember { list_id: *list_id, member_id: *member_id },
            ),
            Action::OpenMembersReady => self.open_members(),
            _ => {},
        }
    }

    /// Carries out an action on todos.
    fn act_todos(&mut self, action: &Action, t: Moment)
        requires
            old(self).wf(),
            t.today.wf(),
        ensures
            final(self).wf(),
            final(self)@ == old(self)@.acted_todos(action@, t),
    {
        proof {
            reveal(AppView::acted_todos);
        }
        match action {
            Action::AddTodoModal(list_id) => self.open_form_modal(
                "Add Todo",
                Body::Todo(TodoForm::add(*list_id, t.today)),
            ),
            Action::EditTodoModal { list_id, item_id } => self.store_cmd(
                StoreCommand::FetchFullItem { list_id: *list_id, item_id: item_id.clone() },
            ),
            Action::SaveTodo { list_id, item_id, input } => self.save_todo(
                *list_id,
                item_id,
                input,
            ),
            Action::ToggleDone { list_id, item_id } => self.store_cmd(
                StoreCommand::ToggleDone { list_id: *list_id, item_id: item_id.clone() },
            ),
            Action::DeleteTodo { list_id, item_id } => self.store_and_close(
                StoreCommand::DeleteTodo { list_id: *list_id, item_id: item_id.clone() },
            ),
            Action::OpenEditReady => self.open_edit(t.today),
            _ => self.act_sharing(action, t),
        }
    }

    /// Carries out an action on lists.
    fn act_lists(&mut self, action: &Action, t: Moment)
        requires
            old(self).wf(),
            t.today.wf(),
        ensures
            final(self).wf(),
            final(self)@ == old(self)@.acted_lists(action@, t),
    {
        proof {
            reveal(AppView::acted_lists);
        }
        match action {
            Action::OpenView { target, pane } => self.open_view(*target, *pane),
            Action::RefreshLists => self.send_set_view(),
            Action::NewListModal => self.open_form_modal(
                "New List",
                Body::List(ListForm::create()),
            ),
            Action::RenameListModal { list_id, name } => self.open_form_modal(
                "Rename List",
                Body::List(ListForm::rename(*list_id, name.as_str())),
            ),
            Action::CreateList { name } => self.store_and_close(
                StoreCommand::CreateList { name: name.clone() },
            ),
            Action::RenameList { list_id, name } => self.store_and_close(
                StoreCommand::RenameList { list_id: *list_id, name: name.clone() },
            ),
            Action::ConfirmDelete(target) => self.ask_delete(target),
            Action::DeleteList(id) => self.delete_list(*id),
            Action::CycleSort => self.cycle_sort(),
            _ => self.act_todos(action, t),
        }
    }

    /// Carries out an action of the way in.
    fn act_gate(&mut self, action: &Action, t: Moment)
        requires
            old(self).wf(),
            t.today.wf(),
        ensures
            final(self).wf(),
            final(self)@ == old(self)@.acted_gate(action@, t),
    {
        proof {
            reveal(AppView::acted_gate);
        }
        match action {
            Action::UnlockModal => self.open_unlock(),
            Action::DeviceUnlock => self.ask(Effect::DeviceUnlock),
            Action::Register { username, password } => self.ask(
                Effect::Register { username: username.clone(), password: password.clone() },
            ),
            Action::Login { username, password } => self.ask(
                Effect::Login { username: username.clone(), password: password.clone() },
            ),
            Action::Unlock { password } => self.unlock(password, t.now),
            Action::AuthChooser => self.open_chooser(),
            Action::RegisterModal => self.open_register(),
            Action::LoginModal => self.open_login(),
            _ => self.act_lists(action, t),
        }
    }

    /// Carries out an action on the application itself.
    fn act(&mut self, action: &Action, t: Moment)
        requires
            old(self).wf(),
            t.today.wf(),
        ensures
            final(self).wf(),
            final(self)@ == old(self)@.acted(action@, t),
    {
        match action {
            Action::Tick => self.forget_keys(),
            Action::Quit => self.quit(),
            Action::Suspend => self.set_suspend(true),
            Action::Resume => self.set_suspend(false),
            Action::ClearScreen => self.ask(Effect::ClearScreen),
            Action::Resize(w, h) => self.ask(Effect::Resize(*w, *h)),
            Action::SetMode(m) => self.handle_switch_mode(*m),
            Action::StartCapture => self.set_capturing(true),
            Action::StopCapture => self.set_capturing(false),
            Action::Keys(k) => self.install(k),
            Action::CloseModal => self.close_modal(),
            Action::Error(text) => self.complain(text.clone(), t.now),
            Action::HelpModal => self.open_help(),
            _ => self.act_gate(action, t),
        }
    }

    /// Hands an action on to the dialog or the workspace, and to the error bar.
    fn forward(&mut self, action: &Action, now: u64)
        requires
            old(self).wf(),
        ensures
            final(self).wf(),
            final(self)@ == old(self)@.forwarded(action@, now),
    {
        proof {
            reveal(App::state);
            reveal(AppView::forwarded);
        }
        let out: Option<Outcome> = match &mut self.modal {
            Some(m) => Some(m.update(action)),
            None => None,
        };
        match out {
            Some(out) => self.send_outcome(out),
            None => self.home.update(action),
        }
        self.errorbar.update(action, now);
    }

    /// Dispatches an action.
    pub fn dispatch_action(&mut self, action: &Action, t: Moment)
        requires
            old(self).wf(),
            t.today.wf(),
        ensures
            final(self).wf(),
            final(self)@ == old(self)@.dispatched(action@, t),
    {
        self.act(action, t);
        self.forward(action, t.now);
    }
}

} // verus!
