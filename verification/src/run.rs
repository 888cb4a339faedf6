//! What drives the application: events, replies of the store, and turns of its loop.
use vstd::prelude::*;
use vstd::string::*;

use crate::action::{Action, ActionView, OutcomeView};
use crate::app::{
    action_views, drain, global_chord, is_global_chord, App, AppView, Effect, EffectView, Moment,
};
use crate::auth::AccountRow;
use crate::components::surface::compiled_from;
use crate::components::text_input::EditorMode;
use crate::config::KeyContext;
use crate::keymap::{resolve, resolved};
use crate::keys::KeyEvent;
use crate::model::{blank_member, ListId, MemberId, TodoItem};
use crate::store_worker::{SnapshotView, ViewSnapshot, WorkerMsg};
use crate::tui::Event;
use crate::view::{item_views, ModelView, PaneView};

verus! {

impl AppView {
    /// Whether the application takes an event, whatever the dialog's own keys make of it.
    pub open spec fn surely_accepts(self, event: Event) -> bool {
        match (event, self.modal) {
            (Event::Key(key), Some(m)) => m.body.surely_accepts(key),
            _ => true,
        }
    }

    /// Whether the application can take an event: a dialog can take its key.
    pub open spec fn accepts(self, event: Event) -> bool {
        match (event, self.modal) {
            (Event::Key(key), Some(m)) => m.accepts(key),
            _ => true,
        }
    }

    /// What a key does as a command that is bound everywhere. While a field takes the
    /// keys, only a chord with Ctrl or Alt is one.
    pub open spec fn commanded(self, key: KeyEvent) -> AppView {
        if self.capturing && !global_chord(key) {
            self
        } else {
            let map = compiled_from::<Action>(self.config.keybindings.at(KeyContext::Global));
            let (found, pending) = resolved(map, self.pending, key);
            let s = AppView { pending, ..self };
            match found {
                Some(a) => s.queued(a@),
                None => s,
            }
        }
    }

    /// Opens the store, once there are keys.
    pub open spec fn session_started(self) -> AppView {
        if self.connected || self.acct_keys is None {
            self
        } else {
            (AppView { connected: true, ..self.asks(EffectView::StartSession) }).view_sent()
        }
    }

    /// Whether the account has to be read from disk.
    pub open spec fn wants_account(self) -> bool {
        !self.account_verified && self.modal is None && self.account is None && self.acct_keys
            is None
    }

    /// Tries the device's own key once, else asks for the password.
    pub open spec fn unlock_asked(self) -> AppView {
        if self.device_unlock_attempted {
            self
        } else if self.config.config.device_unlock.enabled {
            (AppView { device_unlock_attempted: true, ..self }).queued(ActionView::DeviceUnlock)
        } else {
            self.queued(ActionView::UnlockModal)
        }
    }

    /// The way in, tried on every tick: without an account on disk the user is asked to
    /// log in or register; with an account and no keys the device's own key is tried
    /// once, else the password is asked for; with both the store is opened.
    pub open spec fn gated(self, disk: Option<AccountRow>) -> AppView {
        if self.account_verified || self.modal is Some {
            self
        } else {
            let s = if self.wants_account() {
                AppView { account: disk, ..self }
            } else {
                self
            };
            if self.wants_account() && disk is None {
                s.queued(ActionView::AuthChooser)
            } else if s.account is Some && s.acct_keys is None {
                s.unlock_asked()
            } else if s.account is Some && s.acct_keys is Some {
                AppView { account_verified: true, ..s.session_started() }
            } else {
                s
            }
        }
    }

    /// Hands an event to the dialog while one is open, else to the workspace.
    pub open spec fn routed(self, event: Event) -> AppView {
        match (self.modal, event) {
            (Some(m), Event::Key(key)) => (AppView {
                modal: Some(m.after_key(key).0),
                ..self
            }).queued_outcome(m.after_key(key).1),
            (Some(m), Event::Mouse(mouse)) => self.queued_outcome(
                OutcomeView { reply: m.clicked(mouse, 0), sent: None },
            ),
            (Some(m), Event::Paste(text)) => AppView {
                modal: Some(m.after_paste(text@)),
                ..self
            },
            (None, Event::Key(key)) => {
                let ran = self.home.after_key(self.model, key);
                (AppView { home: ran.home, model: ran.model, ..self }).queued_outcome(
                    OutcomeView { reply: None, sent: ran.sent },
                )
            },
            _ => self,
        }
    }

    /// What an event does to the application itself.
    pub open spec fn noticed(self, event: Event, disk: Option<AccountRow>) -> AppView {
        match event {
            Event::Quit => self.queued(ActionView::Quit),
            Event::Tick => self.gated(disk).queued(ActionView::Tick),
            Event::Render => self.queued(ActionView::Render),
            Event::Resize(w, h) => self.queued(ActionView::Resize(w, h)),
            Event::Key(key) => if self.modal is None || global_chord(key) {
                self.commanded(key)
            } else {
                self
            },
            _ => self,
        }
    }

    /// What an event does. `disk` is the account on disk, where it has to be read.
    pub open spec fn happened(self, event: Event, disk: Option<AccountRow>) -> AppView {
        self.noticed(event, disk).routed(event)
    }

    /// The user's own number.
    pub open spec fn me(self) -> MemberId {
        match (self.account, self.acct_keys) {
            (Some(a), _) => a.member_id,
            (None, Some(k)) => k.member_id,
            (None, None) => blank_member(),
        }
    }

    /// The store's snapshot in the panes; the layout stays, and a pane that the
    /// snapshot does not know keeps its todos.
    pub open spec fn installed(self, snap: SnapshotView) -> AppView {
        AppView {
            model: ModelView {
                lists: snap.lists,
                panes: Seq::new(
                    self.model.panes.len(),
                    |i: int|
                        if i < snap.panes.len() {
                            PaneView { items: snap.panes[i], ..self.model.panes[i] }
                        } else {
                            self.model.panes[i]
                        },
                ),
                ..self.model
            },
            ..self
        }
    }

    /// What a reply of the store does.
    pub open spec fn replied(self, msg: WorkerMsg, now: u64) -> AppView {
        match msg {
            WorkerMsg::Snapshot(snap) => self.installed(snap@).queued(ActionView::Render),
            WorkerMsg::FullItem(found) => match found {
                Some((list_id, item)) => (AppView {
                    pending_edit: Some((list_id, item@)),
                    ..self
                }).queued(ActionView::OpenEditReady),
                None => self,
            },
            WorkerMsg::Members(list_id, members) => (AppView {
                pending_members: Some((list_id, members@, self.me())),
                ..self
            }).queued(ActionView::OpenMembersReady),
            WorkerMsg::Error(text) => self.complained(text@, now),
        }
    }

    /// What a backlog of actions does; a request to draw only counts once, at the end.
    pub open spec fn processed(self, backlog: Seq<ActionView>, t: Moment) -> AppView
        decreases backlog.len(),
    {
        if backlog.len() == 0 {
            self
        } else {
            let s = self.processed(backlog.drop_last(), t);
            if backlog.last() == ActionView::Render {
                s
            } else {
                s.dispatched(backlog.last(), t)
            }
        }
    }

    /// A turn of the loop: everything that was queued before it is dispatched, and then
    /// drawn once if that was asked for.
    pub open spec fn turned(self, t: Moment) -> AppView {
        let s = (AppView { queue: Seq::empty(), ..self }).processed(self.queue, t);
        if self.queue.contains(ActionView::Render) {
            s.asks(EffectView::Render)
        } else {
            s
        }
    }
}

/// What the loop does after a turn.
#[derive(Clone, Copy, Debug, PartialEq, Eq, Structural)]
pub enum AfterTurn {
    Go,
    /// Suspend the program; once it is back, go on.
    Suspend,
    Stop,
}

impl App {
    /// Whether the application can take an event.
    pub fn accepts_event(&self, event: &Event) -> (r: bool)
        requires
            self.wf(),
        ensures
            r ==> self@.accepts(*event),
            r == self@.surely_accepts(*event),
    {
        proof {
            reveal(App::state);
        }
        match event {
            Event::Key(key) => match &self.modal {
                Some(m) => m.body.accepts_key(*key),
                None => true,
            },
            _ => true,
        }
    }

    /// Whether the account has to be read from disk before the next tick.
    pub fn needs_account(&self) -> (r: bool)
        ensures
            r == self@.wants_account(),
    {
        proof {
            reveal(App::state);
        }
        !self.account_verified && self.modal.is_none() && self.account.is_none()
            && self.acct_keys.is_none()
    }

    fn init_session(&mut self)
        requires
            old(self).wf(),
        ensures
            final(self).wf(),
            final(self)@ == old(self)@.session_started(),
    {
        proof {
            reveal(App::state);
        }
        if self.connected || self.acct_keys.is_none() {
            return;
        }
        self.ask(Effect::StartSession);
        self.connected = true;
        self.send_set_view();
    }

    fn gate_open(&self) -> (r: bool)
        ensures
            r == (self@.account_verified || self@.modal is Some),
    {
        proof {
            reveal(App::state);
        }
        self.account_verified || self.modal.is_some()
    }

    fn has_account(&self) -> (r: bool)
        ensures
            r == (self@.account is Some),
    {
        proof {
            reveal(App::state);
        }
        self.account.is_some()
    }

    fn has_keys(&self) -> (r: bool)
        ensures
            r == (self@.acct_keys is Some),
    {
        proof {
            reveal(App::state);
        }
        self.acct_keys.is_some()
    }

    fn set_account(&mut self, account: Option<AccountRow>)
        requires
            old(self).wf(),
        ensures
            final(self).wf(),
            final(self)@ == (AppView { account, ..old(self)@ }),
    {
        proof {
            reveal(App::state);
        }
        self.account = account;
    }

    fn ask_unlock(&mut self)
        requires
            old(self).wf(),
        ensures
            final(self).wf(),
            final(self)@ == old(self)@.unlock_asked(),
    {
        proof {
            reveal(App::state);
        }
        if self.device_unlock_attempted {
            return;
        }
        if self.config.config.device_unlock.enabled {
            self.device_unlock_attempted = true;
            self.send(Action::DeviceUnlock);
        } else {
            self.send(Action::UnlockModal);
        }
    }

    fn set_verified(&mut self)
        requires
            old(self).wf(),
        ensures
            final(self).wf(),
            final(self)@ == (AppView { account_verified: true, ..old(self)@ }),
    {
        proof {
            reveal(App::state);
        }
        self.account_verified = true;
    }

    fn pass_gate(&mut self, disk: Option<AccountRow>)
        requires
            old(self).wf(),
        ensures
            final(self).wf(),
            final(self)@ == old(self)@.gated(disk),
    {
        if self.gate_open() {
            return;
        }
        if self.needs_account() {
            let missing: bool = disk.is_none();
            self.set_account(disk);
            if missing {
                self.send(Action::AuthChooser);
                return;
            }
        }
        if self.has_account() {
            if self.has_keys() {
                self.init_session();
                self.set_verified();
            } else {
                self.ask_unlock();
            }
        }
    }

    fn handle_key_event(&mut self, key: KeyEvent)
        requires
            old(self).wf(),
        ensures
            final(self).wf(),
            final(self)@ == old(self)@.commanded(key),
    {
        proof {
            reveal(App::state);
        }
        if self.capturing && !is_global_chord(&key) {
            return;
        }
        let found: Option<Action> = match resolve(&self.global, &mut self.pending, key) {
            Some(a) => Some(a.copy()),
            None => None,
        };
        if let Some(a) = found {
            self.send(a);
        }
    }

    fn notice(&mut self, event: &Event, disk: Option<AccountRow>)
        requires
            old(self).wf(),
        ensures
            final(self).wf(),
            final(self)@ == old(self)@.noticed(*event, disk),
    {
        match event {
            Event::Quit => self.send(Action::Quit),
            Event::Tick => {
                self.pass_gate(disk);
                self.send(Action::Tick);
            },
            Event::Render => self.send(Action::Render),
            Event::Resize(w, h) => self.send(Action::Resize(*w, *h)),
            Event::Key(key) => {
                proof {
                    reveal(App::state);
                }
                if self.modal.is_none() || is_global_chord(key) {
                    self.handle_key_event(*key);
                }
            },
            _ => {},
        }
    }

    #[verifier::rlimit(40)]
    fn route(&mut self, event: &Event)
        requires
            old(self).wf(),
            old(self)@.accepts(*event),
        ensures
            final(self).wf(),
            final(self)@ == old(self)@.routed(*event),
    {
        proof {
            reveal(App::state);
        }
        let out: Option<crate::action::Outcome> = match &mut self.modal {
            Some(m) => match event {
                Event::Key(key) => Some(m.handle_key_event(*key)),
                Event::Mouse(mouse) => Some(
                    crate::action::Outcome { reply: m.handle_mouse_event(*mouse), sent: None },
                ),
                Event::Paste(text) => {
                    m.paste(text.as_str());
                    None
                },
                _ => None,
            },
            None => match event {
                Event::Key(key) => Some(self.home.handle_key_event(&mut self.view, *key)),
                _ => None,
            },
        };
        if let Some(out) = out {
            self.send_outcome(out);
        }
    }

    /// Takes an event. `disk` is the account on disk, which counts where it has to be
    /// read.
    pub fn on_event(&mut self, event: &Event, disk: Option<AccountRow>)
        requires
            old(self).wf(),
            old(self)@.accepts(*event),
        ensures
            final(self).wf(),
            final(self)@ == old(self)@.happened(*event, disk),
    {
        self.notice(event, disk);
        self.route(event);
    }

    /// The user's own number.
    pub fn session_member_id(&self) -> (r: MemberId)
        ensures
            r == self@.me(),
    {
        proof {
            reveal(App::state);
        }
        match &self.account {
            Some(a) => a.member_id,
            None => match &self.acct_keys {
                Some(k) => k.member_id,
                None => MemberId::default(),
            },
        }
    }

    fn install_snapshot(&mut self, snap: ViewSnapshot)
        requires
            old(self).wf(),
            snap.lists@.len() + 2 <= usize::MAX,
        ensures
            final(self).wf(),
            final(self)@ == old(self)@.installed(snap@),
    {
        proof {
            reveal(App::state);
        }
        let ghost v0 = self@;
        let ghost given = snap@;
        let mut panes: Vec<Vec<(ListId, TodoItem)>> = snap.panes;
        self.view.lists = snap.lists;
        let ghost v1 = self@;
        let n: usize = self.view.panes.len();
        let m: usize = panes.len();
        let mut i: usize = 0;
        while i < n && i < m
            invariant
                i <= n,
                i <= m,
                n == self.view.panes@.len(),
                m == given.panes.len(),
                panes@.len() == m,
                n == v1.model.panes.len(),
                v1.model.valid(),
                self.wf(),
                self@ == (AppView {
                    model: ModelView { panes: self@.model.panes, ..v1.model },
                    ..v1
                }),
                forall|j: int| i <= j < m ==> item_views((#[trigger] panes@[j])@) == given.panes[j],
                forall|j: int|
                    0 <= j < n ==> (#[trigger] self.view.panes@[j])@ == (if j < i {
                        PaneView { items: given.panes[j], ..v1.model.panes[j] }
                    } else {
                        v1.model.panes[j]
                    }),
            decreases n - i,
        {
            proof {
                reveal(App::state);
            }
            let mut items: Vec<(ListId, TodoItem)> = Vec::new();
            items.append(&mut panes[i]);
            self.view.panes[i].items = items;
            i = i + 1;
        }
        proof {
            assert(self@.model.panes =~= v0.installed(given).model.panes);
            assert(self@.model =~= v0.installed(given).model);
        }
    }

    /// Takes a reply of the store.
    pub fn handle_worker_msg(&mut self, msg: WorkerMsg, now: u64)
        requires
            old(self).wf(),
            msg matches WorkerMsg::Snapshot(snap) ==> snap.lists@.len() + 2 <= usize::MAX,
        ensures
            final(self).wf(),
            final(self)@ == old(self)@.replied(msg, now),
    {
        match msg {
            WorkerMsg::Snapshot(snap) => {
                self.install_snapshot(snap);
                self.send(Action::Render);
            },
            WorkerMsg::FullItem(found) => {
                if let Some((list_id, item)) = found {
                    proof {
                        reveal(App::state);
                    }
                    self.pending_edit = Some((list_id, item));
                    self.send(Action::OpenEditReady);
                }
            },
            WorkerMsg::Members(list_id, members) => {
                let me = self.session_member_id();
                proof {
                    reveal(App::state);
                }
                self.pending_members = Some((list_id, members, me));
                self.send(Action::OpenMembersReady);
            },
            WorkerMsg::Error(text) => {
                proof {
                    reveal(App::state);
                }
                self.errorbar.show_error(text, crate::app::ERROR_TIME, now);
            },
        }
    }

    /// Dispatches everything that is queued, and asks to draw at most once.
    pub fn handle_actions(&mut self, t: Moment)
        requires
            old(self).wf(),
            t.today.wf(),
        ensures
            final(self).wf(),
            final(self)@ == old(self)@.turned(t),
    {
        proof {
            reveal(App::state);
        }
        let backlog: Vec<Action> = drain(&mut self.queue);
        let ghost all = action_views(backlog@);
        proof {
            assert(action_views(self.queue@) =~= Seq::empty());
            assert(all.take(0) =~= Seq::empty());
        }
        let ghost start = self@;
        let n: usize = backlog.len();
        let mut should_render: bool = false;
        let mut i: usize = 0;
        while i < n
            invariant
                i <= n,
                n == backlog@.len(),
                all == action_views(backlog@),
                t.today.wf(),
                self.wf(),
                self@ == start.processed(all.take(i as int), t),
                should_render == all.take(i as int).contains(ActionView::Render),
            decreases n - i,
        {
            proof {
                assert(all.take(i + 1).drop_last() =~= all.take(i as int));
                assert(all.take(i + 1).last() == backlog@[i as int]@);
                assert(all.take(i + 1) =~= all.take(i as int).push(backlog@[i as int]@));
                lemma_contains_push(all.take(i as int), backlog@[i as int]@);
            }
            match &backlog[i] {
                Action::Render => {
                    should_render = true;
                },
                action => {
                    self.dispatch_action(action, t);
                },
            }
            i = i + 1;
        }
        proof {
            assert(all.take(n as int) =~= all);
        }
        if should_render {
            self.ask(Effect::Render);
        }
    }

    /// Takes the outside work that was asked for.
    pub fn take_effects(&mut self) -> (r: Vec<Effect>)
        requires
            old(self).wf(),
        ensures
            final(self).wf(),
            crate::app::effect_views(r@) == old(self)@.effects,
            final(self)@ == (AppView { effects: Seq::empty(), ..old(self)@ }),
    {
        proof {
            reveal(App::state);
        }
        let r = drain(&mut self.effects);
        proof {
            assert(self@.effects =~= Seq::empty());
        }
        r
    }

    /// What the loop does after a turn. A program that was suspended comes back to a
    /// clear screen.
    pub fn after_turn(&mut self) -> (r: AfterTurn)
        requires
            old(self).wf(),
        ensures
            final(self).wf(),
            (r, final(self)@) == (if old(self)@.should_suspend {
                (
                    AfterTurn::Suspend,
                    old(self)@.queued(ActionView::Resume).queued(ActionView::ClearScreen),
                )
            } else if old(self)@.should_quit {
                (AfterTurn::Stop, old(self)@)
            } else {
                (AfterTurn::Go, old(self)@)
            }),
    {
        proof {
            reveal(App::state);
        }
        if self.should_suspend {
            self.send(Action::Resume);
            self.send(Action::ClearScreen);
            AfterTurn::Suspend
        } else if self.should_quit {
            AfterTurn::Stop
        } else {
            AfterTurn::Go
        }
    }

    /// The editing mode to show: that of the dialog's field. The workspace has no
    /// field.
    pub fn active_editor_mode(&self) -> (r: Option<EditorMode>)
        ensures
            r == (match self@.modal {
                Some(m) => if m.in_body() {
                    m.body.shown_mode()
                } else {
                    None
                },
                None => None,
            }),
    {
        proof {
            reveal(App::state);
        }
        match &self.modal {
            Some(m) => m.editor_mode(),
            None => None,
        }
    }
}

proof fn lemma_contains_push(s: Seq<ActionView>, a: ActionView)
    ensures
        s.push(a).contains(ActionView::Render) == (s.contains(ActionView::Render) || a
            == ActionView::Render),
{
    if s.contains(ActionView::Render) {
        let k = s.index_of(ActionView::Render);
        assert(s.push(a)[k] == ActionView::Render);
    }
    if a == ActionView::Render {
        assert(s.push(a)[s.len() as int] == ActionView::Render);
    }
    if s.push(a).contains(ActionView::Render) {
        let k = choose|k: int| 0 <= k < s.push(a).len() && s.push(a)[k] == ActionView::Render;
        if k < s.len() {
            assert(s[k] == ActionView::Render);
        }
    }
}

/// The line that shows an editing mode.
pub fn mode_line(mode: EditorMode) -> (r: String)
    ensures
        r@ == "-- "@ + mode.text() + " --"@,
{
    let mut s = String::new();
    s.append("-- ");
    s.append(mode.label());
    s.append(" --");
    proof {
        assert(s@ =~= "-- "@ + mode.text() + " --"@);
    }
    s
}

} // verus!
