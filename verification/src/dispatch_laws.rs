//! What each action comes to: what it asks of the store and of the outside, and what it
//! changes on the screen.
use vstd::prelude::*;
use vstd::string::*;

use crate::action::{ActionView, DeleteView};
use crate::app::{AppView, EffectView, Moment};
use crate::auth::{AccountRow, UnlockedKeys};
use crate::components::modal::{BodyView, ModalView};
use crate::mode::Mode;
use crate::model::{InputView, ListId, Member, MemberId, MetaList, SortMode, TodoView, ViewTarget};
use crate::store_worker::{CommandView, WorkerMsg};

verus! {

/// Whether two dialogs differ in what the body holds alone.
pub open spec fn same_frame(a: ModalView, b: ModalView) -> bool {
    a.title == b.title && a.buttons == b.buttons && a.focused == b.focused && a.focus_body
        == b.focus_body && a.esc_action == b.esc_action && a.keys == b.keys
}

/// What handing an action on leaves as it is.
proof fn lemma_handed_on(app: AppView, a: ActionView, t: Moment)
    ensures
        ({
            let s = app.acted(a, t);
            let after = app.dispatched(a, t);
            &&& after.effects == s.effects && after.connected == s.connected
            &&& after.model == s.model && after.config == s.config
            &&& after.account == s.account && after.acct_keys == s.acct_keys
            &&& after.should_quit == s.should_quit && after.should_suspend == s.should_suspend
            &&& after.capturing == s.capturing && after.pending == s.pending
            &&& after.mode == s.mode && after.prev_mode == s.prev_mode
            &&& after.pending_edit == s.pending_edit
            &&& after.pending_members == s.pending_members
            &&& after.errorbar == s.errorbar.updated(a, t.now)
            &&& after.queue.len() >= s.queue.len()
            &&& after.queue.take(s.queue.len() as int) == s.queue
            &&& s.modal is None ==> after.modal is None && after.queue == s.queue
        }),
{
    reveal(AppView::forwarded);
    let s = app.acted(a, t);
    assert(app.dispatched(a, t).queue.take(s.queue.len() as int) =~= s.queue);
}

/// What handing an action on leaves of a dialog.
proof fn lemma_dialog_handed_on(app: AppView, a: ActionView, t: Moment)
    requires
        app.acted(a, t).modal is Some,
    ensures
        ({
            let m = app.acted(a, t).modal->0;
            app.dispatched(a, t).modal matches Some(n) && same_frame(n, m) && (match m.body {
                BodyView::Register(_) => n.body is Register,
                BodyView::Login(_) => n.body is Login,
                BodyView::Unlock(_) => n.body is Unlock,
                BodyView::List(_) => n.body is List,
                BodyView::Todo(f) => n.body matches BodyView::Todo(g) && g.list_id == f.list_id
                    && g.item_id == f.item_id,
                _ => n.body == m.body,
            })
        }),
{
    reveal(AppView::forwarded);
}

// ── Commands for the store ──────────────────────────────────────────────────

/// While the store is open, to stop sharing with a member adds exactly one piece of outside
/// work: the store is asked to remove that very member from that very list.
pub proof fn law_unshare_removes_the_member(
    app: AppView,
    list_id: ListId,
    member_id: MemberId,
    t: Moment,
)
    requires
        app.connected,
    ensures
        app.dispatched(ActionView::Unshare { list_id, member_id }, t).effects == app.effects.push(
            EffectView::Store(CommandView::RemoveMember { list_id, member_id }),
        ),
{
    lemma_handed_on(app, ActionView::Unshare { list_id, member_id }, t);
    reveal(AppView::acted_gate);
    reveal(AppView::acted_lists);
    reveal(AppView::acted_todos);
    reveal(AppView::acted_sharing);
}

/// While the store is open, to save a todo that has a number adds exactly one piece of outside
/// work: the store is asked to change that very todo of that very list, as the form says.
pub proof fn law_save_changes_a_todo_with_a_number(
    app: AppView,
    list_id: ListId,
    item_id: Seq<char>,
    input: InputView,
    t: Moment,
)
    requires
        app.connected,
    ensures
        app.dispatched(
            ActionView::SaveTodo { list_id, item_id: Some(item_id), input },
            t,
        ).effects == app.effects.push(
            EffectView::Store(CommandView::EditTodo { list_id, item_id, input }),
        ),
{
    lemma_handed_on(app, ActionView::SaveTodo { list_id, item_id: Some(item_id), input }, t);
    reveal(AppView::acted_gate);
    reveal(AppView::acted_lists);
    reveal(AppView::acted_todos);
}

/// While the store is open, to save a todo without a number adds exactly one piece of outside
/// work: the store is asked to add a todo to that very list, as the form says.
pub proof fn law_save_adds_a_todo_without_a_number(
    app: AppView,
    list_id: ListId,
    input: InputView,
    t: Moment,
)
    requires
        app.connected,
    ensures
        app.dispatched(ActionView::SaveTodo { list_id, item_id: None, input }, t).effects
            == app.effects.push(EffectView::Store(CommandView::AddTodo { list_id, input })),
{
    lemma_handed_on(app, ActionView::SaveTodo { list_id, item_id: None, input }, t);
    reveal(AppView::acted_gate);
    reveal(AppView::acted_lists);
    reveal(AppView::acted_todos);
}

/// While the store is open, an action on a todo adds exactly one piece of outside work: the
/// store is asked to do that very thing to that very todo.
pub proof fn law_todo_actions_reach_the_store(
    app: AppView,
    list_id: ListId,
    item_id: Seq<char>,
    t: Moment,
)
    requires
        app.connected,
    ensures
        app.dispatched(ActionView::ToggleDone { list_id, item_id }, t).effects == app.effects.push(
            EffectView::Store(CommandView::ToggleDone { list_id, item_id }),
        ),
        app.dispatched(ActionView::DeleteTodo { list_id, item_id }, t).effects == app.effects.push(
            EffectView::Store(CommandView::DeleteTodo { list_id, item_id }),
        ),
        app.dispatched(ActionView::EditTodoModal { list_id, item_id }, t).effects
            == app.effects.push(
            EffectView::Store(CommandView::FetchFullItem { list_id, item_id }),
        ),
{
    lemma_handed_on(app, ActionView::ToggleDone { list_id, item_id }, t);
    lemma_handed_on(app, ActionView::DeleteTodo { list_id, item_id }, t);
    lemma_handed_on(app, ActionView::EditTodoModal { list_id, item_id }, t);
    reveal(AppView::acted_gate);
    reveal(AppView::acted_lists);
    reveal(AppView::acted_todos);
}

/// While the store is open, an action on a list or its members adds exactly one piece of
/// outside work: the store is asked to do that very thing to that very list.
pub proof fn law_list_actions_reach_the_store(
    app: AppView,
    list_id: ListId,
    name: Seq<char>,
    member: Member,
    t: Moment,
)
    requires
        app.connected,
    ensures
        app.dispatched(ActionView::CreateList { name }, t).effects == app.effects.push(
            EffectView::Store(CommandView::CreateList { name }),
        ),
        app.dispatched(ActionView::RenameList { list_id, name }, t).effects == app.effects.push(
            EffectView::Store(CommandView::RenameList { list_id, name }),
        ),
        app.dispatched(ActionView::AddResolvedMember { list_id, member }, t).effects
            == app.effects.push(EffectView::Store(CommandView::AddMember { list_id, member })),
        app.dispatched(ActionView::MembersModal(list_id), t).effects == app.effects.push(
            EffectView::Store(CommandView::FetchMembers(list_id)),
        ),
{
    lemma_handed_on(app, ActionView::CreateList { name }, t);
    lemma_handed_on(app, ActionView::RenameList { list_id, name }, t);
    lemma_handed_on(app, ActionView::AddResolvedMember { list_id, member }, t);
    lemma_handed_on(app, ActionView::MembersModal(list_id), t);
    reveal(AppView::acted_gate);
    reveal(AppView::acted_lists);
    reveal(AppView::acted_todos);
    reveal(AppView::acted_sharing);
}

/// While the store is open, to delete a list asks the store to delete that very list, and then
/// tells it what the panes show; no pane shows the list any more, and those that did not are
/// as before.
pub proof fn law_delete_list_reaches_the_store(app: AppView, id: ListId, t: Moment, i: int)
    requires
        app.connected,
        0 <= i < app.model.panes.len(),
    ensures
        ({
            let after = app.dispatched(ActionView::DeleteList(id), t);
            let n = app.effects.len() as int;
            &&& after.effects.len() == n + 2
            &&& after.effects.take(n) == app.effects
            &&& after.effects[n] == EffectView::Store(CommandView::DeleteList(id))
            &&& after.effects[n + 1] matches EffectView::Store(
                CommandView::SetView { targets, sort },
            ) && sort == app.model.sort && targets.len() == app.model.panes.len() && targets[i]
                == after.model.panes[i].target
            &&& after.model.panes.len() == app.model.panes.len()
            &&& app.model.panes[i].target == Some(ViewTarget::List(id))
                ==> after.model.panes[i].target == Some(ViewTarget::Meta(MetaList::AllTasks))
            &&& app.model.panes[i].target != Some(ViewTarget::List(id)) ==> after.model.panes[i]
                == app.model.panes[i]
            &&& after.model.panes[i].items == app.model.panes[i].items
        }),
{
    lemma_handed_on(app, ActionView::DeleteList(id), t);
    reveal(AppView::acted_gate);
    reveal(AppView::acted_lists);
    reveal(AppView::without_list);
    reveal(AppView::view_sent);
    let after = app.dispatched(ActionView::DeleteList(id), t);
    assert(after.effects.take(app.effects.len() as int) =~= app.effects);
}

/// Whether the last piece of outside work tells the store what the panes show.
pub open spec fn tells_the_view(before: AppView, after: AppView) -> bool {
    &&& after.effects.len() == before.effects.len() + 1
    &&& after.effects.drop_last() == before.effects
    &&& after.effects.last() matches EffectView::Store(CommandView::SetView { targets, sort })
        && sort == after.model.sort && targets.len() == after.model.panes.len() && forall|i: int|
        0 <= i < targets.len() ==> #[trigger] targets[i] == after.model.panes[i].target
}

/// To open a list, or a meta-list, in a pane makes that pane show it and leaves the others; the
/// store is told so.
pub proof fn law_opened_view_is_shown(
    app: AppView,
    target: ViewTarget,
    pane: usize,
    t: Moment,
    i: int,
)
    requires
        app.connected,
        0 <= i < app.model.panes.len(),
    ensures
        ({
            let after = app.dispatched(ActionView::OpenView { target, pane }, t);
            &&& tells_the_view(app, after)
            &&& after.model.panes.len() == app.model.panes.len()
            &&& i == pane ==> after.model.panes[i].target == Some(target)
            &&& i != pane ==> after.model.panes[i] == app.model.panes[i]
            &&& after.model.panes[i].items == app.model.panes[i].items
            &&& after.model.sort == app.model.sort && after.model.lists == app.model.lists
        }),
{
    lemma_handed_on(app, ActionView::OpenView { target, pane }, t);
    reveal(AppView::acted_gate);
    reveal(AppView::acted_lists);
    reveal(AppView::retargeted);
    reveal(AppView::view_sent);
    let after = app.dispatched(ActionView::OpenView { target, pane }, t);
    assert(after.effects.drop_last() =~= app.effects);
}

/// To change the order goes through all three, alphabetical, by due time, by priority, and
/// back to the first; the store is told so, and the panes show what they did.
pub proof fn law_order_goes_round(app: AppView, t: Moment)
    requires
        app.connected,
    ensures
        ({
            let a = app.dispatched(ActionView::CycleSort, t);
            let b = a.dispatched(ActionView::CycleSort, t);
            let c = b.dispatched(ActionView::CycleSort, t);
            &&& tells_the_view(app, a)
            &&& a.model.sort != app.model.sort && b.model.sort != app.model.sort && a.model.sort
                != b.model.sort
            &&& c.model.sort == app.model.sort
            &&& app.model.sort == SortMode::Alphabetical ==> a.model.sort == SortMode::DueDate
            &&& a.model.panes == app.model.panes && a.model.lists == app.model.lists
        }),
{
    let a = app.dispatched(ActionView::CycleSort, t);
    let b = a.dispatched(ActionView::CycleSort, t);
    lemma_handed_on(app, ActionView::CycleSort, t);
    lemma_handed_on(a, ActionView::CycleSort, t);
    lemma_handed_on(b, ActionView::CycleSort, t);
    reveal(AppView::acted_gate);
    reveal(AppView::acted_lists);
    reveal(AppView::view_sent);
    let after = app.dispatched(ActionView::CycleSort, t);
    assert(after.effects.drop_last() =~= app.effects);
}

/// To refresh tells the store what the panes show, and changes nothing that they show.
pub proof fn law_refresh_asks_for_what_is_shown(app: AppView, t: Moment)
    requires
        app.connected,
    ensures
        tells_the_view(app, app.dispatched(ActionView::RefreshLists, t)),
        app.dispatched(ActionView::RefreshLists, t).model == app.model,
{
    lemma_handed_on(app, ActionView::RefreshLists, t);
    reveal(AppView::acted_gate);
    reveal(AppView::acted_lists);
    reveal(AppView::view_sent);
    let after = app.dispatched(ActionView::RefreshLists, t);
    assert(after.effects.drop_last() =~= app.effects);
}

// ── Other outside work ──────────────────────────────────────────────────────

/// To share a list asks for the keys of that very user, for that very list and under the
/// session's token; the store is not asked before they are known.
pub proof fn law_share_looks_the_user_up(
    app: AppView,
    list_id: ListId,
    username: Seq<char>,
    t: Moment,
)
    ensures
        ({
            let after = app.dispatched(ActionView::ShareList { list_id, username }, t);
            &&& after.effects.len() == app.effects.len() + 1
            &&& after.effects.drop_last() == app.effects
            &&& after.effects.last() matches EffectView::Lookup {
                list_id: l,
                username: u,
                token,
            } && l == list_id && u == username && (app.acct_keys matches Some(k) ==> token
                == k.token@)
        }),
{
    lemma_handed_on(app, ActionView::ShareList { list_id, username }, t);
    reveal(AppView::acted_gate);
    reveal(AppView::acted_lists);
    reveal(AppView::acted_todos);
    reveal(AppView::acted_sharing);
    let after = app.dispatched(ActionView::ShareList { list_id, username }, t);
    assert(after.effects.drop_last() =~= app.effects);
}

/// To register or to log in asks for that, with the very name and password that were given.
pub proof fn law_credentials_are_handed_on(
    app: AppView,
    username: Seq<char>,
    password: Seq<char>,
    t: Moment,
)
    ensures
        app.dispatched(ActionView::Register { username, password }, t).effects == app.effects.push(
            EffectView::Register { username, password },
        ),
        app.dispatched(ActionView::Login { username, password }, t).effects == app.effects.push(
            EffectView::Login { username, password },
        ),
        app.dispatched(ActionView::DeviceUnlock, t).effects == app.effects.push(
            EffectView::DeviceUnlock,
        ),
{
    lemma_handed_on(app, ActionView::Register { username, password }, t);
    lemma_handed_on(app, ActionView::Login { username, password }, t);
    lemma_handed_on(app, ActionView::DeviceUnlock, t);
    reveal(AppView::acted_gate);
}

/// To unlock logs in under the name of the account on this device; without one an error is
/// shown, and nothing is asked for.
pub proof fn law_unlock_uses_the_account(app: AppView, password: Seq<char>, t: Moment)
    ensures
        ({
            let after = app.dispatched(ActionView::Unlock { password }, t);
            match app.account {
                Some(a) => after.effects == app.effects.push(
                    EffectView::Login { username: a.username@, password },
                ),
                None => after.effects == app.effects && after.errorbar.show
                    && after.errorbar.text.len() > 0,
            }
        }),
{
    lemma_handed_on(app, ActionView::Unlock { password }, t);
    reveal(AppView::acted_gate);
    reveal_strlit("No local account found; please register or log in.");
}

/// The terminal is cleared or resized when that is asked for, and nothing else is.
pub proof fn law_terminal_is_asked(app: AppView, w: u16, h: u16, t: Moment)
    ensures
        app.dispatched(ActionView::ClearScreen, t).effects == app.effects.push(
            EffectView::ClearScreen,
        ),
        app.dispatched(ActionView::Resize(w, h), t).effects == app.effects.push(
            EffectView::Resize(w, h),
        ),
{
    lemma_handed_on(app, ActionView::ClearScreen, t);
    lemma_handed_on(app, ActionView::Resize(w, h), t);
}

/// Every other action asks nothing of the store or of the outside.
pub proof fn law_other_actions_ask_for_nothing(app: AppView, a: ActionView, t: Moment)
    requires
        match a {
            ActionView::Tick
            | ActionView::Render
            | ActionView::Suspend
            | ActionView::Resume
            | ActionView::Quit
            | ActionView::HelpModal
            | ActionView::AuthChooser
            | ActionView::RegisterModal
            | ActionView::LoginModal
            | ActionView::CloseModal
            | ActionView::FocusButtons
            | ActionView::SubmitForm
            | ActionView::StartCapture
            | ActionView::StopCapture
            | ActionView::UnlockModal
            | ActionView::ToggleSidebar
            | ActionView::NewListModal
            | ActionView::OpenEditReady
            | ActionView::OpenMembersReady
            | ActionView::Error(_)
            | ActionView::SetMode(_)
            | ActionView::Keys(_)
            | ActionView::RenameListModal { .. }
            | ActionView::AddTodoModal(_)
            | ActionView::ConfirmDelete(_)
            | ActionView::ShareModal(_) => true,
            _ => false,
        },
    ensures
        app.dispatched(a, t).effects == app.effects,
        app.dispatched(a, t).connected == app.connected,
        app.dispatched(a, t).model == app.model,
        app.dispatched(a, t).account == app.account,
{
    lemma_handed_on(app, a, t);
    reveal(AppView::acted_gate);
    reveal(AppView::acted_lists);
    reveal(AppView::acted_todos);
    reveal(AppView::acted_sharing);
    reveal(AppView::form_opened);
    reveal(AppView::gate_opened);
    reveal(AppView::overlaid);
    reveal(AppView::delete_asked);
    reveal(AppView::chooser_opened);
    reveal(AppView::switched);
}

// ── Dialogs ─────────────────────────────────────────────────────────────────

/// Whether an action that was dispatched queued another, before anything that a dialog adds.
pub open spec fn queues(before: AppView, after: AppView, a: ActionView) -> bool {
    let n = before.queue.len() as int;
    &&& after.queue.len() > n
    &&& after.queue.take(n) == before.queue
    &&& after.queue[n] == a
}

/// A form whose outcome was handed on closes: each of these actions queues the closing of the
/// dialog.
pub proof fn law_done_forms_close(app: AppView, a: ActionView, t: Moment)
    requires
        a is CreateList || a is RenameList || a is DeleteList || a is SaveTodo || a is DeleteTodo
            || a is AddResolvedMember || a is Unshare,
    ensures
        queues(app, app.dispatched(a, t), ActionView::CloseModal),
{
    lemma_handed_on(app, a, t);
    reveal(AppView::acted_gate);
    reveal(AppView::acted_lists);
    reveal(AppView::acted_todos);
    reveal(AppView::acted_sharing);
    reveal(AppView::without_list);
    reveal(AppView::view_sent);
    let m = app.acted(a, t);
    assert(m.queue == app.queue.push(ActionView::CloseModal));
    let n = app.queue.len() as int;
    let after = app.dispatched(a, t);
    assert(after.queue.take(n + 1) == m.queue);
    assert(after.queue.take(n + 1)[n] == after.queue[n]);
    assert forall|i: int| 0 <= i < n implies after.queue[i] == app.queue[i] by {
        assert(after.queue.take(n + 1)[i] == after.queue[i]);
    }
    assert(after.queue.take(n) =~= app.queue);
}

/// To close a dialog leaves none, stops capturing keys, and returns to the screen before.
pub proof fn law_close_returns_to_the_screen_before(app: AppView, t: Moment)
    ensures
        ({
            let after = app.dispatched(ActionView::CloseModal, t);
            &&& after.modal is None
            &&& !after.capturing
            &&& after.mode == app.prev_mode
            &&& after.prev_mode == app.mode
            &&& after.queue == app.queue
        }),
{
    lemma_handed_on(app, ActionView::CloseModal, t);
    reveal(AppView::switched);
}

/// The dialog that asks before a list or a todo is deleted has a button that deletes that very
/// list or todo, and one that closes it; Esc closes it. Nothing is deleted before.
pub proof fn law_delete_is_confirmed(app: AppView, target: DeleteView, t: Moment)
    ensures
        ({
            let after = app.dispatched(ActionView::ConfirmDelete(target), t);
            &&& after.effects == app.effects
            &&& after.modal matches Some(m) && m.buttons.len() == 2 && m.buttons[0].action == (
            match target {
                DeleteView::List(id) => ActionView::DeleteList(id),
                DeleteView::Todo { list_id, item_id } => ActionView::DeleteTodo {
                    list_id,
                    item_id,
                },
            }) && m.buttons[1].action == ActionView::CloseModal && m.esc_action
                == ActionView::CloseModal && m.body is Prompt
        }),
{
    lemma_handed_on(app, ActionView::ConfirmDelete(target), t);
    reveal(AppView::acted_gate);
    reveal(AppView::acted_lists);
    reveal(AppView::delete_asked);
    reveal(AppView::overlaid);
    lemma_dialog_handed_on(app, ActionView::ConfirmDelete(target), t);
}

/// The dialog of the way in has a button to log in and one to register; Esc quits.
pub proof fn law_chooser_offers_both_ways_in(app: AppView, t: Moment)
    ensures
        ({
            let after = app.dispatched(ActionView::AuthChooser, t);
            &&& !after.capturing
            &&& after.mode == Mode::Home && after.prev_mode == app.mode
            &&& after.modal matches Some(m) && m.buttons.len() == 2 && m.buttons[0].action
                == ActionView::LoginModal && m.buttons[1].action == ActionView::RegisterModal
                && m.esc_action == ActionView::Quit && m.body is Prompt
        }),
{
    lemma_handed_on(app, ActionView::AuthChooser, t);
    reveal(AppView::acted_gate);
    reveal(AppView::chooser_opened);
    reveal(AppView::overlaid);
    lemma_dialog_handed_on(app, ActionView::AuthChooser, t);
}

/// A form that opens has a button that submits it and one that cancels it; Esc cancels it too.
/// It captures the keys next.
pub proof fn law_forms_open(app: AppView, a: ActionView, t: Moment)
    requires
        a is NewListModal || a is RenameListModal || a is ShareModal || a is AddTodoModal
            || a is UnlockModal || a is RegisterModal || a is LoginModal,
    ensures
        ({
            let after = app.dispatched(a, t);
            let cancel = if a is UnlockModal || a is RegisterModal || a is LoginModal {
                ActionView::AuthChooser
            } else {
                ActionView::CloseModal
            };
            &&& queues(app, after, ActionView::StartCapture)
            &&& after.modal matches Some(m) && m.buttons.len() == 2 && m.buttons[0].action
                == ActionView::SubmitForm && m.buttons[1].action == cancel && m.esc_action == cancel
                && m.focus_body && (match a {
                ActionView::RegisterModal => m.body is Register,
                ActionView::LoginModal => m.body is Login,
                ActionView::UnlockModal => m.body is Unlock,
                ActionView::AddTodoModal(_) => m.body is Todo,
                _ => m.body is List,
            })
            &&& a is RegisterModal ==> after.mode == Mode::Register
            &&& a is LoginModal ==> after.mode == Mode::Login
            &&& a is UnlockModal ==> after.mode == Mode::Home
        }),
{
    lemma_handed_on(app, a, t);
    reveal(AppView::acted_gate);
    reveal(AppView::acted_lists);
    reveal(AppView::acted_todos);
    reveal(AppView::acted_sharing);
    reveal(AppView::form_opened);
    reveal(AppView::gate_opened);
    reveal(AppView::overlaid);
    let m = app.acted(a, t);
    assert(m.queue == app.queue.push(ActionView::StartCapture));
    let n = app.queue.len() as int;
    let after = app.dispatched(a, t);
    assert(after.queue.take(n + 1) == m.queue);
    assert(after.queue.take(n + 1)[n] == after.queue[n]);
    assert forall|i: int| 0 <= i < n implies after.queue[i] == app.queue[i] by {
        assert(after.queue.take(n + 1)[i] == after.queue[i]);
    }
    assert(after.queue.take(n) =~= app.queue);
    lemma_dialog_handed_on(app, a, t);
}

/// To quit, to suspend, to resume and to capture keys sets the mark for it and no other.
pub proof fn law_marks_are_set(app: AppView, t: Moment)
    ensures
        app.dispatched(ActionView::Quit, t).should_quit,
        app.dispatched(ActionView::Quit, t).should_suspend == app.should_suspend,
        app.dispatched(ActionView::Suspend, t).should_suspend,
        app.dispatched(ActionView::Suspend, t).should_quit == app.should_quit,
        !app.dispatched(ActionView::Resume, t).should_suspend,
        app.dispatched(ActionView::StartCapture, t).capturing,
        !app.dispatched(ActionView::StopCapture, t).capturing,
        app.dispatched(ActionView::Tick, t).pending.len() == 0,
{
    lemma_handed_on(app, ActionView::Quit, t);
    lemma_handed_on(app, ActionView::Suspend, t);
    lemma_handed_on(app, ActionView::Resume, t);
    lemma_handed_on(app, ActionView::StartCapture, t);
    lemma_handed_on(app, ActionView::StopCapture, t);
    lemma_handed_on(app, ActionView::Tick, t);
}

/// An error is shown for as long as it is to be shown, and then taken away by the next tick; to
/// clear the screen takes it away at once.
pub proof fn law_errors_are_shown_for_a_while(
    app: AppView,
    text: Seq<char>,
    t: Moment,
    later: Moment,
)
    requires
        later.now >= t.now,
    ensures
        ({
            let shown = app.dispatched(ActionView::Error(text), t);
            let ticked = shown.dispatched(ActionView::Tick, later);
            &&& shown.errorbar.show && shown.errorbar.text == text
            &&& ticked.errorbar.show == (later.now - t.now < 5000)
            &&& ticked.errorbar.show ==> ticked.errorbar.text == text
            &&& !shown.dispatched(ActionView::ClearScreen, later).errorbar.show
        }),
{
    let shown = app.dispatched(ActionView::Error(text), t);
    lemma_handed_on(app, ActionView::Error(text), t);
    lemma_handed_on(shown, ActionView::Tick, later);
    lemma_handed_on(shown, ActionView::ClearScreen, later);
}

/// Another screen is shown when that is asked for, and the one before it is remembered; keys that
/// were unlocked are kept.
pub proof fn law_screen_and_keys_are_set(app: AppView, mode: Mode, k: UnlockedKeys, t: Moment)
    ensures
        app.dispatched(ActionView::SetMode(mode), t).mode == mode,
        app.dispatched(ActionView::SetMode(mode), t).prev_mode == app.mode,
        app.dispatched(ActionView::SetMode(mode), t).effects == app.effects,
        app.dispatched(ActionView::Keys(k), t).acct_keys == Some(k),
        app.dispatched(ActionView::Keys(k), t).mode == app.mode,
{
    reveal(AppView::switched);
    lemma_handed_on(app, ActionView::SetMode(mode), t);
    lemma_handed_on(app, ActionView::Keys(k), t);
}

/// The cheatsheet that is asked for is that of the screen that is shown; it closes by its only
/// button and by Esc.
pub proof fn law_help_is_of_the_screen(app: AppView, t: Moment)
    ensures
        ({
            let after = app.dispatched(ActionView::HelpModal, t);
            after.modal matches Some(m) && m.body matches BodyView::Help(h) && h.mode == app.mode
                && m.buttons.len() == 1 && m.buttons[0].action == ActionView::CloseModal
                && m.esc_action == ActionView::CloseModal
        }),
{
    lemma_handed_on(app, ActionView::HelpModal, t);
    reveal(AppView::overlaid);
    lemma_dialog_handed_on(app, ActionView::HelpModal, t);
}

// ── Replies of the store ────────────────────────────────────────────────────

/// A reply of the store shows: a snapshot in the panes it is for, a whole todo in its form next,
/// members in their dialog next, an error in the error bar. Only a snapshot changes the panes.
pub proof fn law_replies_are_shown(app: AppView, msg: WorkerMsg, now: u64)
    ensures
        ({
            let after = app.replied(msg, now);
            &&& after.effects == app.effects
            &&& match msg {
                WorkerMsg::Snapshot(s) => {
                    &&& after.queue == app.queue.push(ActionView::Render)
                    &&& after.model.lists == s@.lists
                    &&& forall|i: int|
                        0 <= i < app.model.panes.len() && i < s@.panes.len()
                            ==> #[trigger] after.model.panes[i].items == s@.panes[i]
                    &&& forall|i: int|
                        s@.panes.len() <= i < app.model.panes.len()
                            ==> #[trigger] after.model.panes[i] == app.model.panes[i]
                },
                WorkerMsg::FullItem(Some(p)) => {
                    &&& after.model == app.model
                    &&& after.queue == app.queue.push(ActionView::OpenEditReady)
                    &&& after.pending_edit == Some((p.0, p.1@))
                },
                WorkerMsg::FullItem(None) => after == app,
                WorkerMsg::Members(l, m) => {
                    &&& after.model == app.model
                    &&& after.queue == app.queue.push(ActionView::OpenMembersReady)
                    &&& after.pending_members matches Some(p) && p.0 == l && p.1 == m@ && (
                    app.account matches Some(a) ==> p.2 == a.member_id) && (app.account is None
                        && app.acct_keys is Some ==> p.2 == (app.acct_keys->0).member_id)
                },
                WorkerMsg::Error(text) => {
                    &&& after.model == app.model
                    &&& after.queue == app.queue
                    &&& after.errorbar.show && after.errorbar.text == text@
                },
            }
        }),
{
}

/// The form of a todo that was fetched opens on that todo, once: what was waited for is gone
/// afterwards.
pub proof fn law_fetched_todo_opens_once(
    app: AppView,
    list_id: ListId,
    item: TodoView,
    t: Moment,
)
    requires
        app.pending_edit == Some((list_id, item)),
    ensures
        ({
            let after = app.dispatched(ActionView::OpenEditReady, t);
            &&& after.pending_edit is None
            &&& after.modal matches Some(m) && m.body matches BodyView::Todo(f) && f.list_id
                == list_id && f.item_id == Some(item.id)
        }),
{
    lemma_handed_on(app, ActionView::OpenEditReady, t);
    reveal(AppView::acted_gate);
    reveal(AppView::acted_lists);
    reveal(AppView::acted_todos);
    reveal(AppView::form_opened);
    reveal(AppView::overlaid);
    lemma_dialog_handed_on(app, ActionView::OpenEditReady, t);
}

/// The dialog of members that were fetched opens on those very members, once.
pub proof fn law_fetched_members_open_once(
    app: AppView,
    list_id: ListId,
    members: Seq<Member>,
    me: MemberId,
    t: Moment,
)
    requires
        app.pending_members == Some((list_id, members, me)),
    ensures
        ({
            let after = app.dispatched(ActionView::OpenMembersReady, t);
            &&& after.pending_members is None
            &&& after.modal matches Some(m) && m.body matches BodyView::Members(b) && b.list_id
                == list_id && b.members == members && b.me == me
        }),
{
    lemma_handed_on(app, ActionView::OpenMembersReady, t);
    reveal(AppView::acted_gate);
    reveal(AppView::acted_lists);
    reveal(AppView::acted_todos);
    reveal(AppView::acted_sharing);
    reveal(AppView::overlaid);
    lemma_dialog_handed_on(app, ActionView::OpenMembersReady, t);
}

// ── The way in ──────────────────────────────────────────────────────────────

/// The store is opened when, and only when, there are an account and its keys and it is not
/// open yet: that asks to start the session before anything else of the store.
pub proof fn law_store_opens_with_the_keys(app: AppView, disk: Option<AccountRow>)
    requires
        !app.connected,
    ensures
        ({
            let after = app.gated(disk);
            let opens = !app.account_verified && app.modal is None && app.account is Some
                && app.acct_keys is Some;
            &&& after.connected == opens
            &&& !opens ==> after.effects == app.effects
            &&& opens ==> after.account_verified && after.effects.len() == app.effects.len() + 2
                && after.effects[app.effects.len() as int] == EffectView::StartSession
        }),
{
    reveal(AppView::view_sent);
}

/// Without an account on this device, the user is asked to log in or register; with one and
/// without its keys, the device's own key is tried where that is enabled, and else the password
/// is asked for. While a dialog is open nothing of this happens.
pub proof fn law_way_in(app: AppView, disk: Option<AccountRow>)
    requires
        !app.account_verified,
        app.acct_keys is None,
        !app.device_unlock_attempted,
    ensures
        ({
            let after = app.gated(disk);
            let known = app.account is Some || disk is Some;
            if app.modal is Some {
                after == app
            } else if !known {
                after.queue == app.queue.push(ActionView::AuthChooser) && after.account is None
            } else {
                &&& after.account == (if app.account is Some {
                    app.account
                } else {
                    disk
                })
                &&& app.config.config.device_unlock.enabled ==> after.queue == app.queue.push(
                    ActionView::DeviceUnlock,
                ) && after.device_unlock_attempted
                &&& !app.config.config.device_unlock.enabled ==> after.queue == app.queue.push(
                    ActionView::UnlockModal,
                ) && !after.device_unlock_attempted
            }
        }),
{
}

} // verus!
