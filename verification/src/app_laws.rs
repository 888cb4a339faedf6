//! What holds of the application as a whole.
use vstd::prelude::*;

use crate::action::ActionView;
use crate::app::{global_chord, AppView, EffectView, Moment};
use crate::auth::AccountRow;
use crate::keys::KeyEvent;
use crate::model::{ListId, ViewTarget};
use crate::store_worker::SnapshotView;
use crate::tui::Event;

verus! {

/// While a field takes the keys, a key that can be typed triggers no command.
pub proof fn law_typing_triggers_no_command(app: AppView, key: KeyEvent)
    requires
        app.capturing,
        !global_chord(key),
    ensures
        app.commanded(key) == app,
{
}

/// While a dialog is open, a key that can be typed reaches only the dialog: neither the
/// workspace nor what it shows nor the commands that are bound everywhere notice it.
pub proof fn law_dialog_owns_the_keyboard(app: AppView, key: KeyEvent, disk: Option<AccountRow>)
    requires
        app.modal is Some,
        !global_chord(key),
    ensures
        ({
            let after = app.happened(Event::Key(key), disk);
            &&& after.home == app.home
            &&& after.model == app.model
            &&& after.pending == app.pending
            &&& after.effects == app.effects
        }),
{
}

/// While a dialog is open, the workspace does not react to actions.
pub proof fn law_workspace_rests_behind_a_dialog(app: AppView, a: ActionView, now: u64)
    requires
        app.modal is Some,
    ensures
        app.forwarded(a, now).home == app.home,
        app.forwarded(a, now).model == app.model,
{
    reveal(AppView::forwarded);
}

/// The new effects of one step: those before it stay, none asks to draw, and none is for
/// the store while it is not open.
pub open spec fn adds_quietly(before: AppView, after: AppView) -> bool {
    &&& after.connected == before.connected
    &&& after.effects.len() >= before.effects.len()
    &&& after.effects.take(before.effects.len() as int) == before.effects
    &&& forall|i: int|
        before.effects.len() <= i < after.effects.len() ==> {
            &&& #[trigger] after.effects[i] != EffectView::Render
            &&& !before.connected ==> !(after.effects[i] is Store)
        }
}

proof fn lemma_adds_nothing(before: AppView, after: AppView)
    requires
        after.connected == before.connected,
        after.effects == before.effects,
    ensures
        adds_quietly(before, after),
{
    assert(before.effects.take(before.effects.len() as int) =~= before.effects);
}

proof fn lemma_asks(before: AppView, e: EffectView)
    requires
        e != EffectView::Render,
        !before.connected ==> !(e is Store),
    ensures
        adds_quietly(before, before.asks(e)),
{
    assert(before.effects.push(e).take(before.effects.len() as int) =~= before.effects);
}

proof fn lemma_chain(a: AppView, b: AppView, c: AppView)
    requires
        adds_quietly(a, b),
        adds_quietly(b, c),
    ensures
        adds_quietly(a, c),
{
    assert(c.effects.take(a.effects.len() as int) =~= b.effects.take(a.effects.len() as int));
    assert forall|i: int| a.effects.len() <= i < c.effects.len() implies #[trigger] c.effects[i]
        != EffectView::Render && (!a.connected ==> !(c.effects[i] is Store)) by {
        if i < b.effects.len() {
            assert(c.effects.take(b.effects.len() as int)[i] == b.effects[i]);
        }
    }
}

proof fn lemma_stored(s: AppView, c: crate::store_worker::CommandView)
    ensures
        adds_quietly(s, s.stored(c)),
{
    if s.connected {
        lemma_asks(s, EffectView::Store(c));
    } else {
        lemma_adds_nothing(s, s);
    }
}

proof fn lemma_view_sent(s: AppView)
    ensures
        adds_quietly(s, s.view_sent()),
{
    reveal(AppView::view_sent);
    lemma_stored(
        s,
        crate::store_worker::CommandView::SetView {
            targets: s.model.panes.map_values(|p: crate::view::PaneView| p.target),
            sort: s.model.sort,
        },
    );
}

proof fn lemma_acted_sharing(s: AppView, a: ActionView, t: Moment)
    ensures
        adds_quietly(s, s.acted_sharing(a, t)),
{
    reveal(AppView::acted_sharing);
    reveal(AppView::form_opened);
    reveal(AppView::overlaid);
    match a {
        ActionView::ShareList { list_id, username } => lemma_asks(
            s,
            EffectView::Lookup { list_id, username, token: s.token() },
        ),
        ActionView::AddResolvedMember { list_id, member } => {
            let c = crate::store_worker::CommandView::AddMember { list_id, member };
            lemma_stored(s, c);
            lemma_adds_nothing(s.stored(c), s.acted_sharing(a, t));
            lemma_chain(s, s.stored(c), s.acted_sharing(a, t));
        },
        ActionView::MembersModal(id) => lemma_stored(
            s,
            crate::store_worker::CommandView::FetchMembers(id),
        ),
        ActionView::Unshare { list_id, member_id } => {
            let c = crate::store_worker::CommandView::RemoveMember { list_id, member_id };
            lemma_stored(s, c);
            lemma_adds_nothing(s.stored(c), s.acted_sharing(a, t));
            lemma_chain(s, s.stored(c), s.acted_sharing(a, t));
        },
        _ => lemma_adds_nothing(s, s.acted_sharing(a, t)),
    }
}

proof fn lemma_acted_todos(s: AppView, a: ActionView, t: Moment)
    ensures
        adds_quietly(s, s.acted_todos(a, t)),
{
    reveal(AppView::acted_todos);
    reveal(AppView::form_opened);
    reveal(AppView::overlaid);
    match a {
        ActionView::EditTodoModal { list_id, item_id } => lemma_stored(
            s,
            crate::store_worker::CommandView::FetchFullItem { list_id, item_id },
        ),
        ActionView::ToggleDone { list_id, item_id } => lemma_stored(
            s,
            crate::store_worker::CommandView::ToggleDone { list_id, item_id },
        ),
        ActionView::SaveTodo { list_id, item_id, input } => {
            let c = match item_id {
                Some(item_id) => crate::store_worker::CommandView::EditTodo {
                    list_id,
                    item_id,
                    input,
                },
                None => crate::store_worker::CommandView::AddTodo { list_id, input },
            };
            lemma_stored(s, c);
            lemma_adds_nothing(s.stored(c), s.acted_todos(a, t));
            lemma_chain(s, s.stored(c), s.acted_todos(a, t));
        },
        ActionView::DeleteTodo { list_id, item_id } => {
            let c = crate::store_worker::CommandView::DeleteTodo { list_id, item_id };
            lemma_stored(s, c);
            lemma_adds_nothing(s.stored(c), s.acted_todos(a, t));
            lemma_chain(s, s.stored(c), s.acted_todos(a, t));
        },
        ActionView::AddTodoModal(_) | ActionView::OpenEditReady => lemma_adds_nothing(
            s,
            s.acted_todos(a, t),
        ),
        _ => lemma_acted_sharing(s, a, t),
    }
}

proof fn lemma_acted_lists(s: AppView, a: ActionView, t: Moment)
    ensures
        adds_quietly(s, s.acted_lists(a, t)),
{
    reveal(AppView::acted_lists);
    reveal(AppView::form_opened);
    reveal(AppView::overlaid);
    reveal(AppView::delete_asked);
    reveal(AppView::retargeted);
    reveal(AppView::without_list);
    match a {
        ActionView::OpenView { target, pane } => {
            let m = s.retargeted(target, pane as int);
            lemma_adds_nothing(s, m);
            lemma_view_sent(m);
            lemma_chain(s, m, s.acted_lists(a, t));
        },
        ActionView::RefreshLists => lemma_view_sent(s),
        ActionView::CreateList { name } => {
            let c = crate::store_worker::CommandView::CreateList { name };
            lemma_stored(s, c);
            lemma_adds_nothing(s.stored(c), s.acted_lists(a, t));
            lemma_chain(s, s.stored(c), s.acted_lists(a, t));
        },
        ActionView::RenameList { list_id, name } => {
            let c = crate::store_worker::CommandView::RenameList { list_id, name };
            lemma_stored(s, c);
            lemma_adds_nothing(s.stored(c), s.acted_lists(a, t));
            lemma_chain(s, s.stored(c), s.acted_lists(a, t));
        },
        ActionView::DeleteList(id) => {
            let c = crate::store_worker::CommandView::DeleteList(id);
            let s1 = s.stored(c);
            let s2 = s1.without_list(id);
            let s3 = s2.view_sent();
            lemma_stored(s, c);
            lemma_adds_nothing(s1, s2);
            lemma_chain(s, s1, s2);
            lemma_view_sent(s2);
            lemma_chain(s, s2, s3);
            lemma_adds_nothing(s3, s.acted_lists(a, t));
            lemma_chain(s, s3, s.acted_lists(a, t));
        },
        ActionView::CycleSort => {
            let m = AppView {
                model: crate::view::ModelView { sort: s.model.sort.after(), ..s.model },
                ..s
            };
            lemma_adds_nothing(s, m);
            lemma_view_sent(m);
            lemma_chain(s, m, s.acted_lists(a, t));
        },
        ActionView::NewListModal
        | ActionView::RenameListModal { .. }
        | ActionView::ConfirmDelete(_) => lemma_adds_nothing(s, s.acted_lists(a, t)),
        _ => lemma_acted_todos(s, a, t),
    }
}

proof fn lemma_acted_gate(s: AppView, a: ActionView, t: Moment)
    ensures
        adds_quietly(s, s.acted_gate(a, t)),
{
    reveal(AppView::acted_gate);
    reveal(AppView::gate_opened);
    reveal(AppView::overlaid);
    reveal(AppView::chooser_opened);
    match a {
        ActionView::DeviceUnlock => lemma_asks(s, EffectView::DeviceUnlock),
        ActionView::Register { username, password } => lemma_asks(
            s,
            EffectView::Register { username, password },
        ),
        ActionView::Login { username, password } => lemma_asks(
            s,
            EffectView::Login { username, password },
        ),
        ActionView::Unlock { password } => match s.account {
            Some(acct) => lemma_asks(
                s,
                EffectView::Login { username: acct.username@, password },
            ),
            None => lemma_adds_nothing(s, s.acted_gate(a, t)),
        },
        ActionView::UnlockModal
        | ActionView::AuthChooser
        | ActionView::RegisterModal
        | ActionView::LoginModal => lemma_adds_nothing(s, s.acted_gate(a, t)),
        _ => lemma_acted_lists(s, a, t),
    }
}

proof fn lemma_acted(s: AppView, a: ActionView, t: Moment)
    ensures
        adds_quietly(s, s.acted(a, t)),
{
    reveal(AppView::switched);
    reveal(AppView::overlaid);
    match a {
        ActionView::ClearScreen => lemma_asks(s, EffectView::ClearScreen),
        ActionView::Resize(w, h) => lemma_asks(s, EffectView::Resize(w, h)),
        ActionView::Tick
        | ActionView::Quit
        | ActionView::Suspend
        | ActionView::Resume
        | ActionView::SetMode(_)
        | ActionView::StartCapture
        | ActionView::StopCapture
        | ActionView::Keys(_)
        | ActionView::CloseModal
        | ActionView::Error(_)
        | ActionView::HelpModal => lemma_adds_nothing(s, s.acted(a, t)),
        _ => lemma_acted_gate(s, a, t),
    }
}

proof fn lemma_forwarded(s: AppView, a: ActionView, now: u64)
    ensures
        s.forwarded(a, now).effects == s.effects,
        s.forwarded(a, now).connected == s.connected,
{
    reveal(AppView::forwarded);
}

proof fn lemma_dispatched(s: AppView, a: ActionView, t: Moment)
    ensures
        adds_quietly(s, s.dispatched(a, t)),
{
    let m = s.acted(a, t);
    lemma_acted(s, a, t);
    lemma_forwarded(m, a, t.now);
    lemma_adds_nothing(m, m.forwarded(a, t.now));
    lemma_chain(s, m, m.forwarded(a, t.now));
}

proof fn lemma_processed(s: AppView, backlog: Seq<ActionView>, t: Moment)
    ensures
        adds_quietly(s, s.processed(backlog, t)),
    decreases backlog.len(),
{
    if backlog.len() == 0 {
        lemma_adds_nothing(s, s);
    } else {
        let m = s.processed(backlog.drop_last(), t);
        lemma_processed(s, backlog.drop_last(), t);
        if backlog.last() != ActionView::Render {
            lemma_dispatched(m, backlog.last(), t);
            lemma_chain(s, m, m.dispatched(backlog.last(), t));
        }
    }
}

/// However many requests to draw are queued, a turn draws once, at its end; without a
/// request it does not draw.
pub proof fn law_one_drawing_per_turn(app: AppView, t: Moment)
    ensures
        ({
            let after = app.turned(t).effects;
            let n = app.effects.len();
            &&& after.len() >= n
            &&& forall|i: int|
                n <= i < after.len() ==> ((#[trigger] after[i] == EffectView::Render) == (i
                    == after.len() - 1 && app.queue.contains(ActionView::Render)))
            &&& app.queue.contains(ActionView::Render) ==> after.len() > n
        }),
{
    let start = AppView { queue: Seq::empty(), ..app };
    lemma_processed(start, app.queue, t);
}

/// Before the store is open, a turn asks nothing of it.
pub proof fn law_no_store_before_login(app: AppView, t: Moment, i: int)
    requires
        !app.connected,
        app.effects.len() <= i < app.turned(t).effects.len(),
    ensures
        !(app.turned(t).effects[i] is Store),
{
    let start = AppView { queue: Seq::empty(), ..app };
    lemma_processed(start, app.queue, t);
}

/// No pane goes on showing a list that was deleted.
pub proof fn law_deleted_list_is_not_shown(app: AppView, id: ListId, t: Moment, i: int)
    requires
        0 <= i < app.model.panes.len(),
    ensures
        app.acted(ActionView::DeleteList(id), t).model.panes[i].target != Some(
            ViewTarget::List(id),
        ),
{
    reveal(AppView::acted_gate);
    reveal(AppView::acted_lists);
    reveal(AppView::without_list);
    reveal(AppView::view_sent);
}

/// The device's own key is tried at most once: to try it is remembered, and once it is
/// remembered it is not tried again.
pub proof fn law_device_key_is_tried_once(app: AppView, disk: Option<AccountRow>)
    ensures
        ({
            let after = app.gated(disk);
            let asked = after.queue == app.queue.push(ActionView::DeviceUnlock);
            &&& asked ==> after.device_unlock_attempted
            &&& app.device_unlock_attempted ==> !asked
        }),
{
    reveal(AppView::view_sent);
    let n = app.queue.len() as int;
    assert(app.queue.push(ActionView::AuthChooser)[n] == ActionView::AuthChooser);
    assert(app.queue.push(ActionView::UnlockModal)[n] == ActionView::UnlockModal);
    assert(app.queue.push(ActionView::DeviceUnlock)[n] == ActionView::DeviceUnlock);
    assert(app.queue.push(ActionView::DeviceUnlock).len() == n + 1);
}

/// A snapshot of the store changes the todos and the lists, never the layout.
pub proof fn law_snapshot_keeps_the_layout(app: AppView, snap: SnapshotView, i: int)
    requires
        0 <= i < app.model.panes.len(),
    ensures
        app.installed(snap).model.panes.len() == app.model.panes.len(),
        app.installed(snap).model.panes[i].target == app.model.panes[i].target,
        app.installed(snap).model.split == app.model.split,
        app.installed(snap).model.ratio == app.model.ratio,
        app.installed(snap).model.sort == app.model.sort,
{
}

/// Actions are handled in the order in which they were queued: what comes first is done before
/// what comes behind it.
pub proof fn law_actions_are_handled_in_order(
    app: AppView,
    first: Seq<ActionView>,
    then: Seq<ActionView>,
    t: Moment,
)
    ensures
        app.processed(first + then, t) == app.processed(first, t).processed(then, t),
    decreases then.len(),
{
    if then.len() == 0 {
        assert(first + then =~= first);
    } else {
        law_actions_are_handled_in_order(app, first, then.drop_last(), t);
        assert((first + then).drop_last() =~= first + then.drop_last());
        assert((first + then).last() == then.last());
    }
}

/// A turn without anything queued changes nothing.
pub proof fn law_idle_turn_changes_nothing(app: AppView, t: Moment)
    requires
        app.queue.len() == 0,
    ensures
        app.turned(t) == app,
{
    assert(app.queue =~= Seq::empty());
}

} // verus!
