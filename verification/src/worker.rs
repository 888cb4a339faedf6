//! The worker that owns the store: it answers each command with one reply.
use vstd::prelude::*;
use vstd::string::*;

use crate::db::{epoch_of, members_of, Db};
use crate::doc_value::{bare_all, projected};
use crate::listing::{
    list_summaries, load_pane, ordered_lists, pane_items, sort_summaries, summaries,
};
use crate::list_doc::DocView;
use crate::model::{ListId, ListSummary, Member, MetaList, SortMode, TodoItem, ViewTarget};
use crate::store::{todo_numbered, EditView, Store, StoreError};
use crate::store_worker::{CommandView, SnapshotView, StoreCommand, ViewSnapshot, WorkerMsg};
use crate::view::item_views;

verus! {

/// The worker: the store, what each pane shows, and the order.
pub struct Worker {
    pub store: Store,
    pub targets: Vec<Option<ViewTarget>>,
    pub sort: SortMode,
}

/// What the panes show, as the store computes it.
pub open spec fn snapshot_of(
    db: Db,
    targets: Seq<Option<ViewTarget>>,
    sort: SortMode,
    now: i64,
) -> SnapshotView {
    SnapshotView {
        lists: ordered_lists(summaries(db), sort),
        panes: targets.map_values(|t: Option<ViewTarget>| pane_items(db, t, sort, now)),
    }
}

/// Targets with all tasks in the place of a list.
pub open spec fn targets_without(targets: Seq<Option<ViewTarget>>, id: ListId) -> Seq<
    Option<ViewTarget>,
> {
    targets.map_values(
        |t: Option<ViewTarget>|
            if t == Some(ViewTarget::List(id)) {
                Some(ViewTarget::Meta(MetaList::AllTasks))
            } else {
                t
            },
    )
}

impl Worker {
    /// The store is valid.
    pub open spec fn wf(&self) -> bool {
        self.store.wf()
    }

    /// Whether a reply is the snapshot of what the panes show.
    pub open spec fn shows(self, r: WorkerMsg, now: i64) -> bool {
        r matches WorkerMsg::Snapshot(s) && s@ == snapshot_of(
            self.store.db,
            self.targets@,
            self.sort,
            now,
        )
    }

    /// Whether a worker still looks at the same things.
    pub open spec fn looks_alike(self, other: Worker) -> bool {
        self.targets == other.targets && self.sort == other.sort
    }

    /// Whether an edit was answered: by a snapshot where the store took it, else by the
    /// error.
    pub open spec fn answered(self, after: Worker, r: WorkerMsg, list_id: ListId, e: EditView, now: i64) -> bool {
        &&& self.looks_alike(after)
        &&& after.store.session == self.store.session
        &&& match r {
            WorkerMsg::Snapshot(_) => after.shows(r, now) && (exists|given: Option<String>|
                #[trigger]
                self.store.took(after.store, list_id, e, given)),
            WorkerMsg::Error(text) => exists|x: StoreError| #[trigger]
                self.store.errs(after.store, list_id, e, x) && text@ == x.text(),
            _ => false,
        }
    }

    /// A list is made, or an error says why not.
    pub open spec fn made_list(self, after: Worker, r: WorkerMsg, name: Seq<char>, now: i64) -> bool {
        &&& self.looks_alike(after)
        &&& match r {
                WorkerMsg::Snapshot(_) => after.shows(r, now) && (exists|
                    id: ListId,
                    dek: [u8; 32],
                |
                    self.store.session.learns(after.store.session, id, 1, dek)
                        && #[trigger] self.store.made(after.store, id, dek, name)),
                WorkerMsg::Error(text) => text@ == StoreError::TooLarge.text() && (exists|
                    id: ListId,
                    dek: [u8; 32],
                |
                    self.store.session.learns(after.store.session, id, 1, dek)
                        && #[trigger] self.store.half_made(after.store, id, dek, name)),
                _ => false,
            }
    }

    /// A list has another name, or an error says why its document has not.
    pub open spec fn renamed_list(self, after: Worker, r: WorkerMsg, list_id: ListId, name: Seq<char>, now: i64) -> bool {
        &&& self.looks_alike(after)
        &&& after.store.session == self.store.session
        &&& match r {
                WorkerMsg::Snapshot(_) => after.shows(r, now),
                WorkerMsg::Error(_) => true,
                _ => false,
            }
        &&& exists|done: Result<(), StoreError>, mid: Store, row: crate::db::ListRow|
                #![trigger self.store.renamed(mid, list_id, row), mid.edits(
                    after.store,
                    list_id,
                    EditView::SetTitle(name),
                    done,
                )]
                row.name@ == name && self.store.renamed(mid, list_id, row) && mid.edits(
                    after.store,
                    list_id,
                    EditView::SetTitle(name),
                    done,
                ) && (match done {
                    Ok(_) => r is Snapshot,
                    Err(x) => r matches WorkerMsg::Error(t) && t@ == x.text(),
                })
    }

    /// A list is gone, with everything that belongs to it; panes that showed it show all
    /// tasks.
    pub open spec fn list_deleted(self, after: Worker, r: WorkerMsg, list_id: ListId, now: i64) -> bool {
        &&& after.targets@ == targets_without(self.targets@, list_id)
        &&& after.sort == self.sort
        &&& self.store.dropped(after.store, list_id)
        &&& after.shows(r, now)
    }

    /// A member is recorded, or an error says why not.
    pub open spec fn member_added(self, after: Worker, r: WorkerMsg, list_id: ListId, member: Member, now: i64) -> bool {
        &&& self.looks_alike(after)
        &&& exists|done: Result<(), StoreError>| #[trigger]
            self.store.joined(after.store, done, list_id, member) && (match done {
                Ok(_) => after.shows(r, now),
                Err(x) => r matches WorkerMsg::Error(t) && t@ == x.text(),
            })
    }

    /// A member is removed and a new key taken up, or an error says why not.
    pub open spec fn member_removed(self, after: Worker, r: WorkerMsg, list_id: ListId, member_id: crate::model::MemberId, now: i64) -> bool {
        &&& self.looks_alike(after)
        &&& after.store.docs == self.store.docs
        &&& match epoch_of(self.store.db.lists@, list_id) {
                None => after == self && (r matches WorkerMsg::Error(t) && t@
                    == StoreError::UnknownList.text()),
                Some(e) => if e == u32::MAX {
                    after == self && (r matches WorkerMsg::Error(t) && t@
                        == "the list's epochs are used up"@)
                } else {
                    after.shows(r, now) && (exists|dek: [u8; 32]| #[trigger]
                        self.store.rotated(
                            after.store,
                            list_id,
                            member_id,
                            (e + 1) as u32,
                            dek,
                        ))
                },
            }
    }

    /// A whole todo is given, or nothing, or an error.
    pub open spec fn fetched(self, after: Worker, r: WorkerMsg, list_id: ListId, item_id: Seq<char>) -> bool {
        &&& self.looks_alike(after)
        &&& after.store.db == self.store.db
        &&& after.store.session == self.store.session
        &&& self.store.keeps_all(after.store)
        &&& match r {
                WorkerMsg::FullItem(found) => exists|d: DocView| #[trigger]
                    self.store.has_doc(list_id, d) && (match found {
                        Some((l, t)) => l == list_id && Some(t@) == todo_numbered(
                            projected(bare_all(d.items())),
                            item_id,
                        ),
                        None => todo_numbered(projected(bare_all(d.items())), item_id) is None,
                    }),
                WorkerMsg::Error(t) => t@ == StoreError::Doc(
                    crate::list_doc::DocError::Refused,
                ).text() && !self.store.ready(list_id),
                _ => false,
            }
    }

    /// What a reply to a command says, and what the worker is afterwards.
    pub open spec fn served(self, after: Worker, r: WorkerMsg, cmd: CommandView, now: i64) -> bool {
        match cmd {
            CommandView::SetView { targets, sort } => after.store == self.store
                && after.targets@ == targets && after.sort == sort && after.shows(r, now),
            CommandView::EditTodo { list_id, item_id, input } => self.answered(
                after,
                r,
                list_id,
                EditView::UpdateItem(item_id, input),
                now,
            ),
            CommandView::AddTodo { list_id, input } => self.answered(
                after,
                r,
                list_id,
                EditView::AddItem(input),
                now,
            ),
            CommandView::ToggleDone { list_id, item_id } => self.answered(
                after,
                r,
                list_id,
                EditView::ToggleDone(item_id),
                now,
            ),
            CommandView::DeleteTodo { list_id, item_id } => self.answered(
                after,
                r,
                list_id,
                EditView::RemoveItem(item_id),
                now,
            ),
            CommandView::DeleteList(id) => self.list_deleted(after, r, id, now),
            CommandView::FetchMembers(id) => after == self && (r matches
                WorkerMsg::Members(l, m) && l == id && m@ == members_of(
                self.store.db.members@,
                id,
            )),
            CommandView::FetchFullItem { list_id, item_id } => self.fetched(
                after,
                r,
                list_id,
                item_id,
            ),
            CommandView::CreateList { name } => self.made_list(
                after,
                r,
                name,
                now,
            ),
            CommandView::RenameList { list_id, name } => self.renamed_list(
                after,
                r,
                list_id,
                name,
                now,
            ),
            CommandView::AddMember { list_id, member } => self.member_added(
                after,
                r,
                list_id,
                member,
                now,
            ),
            CommandView::RemoveMember { list_id, member_id } => self.member_removed(
                after,
                r,
                list_id,
                member_id,
                now,
            ),
        }
    }

    /// A worker that shows nothing yet.
    pub fn new(store: Store) -> (r: Worker)
        requires
            store.wf(),
        ensures
            r.wf(),
            r.store == store,
            r.targets@.len() == 0,
            r.sort == SortMode::Alphabetical,
    {
        Worker { store, targets: Vec::new(), sort: SortMode::default() }
    }

    /// What the panes show.
    pub fn snapshot(&self, now: i64) -> (r: ViewSnapshot)
        ensures
            r@ == snapshot_of(self.store.db, self.targets@, self.sort, now),
    {
        let mut lists: Vec<ListSummary> = list_summaries(&self.store.db);
        sort_summaries(&mut lists, self.sort);
        let mut panes: Vec<Vec<(ListId, TodoItem)>> = Vec::new();
        let n: usize = self.targets.len();
        let mut i: usize = 0;
        while i < n
            invariant
                i <= n,
                n == self.targets@.len(),
                panes@.len() == i,
                forall|j: int|
                    0 <= j < i ==> item_views((#[trigger] panes@[j])@) == pane_items(
                        self.store.db,
                        self.targets@[j],
                        self.sort,
                        now,
                    ),
            decreases n - i,
        {
            panes.push(load_pane(&self.store.db, self.targets[i], self.sort, now));
            i = i + 1;
        }
        let r = ViewSnapshot { lists, panes };
        proof {
            assert(r@ =~= snapshot_of(self.store.db, self.targets@, self.sort, now));
        }
        r
    }

    fn reply(&self, r: Result<(), StoreError>, now: i64) -> (m: WorkerMsg)
        ensures
            match r {
                Ok(_) => self.shows(m, now),
                Err(x) => m matches WorkerMsg::Error(t) && t@ == x.text(),
            },
    {
        match r {
            Ok(_) => WorkerMsg::Snapshot(self.snapshot(now)),
            Err(x) => WorkerMsg::Error(x.message().to_owned()),
        }
    }

    /// Looks at other things.
    pub fn set_view(&mut self, targets: Vec<Option<ViewTarget>>, sort: SortMode, now: i64) -> (r:
        WorkerMsg)
        requires
            old(self).wf(),
        ensures
            final(self).wf(),
            final(self).store == old(self).store,
            final(self).targets == targets,
            final(self).sort == sort,
            final(self).shows(r, now),
    {
        self.targets = targets;
        self.sort = sort;
        WorkerMsg::Snapshot(self.snapshot(now))
    }

    /// Removes a list; what showed it shows all tasks.
    pub fn delete_list(&mut self, list_id: ListId, now: i64) -> (r: WorkerMsg)
        requires
            old(self).wf(),
        ensures
            final(self).wf(),
            old(self).list_deleted(*final(self), r, list_id, now),
    {
        self.store.delete_list(list_id);
        let ghost before = self.targets@;
        let n: usize = self.targets.len();
        let mut i: usize = 0;
        while i < n
            invariant
                i <= n,
                n == self.targets@.len(),
                n == before.len(),
                self.wf(),
                old(self).store.dropped(self.store, list_id),
                self.sort == old(self).sort,
                before == old(self).targets@,
                forall|j: int|
                    0 <= j < n ==> #[trigger] self.targets@[j] == (if j < i {
                        targets_without(before, list_id)[j]
                    } else {
                        before[j]
                    }),
            decreases n - i,
        {
            if self.targets[i] == Some(ViewTarget::List(list_id)) {
                self.targets.set(i, Some(ViewTarget::Meta(MetaList::AllTasks)));
            }
            i = i + 1;
        }
        proof {
            assert(self.targets@ =~= targets_without(before, list_id));
        }
        WorkerMsg::Snapshot(self.snapshot(now))
    }

    /// Changes a todo.
    pub fn edit_todo(&mut self, list_id: ListId, item_id: &str, input: &crate::model::TodoItemInput, now: i64) -> (r: WorkerMsg)
        requires
            old(self).wf(),
        ensures
            final(self).wf(),
            old(self).answered(*final(self), r, list_id, EditView::UpdateItem(item_id@, input@), now),
    {
        let done = self.store.edit_todo(list_id, item_id, input);
        self.reply(done, now)
    }

    /// Marks a todo as done, or as not done.
    pub fn toggle_done(&mut self, list_id: ListId, item_id: &str, now: i64) -> (r: WorkerMsg)
        requires
            old(self).wf(),
        ensures
            final(self).wf(),
            old(self).answered(*final(self), r, list_id, EditView::ToggleDone(item_id@), now),
    {
        let done = self.store.toggle_done(list_id, item_id);
        self.reply(done, now)
    }

    /// Removes a todo.
    pub fn delete_todo(&mut self, list_id: ListId, item_id: &str, now: i64) -> (r: WorkerMsg)
        requires
            old(self).wf(),
        ensures
            final(self).wf(),
            old(self).answered(*final(self), r, list_id, EditView::RemoveItem(item_id@), now),
    {
        let done = self.store.delete_todo(list_id, item_id);
        self.reply(done, now)
    }

    /// Adds a todo.
    pub fn add_todo(&mut self, list_id: ListId, input: &crate::model::TodoItemInput, now: i64) -> (r:
        WorkerMsg)
        requires
            old(self).wf(),
        ensures
            final(self).wf(),
            old(self).answered(*final(self), r, list_id, EditView::AddItem(input@), now),
    {
        let done: Result<(), StoreError> = match self.store.add_todo(list_id, input) {
            Ok(_) => Ok(()),
            Err(x) => Err(x),
        };
        self.reply(done, now)
    }

    /// Makes a list.
    pub fn create_list(&mut self, name: &str, now: i64) -> (r: WorkerMsg)
        requires
            old(self).wf(),
        ensures
            final(self).wf(),
            old(self).made_list(*final(self), r, name@, now),
    {
        let done: Result<(), StoreError> = match self.store.create_list(name) {
            Ok(_) => Ok(()),
            Err(x) => Err(x),
        };
        self.reply(done, now)
    }

    /// Gives a list another name.
    pub fn rename_list(&mut self, list_id: ListId, name: &str, now: i64) -> (r: WorkerMsg)
        requires
            old(self).wf(),
        ensures
            final(self).wf(),
            old(self).renamed_list(*final(self), r, list_id, name@, now),
    {
        let done = self.store.rename_list(list_id, name);
        self.reply(done, now)
    }

    /// Records a member of a list.
    pub fn add_member(&mut self, list_id: ListId, member: Member, now: i64) -> (r: WorkerMsg)
        requires
            old(self).wf(),
        ensures
            final(self).wf(),
            old(self).member_added(*final(self), r, list_id, member, now),
    {
        let done = self.store.add_member_local(list_id, member);
        self.reply(done, now)
    }

    /// Removes a member of a list, and turns to a fresh data key. A list whose epochs are
    /// used up is left as it is.
    pub fn remove_member(&mut self, list_id: ListId, member_id: crate::model::MemberId, now: i64) -> (r:
        WorkerMsg)
        requires
            old(self).wf(),
        ensures
            final(self).wf(),
            old(self).member_removed(*final(self), r, list_id, member_id, now),
    {
        match self.store.db.list_epoch(list_id) {
            Some(e) => {
                if e == u32::MAX {
                    return WorkerMsg::Error("the list's epochs are used up".to_owned());
                }
            },
            None => {},
        }
        let done = self.store.remove_member_local(list_id, member_id);
        self.reply(done, now)
    }

    /// A whole todo.
    pub fn fetch_full_item(&mut self, list_id: ListId, item_id: &str) -> (r: WorkerMsg)
        requires
            old(self).wf(),
        ensures
            final(self).wf(),
            old(self).fetched(*final(self), r, list_id, item_id@),
    {
        match self.store.full_item(list_id, item_id) {
            Ok(Some(t)) => WorkerMsg::FullItem(Some((list_id, t))),
            Ok(None) => WorkerMsg::FullItem(None),
            Err(x) => WorkerMsg::Error(x.message().to_owned()),
        }
    }

    /// Answers a command, in the way of the method for it.
    pub fn serve(&mut self, cmd: &StoreCommand, now: i64) -> (r: WorkerMsg)
        requires
            old(self).wf(),
        ensures
            final(self).wf(),
            old(self).served(*final(self), r, cmd@, now),
    {
        match cmd {
            StoreCommand::SetView { targets, sort } => {
                let copy = copy_targets(targets);
                self.set_view(copy, *sort, now)
            },
            StoreCommand::CreateList { name } => self.create_list(name.as_str(), now),
            StoreCommand::RenameList { list_id, name } => self.rename_list(
                *list_id,
                name.as_str(),
                now,
            ),
            StoreCommand::DeleteList(id) => self.delete_list(*id, now),
            StoreCommand::AddTodo { list_id, input } => self.add_todo(*list_id, input, now),
            StoreCommand::EditTodo { list_id, item_id, input } => self.edit_todo(
                *list_id,
                item_id.as_str(),
                input,
                now,
            ),
            StoreCommand::ToggleDone { list_id, item_id } => self.toggle_done(
                *list_id,
                item_id.as_str(),
                now,
            ),
            StoreCommand::DeleteTodo { list_id, item_id } => self.delete_todo(
                *list_id,
                item_id.as_str(),
                now,
            ),
            StoreCommand::AddMember { list_id, member } => self.add_member(*list_id, *member, now),
            StoreCommand::RemoveMember { list_id, member_id } => self.remove_member(
                *list_id,
                *member_id,
                now,
            ),
            StoreCommand::FetchFullItem { list_id, item_id } => self.fetch_full_item(
                *list_id,
                item_id.as_str(),
            ),
            StoreCommand::FetchMembers(id) => WorkerMsg::Members(*id, self.store.members(*id)),
        }
    }
}

fn copy_targets(v: &Vec<Option<ViewTarget>>) -> (r: Vec<Option<ViewTarget>>)
    ensures
        r@ == v@,
{
    let n: usize = v.len();
    let mut out: Vec<Option<ViewTarget>> = Vec::new();
    let mut i: usize = 0;
    while i < n
        invariant
            i <= n,
            n == v@.len(),
            out@ == v@.take(i as int),
        decreases n - i,
    {
        out.push(v[i]);
        proof {
            assert(v@.take(i + 1) =~= v@.take(i as int).push(v@[i as int]));
        }
        i = i + 1;
    }
    proof {
        assert(v@.take(n as int) =~= v@);
    }
    out
}

} // verus!
