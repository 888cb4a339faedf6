//! What the interface asks of the store, and what the store replies.
use vstd::prelude::*;

use crate::model::{
    InputView, ListId, ListSummary, Member, MemberId, SortMode, SummaryView, TodoItem,
    TodoItemInput, TodoView, ViewTarget,
};
use crate::view::{item_views, summary_views};

verus! {

/// What the interface asks of the store.
#[derive(Debug, PartialEq, Eq)]
pub enum StoreCommand {
    /// What each pane shows, and in which order; asks for a snapshot.
    SetView { targets: Vec<Option<ViewTarget>>, sort: SortMode },
    CreateList { name: String },
    RenameList { list_id: ListId, name: String },
    DeleteList(ListId),
    AddTodo { list_id: ListId, input: TodoItemInput },
    EditTodo { list_id: ListId, item_id: String, input: TodoItemInput },
    ToggleDone { list_id: ListId, item_id: String },
    DeleteTodo { list_id: ListId, item_id: String },
    AddMember { list_id: ListId, member: Member },
    RemoveMember { list_id: ListId, member_id: MemberId },
    FetchFullItem { list_id: ListId, item_id: String },
    FetchMembers(ListId),
}

/// What a command says.
#[allow(inconsistent_fields)]
pub ghost enum CommandView {
    SetView { targets: Seq<Option<ViewTarget>>, sort: SortMode },
    CreateList { name: Seq<char> },
    RenameList { list_id: ListId, name: Seq<char> },
    DeleteList(ListId),
    AddTodo { list_id: ListId, input: InputView },
    EditTodo { list_id: ListId, item_id: Seq<char>, input: InputView },
    ToggleDone { list_id: ListId, item_id: Seq<char> },
    DeleteTodo { list_id: ListId, item_id: Seq<char> },
    AddMember { list_id: ListId, member: Member },
    RemoveMember { list_id: ListId, member_id: MemberId },
    FetchFullItem { list_id: ListId, item_id: Seq<char> },
    FetchMembers(ListId),
}

impl View for StoreCommand {
    type V = CommandView;

    open spec fn view(&self) -> CommandView {
        match self {
            StoreCommand::SetView { targets, sort } => CommandView::SetView {
                targets: targets@,
                sort: *sort,
            },
            StoreCommand::CreateList { name } => CommandView::CreateList { name: name@ },
            StoreCommand::RenameList { list_id, name } => CommandView::RenameList {
                list_id: *list_id,
                name: name@,
            },
            StoreCommand::DeleteList(id) => CommandView::DeleteList(*id),
            StoreCommand::AddTodo { list_id, input } => CommandView::AddTodo {
                list_id: *list_id,
                input: input@,
            },
            StoreCommand::EditTodo { list_id, item_id, input } => CommandView::EditTodo {
                list_id: *list_id,
                item_id: item_id@,
                input: input@,
            },
            StoreCommand::ToggleDone { list_id, item_id } => CommandView::ToggleDone {
                list_id: *list_id,
                item_id: item_id@,
            },
            StoreCommand::DeleteTodo { list_id, item_id } => CommandView::DeleteTodo {
                list_id: *list_id,
                item_id: item_id@,
            },
            StoreCommand::AddMember { list_id, member } => CommandView::AddMember {
                list_id: *list_id,
                member: *member,
            },
            StoreCommand::RemoveMember { list_id, member_id } => CommandView::RemoveMember {
                list_id: *list_id,
                member_id: *member_id,
            },
            StoreCommand::FetchFullItem { list_id, item_id } => CommandView::FetchFullItem {
                list_id: *list_id,
                item_id: item_id@,
            },
            StoreCommand::FetchMembers(id) => CommandView::FetchMembers(*id),
        }
    }
}

/// What the panes show, as the store computes it.
#[derive(Debug, PartialEq, Eq)]
pub struct ViewSnapshot {
    pub lists: Vec<ListSummary>,
    /// The todos of each pane, in the order of the panes.
    pub panes: Vec<Vec<(ListId, TodoItem)>>,
}

/// The contents of a snapshot.
#[verifier::ext_equal]
pub struct SnapshotView {
    pub lists: Seq<SummaryView>,
    pub panes: Seq<Seq<(ListId, TodoView)>>,
}

/// The contents of the panes' todos.
pub open spec fn rows_views(v: Seq<Vec<(ListId, TodoItem)>>) -> Seq<Seq<(ListId, TodoView)>> {
    v.map_values(|p: Vec<(ListId, TodoItem)>| item_views(p@))
}

impl View for ViewSnapshot {
    type V = SnapshotView;

    open spec fn view(&self) -> SnapshotView {
        SnapshotView { lists: summary_views(self.lists@), panes: rows_views(self.panes@) }
    }
}

/// What the store replies.
#[derive(Debug, PartialEq, Eq)]
pub enum WorkerMsg {
    Snapshot(ViewSnapshot),
    /// A whole todo, where it was found, and its list.
    FullItem(Option<(ListId, TodoItem)>),
    Members(ListId, Vec<Member>),
    Error(String),
}

} // verus!
