//! What the workspace shows: the lists of the sidebar, and the open panes.
use vstd::prelude::*;

use crate::model::{
    ListId, ListSummary, MetaList, SortMode, SummaryView, TodoItem, TodoView, ViewTarget,
};

verus! {

/// How two panes share the screen: side by side, or one above the other.
#[derive(Clone, Copy, Debug, PartialEq, Eq, Structural)]
pub enum Direction {
    Horizontal,
    Vertical,
}

/// One open pane.
#[derive(Debug, PartialEq, Eq)]
pub struct PaneData {
    /// What the pane shows; `None` before anything was opened.
    pub target: Option<ViewTarget>,
    /// The pane's todos in order, each with the list that it belongs to.
    pub items: Vec<(ListId, TodoItem)>,
}

/// The contents of a pane.
#[verifier::ext_equal]
pub struct PaneView {
    pub target: Option<ViewTarget>,
    pub items: Seq<(ListId, TodoView)>,
}

/// The contents of a pane's todos.
pub open spec fn item_views(v: Seq<(ListId, TodoItem)>) -> Seq<(ListId, TodoView)> {
    v.map_values(|p: (ListId, TodoItem)| (p.0, p.1@))
}

impl View for PaneData {
    type V = PaneView;

    open spec fn view(&self) -> PaneView {
        PaneView { target: self.target, items: item_views(self.items@) }
    }
}

impl PaneData {
    /// A copy of the pane.
    pub fn copy(&self) -> (r: PaneData)
        ensures
            r@ == self@,
    {
        let n: usize = self.items.len();
        let mut items: Vec<(ListId, TodoItem)> = Vec::new();
        let mut i: usize = 0;
        while i < n
            invariant
                i <= n,
                n == self.items@.len(),
                items@.len() == i,
                forall|j: int|
                    0 <= j < i ==> (#[trigger] items@[j]).0 == self.items@[j].0 && items@[j].1@
                        == self.items@[j].1@,
            decreases n - i,
        {
            items.push((self.items[i].0, self.items[i].1.copy()));
            i = i + 1;
        }
        let r = PaneData { target: self.target, items };
        proof {
            assert(r@ =~= self@);
        }
        r
    }
}

/// What the workspace shows.
#[derive(Debug, PartialEq, Eq)]
pub struct ViewModel {
    /// The user's lists, in the order of the sidebar.
    pub lists: Vec<ListSummary>,
    /// The order of todos and of lists.
    pub sort: SortMode,
    /// The open panes, one or two.
    pub panes: Vec<PaneData>,
    /// How two panes share the screen; `None` where there is one.
    pub split: Option<Direction>,
    /// The first pane's share of the screen in percent, from 10 to 90.
    pub ratio: u16,
}

/// The contents of what the workspace shows.
#[verifier::ext_equal]
pub struct ModelView {
    pub lists: Seq<SummaryView>,
    pub sort: SortMode,
    pub panes: Seq<PaneView>,
    pub split: Option<Direction>,
    pub ratio: int,
}

/// The contents of list summaries.
pub open spec fn summary_views(v: Seq<ListSummary>) -> Seq<SummaryView> {
    v.map_values(|s: ListSummary| s@)
}

/// The contents of panes.
pub open spec fn pane_views(v: Seq<PaneData>) -> Seq<PaneView> {
    v.map_values(|p: PaneData| p@)
}

impl View for ViewModel {
    type V = ModelView;

    open spec fn view(&self) -> ModelView {
        ModelView {
            lists: summary_views(self.lists@),
            sort: self.sort,
            panes: pane_views(self.panes@),
            split: self.split,
            ratio: self.ratio as int,
        }
    }
}

impl ModelView {
    /// One or two panes are open, the screen is split where there are two, the share is in
    /// its range, and the rows of the sidebar can be counted.
    pub open spec fn valid(self) -> bool {
        &&& 1 <= self.panes.len() <= 2
        &&& self.split is Some == (self.panes.len() == 2)
        &&& 10 <= self.ratio <= 90
        &&& self.lists.len() + 2 <= usize::MAX
    }
}

/// What the workspace shows before anything was read: one pane with all tasks.
pub open spec fn blank_model() -> ModelView {
    ModelView {
        lists: Seq::empty(),
        sort: SortMode::Alphabetical,
        panes: seq![
            PaneView {
                target: Some(ViewTarget::Meta(MetaList::AllTasks)),
                items: Seq::empty(),
            },
        ],
        split: None,
        ratio: 50,
    }
}

impl Default for ViewModel {
    fn default() -> (r: ViewModel)
        ensures
            r@ == blank_model(),
            r@.valid(),
    {
        let mut panes: Vec<PaneData> = Vec::new();
        panes.push(
            PaneData { target: Some(ViewTarget::Meta(MetaList::AllTasks)), items: Vec::new() },
        );
        let r = ViewModel {
            lists: Vec::new(),
            sort: SortMode::default(),
            panes,
            split: None,
            ratio: 50,
        };
        proof {
            assert(r@.panes[0] =~= blank_model().panes[0]);
            assert(r@ =~= blank_model());
        }
        r
    }
}

} // verus!
