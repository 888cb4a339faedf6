//! What the sidebar and the panes list, and in which order.
use vstd::prelude::*;
use vstd::string::*;

use crate::db::{
    all_stored, item_rows, list_rows, stored_items, ByName, Db, ListRow, ListRowView,
};
use crate::doc_value::todo_views;
use crate::model::{
    ListId, ListSummary, MetaList, Priority, SortMode, SummaryView, TodoItem, TodoView, ViewTarget,
};
use crate::order::{is_text_before, lemma_text_order, shown, sort, sorted, text_before, Ordered};
use crate::text::{lowercase, to_lowercase};
use crate::view::{item_views, summary_views, ModelView, PaneView, ViewModel};

verus! {

// ── Orders ──────────────────────────────────────────────────────────────────

/// Whether a text comes before another without regard to case.
pub open spec fn name_before(a: Seq<char>, b: Seq<char>) -> bool {
    text_before(lowercase(a), lowercase(b))
}

fn is_name_before(a: &str, b: &str) -> (r: bool)
    ensures
        r == name_before(a@, b@),
{
    let x = to_lowercase(a);
    let y = to_lowercase(b);
    is_text_before(x.as_str(), y.as_str())
}

impl Ordered<SortMode> for ListSummary {
    type Shown = SummaryView;

    open spec fn shown(self) -> SummaryView {
        self@
    }

    /// Lists are ordered by name; or by the nearest due time, those without one last and
    /// by name; or by the highest priority, the highest first.
    open spec fn before(a: SummaryView, b: SummaryView, order: SortMode) -> bool {
        match order {
            SortMode::Alphabetical => name_before(a.name, b.name),
            SortMode::DueDate => match (a.next_due, b.next_due) {
                (Some(x), Some(y)) => x < y,
                (Some(_), None) => true,
                (None, Some(_)) => false,
                (None, None) => name_before(a.name, b.name),
            },
            SortMode::Priority => a.top_priority.level() > b.top_priority.level(),
        }
    }

    proof fn weak_order(a: SummaryView, b: SummaryView, c: SummaryView, order: SortMode) {
        lemma_text_order(lowercase(a.name), lowercase(b.name), lowercase(c.name));
    }

    fn is_before(&self, other: &ListSummary, order: &SortMode) -> (r: bool) {
        match order {
            SortMode::Alphabetical => is_name_before(self.name.as_str(), other.name.as_str()),
            SortMode::DueDate => match (self.next_due, other.next_due) {
                (Some(x), Some(y)) => x < y,
                (Some(_), None) => true,
                (None, Some(_)) => false,
                (None, None) => is_name_before(self.name.as_str(), other.name.as_str()),
            },
            SortMode::Priority => self.top_priority.rank() > other.top_priority.rank(),
        }
    }
}

impl Ordered<SortMode> for (ListId, TodoItem) {
    type Shown = (ListId, TodoView);

    open spec fn shown(self) -> (ListId, TodoView) {
        (self.0, self.1@)
    }

    /// Todos are ordered by title; or by due time, those without one last; or by
    /// priority, the highest first.
    open spec fn before(a: (ListId, TodoView), b: (ListId, TodoView), order: SortMode) -> bool {
        match order {
            SortMode::Alphabetical => name_before(a.1.title, b.1.title),
            SortMode::DueDate => match (a.1.due, b.1.due) {
                (Some(x), Some(y)) => x < y,
                (Some(_), None) => true,
                _ => false,
            },
            SortMode::Priority => a.1.priority.level() > b.1.priority.level(),
        }
    }

    proof fn weak_order(
        a: (ListId, TodoView),
        b: (ListId, TodoView),
        c: (ListId, TodoView),
        order: SortMode,
    ) {
        lemma_text_order(lowercase(a.1.title), lowercase(b.1.title), lowercase(c.1.title));
    }

    fn is_before(&self, other: &(ListId, TodoItem), order: &SortMode) -> (r: bool) {
        match order {
            SortMode::Alphabetical => is_name_before(
                self.1.title.as_str(),
                other.1.title.as_str(),
            ),
            SortMode::DueDate => match (self.1.due, other.1.due) {
                (Some(x), Some(y)) => x < y,
                (Some(_), None) => true,
                _ => false,
            },
            SortMode::Priority => self.1.priority.rank() > other.1.priority.rank(),
        }
    }
}

/// Lists in order.
pub open spec fn ordered_lists(s: Seq<SummaryView>, order: SortMode) -> Seq<SummaryView> {
    sorted::<SortMode, ListSummary>(s, order)
}

/// Todos in order.
pub open spec fn ordered_items(s: Seq<(ListId, TodoView)>, order: SortMode) -> Seq<
    (ListId, TodoView),
> {
    sorted::<SortMode, (ListId, TodoItem)>(s, order)
}

/// Sorts lists.
pub fn sort_summaries(lists: &mut Vec<ListSummary>, order: SortMode)
    ensures
        summary_views(final(lists)@) == ordered_lists(summary_views(old(lists)@), order),
{
    proof {
        assert(shown::<SortMode, ListSummary>(lists@) =~= summary_views(lists@));
    }
    sort(lists, &order);
    proof {
        assert(shown::<SortMode, ListSummary>(lists@) =~= summary_views(lists@));
    }
}

/// Sorts todos.
pub fn sort_items(items: &mut Vec<(ListId, TodoItem)>, order: SortMode)
    ensures
        item_views(final(items)@) == ordered_items(item_views(old(items)@), order),
{
    proof {
        assert(shown::<SortMode, (ListId, TodoItem)>(items@) =~= item_views(items@));
    }
    sort(items, &order);
    proof {
        assert(shown::<SortMode, (ListId, TodoItem)>(items@) =~= item_views(items@));
    }
}

// ── Summaries ───────────────────────────────────────────────────────────────

/// Whether a todo belongs to a list and is still open.
pub open spec fn is_open(p: (ListId, TodoView), id: ListId) -> bool {
    p.0 == id && !p.1.done
}

/// The number of open todos of a list.
pub open spec fn open_count(all: Seq<(ListId, TodoView)>, id: ListId) -> nat
    decreases all.len(),
{
    if all.len() == 0 {
        0
    } else if is_open(all.last(), id) {
        open_count(all.drop_last(), id) + 1
    } else {
        open_count(all.drop_last(), id)
    }
}

/// The nearer of two due times.
pub open spec fn nearer(a: Option<i64>, b: Option<i64>) -> Option<i64> {
    match (a, b) {
        (Some(x), Some(y)) => if y < x {
            Some(y)
        } else {
            Some(x)
        },
        (Some(x), None) => Some(x),
        (None, y) => y,
    }
}

/// The nearest due time of a list's open todos.
pub open spec fn nearest_due(all: Seq<(ListId, TodoView)>, id: ListId) -> Option<i64>
    decreases all.len(),
{
    if all.len() == 0 {
        None
    } else if is_open(all.last(), id) {
        nearer(nearest_due(all.drop_last(), id), all.last().1.due)
    } else {
        nearest_due(all.drop_last(), id)
    }
}

/// The highest priority of a list's open todos.
pub open spec fn highest_priority(all: Seq<(ListId, TodoView)>, id: ListId) -> Priority
    decreases all.len(),
{
    if all.len() == 0 {
        Priority::Unset
    } else {
        let before = highest_priority(all.drop_last(), id);
        if is_open(all.last(), id) && all.last().1.priority.level() > before.level() {
            all.last().1.priority
        } else {
            before
        }
    }
}

/// The summary of a list: what its open todos add up to.
pub open spec fn summary_of(row: ListRowView, all: Seq<(ListId, TodoView)>) -> SummaryView {
    SummaryView {
        id: row.list_id,
        name: row.name,
        role: row.role,
        open_count: open_count(all, row.list_id) as int,
        next_due: nearest_due(all, row.list_id),
        top_priority: highest_priority(all, row.list_id),
    }
}

/// The summaries of all lists that are stored.
pub open spec fn summaries(db: Db) -> Seq<SummaryView> {
    sorted::<ByName, ListRow>(list_rows(db.lists@), ByName).map_values(
        |r: ListRowView| summary_of(r, all_stored(item_rows(db.items@))),
    )
}

fn summarize(row: &ListRow, all: &Vec<(ListId, TodoItem)>) -> (r: ListSummary)
    ensures
        r@ == summary_of(row@, item_views(all@)),
{
    let ghost seen = item_views(all@);
    let id = row.list_id;
    let n: usize = all.len();
    let mut count: usize = 0;
    let mut due: Option<i64> = None;
    let mut top: Priority = Priority::Unset;
    let mut i: usize = 0;
    proof {
        assert(seen.take(0) =~= Seq::empty());
    }
    while i < n
        invariant
            i <= n,
            n == all@.len(),
            seen == item_views(all@),
            count <= i,
            count == open_count(seen.take(i as int), id),
            due == nearest_due(seen.take(i as int), id),
            top == highest_priority(seen.take(i as int), id),
        decreases n - i,
    {
        proof {
            assert(seen.take(i + 1).drop_last() =~= seen.take(i as int));
            assert(seen.take(i + 1).last() == (all@[i as int].0, all@[i as int].1@));
        }
        let open: bool = all[i].0 == id && !all[i].1.done;
        if open {
            count = count + 1;
            match (due, all[i].1.due) {
                (Some(x), Some(y)) => {
                    if y < x {
                        due = Some(y);
                    }
                },
                (None, y) => {
                    due = y;
                },
                _ => {},
            }
            if all[i].1.priority.rank() > top.rank() {
                top = all[i].1.priority;
            }
        }
        i = i + 1;
    }
    proof {
        assert(seen.take(n as int) =~= seen);
    }
    ListSummary {
        id,
        name: row.name.clone(),
        role: row.role,
        open_count: count,
        next_due: due,
        top_priority: top,
    }
}

/// The summaries of all lists that are stored.
pub fn list_summaries(db: &Db) -> (r: Vec<ListSummary>)
    ensures
        summary_views(r@) == summaries(*db),
{
    let rows = db.list_lists();
    let all = db.load_all_todo_items();
    let n: usize = rows.len();
    let mut out: Vec<ListSummary> = Vec::new();
    let mut i: usize = 0;
    while i < n
        invariant
            i <= n,
            n == rows@.len(),
            out@.len() == i,
            forall|j: int|
                0 <= j < i ==> (#[trigger] out@[j])@ == summary_of(rows@[j]@, item_views(all@)),
        decreases n - i,
    {
        out.push(summarize(&rows[i], &all));
        i = i + 1;
    }
    proof {
        let sorted_rows = sorted::<ByName, ListRow>(list_rows(db.lists@), ByName);
        assert forall|j: int| 0 <= j < n implies summary_views(out@)[j] == summaries(*db)[j] by {
            assert(list_rows(rows@)[j] == rows@[j]@);
            assert(sorted_rows[j] == rows@[j]@);
        }
        assert(summary_views(out@) =~= summaries(*db));
    }
    out
}

/// The nearest due time is that of an open todo, and no open todo is due before it.
pub proof fn law_nearest_due(all: Seq<(ListId, TodoView)>, id: ListId, i: int)
    requires
        0 <= i < all.len(),
        is_open(all[i], id),
        all[i].1.due is Some,
    ensures
        nearest_due(all, id) matches Some(d) && d <= all[i].1.due->0,
        exists|j: int|
            0 <= j < all.len() && is_open(#[trigger] all[j], id) && all[j].1.due == nearest_due(
                all,
                id,
            ),
    decreases all.len(),
{
    if i < all.len() - 1 {
        law_nearest_due(all.drop_last(), id, i);
    }
    lemma_nearest_is_due(all, id);
}

proof fn lemma_nearest_is_due(all: Seq<(ListId, TodoView)>, id: ListId)
    ensures
        nearest_due(all, id) is Some ==> exists|j: int|
            0 <= j < all.len() && is_open(#[trigger] all[j], id) && all[j].1.due == nearest_due(
                all,
                id,
            ),
    decreases all.len(),
{
    if all.len() > 0 {
        let init = all.drop_last();
        lemma_nearest_is_due(init, id);
        if nearest_due(all, id) is Some {
            if nearest_due(all, id) == nearest_due(init, id) {
                let j = choose|j: int|
                    0 <= j < init.len() && is_open(#[trigger] init[j], id) && init[j].1.due
                        == nearest_due(init, id);
                assert(all[j] == init[j]);
            } else {
                assert(all[all.len() - 1] == all.last());
            }
        }
    }
}

/// No open todo is more urgent than the highest priority, and where that is any at all, an
/// open todo has it.
pub proof fn law_highest_priority(all: Seq<(ListId, TodoView)>, id: ListId, i: int)
    requires
        0 <= i < all.len(),
        is_open(all[i], id),
    ensures
        all[i].1.priority.level() <= highest_priority(all, id).level(),
        highest_priority(all, id) != Priority::Unset ==> exists|j: int|
            0 <= j < all.len() && is_open(#[trigger] all[j], id) && all[j].1.priority
                == highest_priority(all, id),
    decreases all.len(),
{
    if i < all.len() - 1 {
        law_highest_priority(all.drop_last(), id, i);
    }
    lemma_highest_is_one(all, id);
}

proof fn lemma_highest_is_one(all: Seq<(ListId, TodoView)>, id: ListId)
    ensures
        highest_priority(all, id) != Priority::Unset ==> exists|j: int|
            0 <= j < all.len() && is_open(#[trigger] all[j], id) && all[j].1.priority
                == highest_priority(all, id),
    decreases all.len(),
{
    if all.len() > 0 {
        let init = all.drop_last();
        lemma_highest_is_one(init, id);
        if highest_priority(all, id) != Priority::Unset {
            if highest_priority(all, id) == highest_priority(init, id) {
                let j = choose|j: int|
                    0 <= j < init.len() && is_open(#[trigger] init[j], id) && init[j].1.priority
                        == highest_priority(init, id);
                assert(all[j] == init[j]);
            } else {
                assert(all[all.len() - 1] == all.last());
            }
        }
    }
}

// ── Views ───────────────────────────────────────────────────────────────────

/// The open todos that a meta-list holds, in their order.
pub open spec fn meta_items(all: Seq<(ListId, TodoView)>, meta: MetaList, now: i64) -> Seq<
    (ListId, TodoView),
>
    decreases all.len(),
{
    if all.len() == 0 {
        all
    } else if !all.last().1.done && meta.holds(all.last().1.due, now) {
        meta_items(all.drop_last(), meta, now).push(all.last())
    } else {
        meta_items(all.drop_last(), meta, now)
    }
}

/// The todos of a view, before they are sorted.
pub open spec fn view_items(db: Db, target: ViewTarget, now: i64) -> Seq<(ListId, TodoView)> {
    match target {
        ViewTarget::List(id) => stored_items(item_rows(db.items@), id).map_values(
            |t: TodoView| (id, t),
        ),
        ViewTarget::Meta(meta) => meta_items(all_stored(item_rows(db.items@)), meta, now),
    }
}

fn keep_meta(all: Vec<(ListId, TodoItem)>, meta: MetaList, now: i64) -> (r: Vec<(ListId, TodoItem)>)
    ensures
        item_views(r@) == meta_items(item_views(all@), meta, now),
{
    let ghost seen = item_views(all@);
    let ghost given = all@;
    let mut rest = all;
    let mut out: Vec<(ListId, TodoItem)> = Vec::new();
    let ghost mut done: int = 0;
    proof {
        assert(seen.take(0) =~= Seq::empty());
        assert(item_views(out@) =~= Seq::empty());
        assert(given.skip(0) =~= given);
    }
    while rest.len() > 0
        invariant
            0 <= done <= given.len(),
            rest@ == given.skip(done),
            seen == item_views(given),
            item_views(out@) == meta_items(seen.take(done), meta, now),
        decreases rest@.len(),
    {
        proof {
            assert(seen.take(done + 1).drop_last() =~= seen.take(done));
            assert(seen.take(done + 1).last() == (given[done].0, given[done].1@));
            assert(given.skip(done).remove(0) =~= given.skip(done + 1));
        }
        let p = rest.remove(0);
        if !p.1.done && meta.contains(p.1.due, now) {
            let ghost before = out@;
            let ghost x = (p.0, p.1@);
            out.push(p);
            proof {
                assert(item_views(out@) =~= item_views(before).push(x));
            }
        }
        proof {
            done = done + 1;
        }
    }
    proof {
        assert(seen.take(seen.len() as int) =~= seen);
    }
    out
}

fn tag_items(items: Vec<TodoItem>, id: ListId) -> (r: Vec<(ListId, TodoItem)>)
    ensures
        item_views(r@) == todo_views(items@).map_values(|t: TodoView| (id, t)),
{
    let ghost given = items@;
    let mut rest = items;
    let mut out: Vec<(ListId, TodoItem)> = Vec::new();
    let ghost mut done: int = 0;
    proof {
        assert(given.skip(0) =~= given);
    }
    while rest.len() > 0
        invariant
            0 <= done <= given.len(),
            rest@ == given.skip(done),
            out@.len() == done,
            forall|j: int|
                0 <= j < done ==> (#[trigger] out@[j]).0 == id && out@[j].1 == given[j],
        decreases rest@.len(),
    {
        proof {
            assert(given.skip(done).remove(0) =~= given.skip(done + 1));
        }
        let t = rest.remove(0);
        out.push((id, t));
        proof {
            done = done + 1;
        }
    }
    proof {
        assert(item_views(out@) =~= todo_views(given).map_values(|t: TodoView| (id, t)));
    }
    out
}

/// The todos of a view, sorted. A list shows all of its todos, a meta-list the open ones
/// of all lists that it holds.
pub fn load_view(db: &Db, target: ViewTarget, order: SortMode, now: i64) -> (r: Vec<
    (ListId, TodoItem),
>)
    ensures
        item_views(r@) == ordered_items(view_items(*db, target, now), order),
{
    let mut items: Vec<(ListId, TodoItem)> = match target {
        ViewTarget::List(id) => tag_items(db.load_todo_items(id), id),
        ViewTarget::Meta(meta) => keep_meta(db.load_all_todo_items(), meta, now),
    };
    sort_items(&mut items, order);
    items
}

/// The todos of a pane, sorted; one that shows nothing has none.
pub open spec fn pane_items(db: Db, target: Option<ViewTarget>, order: SortMode, now: i64) -> Seq<
    (ListId, TodoView),
> {
    match target {
        Some(t) => ordered_items(view_items(db, t, now), order),
        None => Seq::empty(),
    }
}

/// The todos of a pane, sorted.
pub fn load_pane(db: &Db, target: Option<ViewTarget>, order: SortMode, now: i64) -> (r: Vec<
    (ListId, TodoItem),
>)
    ensures
        item_views(r@) == pane_items(*db, target, order, now),
{
    match target {
        Some(t) => load_view(db, t, order, now),
        None => {
            let v: Vec<(ListId, TodoItem)> = Vec::new();
            proof {
                assert(item_views(v@) =~= Seq::empty());
            }
            v
        },
    }
}

/// A model with its lists and the todos of its panes read anew.
pub open spec fn refreshed(v: ModelView, db: Db, now: i64) -> ModelView {
    ModelView {
        lists: ordered_lists(summaries(db), v.sort),
        panes: v.panes.map_values(
            |p: PaneView| PaneView { items: pane_items(db, p.target, v.sort, now), ..p },
        ),
        ..v
    }
}

/// Reads the lists and the todos of every pane anew.
pub fn refresh_view(db: &Db, view: &mut ViewModel, now: i64)
    ensures
        final(view)@ == refreshed(old(view)@, *db, now),
{
    let ghost v0 = view@;
    let mut lists = list_summaries(db);
    sort_summaries(&mut lists, view.sort);
    view.lists = lists;
    let n: usize = view.panes.len();
    let mut i: usize = 0;
    while i < n
        invariant
            i <= n,
            n == view.panes@.len(),
            n == v0.panes.len(),
            view@ == (ModelView {
                lists: ordered_lists(summaries(*db), v0.sort),
                panes: view@.panes,
                ..v0
            }),
            forall|j: int|
                0 <= j < n ==> (#[trigger] view.panes@[j])@ == (if j < i {
                    PaneView {
                        items: pane_items(*db, v0.panes[j].target, v0.sort, now),
                        ..v0.panes[j]
                    }
                } else {
                    v0.panes[j]
                }),
        decreases n - i,
    {
        let items = load_pane(db, view.panes[i].target, view.sort, now);
        view.panes[i].items = items;
        i = i + 1;
    }
    proof {
        assert(view@.panes =~= refreshed(v0, *db, now).panes);
        assert(view@ =~= refreshed(v0, *db, now));
    }
}

/// The workspace when a pane points at something else. There may be no such pane.
pub open spec fn retargeted(v: ModelView, target: ViewTarget, pane: int) -> ModelView {
    if pane < v.panes.len() {
        ModelView {
            panes: v.panes.update(
                pane,
                PaneView { target: Some(target), ..v.panes[pane] },
            ),
            ..v
        }
    } else {
        v
    }
}

/// Points a pane at something else, and reads everything anew.
pub fn open_view(db: &Db, view: &mut ViewModel, target: ViewTarget, pane: usize, now: i64)
    ensures
        final(view)@ == refreshed(retargeted(old(view)@, target, pane as int), *db, now),
{
    let ghost v0 = view@;
    if pane < view.panes.len() {
        proof {
            assert(v0.panes[pane as int] == view.panes@[pane as int]@);
        }
        view.panes[pane].target = Some(target);
        proof {
            assert(view@.panes =~= v0.panes.update(
                pane as int,
                PaneView { target: Some(target), ..v0.panes[pane as int] },
            ));
        }
    }
    refresh_view(db, view, now);
}

/// Sorting the lists only reorders them: none is lost, and none comes twice.
pub proof fn law_sorting_keeps_lists(s: Seq<SummaryView>, order: SortMode)
    ensures
        ordered_lists(s, order).to_multiset() == s.to_multiset(),
        ordered_lists(s, order).len() == s.len(),
{
    crate::order::law_sorted::<SortMode, ListSummary>(s, order);
}

/// Todos with a due time come before those without one, where todos are sorted by it.
pub proof fn law_dated_come_first(s: Seq<(ListId, TodoView)>, i: int, j: int)
    requires
        0 <= i < j < ordered_items(s, SortMode::DueDate).len(),
        ordered_items(s, SortMode::DueDate)[j].1.due is Some,
    ensures
        ordered_items(s, SortMode::DueDate)[i].1.due is Some,
        ordered_items(s, SortMode::DueDate)[i].1.due->0 <= ordered_items(
            s,
            SortMode::DueDate,
        )[j].1.due->0,
{
    crate::order::law_sorted::<SortMode, (ListId, TodoItem)>(s, SortMode::DueDate);
    let t = ordered_items(s, SortMode::DueDate);
    assert(!<(ListId, TodoItem) as Ordered<SortMode>>::before(t[j], t[i], SortMode::DueDate));
}

} // verus!
