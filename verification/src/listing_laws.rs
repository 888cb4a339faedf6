//! What holds of the lists and the todos that are shown.
use vstd::prelude::*;

use crate::db::{
    all_stored, item_rows, list_rows, row_item, rows_of_list, ByDueTime, ByName, ByOrderKey, Db,
    ItemRow, ItemRowView, ListRow, ListRowView,
};
use crate::listing::{
    highest_priority, law_highest_priority, law_nearest_due, meta_items, nearest_due, open_count,
    ordered_items, ordered_lists, pane_items, summaries, summary_of, view_items,
};
use crate::model::{
    ListId, ListSummary, MetaList, Priority, SortMode, SummaryView, TodoItem, TodoView, ViewTarget,
};
use crate::order::{law_sorted, sorted, text_before, Ordered};
use crate::text::lowercase;

verus! {

/// Sorting neither loses nor invents anything.
proof fn lemma_sorted_has<C, T: Ordered<C>>(s: Seq<T::Shown>, order: C, x: T::Shown)
    ensures
        sorted::<C, T>(s, order).contains(x) == s.contains(x),
        sorted::<C, T>(s, order).len() == s.len(),
{
    broadcast use vstd::seq_lib::group_to_multiset_ensures;

    law_sorted::<C, T>(s, order);
    assert(sorted::<C, T>(s, order).to_multiset().count(x) == s.to_multiset().count(x));
}

/// Whether a todo of a list is stored.
pub open spec fn is_stored(db: Db, p: (ListId, TodoView)) -> bool {
    exists|k: int|
        0 <= k < db.items@.len() && p == (
            (#[trigger] db.items@[k]).list_id,
            row_item(db.items@[k]@),
        )
}

proof fn lemma_all_stored_has(db: Db, p: (ListId, TodoView))
    ensures
        all_stored(item_rows(db.items@)).contains(p) == is_stored(db, p),
        all_stored(item_rows(db.items@)).len() == db.items@.len(),
{
    let rows = item_rows(db.items@);
    let inner = sorted::<ByDueTime, ItemRow>(rows, ByDueTime);
    law_sorted::<ByDueTime, ItemRow>(rows, ByDueTime);
    if all_stored(rows).contains(p) {
        let i = choose|i: int| 0 <= i < all_stored(rows).len() && all_stored(rows)[i] == p;
        lemma_sorted_has::<ByDueTime, ItemRow>(rows, ByDueTime, inner[i]);
        assert(inner.contains(inner[i]));
        let k = choose|k: int| 0 <= k < rows.len() && rows[k] == inner[i];
        assert(db.items@[k]@ == inner[i]);
    }
    if is_stored(db, p) {
        let k = choose|k: int|
            0 <= k < db.items@.len() && p == (
                (#[trigger] db.items@[k]).list_id,
                row_item(db.items@[k]@),
            );
        assert(rows[k] == db.items@[k]@);
        lemma_sorted_has::<ByDueTime, ItemRow>(rows, ByDueTime, rows[k]);
        assert(rows.contains(rows[k]));
        let i = choose|i: int| 0 <= i < inner.len() && inner[i] == rows[k];
        assert(all_stored(rows)[i] == p);
    }
}

/// What a meta-list keeps: the open todos that belong to it, all of them, in their order.
pub proof fn law_meta_list_keeps_open_todos(
    all: Seq<(ListId, TodoView)>,
    meta: MetaList,
    now: i64,
)
    ensures
        meta_items(all, meta, now) == all.filter(
            |p: (ListId, TodoView)|
                !p.1.done && match meta {
                    MetaList::AllTasks => true,
                    MetaList::DueToday => p.1.due matches Some(d) && d as int / 86400 == now as int
                        / 86400,
                },
        ),
    decreases all.len(),
{
    reveal(Seq::filter);
    if all.len() > 0 {
        law_meta_list_keeps_open_todos(all.drop_last(), meta, now);
    }
}

/// A todo is in the view of a meta-list if and only if some list has it stored, it is not
/// done, and, for the list of what is due today, it is due on the day of `now`. So no view of a
/// meta-list shows a todo that is done.
pub proof fn law_meta_view(
    db: Db,
    meta: MetaList,
    order: SortMode,
    now: i64,
    p: (ListId, TodoView),
)
    ensures
        pane_items(db, Some(ViewTarget::Meta(meta)), order, now).contains(p) == (is_stored(db, p)
            && !p.1.done && match meta {
            MetaList::AllTasks => true,
            MetaList::DueToday => p.1.due matches Some(d) && d as int / 86400 == now as int / 86400,
        }),
{
    let all = all_stored(item_rows(db.items@));
    let kept = meta_items(all, meta, now);
    let wanted = |q: (ListId, TodoView)|
        !q.1.done && match meta {
            MetaList::AllTasks => true,
            MetaList::DueToday => q.1.due matches Some(d) && d as int / 86400 == now as int / 86400,
        };
    law_meta_list_keeps_open_todos(all, meta, now);
    assert(kept == all.filter(wanted));
    lemma_filter_has(all, wanted, p);
    lemma_all_stored_has(db, p);
    lemma_sorted_has::<SortMode, (ListId, TodoItem)>(kept, order, p);
}

proof fn lemma_filter_has<A>(s: Seq<A>, f: spec_fn(A) -> bool, x: A)
    ensures
        s.filter(f).contains(x) == (s.contains(x) && f(x)),
    decreases s.len(),
{
    reveal(Seq::filter);
    if s.len() > 0 {
        let init = s.drop_last();
        lemma_filter_has(init, f, x);
        let t = s.filter(f);
        if t.contains(x) {
            let i = choose|i: int| 0 <= i < t.len() && t[i] == x;
            if i < init.filter(f).len() {
                assert(init.filter(f)[i] == x);
                let k = choose|k: int| 0 <= k < init.len() && init[k] == x;
                assert(s[k] == x);
            } else {
                assert(s[s.len() - 1] == x);
            }
        }
        if s.contains(x) && f(x) {
            let k = choose|k: int| 0 <= k < s.len() && s[k] == x;
            if k < init.len() {
                assert(init[k] == x);
                let i = choose|i: int| 0 <= i < init.filter(f).len() && init.filter(f)[i] == x;
                assert(t[i] == x);
            } else {
                assert(t[t.len() - 1] == x);
            }
        }
    }
}

proof fn lemma_rows_are_filtered(s: Seq<ItemRowView>, id: ListId)
    ensures
        rows_of_list(s, id) == s.filter(|r: ItemRowView| r.list_id == id),
    decreases s.len(),
{
    reveal(Seq::filter);
    if s.len() > 0 {
        lemma_rows_are_filtered(s.drop_last(), id);
    }
}

/// A todo is in the view of a list if and only if it is stored as one of that list's, done or
/// not; and there are as many as the list has rows.
pub proof fn law_list_view(db: Db, id: ListId, order: SortMode, now: i64, p: (ListId, TodoView))
    ensures
        pane_items(db, Some(ViewTarget::List(id)), order, now).contains(p) == (p.0 == id
            && is_stored(db, p)),
        pane_items(db, Some(ViewTarget::List(id)), order, now).len() == item_rows(
            db.items@,
        ).filter(|r: ItemRowView| r.list_id == id).len(),
{
    let rows = item_rows(db.items@);
    let mine = rows_of_list(rows, id);
    let f = |r: ItemRowView| r.list_id == id;
    lemma_rows_are_filtered(rows, id);
    assert(mine == rows.filter(f));
    let inner = sorted::<ByOrderKey, ItemRow>(mine, ByOrderKey);
    law_sorted::<ByOrderKey, ItemRow>(mine, ByOrderKey);
    let shown = view_items(db, ViewTarget::List(id), now);
    assert(shown.len() == mine.len());
    lemma_sorted_has::<SortMode, (ListId, TodoItem)>(shown, order, p);
    if shown.contains(p) {
        let i = choose|i: int| 0 <= i < shown.len() && shown[i] == p;
        assert(p == (id, row_item(inner[i])));
        lemma_sorted_has::<ByOrderKey, ItemRow>(mine, ByOrderKey, inner[i]);
        assert(inner.contains(inner[i]));
        lemma_filter_has(rows, f, inner[i]);
        let k = choose|k: int| 0 <= k < rows.len() && rows[k] == inner[i];
        assert(db.items@[k]@ == rows[k]);
    }
    if p.0 == id && is_stored(db, p) {
        let k = choose|k: int|
            0 <= k < db.items@.len() && p == (
                (#[trigger] db.items@[k]).list_id,
                row_item(db.items@[k]@),
            );
        assert(rows[k] == db.items@[k]@);
        assert(rows.contains(rows[k]));
        lemma_filter_has(rows, f, rows[k]);
        lemma_sorted_has::<ByOrderKey, ItemRow>(mine, ByOrderKey, rows[k]);
        let i = choose|i: int| 0 <= i < inner.len() && inner[i] == rows[k];
        assert(shown[i] == p);
    }
}

/// Sorting the todos of a pane only reorders them, and puts them in the order asked for: by
/// title without regard to case, by due time with those that have none at the end, or by
/// priority with the most urgent first.
pub proof fn law_todos_are_in_order(
    s: Seq<(ListId, TodoView)>,
    order: SortMode,
    i: int,
    j: int,
)
    requires
        0 <= i < j < ordered_items(s, order).len(),
    ensures
        ({
            let a = ordered_items(s, order)[i].1;
            let b = ordered_items(s, order)[j].1;
            match order {
                SortMode::Alphabetical => !text_before(lowercase(b.title), lowercase(a.title)),
                SortMode::DueDate => (b.due is Some ==> a.due is Some) && (a.due is Some && b.due
                    is Some ==> a.due->0 <= b.due->0),
                SortMode::Priority => match b.priority {
                    Priority::High => a.priority == Priority::High,
                    Priority::Med => a.priority == Priority::High || a.priority == Priority::Med,
                    Priority::Low => a.priority != Priority::Unset,
                    Priority::Unset => true,
                },
            }
        }),
        ordered_items(s, order).to_multiset() == s.to_multiset(),
{
    law_sorted::<SortMode, (ListId, TodoItem)>(s, order);
    let t = ordered_items(s, order);
    assert(!<(ListId, TodoItem) as Ordered<SortMode>>::before(t[j], t[i], order));
}

/// Sorting the lists only reorders them, and puts them in the order asked for: by name without
/// regard to case, by the nearest due time with those that have none at the end, or by the
/// highest priority with the most urgent first.
pub proof fn law_lists_are_in_order(s: Seq<SummaryView>, order: SortMode, i: int, j: int)
    requires
        0 <= i < j < ordered_lists(s, order).len(),
    ensures
        ({
            let a = ordered_lists(s, order)[i];
            let b = ordered_lists(s, order)[j];
            match order {
                SortMode::Alphabetical => !text_before(lowercase(b.name), lowercase(a.name)),
                SortMode::DueDate => (b.next_due is Some ==> a.next_due is Some) && (a.next_due
                    is Some && b.next_due is Some ==> a.next_due->0 <= b.next_due->0) && (
                a.next_due is None && b.next_due is None ==> !text_before(
                    lowercase(b.name),
                    lowercase(a.name),
                )),
                SortMode::Priority => match b.top_priority {
                    Priority::High => a.top_priority == Priority::High,
                    Priority::Med => a.top_priority == Priority::High || a.top_priority
                        == Priority::Med,
                    Priority::Low => a.top_priority != Priority::Unset,
                    Priority::Unset => true,
                },
            }
        }),
        ordered_lists(s, order).to_multiset() == s.to_multiset(),
{
    law_sorted::<SortMode, ListSummary>(s, order);
    let t = ordered_lists(s, order);
    assert(!<ListSummary as Ordered<SortMode>>::before(t[j], t[i], order));
}

/// A summary counts the todos of its list that are not done.
pub proof fn law_summary_counts_open_todos(all: Seq<(ListId, TodoView)>, id: ListId)
    ensures
        open_count(all, id) == all.filter(|p: (ListId, TodoView)| p.0 == id && !p.1.done).len(),
    decreases all.len(),
{
    reveal(Seq::filter);
    if all.len() > 0 {
        law_summary_counts_open_todos(all.drop_last(), id);
    }
}

/// A summary tells the nearest due time and the highest priority among the todos of its list
/// that are not done: no such todo is due earlier or more urgent, and one is due then, or has
/// that priority. A todo that is done, or of another list, does not count.
pub proof fn law_summary_of_open_todos(all: Seq<(ListId, TodoView)>, id: ListId, i: int)
    requires
        0 <= i < all.len(),
        all[i].0 == id,
        !all[i].1.done,
    ensures
        all[i].1.due is Some ==> (nearest_due(all, id) matches Some(d) && d <= all[i].1.due->0),
        all[i].1.priority == Priority::High ==> highest_priority(all, id) == Priority::High,
        all[i].1.priority == Priority::Med ==> highest_priority(all, id) == Priority::High
            || highest_priority(all, id) == Priority::Med,
        all[i].1.priority == Priority::Low ==> highest_priority(all, id) != Priority::Unset,
{
    if all[i].1.due is Some {
        law_nearest_due(all, id, i);
    }
    law_highest_priority(all, id, i);
}

/// What a summary tells of due times and priorities is true of some todo of its list that is
/// not done; where there is none, it tells nothing.
pub proof fn law_summary_is_of_some_todo(all: Seq<(ListId, TodoView)>, id: ListId)
    ensures
        nearest_due(all, id) is Some ==> exists|j: int|
            0 <= j < all.len() && (#[trigger] all[j]).0 == id && !all[j].1.done && all[j].1.due
                == nearest_due(all, id),
        highest_priority(all, id) != Priority::Unset ==> exists|j: int|
            0 <= j < all.len() && (#[trigger] all[j]).0 == id && !all[j].1.done
                && all[j].1.priority == highest_priority(all, id),
    decreases all.len(),
{
    if all.len() > 0 {
        let init = all.drop_last();
        law_summary_is_of_some_todo(init, id);
        assert(all.last() == all[all.len() - 1]);
        if nearest_due(all, id) is Some && nearest_due(all, id) == nearest_due(init, id) {
            let j = choose|j: int|
                0 <= j < init.len() && (#[trigger] init[j]).0 == id && !init[j].1.done
                    && init[j].1.due == nearest_due(init, id);
            assert(all[j] == init[j]);
        }
        if highest_priority(all, id) != Priority::Unset && highest_priority(all, id)
            == highest_priority(init, id) {
            let j = choose|j: int|
                0 <= j < init.len() && (#[trigger] init[j]).0 == id && !init[j].1.done
                    && init[j].1.priority == highest_priority(init, id);
            assert(all[j] == init[j]);
        }
    }
}

/// Every list that is stored has its summary, under its own number and name, with the role in
/// it and what its own todos add up to; and there is no other.
pub proof fn law_every_list_has_its_summary(db: Db, s: SummaryView)
    ensures
        summaries(db).len() == db.lists@.len(),
        summaries(db).contains(s) == exists|k: int|
            {
                let row = #[trigger] db.lists@[k];
                let all = all_stored(item_rows(db.items@));
                &&& 0 <= k < db.lists@.len()
                &&& s.id == row.list_id && s.name == row.name@ && s.role == row.role
                &&& s.open_count == all.filter(
                    |p: (ListId, TodoView)| p.0 == row.list_id && !p.1.done,
                ).len()
                &&& s.next_due == nearest_due(all, row.list_id)
                &&& s.top_priority == highest_priority(all, row.list_id)
            },
{
    let rows = list_rows(db.lists@);
    let all = all_stored(item_rows(db.items@));
    let inner = sorted::<ByName, ListRow>(rows, ByName);
    law_sorted::<ByName, ListRow>(rows, ByName);
    if summaries(db).contains(s) {
        let i = choose|i: int| 0 <= i < summaries(db).len() && summaries(db)[i] == s;
        lemma_sorted_has::<ByName, ListRow>(rows, ByName, inner[i]);
        assert(inner.contains(inner[i]));
        let k = choose|k: int| 0 <= k < rows.len() && rows[k] == inner[i];
        assert(db.lists@[k]@ == inner[i]);
        law_summary_counts_open_todos(all, db.lists@[k].list_id);
    }
    if exists|k: int|
        {
            let row = #[trigger] db.lists@[k];
            &&& 0 <= k < db.lists@.len()
            &&& s.id == row.list_id && s.name == row.name@ && s.role == row.role
            &&& s.open_count == all.filter(
                |p: (ListId, TodoView)| p.0 == row.list_id && !p.1.done,
            ).len()
            &&& s.next_due == nearest_due(all, row.list_id)
            &&& s.top_priority == highest_priority(all, row.list_id)
        } {
        let k = choose|k: int|
            {
                let row = #[trigger] db.lists@[k];
                &&& 0 <= k < db.lists@.len()
                &&& s.id == row.list_id && s.name == row.name@ && s.role == row.role
                &&& s.open_count == all.filter(
                    |p: (ListId, TodoView)| p.0 == row.list_id && !p.1.done,
                ).len()
                &&& s.next_due == nearest_due(all, row.list_id)
                &&& s.top_priority == highest_priority(all, row.list_id)
            };
        law_summary_counts_open_todos(all, db.lists@[k].list_id);
        assert(rows[k] == db.lists@[k]@);
        assert(rows.contains(rows[k]));
        lemma_sorted_has::<ByName, ListRow>(rows, ByName, rows[k]);
        let i = choose|i: int| 0 <= i < inner.len() && inner[i] == rows[k];
        assert(summaries(db)[i] == summary_of(rows[k], all));
        assert(summaries(db)[i] == s);
    }
}

/// The todos of a list are stored in the order of their keys, those of all lists in the order of
/// their due times, those without one first; and lists in the order of their names.
pub proof fn law_stored_order(items: Seq<ItemRowView>, lists: Seq<ListRowView>, i: int, j: int)
    requires
        0 <= i < j,
    ensures
        ({
            let t = sorted::<ByOrderKey, ItemRow>(items, ByOrderKey);
            j < t.len() && t[i].order_key is Some && t[j].order_key is Some ==> !text_before(
                t[j].order_key->0,
                t[i].order_key->0,
            )
        }),
        ({
            let t = sorted::<ByOrderKey, ItemRow>(items, ByOrderKey);
            j < t.len() && t[j].order_key is None ==> t[i].order_key is None
        }),
        ({
            let t = sorted::<ByDueTime, ItemRow>(items, ByDueTime);
            j < t.len() ==> (t[j].due_at is None ==> t[i].due_at is None) && (t[i].due_at is Some
                && t[j].due_at is Some ==> t[i].due_at->0 <= t[j].due_at->0)
        }),
        ({
            let t = sorted::<ByName, ListRow>(lists, ByName);
            j < t.len() ==> !text_before(t[j].name, t[i].name)
        }),
{
    law_sorted::<ByOrderKey, ItemRow>(items, ByOrderKey);
    law_sorted::<ByDueTime, ItemRow>(items, ByDueTime);
    law_sorted::<ByName, ListRow>(lists, ByName);
    let a = sorted::<ByOrderKey, ItemRow>(items, ByOrderKey);
    let b = sorted::<ByDueTime, ItemRow>(items, ByDueTime);
    let c = sorted::<ByName, ListRow>(lists, ByName);
    if j < a.len() {
        assert(!<ItemRow as Ordered<ByOrderKey>>::before(a[j], a[i], ByOrderKey));
    }
    if j < b.len() {
        assert(!<ItemRow as Ordered<ByDueTime>>::before(b[j], b[i], ByDueTime));
    }
    if j < c.len() {
        assert(!<ListRow as Ordered<ByName>>::before(c[j], c[i], ByName));
    }
}

} // verus!
