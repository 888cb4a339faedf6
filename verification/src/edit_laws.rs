//! What the edits of a list's document come to, told by the todos that are read before and
//! afterwards.
use vstd::prelude::*;
use vstd::string::*;

use crate::dates::{in_calendar, padded};
use crate::doc_value::{
    all_subtasks, all_texts, all_todos, bare, bare_all, field, held_list, held_map, live_list,
    live_map, projected, subtask_of, todo_of, Datum, Kind,
};
use crate::list_doc::{
    entry, flag_in, law_added_todo_reads_back, law_updated_todo_reads_back, numbered, slot,
    text_in, text_place, DocError, DocView,
};
use crate::model::{law_priority_rank_round_trip, InputView, Priority, SubtaskView, TodoView};
use crate::store::{edited, EditView};

verus! {

// ── Reading ─────────────────────────────────────────────────────────────────

/// The todos that a document shows.
pub open spec fn shown(d: DocView) -> Seq<TodoView> {
    projected(bare_all(d.items()))
}

/// Whether every item of a document can be read as a todo.
pub open spec fn legible(d: DocView) -> bool {
    all_todos(bare_all(d.items())) is Some
}

/// Whether an item is the first with a number.
pub open spec fn is_first(s: Seq<Datum>, id: Seq<char>, i: int) -> bool {
    &&& 0 <= i < s.len()
    &&& text_in(s[i], "id"@) == Some(id)
    &&& forall|j: int| 0 <= j < i ==> text_in(#[trigger] s[j], "id"@) != Some(id)
}

/// Whether a map has a mark under a name, or nothing.
pub open spec fn marked(m: Map<Seq<char>, Datum>, name: Seq<char>) -> bool {
    m.contains_key(name) ==> m[name] is Bool
}

proof fn lemma_numbered_first(s: Seq<Datum>, id: Seq<char>)
    ensures
        match numbered(s, id) {
            Some(i) => is_first(s, id, i) && live_map(s[i]) is Some && s[i] == held_map(
                live_map(s[i])->0,
            ),
            None => forall|j: int|
                0 <= j < s.len() ==> text_in(#[trigger] s[j], "id"@) != Some(id),
        },
    decreases s.len(),
{
    if s.len() > 0 {
        let init = s.drop_last();
        lemma_numbered_first(init, id);
        assert forall|j: int| 0 <= j < init.len() implies #[trigger] s[j] == init[j] by {}
    }
}

proof fn lemma_text_place(s: Seq<Datum>, text: Seq<char>)
    ensures
        match text_place(s, text) {
            Some(i) => 0 <= i < s.len() && s[i] == Datum::Text(text) && (forall|j: int|
                0 <= j < i ==> #[trigger] s[j] != Datum::Text(text)),
            None => forall|j: int| 0 <= j < s.len() ==> #[trigger] s[j] != Datum::Text(text),
        },
    decreases s.len(),
{
    if s.len() > 0 {
        let init = s.drop_last();
        lemma_text_place(init, text);
        assert forall|j: int| 0 <= j < init.len() implies #[trigger] s[j] == init[j] by {}
    }
}

/// Values are todos if and only if each is one at its position.
proof fn lemma_all_todos(s: Seq<Datum>)
    ensures
        all_todos(s) is Some == forall|i: int|
            0 <= i < s.len() ==> todo_of(#[trigger] s[i], i as nat) is Some,
        all_todos(s) matches Some(t) ==> t.len() == s.len() && forall|i: int|
            0 <= i < s.len() ==> todo_of(s[i], i as nat) == Some(#[trigger] t[i]),
    decreases s.len(),
{
    if s.len() > 0 {
        let init = s.drop_last();
        lemma_all_todos(init);
        assert forall|j: int| 0 <= j < init.len() implies #[trigger] s[j] == init[j] by {}
        if all_todos(s) is None && (forall|i: int|
            0 <= i < s.len() ==> todo_of(#[trigger] s[i], i as nat) is Some) {
            assert(todo_of(s[s.len() - 1], (s.len() - 1) as nat) is Some);
            assert forall|j: int| 0 <= j < init.len() implies todo_of(
                #[trigger] init[j],
                j as nat,
            ) is Some by {
                assert(s[j] == init[j]);
            }
        }
    }
}

/// Values are subtasks if and only if each is one.
proof fn lemma_all_subtasks(s: Seq<Datum>)
    ensures
        all_subtasks(s) is Some == forall|i: int|
            0 <= i < s.len() ==> subtask_of(#[trigger] s[i]) is Some,
        all_subtasks(s) matches Some(t) ==> t.len() == s.len() && forall|i: int|
            0 <= i < s.len() ==> subtask_of(s[i]) == Some(#[trigger] t[i]),
    decreases s.len(),
{
    if s.len() > 0 {
        let init = s.drop_last();
        lemma_all_subtasks(init);
        assert forall|j: int| 0 <= j < init.len() implies #[trigger] s[j] == init[j] by {}
        if all_subtasks(s) is None && (forall|i: int|
            0 <= i < s.len() ==> subtask_of(#[trigger] s[i]) is Some) {
            assert(subtask_of(s[s.len() - 1]) is Some);
            assert forall|j: int| 0 <= j < init.len() implies subtask_of(
                #[trigger] init[j],
            ) is Some by {
                assert(s[j] == init[j]);
            }
        }
    }
}

/// Values are texts if and only if each is one.
proof fn lemma_all_texts(s: Seq<Datum>)
    ensures
        all_texts(s) is Some == forall|i: int| 0 <= i < s.len() ==> #[trigger] s[i] is Text,
        all_texts(s) matches Some(t) ==> t.len() == s.len() && forall|i: int|
            0 <= i < s.len() ==> s[i] == Datum::Text(#[trigger] t[i]),
    decreases s.len(),
{
    if s.len() > 0 {
        let init = s.drop_last();
        lemma_all_texts(init);
        assert forall|j: int| 0 <= j < init.len() implies #[trigger] s[j] == init[j] by {}
        if all_texts(s) is None && (forall|i: int|
            0 <= i < s.len() ==> #[trigger] s[i] is Text) {
            assert(s[s.len() - 1] is Text);
            assert forall|j: int| 0 <= j < init.len() implies #[trigger] init[j] is Text by {
                assert(s[j] == init[j]);
            }
        }
    }
}

/// The names of the fields are all different.
proof fn lemma_names()
    ensures
        "id"@ != "title"@ && "id"@ != "notes"@ && "id"@ != "due"@ && "id"@ != "priority"@ && "id"@
            != "done"@ && "id"@ != "tags"@ && "id"@ != "subtasks"@,
        "title"@ != "notes"@ && "title"@ != "due"@ && "title"@ != "priority"@ && "title"@
            != "done"@ && "title"@ != "tags"@ && "title"@ != "subtasks"@,
        "notes"@ != "due"@ && "notes"@ != "priority"@ && "notes"@ != "done"@ && "notes"@ != "tags"@
            && "notes"@ != "subtasks"@,
        "due"@ != "priority"@ && "due"@ != "done"@ && "due"@ != "tags"@ && "due"@ != "subtasks"@,
        "priority"@ != "done"@ && "priority"@ != "tags"@ && "priority"@ != "subtasks"@,
        "done"@ != "tags"@ && "done"@ != "subtasks"@,
        "tags"@ != "subtasks"@,
{
    reveal_strlit("id");
    reveal_strlit("title");
    reveal_strlit("notes");
    reveal_strlit("due");
    reveal_strlit("priority");
    reveal_strlit("done");
    reveal_strlit("tags");
    reveal_strlit("subtasks");
    assert("id"@[0] == 'i');
    assert("title"@[0] == 't' && "title"@[1] == 'i');
    assert("tags"@[0] == 't' && "tags"@[1] == 'a');
    assert("notes"@[0] == 'n');
    assert("due"@[0] == 'd' && "due"@[1] == 'u');
    assert("done"@[0] == 'd' && "done"@[1] == 'o');
    assert("priority"@[0] == 'p');
    assert("subtasks"@[0] == 's');
}

/// A field of a map container, as it is read.
proof fn lemma_field(m: Map<Seq<char>, Datum>, name: Seq<char>, pos: int)
    ensures
        bare(held_map(m)) is Table,
        field(bare(held_map(m)), name, pos) == (if m.contains_key(name) {
            Some(bare(m[name]))
        } else {
            None
        }),
{
    reveal_with_fuel(bare, 3);
}

proof fn lemma_bare_list(kind: Kind, s: Seq<Datum>)
    ensures
        bare(held_list(kind, s)) == Datum::List(bare_all(s)),
{
    reveal_with_fuel(bare, 3);
    let b = bare(held_list(kind, s));
    assert(b is List);
    assert(b->List_0 =~= bare_all(s));
}

/// Where one entry of a map changes, the other fields read as before.
proof fn lemma_other_fields(
    m: Map<Seq<char>, Datum>,
    n: Map<Seq<char>, Datum>,
    name: Seq<char>,
    other: Seq<char>,
    pos: int,
)
    requires
        name != other,
        n == m.remove(name) || n == m.insert(name, n[name]),
    ensures
        field(bare(held_map(n)), other, pos) == field(bare(held_map(m)), other, pos),
{
    lemma_field(m, other, pos);
    lemma_field(n, other, pos);
}

proof fn lemma_others_of_todo(m: Map<Seq<char>, Datum>, n: Map<Seq<char>, Datum>, name: Seq<char>)
    requires
        n == m.remove(name) || n == m.insert(name, n[name]),
    ensures
        bare(held_map(n)) is Table && bare(held_map(m)) is Table,
        name != "id"@ ==> field(bare(held_map(n)), "id"@, 0) == field(
            bare(held_map(m)),
            "id"@,
            0,
        ),
        name != "title"@ ==> field(bare(held_map(n)), "title"@, 1) == field(
            bare(held_map(m)),
            "title"@,
            1,
        ),
        name != "notes"@ ==> field(bare(held_map(n)), "notes"@, 2) == field(
            bare(held_map(m)),
            "notes"@,
            2,
        ),
        name != "due"@ ==> field(bare(held_map(n)), "due"@, 3) == field(
            bare(held_map(m)),
            "due"@,
            3,
        ),
        name != "priority"@ ==> field(bare(held_map(n)), "priority"@, 4) == field(
            bare(held_map(m)),
            "priority"@,
            4,
        ),
        name != "done"@ ==> field(bare(held_map(n)), "done"@, 5) == field(
            bare(held_map(m)),
            "done"@,
            5,
        ),
        name != "tags"@ ==> field(bare(held_map(n)), "tags"@, 6) == field(
            bare(held_map(m)),
            "tags"@,
            6,
        ),
        name != "subtasks"@ ==> field(bare(held_map(n)), "subtasks"@, 7) == field(
            bare(held_map(m)),
            "subtasks"@,
            7,
        ),
{
    lemma_field(m, "id"@, 0);
    lemma_field(n, "id"@, 0);
    if name != "id"@ {
        lemma_other_fields(m, n, name, "id"@, 0);
    }
    if name != "title"@ {
        lemma_other_fields(m, n, name, "title"@, 1);
    }
    if name != "notes"@ {
        lemma_other_fields(m, n, name, "notes"@, 2);
    }
    if name != "due"@ {
        lemma_other_fields(m, n, name, "due"@, 3);
    }
    if name != "priority"@ {
        lemma_other_fields(m, n, name, "priority"@, 4);
    }
    if name != "done"@ {
        lemma_other_fields(m, n, name, "done"@, 5);
    }
    if name != "tags"@ {
        lemma_other_fields(m, n, name, "tags"@, 6);
    }
    if name != "subtasks"@ {
        lemma_other_fields(m, n, name, "subtasks"@, 7);
    }
}

/// The todo at a position, and what is read once another is in its place.
proof fn lemma_shown_with(d: DocView, i: int, n: Map<Seq<char>, Datum>)
    requires
        legible(d),
        0 <= i < d.items().len(),
    ensures
        shown(d).len() == d.items().len(),
        todo_of(bare(d.items()[i]), i as nat) == Some(shown(d)[i]),
        todo_of(bare(held_map(n)), i as nat) matches Some(t) ==> legible(d.with(i, n)) && shown(
            d.with(i, n),
        ) == shown(d).update(i, t),
{
    let s = bare_all(d.items());
    lemma_all_todos(s);
    assert(s[i] == bare(d.items()[i]));
    assert(shown(d)[i] == (all_todos(s)->0)[i]);
    if let Some(t) = todo_of(bare(held_map(n)), i as nat) {
        let s2 = bare_all(d.with(i, n).items());
        assert(s2 =~= s.update(i, bare(held_map(n))));
        lemma_all_todos(s2);
        assert forall|j: int| 0 <= j < s2.len() implies todo_of(#[trigger] s2[j], j as nat)
            is Some by {
            if j != i {
                assert(s2[j] == s[j]);
            }
        }
        assert forall|j: int| 0 <= j < s2.len() implies (all_todos(s2)->0)[j] == shown(d).update(
            i,
            t,
        )[j] by {
            assert(todo_of(s2[j], j as nat) == Some((all_todos(s2)->0)[j]));
            if j != i {
                assert(s2[j] == s[j]);
                assert(todo_of(s[j], j as nat) == Some((all_todos(s)->0)[j]));
            }
        }
        assert(all_todos(s2)->0 =~= shown(d).update(i, t));
    }
}

proof fn lemma_known(d: DocView, id: Seq<char>, k: int)
    requires
        0 <= k < d.items().len(),
        text_in(d.items()[k], "id"@) == Some(id),
    ensures
        d.position(id) matches Some(i) && is_first(d.items(), id, i) && d.items()[i] == held_map(
            d.todo(id),
        ) && d.todo(id).contains_key("id"@) && d.todo(id)["id"@] == Datum::Text(id),
        legible(d) ==> shown(d)[d.position(id)->0].id == id,
{
    lemma_numbered_first(d.items(), id);
    let i = d.position(id)->0;
    if legible(d) {
        lemma_shown_with(d, i, d.todo(id));
        lemma_field(d.todo(id), "id"@, 0);
    }
}

/// What is found under a number is the first item that has it.
pub proof fn law_found_by_number(d: DocView, id: Seq<char>)
    ensures
        match d.position(id) {
            Some(i) => is_first(d.items(), id, i),
            None => forall|j: int|
                0 <= j < d.items().len() ==> text_in(#[trigger] d.items()[j], "id"@) != Some(id),
        },
{
    lemma_numbered_first(d.items(), id);
}

// ── Marks, priorities, due times ────────────────────────────────────────────

/// An edit of a todo whose number no item has is refused, and changes nothing.
pub proof fn law_edit_of_an_unknown_todo(
    before: DocView,
    e: EditView,
    r: Result<Option<String>, DocError>,
    after: DocView,
    id: Seq<char>,
)
    requires
        edited(before, e, r, after),
        match e {
            EditView::UpdateItem(x, _) => x == id,
            EditView::ToggleDone(x) => x == id,
            EditView::SetPriority(x, _) => x == id,
            EditView::SetDue(x, _) => x == id,
            EditView::RemoveItem(x) => x == id,
            EditView::AddTag(x, _) => x == id,
            EditView::RemoveTag(x, _) => x == id,
            EditView::AddSubtask(x, _) => x == id,
            EditView::ToggleSubtask(x, _) => x == id,
            EditView::RemoveSubtask(x, _) => x == id,
            _ => false,
        },
        forall|j: int|
            0 <= j < before.items().len() ==> text_in(#[trigger] before.items()[j], "id"@) != Some(
                id,
            ),
    ensures
        r == Err::<Option<String>, DocError>(DocError::UnknownId),
        after == before,
{
    lemma_numbered_first(before.items(), id);
}

/// To toggle a todo flips the mark that is read of the first todo with the number, and
/// changes nothing else: so toggling it twice gives back what was read.
pub proof fn law_toggle_flips_the_mark(
    before: DocView,
    r: Result<Option<String>, DocError>,
    after: DocView,
    id: Seq<char>,
    k: int,
) -> (i: int)
    requires
        edited(before, EditView::ToggleDone(id), r, after),
        legible(before),
        0 <= k < before.items().len(),
        text_in(before.items()[k], "id"@) == Some(id),
        marked(before.todo(id), "done"@),
    ensures
        r is Ok,
        is_first(before.items(), id, i),
        shown(before)[i].id == id,
        legible(after),
        shown(after) == shown(before).update(
            i,
            TodoView { done: !shown(before)[i].done, ..shown(before)[i] },
        ),
{
    lemma_known(before, id, k);
    lemma_names();
    let i = before.position(id)->0;
    let m = before.todo(id);
    let n = m.insert("done"@, Datum::Bool(!flag_in(m, "done"@)));
    lemma_others_of_todo(m, n, "done"@);
    lemma_field(m, "done"@, 5);
    lemma_field(n, "done"@, 5);
    lemma_shown_with(before, i, n);
    i
}

/// To set a priority changes the priority that is read of the first todo with the number, and
/// nothing else.
pub proof fn law_set_priority_reads_back(
    before: DocView,
    r: Result<Option<String>, DocError>,
    after: DocView,
    id: Seq<char>,
    priority: Priority,
    k: int,
) -> (i: int)
    requires
        edited(before, EditView::SetPriority(id, priority), r, after),
        legible(before),
        0 <= k < before.items().len(),
        text_in(before.items()[k], "id"@) == Some(id),
    ensures
        r is Ok,
        is_first(before.items(), id, i),
        shown(before)[i].id == id,
        legible(after),
        shown(after) == shown(before).update(i, TodoView { priority, ..shown(before)[i] }),
{
    lemma_known(before, id, k);
    lemma_names();
    let i = before.position(id)->0;
    let m = before.todo(id);
    let n = m.insert("priority"@, Datum::Int(priority.level() as i64));
    law_priority_rank_round_trip(priority);
    lemma_others_of_todo(m, n, "priority"@);
    lemma_field(n, "priority"@, 4);
    lemma_shown_with(before, i, n);
    i
}

/// To set a due time changes the due time that is read of the first todo with the number, and
/// nothing else; a time beyond the calendar reads as none.
pub proof fn law_set_due_reads_back(
    before: DocView,
    r: Result<Option<String>, DocError>,
    after: DocView,
    id: Seq<char>,
    due: Option<i64>,
    k: int,
) -> (i: int)
    requires
        edited(before, EditView::SetDue(id, due), r, after),
        legible(before),
        0 <= k < before.items().len(),
        text_in(before.items()[k], "id"@) == Some(id),
    ensures
        r is Ok,
        is_first(before.items(), id, i),
        shown(before)[i].id == id,
        legible(after),
        due is None || in_calendar(due->0) ==> shown(after) == shown(before).update(
            i,
            TodoView { due, ..shown(before)[i] },
        ),
        due is Some && !in_calendar(due->0) ==> shown(after) == shown(before).update(
            i,
            TodoView { due: None, ..shown(before)[i] },
        ),
{
    lemma_known(before, id, k);
    lemma_names();
    let i = before.position(id)->0;
    let m = before.todo(id);
    let n = match due {
        Some(d) => m.insert("due"@, Datum::Int(d)),
        None => m.remove("due"@),
    };
    lemma_others_of_todo(m, n, "due"@);
    lemma_field(n, "due"@, 3);
    lemma_shown_with(before, i, n);
    i
}

// ── Whole todos ─────────────────────────────────────────────────────────────

/// A todo that is added is read behind all the others, with its new number and as the form
/// said, not done and without subtasks; the others read as before.
pub proof fn law_add_reads_back(
    before: DocView,
    r: Result<Option<String>, DocError>,
    after: DocView,
    input: InputView,
)
    requires
        edited(before, EditView::AddItem(input), r, after),
        legible(before),
    ensures
        r matches Ok(Some(_)),
        legible(after),
        shown(after).len() == shown(before).len() + 1,
        shown(after).drop_last() == shown(before),
        ({
            let t = shown(after).last();
            &&& t.id == r->Ok_0->0@
            &&& t.title == input.title && t.notes == input.notes && t.tags == input.tags
            &&& t.priority == input.priority && !t.done && t.subtasks.len() == 0
            &&& input.due is None || in_calendar(input.due->0) ==> t.due == input.due
            &&& input.due is Some && !in_calendar(input.due->0) ==> t.due is None
            &&& t.order_key == padded(before.items().len(), 8)
        }),
{
    let id = r->Ok_0->0@;
    law_added_todo_reads_back(before.items(), id, input);
    lemma_all_todos(bare_all(before.items()));
    lemma_all_todos(bare_all(after.items()));
    assert(shown(after).drop_last() =~= shown(before));
}

/// A todo that a form overwrites is read as the form said, with its number, its mark and its
/// subtasks as before; the others read as before, and there are as many.
pub proof fn law_update_reads_back(
    before: DocView,
    r: Result<Option<String>, DocError>,
    after: DocView,
    id: Seq<char>,
    input: InputView,
    k: int,
) -> (i: int)
    requires
        edited(before, EditView::UpdateItem(id, input), r, after),
        legible(before),
        0 <= k < before.items().len(),
        text_in(before.items()[k], "id"@) == Some(id),
        r is Ok,
    ensures
        is_first(before.items(), id, i),
        shown(before)[i].id == id,
        legible(after),
        shown(after).len() == shown(before).len(),
        shown(after) == shown(before).update(
            i,
            TodoView {
                id,
                title: input.title,
                notes: input.notes,
                tags: input.tags,
                priority: input.priority,
                due: if input.due is Some && in_calendar(input.due->0) {
                    input.due
                } else {
                    None
                },
                done: shown(before)[i].done,
                subtasks: shown(before)[i].subtasks,
                order_key: shown(before)[i].order_key,
            },
        ),
{
    lemma_known(before, id, k);
    let i = before.position(id)->0;
    lemma_shown_with(before, i, before.todo(id));
    law_updated_todo_reads_back(before.items(), i, input);
    lemma_all_todos(bare_all(before.items()));
    lemma_all_todos(bare_all(after.items()));
    assert(after.items().len() == before.items().len());
    if !legible(after) {
        assert(shown(after).len() == 0);
    }
    i
}

/// A todo has its tags overwritten by a form, and the edit succeeds, where it has no tags yet
/// or has them in a list of their own.
pub proof fn law_update_succeeds(
    before: DocView,
    r: Result<Option<String>, DocError>,
    after: DocView,
    id: Seq<char>,
    input: InputView,
    k: int,
)
    requires
        edited(before, EditView::UpdateItem(id, input), r, after),
        0 <= k < before.items().len(),
        text_in(before.items()[k], "id"@) == Some(id),
        before.todo(id).contains_key("tags"@) ==> live_list(
            before.todo(id)["tags"@],
            Kind::List,
        ) is Some,
    ensures
        r is Ok,
{
    lemma_known(before, id, k);
}

/// What is read of an item does not depend on where it is, but for its place.
proof fn lemma_place_does_not_matter(v: Datum, p: nat, q: nat)
    ensures
        todo_of(v, p) is Some == todo_of(v, q) is Some,
        todo_of(v, p) is Some ==> todo_of(v, q) == Some(
            TodoView { order_key: padded(q, 8), ..todo_of(v, p)->0 },
        ),
{
}

/// What is read where items stand at other places, or are gone.
proof fn lemma_picked(a: DocView, b: DocView, from: spec_fn(int) -> int)
    requires
        legible(a),
        forall|j: int|
            0 <= j < b.items().len() ==> 0 <= from(j) < a.items().len() && #[trigger] b.items()[j]
                == a.items()[from(j)],
    ensures
        legible(b),
        shown(a).len() == a.items().len(),
        shown(b).len() == b.items().len(),
        forall|j: int|
            0 <= j < b.items().len() ==> #[trigger] shown(b)[j] == (TodoView {
                order_key: padded(j as nat, 8),
                ..shown(a)[from(j)]
            }),
{
    let s = bare_all(a.items());
    let t = bare_all(b.items());
    lemma_all_todos(s);
    lemma_all_todos(t);
    assert forall|j: int| 0 <= j < t.len() implies todo_of(#[trigger] t[j], j as nat) is Some by {
        assert(b.items()[j] == a.items()[from(j)]);
        assert(t[j] == s[from(j)]);
        lemma_place_does_not_matter(t[j], from(j) as nat, j as nat);
        assert(todo_of(s[from(j)], from(j) as nat) is Some);
    }
    assert forall|j: int| 0 <= j < b.items().len() implies #[trigger] shown(b)[j] == (TodoView {
        order_key: padded(j as nat, 8),
        ..shown(a)[from(j)]
    }) by {
        assert(b.items()[j] == a.items()[from(j)]);
        assert(t[j] == s[from(j)]);
        lemma_place_does_not_matter(t[j], from(j) as nat, j as nat);
        assert(todo_of(s[from(j)], from(j) as nat) == Some((all_todos(s)->0)[from(j)]));
        assert(todo_of(t[j], j as nat) == Some((all_todos(t)->0)[j]));
    }
}

/// To remove a todo takes the first with the number out, and no other: those behind it move
/// up by one place and read as before.
pub proof fn law_remove_takes_one_out(
    before: DocView,
    r: Result<Option<String>, DocError>,
    after: DocView,
    id: Seq<char>,
    k: int,
) -> (i: int)
    requires
        edited(before, EditView::RemoveItem(id), r, after),
        legible(before),
        0 <= k < before.items().len(),
        text_in(before.items()[k], "id"@) == Some(id),
    ensures
        r is Ok,
        is_first(before.items(), id, i),
        shown(before)[i].id == id,
        legible(after),
        shown(after).len() == shown(before).len() - 1,
        forall|j: int|
            0 <= j < shown(after).len() ==> #[trigger] shown(after)[j] == (TodoView {
                order_key: padded(j as nat, 8),
                ..shown(before)[if j < i {
                    j
                } else {
                    j + 1
                }]
            }),
{
    lemma_known(before, id, k);
    let i = before.position(id)->0;
    let from = |j: int|
        if j < i {
            j
        } else {
            j + 1
        };
    assert(after.items() == before.items().remove(i));
    lemma_picked(before, after, from);
    i
}

/// To move a todo puts the one that was at a place at another, and keeps the order of the
/// rest; it succeeds if and only if both are places of the list, or they are the same.
pub proof fn law_move_keeps_the_rest_in_order(
    before: DocView,
    r: Result<Option<String>, DocError>,
    after: DocView,
    from: usize,
    to: usize,
)
    requires
        edited(before, EditView::MoveItem(from, to), r, after),
        legible(before),
    ensures
        r is Ok == (from == to || (from < before.items().len() && to < before.items().len())),
        r is Err ==> r->Err_0 == DocError::Refused && after == before,
        legible(after),
        shown(after).len() == shown(before).len(),
        from == to ==> after == before,
        r is Ok && from != to ==> forall|j: int|
            0 <= j < shown(after).len() ==> #[trigger] shown(after)[j] == (TodoView {
                order_key: padded(j as nat, 8),
                ..shown(before)[if j == to {
                    from as int
                } else if from <= j < to {
                    j + 1
                } else if to < j <= from {
                    j - 1
                } else {
                    j
                }]
            }),
{
    if r is Ok && from != to {
        let f = |j: int|
            if j == to {
                from as int
            } else if from <= j < to {
                j + 1
            } else if to < j <= from {
                j - 1
            } else {
                j
            };
        assert(after.items() == before.items().remove(from as int).insert(
            to as int,
            before.items()[from as int],
        ));
        lemma_picked(before, after, f);
    }
}

// ── Tags ────────────────────────────────────────────────────────────────────

/// The tags that are read of a todo are those of its list of tags.
proof fn lemma_tags_of(m: Map<Seq<char>, Datum>, position: nat)
    requires
        todo_of(bare(held_map(m)), position) is Some,
        slot(m, "tags"@, Kind::List) is Some,
    ensures
        ({
            let l = bare_all(slot(m, "tags"@, Kind::List)->0);
            let t = todo_of(bare(held_map(m)), position)->0.tags;
            &&& all_texts(l) == Some(t)
            &&& t.len() == l.len()
            &&& forall|j: int| 0 <= j < l.len() ==> l[j] == Datum::Text(#[trigger] t[j])
        }),
{
    lemma_field(m, "tags"@, 6);
    let l = slot(m, "tags"@, Kind::List)->0;
    if m.contains_key("tags"@) && !(m["tags"@] is Null) {
        assert(m["tags"@] == held_list(Kind::List, l));
        lemma_bare_list(Kind::List, l);
    }
    assert(bare_all(Seq::<Datum>::empty()) =~= Seq::empty());
    lemma_all_texts(bare_all(l));
}

proof fn lemma_tags_changed(d: DocView, i: int, m: Map<Seq<char>, Datum>, l: Seq<Datum>, t: Seq<
    Seq<char>,
>)
    requires
        legible(d),
        0 <= i < d.items().len(),
        d.items()[i] == held_map(m),
        l.len() == t.len(),
        forall|j: int| 0 <= j < l.len() ==> bare(#[trigger] l[j]) == Datum::Text(t[j]),
    ensures
        ({
            let n = m.insert("tags"@, held_list(Kind::List, l));
            &&& legible(d.with(i, n))
            &&& shown(d.with(i, n)) == shown(d).update(i, TodoView { tags: t, ..shown(d)[i] })
        }),
{
    let n = m.insert("tags"@, held_list(Kind::List, l));
    lemma_names();
    lemma_others_of_todo(m, n, "tags"@);
    lemma_field(n, "tags"@, 6);
    lemma_bare_list(Kind::List, l);
    lemma_all_texts(bare_all(l));
    assert forall|j: int| 0 <= j < l.len() implies #[trigger] bare_all(l)[j] is Text by {
        assert(bare(l[j]) == Datum::Text(t[j]));
    }
    assert forall|j: int| 0 <= j < l.len() implies (all_texts(bare_all(l))->0)[j] == t[j] by {
        assert(bare_all(l)[j] == bare(l[j]));
        assert(bare_all(l)[j] == Datum::Text((all_texts(bare_all(l))->0)[j]));
    }
    assert(all_texts(bare_all(l))->0 =~= t);
    lemma_shown_with(d, i, n);
}

/// A tag that is added comes behind the tags that a todo has; nothing else changes.
pub proof fn law_tag_is_added(
    before: DocView,
    r: Result<Option<String>, DocError>,
    after: DocView,
    id: Seq<char>,
    tag: Seq<char>,
    k: int,
) -> (i: int)
    requires
        edited(before, EditView::AddTag(id, tag), r, after),
        legible(before),
        0 <= k < before.items().len(),
        text_in(before.items()[k], "id"@) == Some(id),
        before.todo(id).contains_key("tags"@) ==> live_list(
            before.todo(id)["tags"@],
            Kind::List,
        ) is Some,
    ensures
        r is Ok,
        is_first(before.items(), id, i),
        shown(before)[i].id == id,
        legible(after),
        shown(after) == shown(before).update(
            i,
            TodoView { tags: shown(before)[i].tags.push(tag), ..shown(before)[i] },
        ),
{
    lemma_known(before, id, k);
    let i = before.position(id)->0;
    let m = before.todo(id);
    lemma_shown_with(before, i, m);
    lemma_tags_of(m, i as nat);
    let l = slot(m, "tags"@, Kind::List)->0;
    let t = shown(before)[i].tags;
    let l2 = l.push(Datum::Text(tag));
    assert forall|j: int| 0 <= j < l2.len() implies bare(#[trigger] l2[j]) == Datum::Text(
        t.push(tag)[j],
    ) by {
        if j < l.len() {
            assert(bare_all(l)[j] == bare(l[j]));
            assert(bare_all(l)[j] == Datum::Text(t[j]));
        }
    }
    lemma_tags_changed(before, i, m, l2, t.push(tag));
    i
}

/// To remove a tag takes its first occurrence out of the tags of a todo, and changes nothing
/// else.
pub proof fn law_tag_is_removed(
    before: DocView,
    r: Result<Option<String>, DocError>,
    after: DocView,
    id: Seq<char>,
    tag: Seq<char>,
    k: int,
    p: int,
) -> (i: int)
    requires
        edited(before, EditView::RemoveTag(id, tag), r, after),
        legible(before),
        0 <= k < before.items().len(),
        text_in(before.items()[k], "id"@) == Some(id),
        before.todo(id).contains_key("tags"@),
        live_list(before.todo(id)["tags"@], Kind::List) matches Some(l) && 0 <= p < l.len() && l[p]
            == Datum::Text(tag) && forall|q: int|
            0 <= q < p ==> #[trigger] l[q] != Datum::Text(tag),
    ensures
        r is Ok,
        is_first(before.items(), id, i),
        shown(before)[i].id == id,
        legible(after),
        0 <= p < shown(before)[i].tags.len(),
        shown(before)[i].tags[p] == tag,
        shown(after) == shown(before).update(
            i,
            TodoView { tags: shown(before)[i].tags.remove(p), ..shown(before)[i] },
        ),
{
    lemma_known(before, id, k);
    let i = before.position(id)->0;
    let m = before.todo(id);
    lemma_shown_with(before, i, m);
    lemma_tags_of(m, i as nat);
    let l = slot(m, "tags"@, Kind::List)->0;
    let t = shown(before)[i].tags;
    lemma_text_place(l, tag);
    assert(text_place(l, tag) == Some(p)) by {
        let o = text_place(l, tag);
        assert(l[p] == Datum::Text(tag));
        if o is Some && o->0 < p {
            assert(l[o->0] != Datum::Text(tag));
        }
    }
    assert(bare_all(l)[p] == bare(l[p]));
    assert(bare_all(l)[p] == Datum::Text(t[p]));
    let l2 = l.remove(p);
    assert forall|j: int| 0 <= j < l2.len() implies bare(#[trigger] l2[j]) == Datum::Text(
        t.remove(p)[j],
    ) by {
        let q = if j < p {
            j
        } else {
            j + 1
        };
        assert(l2[j] == l[q]);
        assert(bare_all(l)[q] == bare(l[q]));
        assert(bare_all(l)[q] == Datum::Text(t[q]));
    }
    lemma_tags_changed(before, i, m, l2, t.remove(p));
    i
}

/// To remove a tag that a todo does not have changes nothing that is read.
pub proof fn law_absent_tag_is_not_removed(
    before: DocView,
    r: Result<Option<String>, DocError>,
    after: DocView,
    id: Seq<char>,
    tag: Seq<char>,
    k: int,
)
    requires
        edited(before, EditView::RemoveTag(id, tag), r, after),
        legible(before),
        0 <= k < before.items().len(),
        text_in(before.items()[k], "id"@) == Some(id),
        forall|i: int|
            0 <= i < shown(before).len() && shown(before)[i].id == id ==> !(
            #[trigger] shown(before)[i]).tags.contains(tag),
    ensures
        legible(after),
        shown(after) == shown(before),
{
    lemma_known(before, id, k);
    let i = before.position(id)->0;
    let m = before.todo(id);
    lemma_shown_with(before, i, m);
    if slot(m, "tags"@, Kind::List) is Some {
        lemma_tags_of(m, i as nat);
        let l = slot(m, "tags"@, Kind::List)->0;
        let t = shown(before)[i].tags;
        lemma_text_place(l, tag);
        if text_place(l, tag) is Some {
            let p = text_place(l, tag)->0;
            assert(bare_all(l)[p] == bare(l[p]));
            assert(bare_all(l)[p] == Datum::Text(t[p]));
            assert(t.contains(tag));
        }
        assert forall|j: int| 0 <= j < l.len() implies bare(#[trigger] l[j]) == Datum::Text(
            t[j],
        ) by {
            assert(bare_all(l)[j] == bare(l[j]));
            assert(bare_all(l)[j] == Datum::Text(t[j]));
        }
        lemma_tags_changed(before, i, m, l, t);
        assert(shown(before).update(i, shown(before)[i]) =~= shown(before));
    }
}

// ── Subtasks ────────────────────────────────────────────────────────────────

proof fn lemma_subtasks_of(m: Map<Seq<char>, Datum>, position: nat)
    requires
        todo_of(bare(held_map(m)), position) is Some,
        slot(m, "subtasks"@, Kind::MovableList) is Some,
    ensures
        ({
            let l = bare_all(slot(m, "subtasks"@, Kind::MovableList)->0);
            let t = todo_of(bare(held_map(m)), position)->0.subtasks;
            &&& all_subtasks(l) == Some(t)
            &&& t.len() == l.len()
            &&& forall|j: int| 0 <= j < l.len() ==> subtask_of(l[j]) == Some(#[trigger] t[j])
        }),
{
    lemma_field(m, "subtasks"@, 7);
    let l = slot(m, "subtasks"@, Kind::MovableList)->0;
    if m.contains_key("subtasks"@) && !(m["subtasks"@] is Null) {
        assert(m["subtasks"@] == held_list(Kind::MovableList, l));
        lemma_bare_list(Kind::MovableList, l);
    }
    assert(bare_all(Seq::<Datum>::empty()) =~= Seq::empty());
    lemma_all_subtasks(bare_all(l));
}

proof fn lemma_subtasks_changed(
    d: DocView,
    i: int,
    m: Map<Seq<char>, Datum>,
    l: Seq<Datum>,
    t: Seq<SubtaskView>,
)
    requires
        legible(d),
        0 <= i < d.items().len(),
        d.items()[i] == held_map(m),
        l.len() == t.len(),
        forall|j: int| 0 <= j < l.len() ==> subtask_of(bare(#[trigger] l[j])) == Some(t[j]),
    ensures
        ({
            let n = m.insert("subtasks"@, held_list(Kind::MovableList, l));
            &&& legible(d.with(i, n))
            &&& shown(d.with(i, n)) == shown(d).update(i, TodoView { subtasks: t, ..shown(d)[i] })
        }),
{
    let n = m.insert("subtasks"@, held_list(Kind::MovableList, l));
    lemma_names();
    lemma_others_of_todo(m, n, "subtasks"@);
    lemma_field(n, "subtasks"@, 7);
    lemma_bare_list(Kind::MovableList, l);
    lemma_all_subtasks(bare_all(l));
    assert forall|j: int| 0 <= j < l.len() implies subtask_of(#[trigger] bare_all(l)[j])
        is Some by {
        assert(subtask_of(bare(l[j])) == Some(t[j]));
    }
    assert forall|j: int| 0 <= j < l.len() implies (all_subtasks(bare_all(l))->0)[j] == t[j] by {
        assert(bare_all(l)[j] == bare(l[j]));
        assert(subtask_of(bare_all(l)[j]) == Some((all_subtasks(bare_all(l))->0)[j]));
    }
    assert(all_subtasks(bare_all(l))->0 =~= t);
    lemma_shown_with(d, i, n);
}

/// A subtask that is added is read behind those that a todo has, with its new number, its
/// title and not done; nothing else changes.
pub proof fn law_subtask_is_added(
    before: DocView,
    r: Result<Option<String>, DocError>,
    after: DocView,
    id: Seq<char>,
    title: Seq<char>,
    k: int,
) -> (i: int)
    requires
        edited(before, EditView::AddSubtask(id, title), r, after),
        legible(before),
        0 <= k < before.items().len(),
        text_in(before.items()[k], "id"@) == Some(id),
        before.todo(id).contains_key("subtasks"@) ==> live_list(
            before.todo(id)["subtasks"@],
            Kind::MovableList,
        ) is Some,
    ensures
        r matches Ok(Some(_)),
        is_first(before.items(), id, i),
        shown(before)[i].id == id,
        legible(after),
        shown(after) == shown(before).update(
            i,
            TodoView {
                subtasks: shown(before)[i].subtasks.push(
                    SubtaskView { id: r->Ok_0->0@, title, done: false },
                ),
                ..shown(before)[i]
            },
        ),
{
    lemma_known(before, id, k);
    lemma_names();
    let i = before.position(id)->0;
    let m = before.todo(id);
    lemma_shown_with(before, i, m);
    lemma_subtasks_of(m, i as nat);
    let l = slot(m, "subtasks"@, Kind::MovableList)->0;
    let t = shown(before)[i].subtasks;
    let sub = r->Ok_0->0@;
    let x = Map::<Seq<char>, Datum>::empty().insert("id"@, Datum::Text(sub)).insert(
        "title"@,
        Datum::Text(title),
    ).insert("done"@, Datum::Bool(false));
    let u = SubtaskView { id: sub, title, done: false };
    lemma_field(x, "id"@, 0);
    lemma_field(x, "title"@, 1);
    lemma_field(x, "done"@, 2);
    let l2 = l.push(held_map(x));
    assert forall|j: int| 0 <= j < l2.len() implies subtask_of(bare(#[trigger] l2[j])) == Some(
        t.push(u)[j],
    ) by {
        if j < l.len() {
            assert(bare_all(l)[j] == bare(l[j]));
            assert(subtask_of(bare_all(l)[j]) == Some(t[j]));
        }
    }
    lemma_subtasks_changed(before, i, m, l2, t.push(u));
    i
}

/// To toggle a subtask flips the mark that is read of the first subtask with the number, and
/// changes nothing else: not its number or title, no other subtask, no other todo. So toggling
/// it twice gives back what was read.
pub proof fn law_toggle_flips_the_subtask(
    before: DocView,
    r: Result<Option<String>, DocError>,
    after: DocView,
    id: Seq<char>,
    sub: Seq<char>,
    k: int,
    p: int,
) -> (i: int)
    requires
        edited(before, EditView::ToggleSubtask(id, sub), r, after),
        legible(before),
        0 <= k < before.items().len(),
        text_in(before.items()[k], "id"@) == Some(id),
        before.todo(id).contains_key("subtasks"@),
        live_list(before.todo(id)["subtasks"@], Kind::MovableList) matches Some(l) && is_first(
            l,
            sub,
            p,
        ) && marked(live_map(l[p])->0, "done"@),
    ensures
        r is Ok,
        is_first(before.items(), id, i),
        shown(before)[i].id == id,
        0 <= p < shown(before)[i].subtasks.len(),
        shown(before)[i].subtasks[p].id == sub,
        legible(after),
        shown(after) == shown(before).update(
            i,
            TodoView {
                subtasks: shown(before)[i].subtasks.update(
                    p,
                    SubtaskView {
                        done: !shown(before)[i].subtasks[p].done,
                        ..shown(before)[i].subtasks[p]
                    },
                ),
                ..shown(before)[i]
            },
        ),
{
    lemma_known(before, id, k);
    lemma_names();
    let i = before.position(id)->0;
    let m = before.todo(id);
    lemma_shown_with(before, i, m);
    lemma_subtasks_of(m, i as nat);
    let l = slot(m, "subtasks"@, Kind::MovableList)->0;
    let t = shown(before)[i].subtasks;
    lemma_first_is_numbered(l, sub, p);
    let a = live_map(l[p])->0;
    let b = a.insert("done"@, Datum::Bool(!flag_in(a, "done"@)));
    lemma_field(a, "id"@, 0);
    lemma_field(a, "title"@, 1);
    lemma_field(a, "done"@, 2);
    lemma_field(b, "id"@, 0);
    lemma_field(b, "title"@, 1);
    lemma_field(b, "done"@, 2);
    assert(bare_all(l)[p] == bare(l[p]));
    assert(subtask_of(bare_all(l)[p]) == Some(t[p]));
    let u = SubtaskView { done: !t[p].done, ..t[p] };
    let l2 = l.update(p, held_map(b));
    assert forall|j: int| 0 <= j < l2.len() implies subtask_of(bare(#[trigger] l2[j])) == Some(
        t.update(p, u)[j],
    ) by {
        if j != p {
            assert(bare_all(l)[j] == bare(l[j]));
            assert(subtask_of(bare_all(l)[j]) == Some(t[j]));
        }
    }
    lemma_subtasks_changed(before, i, m, l2, t.update(p, u));
    i
}

proof fn lemma_first_is_numbered(l: Seq<Datum>, id: Seq<char>, p: int)
    requires
        is_first(l, id, p),
    ensures
        numbered(l, id) == Some(p),
        live_map(l[p]) is Some,
        l[p] == held_map(live_map(l[p])->0),
        (live_map(l[p])->0).contains_key("id"@),
        (live_map(l[p])->0)["id"@] == Datum::Text(id),
{
    lemma_numbered_first(l, id);
    let o = numbered(l, id);
    assert(text_in(l[p], "id"@) == Some(id));
    if o is Some && o->0 < p {
        assert(text_in(l[o->0], "id"@) != Some(id));
    }
}

/// To remove a subtask takes the first with the number out of a todo, and changes nothing
/// else.
pub proof fn law_subtask_is_removed(
    before: DocView,
    r: Result<Option<String>, DocError>,
    after: DocView,
    id: Seq<char>,
    sub: Seq<char>,
    k: int,
    p: int,
) -> (i: int)
    requires
        edited(before, EditView::RemoveSubtask(id, sub), r, after),
        legible(before),
        0 <= k < before.items().len(),
        text_in(before.items()[k], "id"@) == Some(id),
        before.todo(id).contains_key("subtasks"@),
        live_list(before.todo(id)["subtasks"@], Kind::MovableList) matches Some(l) && is_first(
            l,
            sub,
            p,
        ),
    ensures
        r is Ok,
        is_first(before.items(), id, i),
        shown(before)[i].id == id,
        0 <= p < shown(before)[i].subtasks.len(),
        shown(before)[i].subtasks[p].id == sub,
        legible(after),
        shown(after) == shown(before).update(
            i,
            TodoView { subtasks: shown(before)[i].subtasks.remove(p), ..shown(before)[i] },
        ),
{
    lemma_known(before, id, k);
    let i = before.position(id)->0;
    let m = before.todo(id);
    lemma_shown_with(before, i, m);
    lemma_subtasks_of(m, i as nat);
    let l = slot(m, "subtasks"@, Kind::MovableList)->0;
    let t = shown(before)[i].subtasks;
    lemma_first_is_numbered(l, sub, p);
    let a = live_map(l[p])->0;
    lemma_field(a, "id"@, 0);
    assert(bare_all(l)[p] == bare(l[p]));
    assert(subtask_of(bare_all(l)[p]) == Some(t[p]));
    let l2 = l.remove(p);
    assert forall|j: int| 0 <= j < l2.len() implies subtask_of(bare(#[trigger] l2[j])) == Some(
        t.remove(p)[j],
    ) by {
        let q = if j < p {
            j
        } else {
            j + 1
        };
        assert(l2[j] == l[q]);
        assert(bare_all(l)[q] == bare(l[q]));
        assert(subtask_of(bare_all(l)[q]) == Some(t[q]));
    }
    lemma_subtasks_changed(before, i, m, l2, t.remove(p));
    i
}

/// To toggle or remove a subtask that no subtask of a todo can be changes nothing that is
/// read.
pub proof fn law_absent_subtask_is_left_alone(
    before: DocView,
    e: EditView,
    r: Result<Option<String>, DocError>,
    after: DocView,
    id: Seq<char>,
    sub: Seq<char>,
    k: int,
)
    requires
        edited(before, e, r, after),
        e == EditView::ToggleSubtask(id, sub) || e == EditView::RemoveSubtask(id, sub),
        legible(before),
        0 <= k < before.items().len(),
        text_in(before.items()[k], "id"@) == Some(id),
        forall|i: int, j: int|
            0 <= i < shown(before).len() && shown(before)[i].id == id && 0 <= j < shown(
                before,
            )[i].subtasks.len() ==> (#[trigger] shown(before)[i].subtasks[j]).id != sub,
    ensures
        legible(after),
        shown(after) == shown(before),
{
    lemma_known(before, id, k);
    let i = before.position(id)->0;
    let m = before.todo(id);
    lemma_shown_with(before, i, m);
    if slot(m, "subtasks"@, Kind::MovableList) is Some {
        lemma_subtasks_of(m, i as nat);
        let l = slot(m, "subtasks"@, Kind::MovableList)->0;
        let t = shown(before)[i].subtasks;
        lemma_numbered_first(l, sub);
        if numbered(l, sub) is Some {
            let p = numbered(l, sub)->0;
            lemma_first_is_numbered(l, sub, p);
            lemma_field(live_map(l[p])->0, "id"@, 0);
            assert(bare_all(l)[p] == bare(l[p]));
            assert(subtask_of(bare_all(l)[p]) == Some(t[p]));
            assert(shown(before)[i].subtasks[p].id == sub);
        }
        assert forall|j: int| 0 <= j < l.len() implies subtask_of(bare(#[trigger] l[j])) == Some(
            t[j],
        ) by {
            assert(bare_all(l)[j] == bare(l[j]));
            assert(subtask_of(bare_all(l)[j]) == Some(t[j]));
        }
        lemma_subtasks_changed(before, i, m, l, t);
        assert(shown(before).update(i, shown(before)[i]) =~= shown(before));
    }
}

// ── Titles ──────────────────────────────────────────────────────────────────

/// A title that was set is read back, and the todos are as before.
pub proof fn law_title_reads_back(
    before: DocView,
    r: Result<Option<String>, DocError>,
    after: DocView,
    title: Seq<char>,
)
    requires
        edited(before, EditView::SetTitle(title), r, after),
    ensures
        r is Ok,
        entry(Some(after.maps["meta"@]), "title"@) == Some(Datum::Text(title)),
        after.items() == before.items(),
        after.lists == before.lists,
{
}

// ── Twice ───────────────────────────────────────────────────────────────────

/// To toggle a todo twice gives back what was read of every todo.
pub proof fn law_toggled_twice_reads_as_before(
    before: DocView,
    r: Result<Option<String>, DocError>,
    once: DocView,
    q: Result<Option<String>, DocError>,
    twice: DocView,
    id: Seq<char>,
    k: int,
)
    requires
        edited(before, EditView::ToggleDone(id), r, once),
        edited(once, EditView::ToggleDone(id), q, twice),
        legible(before),
        0 <= k < before.items().len(),
        text_in(before.items()[k], "id"@) == Some(id),
        marked(before.todo(id), "done"@),
    ensures
        r is Ok && q is Ok,
        shown(twice) == shown(before),
{
    lemma_names();
    lemma_known(before, id, k);
    let i = law_toggle_flips_the_mark(before, r, once, id, k);
    lemma_one_first(before.items(), id, i, before.position(id)->0);
    let m = before.todo(id);
    let n = m.insert("done"@, Datum::Bool(!flag_in(m, "done"@)));
    assert(once.items() == before.items().update(i, held_map(n)));
    lemma_first_stays(before.items(), id, i, n);
    lemma_first_is_numbered(once.items(), id, i);
    assert(once.todo(id) == n);
    let j = law_toggle_flips_the_mark(once, q, twice, id, i);
    lemma_one_first(once.items(), id, i, j);
    lemma_shown_with(before, i, m);
    assert(shown(twice) =~= shown(before));
}

/// To toggle a subtask twice gives back what was read of every todo, with all its subtasks.
pub proof fn law_subtask_toggled_twice_reads_as_before(
    before: DocView,
    r: Result<Option<String>, DocError>,
    once: DocView,
    q: Result<Option<String>, DocError>,
    twice: DocView,
    id: Seq<char>,
    sub: Seq<char>,
    k: int,
    p: int,
)
    requires
        edited(before, EditView::ToggleSubtask(id, sub), r, once),
        edited(once, EditView::ToggleSubtask(id, sub), q, twice),
        legible(before),
        0 <= k < before.items().len(),
        text_in(before.items()[k], "id"@) == Some(id),
        before.todo(id).contains_key("subtasks"@),
        live_list(before.todo(id)["subtasks"@], Kind::MovableList) matches Some(l) && is_first(
            l,
            sub,
            p,
        ) && marked(live_map(l[p])->0, "done"@),
    ensures
        r is Ok && q is Ok,
        shown(twice) == shown(before),
{
    lemma_names();
    lemma_known(before, id, k);
    let i = law_toggle_flips_the_subtask(before, r, once, id, sub, k, p);
    lemma_one_first(before.items(), id, i, before.position(id)->0);
    let m = before.todo(id);
    let l = live_list(m["subtasks"@], Kind::MovableList)->0;
    lemma_first_is_numbered(l, sub, p);
    let a = live_map(l[p])->0;
    let b = a.insert("done"@, Datum::Bool(!flag_in(a, "done"@)));
    let l2 = l.update(p, held_map(b));
    let n = m.insert("subtasks"@, held_list(Kind::MovableList, l2));
    assert(once.items() == before.items().update(i, held_map(n)));
    lemma_first_stays(before.items(), id, i, n);
    lemma_first_is_numbered(once.items(), id, i);
    assert(once.todo(id) == n);
    lemma_first_stays(l, sub, p, b);
    let j = law_toggle_flips_the_subtask(once, q, twice, id, sub, i, p);
    lemma_one_first(once.items(), id, i, j);
    lemma_shown_with(before, i, m);
    let t = shown(before)[i].subtasks;
    assert(shown(twice)[i].subtasks =~= t);
    assert(shown(twice) =~= shown(before));
}

proof fn lemma_one_first(s: Seq<Datum>, id: Seq<char>, i: int, j: int)
    requires
        is_first(s, id, i),
        is_first(s, id, j),
    ensures
        i == j,
{
    if i < j {
        assert(text_in(s[i], "id"@) != Some(id));
    } else if j < i {
        assert(text_in(s[j], "id"@) != Some(id));
    }
}

/// An item that keeps its number stays the first that has it.
proof fn lemma_first_stays(s: Seq<Datum>, id: Seq<char>, i: int, n: Map<Seq<char>, Datum>)
    requires
        is_first(s, id, i),
        n.contains_key("id"@),
        n["id"@] == Datum::Text(id),
    ensures
        is_first(s.update(i, held_map(n)), id, i),
{
    let t = s.update(i, held_map(n));
    assert forall|j: int| 0 <= j < i implies text_in(#[trigger] t[j], "id"@) != Some(id) by {
        assert(t[j] == s[j]);
    }
}

} // verus!
