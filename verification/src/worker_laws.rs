//! What the worker's answers come to: what a command that was served leaves in the store.
use vstd::prelude::*;

use crate::dates::{in_calendar, padded};
use crate::db::{epoch_of, item_row, item_rows, members_of, stored_items, Db, ItemRow, ItemRowView};
use crate::db_laws::{law_recorded_member_is_there, law_removed_member_is_gone};
use crate::doc_history::Op;
use crate::doc_value::{bare_all, projected, Datum};
use crate::edit_laws::{
    is_first, law_add_reads_back, law_found_by_number, law_remove_takes_one_out,
    law_toggle_flips_the_mark, law_update_reads_back, legible, marked, shown,
};
use crate::list_doc::{entry, DocView};
use crate::listing::{pane_items, summaries};
use crate::listing_laws::{is_stored, law_meta_view};
use crate::model::{
    Epoch, InputView, ListId, Member, MemberId, MetaList, Role, SortMode, TodoView, ViewTarget,
};
use crate::store::{edited, rows_after, todo_numbered, EditView, Store, StoreError};
use crate::store_laws::law_read_gives_back_the_write;
use crate::store_worker::{CommandView, WorkerMsg};
use crate::table::{found, law_upserted_is_found, lemma_found, without, Row};
use crate::worker::Worker;

verus! {

// ── Edits ───────────────────────────────────────────────────────────────────

proof fn lemma_other_rows_stay(s: Seq<ItemRow>, list_id: ListId)
    ensures
        item_rows(without(s, list_id)) == item_rows(s).filter(
            |r: ItemRowView| r.list_id != list_id,
        ),
    decreases s.len(),
{
    reveal(Seq::filter);
    let f = |r: ItemRowView| r.list_id != list_id;
    let a = item_rows(without(s, list_id));
    if s.len() > 0 {
        let init = s.drop_last();
        lemma_other_rows_stay(init, list_id);
        assert(item_rows(s).drop_last() =~= item_rows(init));
        assert(item_rows(s).last() == s.last()@);
        if s.last().has_key(list_id) {
            assert(a == item_rows(init).filter(f));
        } else {
            assert(a =~= item_rows(init).filter(f).push(s.last()@));
        }
    } else {
        assert(a =~= item_rows(s).filter(f));
    }
}

proof fn lemma_none_kept(s: Seq<ItemRowView>, list_id: ListId)
    requires
        forall|i: int| 0 <= i < s.len() ==> (#[trigger] s[i]).list_id == list_id,
    ensures
        s.filter(|r: ItemRowView| r.list_id != list_id) == Seq::<ItemRowView>::empty(),
    decreases s.len(),
{
    reveal(Seq::filter);
    if s.len() > 0 {
        let init = s.drop_last();
        assert forall|i: int| 0 <= i < init.len() implies (#[trigger] init[i]).list_id
            == list_id by {
            assert(init[i] == s[i]);
        }
        lemma_none_kept(init, list_id);
        assert(s[s.len() - 1].list_id == list_id);
    }
}

proof fn lemma_kept_twice(s: Seq<ItemRowView>, list_id: ListId)
    ensures
        ({
            let f = |r: ItemRowView| r.list_id != list_id;
            s.filter(f).filter(f) == s.filter(f)
        }),
    decreases s.len(),
{
    reveal(Seq::filter);
    let f = |r: ItemRowView| r.list_id != list_id;
    if s.len() > 0 {
        lemma_kept_twice(s.drop_last(), list_id);
        if f(s.last()) {
            let t = s.drop_last().filter(f);
            assert(t.push(s.last()).drop_last() =~= t);
        }
    }
}

/// To store the todos of a list leaves the rows of every other list as they were.
pub proof fn law_rows_of_other_lists_stay(before: Db, list_id: ListId, doc: DocView)
    ensures
        rows_after(before, list_id, doc).filter(|r: ItemRowView| r.list_id != list_id)
            == item_rows(before.items@).filter(|r: ItemRowView| r.list_id != list_id),
{
    let f = |r: ItemRowView| r.list_id != list_id;
    let a = item_rows(without(before.items@, list_id));
    let b = projected(bare_all(doc.items())).map_values(|t: TodoView| item_row(list_id, t));
    lemma_other_rows_stay(before.items@, list_id);
    lemma_kept_twice(item_rows(before.items@), list_id);
    assert forall|i: int| 0 <= i < b.len() implies (#[trigger] b[i]).list_id == list_id by {}
    lemma_none_kept(b, list_id);
    Seq::filter_distributes_over_add(a, b, f);
    assert(a.filter(f) + Seq::<ItemRowView>::empty() =~= a.filter(f));
}

/// What an edit that was answered by a snapshot leaves: the document that the store had is
/// edited, and what it shows afterwards is what is stored of the list, but for subtasks; the
/// todos of other lists, and the lists themselves, are stored as before.
pub proof fn law_answered_edit(
    w: Worker,
    after: Worker,
    r: WorkerMsg,
    list_id: ListId,
    e: EditView,
    now: i64,
) -> (d: (DocView, DocView, Option<String>))
    requires
        w.answered(after, r, list_id, e, now),
        r is Snapshot,
    ensures
        w.store.has_doc(list_id, d.0),
        after.store.has_doc(list_id, d.1),
        edited(d.0, e, Ok(d.2), d.1),
        shown(d.1).len() <= 100_000_000 ==> stored_items(
            item_rows(after.store.db.items@),
            list_id,
        ) == shown(d.1).map_values(|t: TodoView| TodoView { subtasks: Seq::empty(), ..t }),
        item_rows(after.store.db.items@).filter(|x: ItemRowView| x.list_id != list_id)
            == item_rows(w.store.db.items@).filter(|x: ItemRowView| x.list_id != list_id),
        after.store.db.lists == w.store.db.lists,
        after.store.db.members == w.store.db.members,
        after.store.db.key_slots == w.store.db.key_slots,
        after.store.db.account == w.store.db.account,
        after.store.session == w.store.session,
        after.targets == w.targets && after.sort == w.sort,
{
    let given = choose|given: Option<String>| #[trigger]
        w.store.took(after.store, list_id, e, given);
    assert(w.store.took(after.store, list_id, e, given));
    let epoch = epoch_of(w.store.db.lists@, list_id);
    let (d0, d1, e0, e1) = choose|d0: DocView, d1: DocView, edits0: vstd::set::Set<
        crate::doc_history::Op,
    >, edits1: vstd::set::Set<crate::doc_history::Op>|
        #![trigger w.store.has_doc(list_id, d0), after.store.has_doc(list_id, d1), w.store.has_edits(
            list_id,
            edits0,
        ), after.store.has_edits(list_id, edits1)]
        {
            &&& w.store.has_doc(list_id, d0) && after.store.has_doc(list_id, d1)
            &&& w.store.has_edits(list_id, edits0) && after.store.has_edits(list_id, edits1)
            &&& edits0.subset_of(edits1)
            &&& edited(d0, e, Ok(given), d1)
            &&& crate::store::persisted(
                w.store.db,
                after.store.db,
                w.store.session,
                list_id,
                d1,
                edits0,
                edits1,
                w.store.ready(list_id),
            )
        };
    law_rows_of_other_lists_stay(w.store.db, list_id, d1);
    if shown(d1).len() <= 100_000_000 {
        law_read_gives_back_the_write(w.store.db, list_id, d1);
    }
    (d0, d1, given)
}

/// Whether every document that the store may have of a list can be read.
pub open spec fn reads(w: Worker, list_id: ListId) -> bool {
    forall|d: DocView| #[trigger] w.store.has_doc(list_id, d) ==> legible(d)
}

/// A todo whose change was served is read as the form said, with its number, its mark and its
/// subtasks as before. The list has as many todos as before, and the others read as they did.
pub proof fn law_served_edit_overwrites_one_todo(
    w: Worker,
    after: Worker,
    r: WorkerMsg,
    list_id: ListId,
    item_id: Seq<char>,
    input: InputView,
    now: i64,
) -> (d: (DocView, DocView, int))
    requires
        w.served(after, r, CommandView::EditTodo { list_id, item_id, input }, now),
        r is Snapshot,
        reads(w, list_id),
    ensures
        w.store.has_doc(list_id, d.0),
        after.store.has_doc(list_id, d.1),
        is_first(d.0.items(), item_id, d.2),
        shown(d.1).len() == shown(d.0).len(),
        shown(d.0)[d.2].id == item_id,
        shown(d.1) == shown(d.0).update(
            d.2,
            TodoView {
                title: input.title,
                notes: input.notes,
                tags: input.tags,
                priority: input.priority,
                due: if input.due is Some && in_calendar(input.due->0) {
                    input.due
                } else {
                    None
                },
                ..shown(d.0)[d.2]
            },
        ),
{
    let (d0, d1, given) = law_answered_edit(
        w,
        after,
        r,
        list_id,
        EditView::UpdateItem(item_id, input),
        now,
    );
    law_found_by_number(d0, item_id);
    let k = d0.position(item_id)->0;
    let i = law_update_reads_back(d0, Ok(given), d1, item_id, input, k);
    assert(shown(d0)[i].id == item_id);
    (d0, d1, i)
}

/// A todo that was added is read behind the others, as the form said and not done; the list
/// has one todo more than before, and the others read as they did.
pub proof fn law_served_addition_adds_one_todo(
    w: Worker,
    after: Worker,
    r: WorkerMsg,
    list_id: ListId,
    input: InputView,
    now: i64,
) -> (d: (DocView, DocView))
    requires
        w.served(after, r, CommandView::AddTodo { list_id, input }, now),
        r is Snapshot,
        reads(w, list_id),
    ensures
        w.store.has_doc(list_id, d.0),
        after.store.has_doc(list_id, d.1),
        shown(d.1).len() == shown(d.0).len() + 1,
        shown(d.1).drop_last() == shown(d.0),
        shown(d.1).last().title == input.title,
        shown(d.1).last().notes == input.notes,
        shown(d.1).last().tags == input.tags,
        shown(d.1).last().priority == input.priority,
        input.due is None || in_calendar(input.due->0) ==> shown(d.1).last().due == input.due,
        !shown(d.1).last().done,
{
    let (d0, d1, given) = law_answered_edit(w, after, r, list_id, EditView::AddItem(input), now);
    law_add_reads_back(d0, Ok(given), d1, input);
    (d0, d1)
}

/// A todo that was toggled has the other mark; nothing else of the list changes.
pub proof fn law_served_toggle_flips_one_mark(
    w: Worker,
    after: Worker,
    r: WorkerMsg,
    list_id: ListId,
    item_id: Seq<char>,
    now: i64,
) -> (d: (DocView, DocView, int))
    requires
        w.served(after, r, CommandView::ToggleDone { list_id, item_id }, now),
        r is Snapshot,
        reads(w, list_id),
        forall|d: DocView| #[trigger]
            w.store.has_doc(list_id, d) ==> marked(d.todo(item_id), "done"@),
    ensures
        w.store.has_doc(list_id, d.0),
        after.store.has_doc(list_id, d.1),
        is_first(d.0.items(), item_id, d.2),
        shown(d.0)[d.2].id == item_id,
        shown(d.1) == shown(d.0).update(
            d.2,
            TodoView { done: !shown(d.0)[d.2].done, ..shown(d.0)[d.2] },
        ),
{
    let (d0, d1, given) = law_answered_edit(
        w,
        after,
        r,
        list_id,
        EditView::ToggleDone(item_id),
        now,
    );
    law_found_by_number(d0, item_id);
    let k = d0.position(item_id)->0;
    let i = law_toggle_flips_the_mark(d0, Ok(given), d1, item_id, k);
    (d0, d1, i)
}

/// A todo that was removed is gone: the list has one todo less, and those that stay read as
/// before, in their order.
pub proof fn law_served_removal_takes_one_todo_out(
    w: Worker,
    after: Worker,
    r: WorkerMsg,
    list_id: ListId,
    item_id: Seq<char>,
    now: i64,
) -> (d: (DocView, DocView, int))
    requires
        w.served(after, r, CommandView::DeleteTodo { list_id, item_id }, now),
        r is Snapshot,
        reads(w, list_id),
    ensures
        w.store.has_doc(list_id, d.0),
        after.store.has_doc(list_id, d.1),
        is_first(d.0.items(), item_id, d.2),
        shown(d.0)[d.2].id == item_id,
        shown(d.1).len() == shown(d.0).len() - 1,
        forall|j: int|
            0 <= j < shown(d.1).len() ==> #[trigger] shown(d.1)[j] == (TodoView {
                order_key: padded(j as nat, 8),
                ..shown(d.0)[if j < d.2 {
                    j
                } else {
                    j + 1
                }]
            }),
{
    let (d0, d1, given) = law_answered_edit(
        w,
        after,
        r,
        list_id,
        EditView::RemoveItem(item_id),
        now,
    );
    law_found_by_number(d0, item_id);
    let k = d0.position(item_id)->0;
    let i = law_remove_takes_one_out(d0, Ok(given), d1, item_id, k);
    (d0, d1, i)
}

/// An edit of a todo that no list has is answered by an error, and nothing that is stored
/// changes.
pub proof fn law_served_edit_of_an_unknown_todo(
    w: Worker,
    after: Worker,
    r: WorkerMsg,
    cmd: CommandView,
    list_id: ListId,
    item_id: Seq<char>,
    now: i64,
)
    requires
        w.served(after, r, cmd, now),
        match cmd {
            CommandView::EditTodo { list_id: l, item_id: x, input: _ } => l == list_id && x
                == item_id,
            CommandView::ToggleDone { list_id: l, item_id: x } => l == list_id && x == item_id,
            CommandView::DeleteTodo { list_id: l, item_id: x } => l == list_id && x == item_id,
            _ => false,
        },
        forall|d: DocView| #[trigger]
            w.store.has_doc(list_id, d) ==> forall|j: int|
                0 <= j < d.items().len() ==> crate::list_doc::text_in(
                    #[trigger] d.items()[j],
                    "id"@,
                ) != Some(item_id),
    ensures
        r is Error,
        after.store.db.items == w.store.db.items,
        after.store.db.documents == w.store.db.documents,
        after.store.db.lists == w.store.db.lists,
{
    let e = match cmd {
        CommandView::EditTodo { list_id: _, item_id: x, input } => EditView::UpdateItem(x, input),
        CommandView::ToggleDone { list_id: _, item_id: x } => EditView::ToggleDone(x),
        CommandView::DeleteTodo { list_id: _, item_id: x } => EditView::RemoveItem(x),
        _ => EditView::RemoveItem(item_id),
    };
    assert(w.answered(after, r, list_id, e, now));
    if r is Snapshot {
        let (d0, d1, given) = law_answered_edit(w, after, r, list_id, e, now);
        crate::edit_laws::law_edit_of_an_unknown_todo(d0, e, Ok(given), d1, item_id);
    }
}

// ── Members ─────────────────────────────────────────────────────────────────

/// A member whose removal was served is not among the members of the list afterwards, and the
/// list's epoch is one higher; everybody else is a member of what they were.
pub proof fn law_served_removal_of_a_member(
    w: Worker,
    after: Worker,
    r: WorkerMsg,
    list_id: ListId,
    member_id: MemberId,
    epoch: Epoch,
    now: i64,
)
    requires
        w.served(after, r, CommandView::RemoveMember { list_id, member_id }, now),
        epoch_of(w.store.db.lists@, list_id) == Some(epoch),
        epoch < u32::MAX,
    ensures
        r is Snapshot,
        forall|m: Member| #[trigger]
            members_of(after.store.db.members@, list_id).contains(m) ==> m.id != member_id,
        forall|l: ListId, m: Member|
            (l != list_id || m.id != member_id) ==> #[trigger] members_of(
                after.store.db.members@,
                l,
            ).contains(m) == members_of(w.store.db.members@, l).contains(m),
        epoch_of(after.store.db.lists@, list_id) == Some((epoch + 1) as u32),
        after.store.session.key_of(list_id, (epoch + 1) as u32) is Some,
        after.store.db.items == w.store.db.items,
        after.store.docs == w.store.docs,
{
    let dek = choose|dek: [u8; 32]| #[trigger]
        w.store.rotated(after.store, list_id, member_id, (epoch + 1) as u32, dek);
    assert(w.store.rotated(after.store, list_id, member_id, (epoch + 1) as u32, dek));
    law_removed_member_is_gone(
        w.store,
        after.store,
        list_id,
        member_id,
        (epoch + 1) as u32,
        dek,
    );
}

/// A removal from a list that is not stored is answered by an error, and changes nothing.
pub proof fn law_served_removal_from_an_unknown_list(
    w: Worker,
    after: Worker,
    r: WorkerMsg,
    list_id: ListId,
    member_id: MemberId,
    now: i64,
)
    requires
        w.served(after, r, CommandView::RemoveMember { list_id, member_id }, now),
        forall|i: int|
            0 <= i < w.store.db.lists@.len() ==> (#[trigger] w.store.db.lists@[i]).list_id
                != list_id,
    ensures
        r matches WorkerMsg::Error(t) && t@ == "unknown list"@,
        after == w,
{
    lemma_found(w.store.db.lists@, list_id);
}

/// A member whose addition was served is among the members of the list afterwards; everybody
/// else is a member of what they were. Where the list is not stored, an error says so and
/// nothing changes.
pub proof fn law_served_addition_of_a_member(
    w: Worker,
    after: Worker,
    r: WorkerMsg,
    list_id: ListId,
    member: Member,
    now: i64,
)
    requires
        w.served(after, r, CommandView::AddMember { list_id, member }, now),
    ensures
        r is Snapshot == exists|i: int|
            0 <= i < w.store.db.lists@.len() && (#[trigger] w.store.db.lists@[i]).list_id
                == list_id,
        r is Snapshot || r is Error,
        r is Snapshot ==> members_of(after.store.db.members@, list_id).contains(member),
        r is Error ==> after.store == w.store,
        forall|l: ListId, m: Member|
            (l != list_id || m.id != member.id) ==> #[trigger] members_of(
                after.store.db.members@,
                l,
            ).contains(m) == members_of(w.store.db.members@, l).contains(m),
{
    let done = choose|done: Result<(), StoreError>| #[trigger]
        w.store.joined(after.store, done, list_id, member) && (match done {
            Ok(_) => after.shows(r, now),
            Err(x) => r matches WorkerMsg::Error(t) && t@ == x.text(),
        });
    law_recorded_member_is_there(w.store, after.store, done, list_id, member);
}

/// To ask for members changes nothing and gives those of the list that was asked for.
pub proof fn law_served_members(w: Worker, after: Worker, r: WorkerMsg, list_id: ListId, now: i64)
    requires
        w.served(after, r, CommandView::FetchMembers(list_id), now),
    ensures
        after == w,
        r matches WorkerMsg::Members(l, m) && l == list_id && forall|x: Member|
            #[trigger] m@.contains(x) == members_of(w.store.db.members@, list_id).contains(x),
{
}

// ── Lists ───────────────────────────────────────────────────────────────────

/// A list that was made is stored under its name, with oneself as its owner and its only new
/// member, under the first epoch; it has no todos. All other lists are as before.
pub proof fn law_served_list_is_made(
    w: Worker,
    after: Worker,
    r: WorkerMsg,
    name: Seq<char>,
    now: i64,
) -> (id: ListId)
    requires
        w.served(after, r, CommandView::CreateList { name }, now),
        r is Snapshot,
    ensures
        exists|i: int|
            0 <= i < after.store.db.lists@.len() && (#[trigger] after.store.db.lists@[i]).list_id
                == id && after.store.db.lists@[i].name@ == name && after.store.db.lists@[i].role
                == Role::Owner && after.store.db.lists@[i].current_epoch == 1,
        forall|i: int|
            0 <= i < w.store.db.lists@.len() && w.store.db.lists@[i].list_id != id
                ==> #[trigger] after.store.db.lists@[i] == w.store.db.lists@[i],
        after.store.session.key_of(id, 1) is Some,
        members_of(after.store.db.members@, id).contains(
            Member {
                id: w.store.session.member_id,
                identity_pub: w.store.session.identity_pub,
                signing_pub: w.store.session.signing_pub,
                role: Role::Owner,
            },
        ),
        exists|d: DocView| #[trigger]
            after.store.has_doc(id, d) && d.items().len() == 0 && entry(
                Some(d.maps["meta"@]),
                "title"@,
            ) == Some(Datum::Text(name)),
        after.targets == w.targets && after.sort == w.sort,
{
    let (id, dek) = choose|id: ListId, dek: [u8; 32]|
        w.store.session.learns(after.store.session, id, 1, dek) && #[trigger] w.store.made(
            after.store,
            id,
            dek,
            name,
        );
    assert(w.store.made(after.store, id, dek, name));
    let (list, key, d0, d1, edits1) = choose|
        list: crate::db::ListRow,
        key: crate::db::KeySlotRow,
        d0: DocView,
        d1: DocView,
        edits1: vstd::set::Set<crate::doc_history::Op>,
    |
        #![trigger crate::table::upserted(w.store.db.lists@, id, list), crate::table::upserted(
            w.store.db.key_slots@,
            (id, 1u32),
            key,
        ), crate::store::titled(d0, d1, name), after.store.has_edits(id, edits1)]
        {
            &&& list.list_id == id && list.name@ == name && list.role == Role::Owner
                && list.current_epoch == 1
            &&& after.store.db.lists@ == crate::table::upserted(w.store.db.lists@, id, list)
            &&& key.list_id == id && key.epoch == 1
            &&& after.store.db.key_slots@ == crate::table::upserted(
                w.store.db.key_slots@,
                (id, 1u32),
                key,
            )
            &&& crate::store::titled(d0, d1, name)
            &&& after.store.has_doc(id, d1)
            &&& after.store.has_edits(id, edits1)
        };
    let s = w.store.db.lists@;
    law_upserted_is_found(s, id, list);
    lemma_found(s, id);
    let p = found(after.store.db.lists@, id)->0;
    lemma_found(after.store.db.lists@, id);
    assert(after.store.db.lists@[p] == list);
    let me = Member {
        id: w.store.session.member_id,
        identity_pub: w.store.session.identity_pub,
        signing_pub: w.store.session.signing_pub,
        role: Role::Owner,
    };
    crate::db_laws::law_upserted_member_is_there(w.store.db.members@, id, me);
    assert(d1.items() == Seq::<Datum>::empty());
    id
}

/// A list whose renaming was served has the name, in its row and in its document; no other row
/// changes.
pub proof fn law_served_list_is_renamed(
    w: Worker,
    after: Worker,
    r: WorkerMsg,
    list_id: ListId,
    name: Seq<char>,
    now: i64,
)
    requires
        w.served(after, r, CommandView::RenameList { list_id, name }, now),
    ensures
        after.store.db.lists@.len() == w.store.db.lists@.len(),
        forall|i: int|
            0 <= i < w.store.db.lists@.len() ==> #[trigger] after.store.db.lists@[i].list_id
                == w.store.db.lists@[i].list_id && after.store.db.lists@[i].role
                == w.store.db.lists@[i].role && after.store.db.lists@[i].current_epoch
                == w.store.db.lists@[i].current_epoch && (w.store.db.lists@[i].list_id != list_id
                ==> after.store.db.lists@[i] == w.store.db.lists@[i]),
        (exists|i: int|
            0 <= i < w.store.db.lists@.len() && (#[trigger] w.store.db.lists@[i]).list_id
                == list_id) ==> exists|i: int|
            0 <= i < after.store.db.lists@.len() && (#[trigger] after.store.db.lists@[i]).list_id
                == list_id && after.store.db.lists@[i].name@ == name,
        r is Snapshot ==> exists|d: DocView| #[trigger]
            after.store.has_doc(list_id, d) && entry(Some(d.maps["meta"@]), "title"@) == Some(
                Datum::Text(name),
            ),
{
    let (done, mid, row) = choose|
        done: Result<(), StoreError>,
        mid: Store,
        row: crate::db::ListRow,
    |
        #![trigger w.store.renamed(mid, list_id, row), mid.edits(
            after.store,
            list_id,
            EditView::SetTitle(name),
            done,
        )]
        row.name@ == name && w.store.renamed(mid, list_id, row) && mid.edits(
            after.store,
            list_id,
            EditView::SetTitle(name),
            done,
        ) && (match done {
            Ok(_) => r is Snapshot,
            Err(x) => r matches WorkerMsg::Error(t) && t@ == x.text(),
        });
    lemma_found(w.store.db.lists@, list_id);
    assert(after.store.db.lists == mid.db.lists);
    if let Some(i) = found(w.store.db.lists@, list_id) {
        assert(after.store.db.lists@[i].list_id == list_id);
        assert(after.store.db.lists@[i].name@ == name);
    }
    if done is Ok {
        let given = choose|given: Option<String>| #[trigger]
            mid.took(after.store, list_id, EditView::SetTitle(name), given);
        assert(mid.took(after.store, list_id, EditView::SetTitle(name), given));
    }
}

/// A list that was removed is shown nowhere: panes that showed it show all tasks, and the
/// others show what they did.
pub proof fn law_served_list_is_removed(
    w: Worker,
    after: Worker,
    r: WorkerMsg,
    list_id: ListId,
    now: i64,
    i: int,
)
    requires
        w.served(after, r, CommandView::DeleteList(list_id), now),
        0 <= i < w.targets@.len(),
    ensures
        r is Snapshot,
        w.store.dropped(after.store, list_id),
        after.targets@.len() == w.targets@.len(),
        after.targets@[i] != Some(ViewTarget::List(list_id)),
        w.targets@[i] == Some(ViewTarget::List(list_id)) ==> after.targets@[i] == Some(
            ViewTarget::Meta(MetaList::AllTasks),
        ),
        w.targets@[i] != Some(ViewTarget::List(list_id)) ==> after.targets@[i] == w.targets@[i],
        after.sort == w.sort,
{
}

// ── Snapshots ───────────────────────────────────────────────────────────────

/// Every pane of a snapshot shows what its own target says, and its lists are those that are
/// stored: a pane without a target shows nothing, and one of a meta-list shows the open todos
/// that belong to it.
pub proof fn law_snapshot_shows_the_targets(w: Worker, r: WorkerMsg, now: i64, i: int)
    requires
        w.shows(r, now),
        0 <= i < w.targets@.len(),
    ensures
        r is Snapshot,
        r->Snapshot_0@.panes.len() == w.targets@.len(),
        r->Snapshot_0@.lists.to_multiset() == summaries(w.store.db).to_multiset(),
        w.targets@[i] is None ==> r->Snapshot_0@.panes[i].len() == 0,
        r->Snapshot_0@.panes[i] == pane_items(w.store.db, w.targets@[i], w.sort, now),
        forall|p: (ListId, TodoView)| #[trigger]
            r->Snapshot_0@.panes[i].contains(p) && w.targets@[i] is Some && w.targets@[i]->0 is Meta
                ==> !p.1.done && is_stored(w.store.db, p),
{
    crate::order::law_sorted::<SortMode, crate::model::ListSummary>(summaries(w.store.db), w.sort);
    assert forall|p: (ListId, TodoView)| #[trigger]
        r->Snapshot_0@.panes[i].contains(p) && w.targets@[i] is Some && w.targets@[i]->0
            is Meta implies !p.1.done && is_stored(w.store.db, p) by {
        law_meta_view(w.store.db, w.targets@[i]->0->Meta_0, w.sort, now, p);
    }
}

// ── Whole todos ─────────────────────────────────────────────────────────────

/// The todo that is found under a number has it, and is the first that has; where none is
/// found, none has it.
pub proof fn law_todo_is_found_by_number(s: Seq<TodoView>, id: Seq<char>)
    ensures
        match todo_numbered(s, id) {
            Some(t) => exists|i: int|
                0 <= i < s.len() && #[trigger] s[i] == t && t.id == id && forall|j: int|
                    0 <= j < i ==> (#[trigger] s[j]).id != id,
            None => forall|i: int| 0 <= i < s.len() ==> (#[trigger] s[i]).id != id,
        },
    decreases s.len(),
{
    if s.len() > 0 {
        let init = s.drop_last();
        law_todo_is_found_by_number(init, id);
        assert forall|j: int| 0 <= j < init.len() implies #[trigger] s[j] == init[j] by {}
        match todo_numbered(init, id) {
            Some(t) => {
                let i = choose|i: int|
                    0 <= i < init.len() && #[trigger] init[i] == t && t.id == id && forall|j: int|
                        0 <= j < i ==> (#[trigger] init[j]).id != id;
                assert(s[i] == t);
            },
            None => {
                assert(s[s.len() - 1] == s.last());
            },
        }
    }
}

/// A todo that is asked for is given whole, out of the list's document, under the list and the
/// number that were asked for; nothing that is stored changes.
pub proof fn law_served_whole_todo(
    w: Worker,
    after: Worker,
    r: WorkerMsg,
    list_id: ListId,
    item_id: Seq<char>,
    now: i64,
)
    requires
        w.served(after, r, CommandView::FetchFullItem { list_id, item_id }, now),
    ensures
        after.store.db == w.store.db,
        r matches WorkerMsg::FullItem(Some(p)) ==> p.0 == list_id && p.1@.id == item_id && exists|
            d: DocView,
        | #[trigger]
            w.store.has_doc(list_id, d) && shown(d).contains(p.1@),
        r matches WorkerMsg::FullItem(None) ==> exists|d: DocView| #[trigger]
            w.store.has_doc(list_id, d) && forall|j: int|
                0 <= j < shown(d).len() ==> (#[trigger] shown(d)[j]).id != item_id,
        w.store.ready(list_id) ==> r is FullItem,
        forall|l: ListId, d: DocView| #[trigger]
            after.store.has_doc(l, d) ==> w.store.has_doc(l, d),
        forall|l: ListId, edits: Set<Op>| #[trigger]
            after.store.has_edits(l, edits) ==> w.store.has_edits(l, edits),
        after.targets == w.targets && after.sort == w.sort,
{
    if r is FullItem {
        let found = r->FullItem_0;
        let d = choose|d: DocView| #[trigger]
            w.store.has_doc(list_id, d) && (match found {
                Some((l, t)) => l == list_id && Some(t@) == todo_numbered(
                    projected(bare_all(d.items())),
                    item_id,
                ),
                None => todo_numbered(projected(bare_all(d.items())), item_id) is None,
            });
        assert(w.store.has_doc(list_id, d));
        law_todo_is_found_by_number(shown(d), item_id);
    }
}

/// To look at other things makes the panes show them in that order, and changes nothing in the
/// store; the reply shows them.
pub proof fn law_served_view(
    w: Worker,
    after: Worker,
    r: WorkerMsg,
    targets: Seq<Option<ViewTarget>>,
    sort: SortMode,
    now: i64,
    i: int,
)
    requires
        w.served(after, r, CommandView::SetView { targets, sort }, now),
        0 <= i < targets.len(),
    ensures
        after.store == w.store,
        after.targets@ == targets,
        after.sort == sort,
        r is Snapshot,
        r->Snapshot_0@.panes.len() == targets.len(),
        r->Snapshot_0@.panes[i] == pane_items(w.store.db, targets[i], sort, now),
{
}

} // verus!
