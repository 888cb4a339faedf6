//! What holds of reading and writing through the store.
use vstd::prelude::*;

use crate::crypto::{
    box_open, ed25519_public, is_update_of, law_update_round_trip, opened_dek, read_update,
    sealed_for, x25519_public,
};
use crate::dates::{in_calendar, padded};
use crate::db::{
    epoch_of, item_row, item_rows, law_stored_todo_reads_back, row_item, rows_of_list,
    stored_items, ByOrderKey, Db, DocumentRow, ItemRow, ItemRowView, KeySlotRow, OutboundRow,
    Signature,
};
use crate::doc_history::{agree, carried, distinct, readable, Op};
use crate::doc_value::{all_todos, bare_all, projected, Datum};
use crate::error::AppError;
use crate::list_doc::{imported, merged, DocError, DocView};
use crate::model::{Epoch, ListId, MemberId, TodoView};
use crate::order::{place, sorted, text_before, Ordered};
use crate::session::{array_of, dek_in, rehydrated, Dek, Session};
use crate::store::{
    edited, hands_on, is_row_of, persisted, rows_after, taken_in, EditView, Store, StoreError,
};
use crate::table::{
    found, law_removed_is_not_found, law_upsert_keeps_others, law_upserted_is_found, lemma_found,
    upserted, without, Row,
};
use crate::text::{decimal, digit_char};

verus! {

// ── Numbers in order ────────────────────────────────────────────────────────

/// Ten to a power.
pub open spec fn ten_to(w: nat) -> nat
    decreases w,
{
    if w == 0 {
        1
    } else {
        10 * ten_to((w - 1) as nat)
    }
}

proof fn lemma_decimal_len(n: nat, w: nat)
    requires
        w >= 1,
        n < ten_to(w),
    ensures
        1 <= decimal(n).len() <= w,
    decreases w,
{
    reveal_with_fuel(ten_to, 2);
    if n >= 10 {
        assert(w >= 2);
        assert(n / 10 < ten_to((w - 1) as nat));
        lemma_decimal_len(n / 10, (w - 1) as nat);
    }
}

/// A padded number is the padded number of tens with the last digit behind it.
proof fn lemma_padded_push(n: nat, w: nat)
    requires
        w >= 2,
        n < ten_to(w),
    ensures
        padded(n, w) == padded(n / 10, (w - 1) as nat).push(digit_char((n % 10) as int)),
        padded(n, w).len() == w,
    decreases w,
{
    reveal_with_fuel(ten_to, 2);
    assert(n / 10 < ten_to((w - 1) as nat));
    lemma_decimal_len(n, w);
    lemma_decimal_len(n / 10, (w - 1) as nat);
    let a = padded(n, w);
    let b = padded(n / 10, (w - 1) as nat).push(digit_char((n % 10) as int));
    if n < 10 {
        assert(n / 10 == 0);
        assert(digit_char(0) == '0');
        assert(a =~= b);
    } else {
        assert(a =~= b);
    }
}

proof fn lemma_push_before(a: Seq<char>, b: Seq<char>, x: char, y: char)
    requires
        a.len() == b.len(),
        text_before(a, b) || (a == b && x < y),
    ensures
        text_before(a.push(x), b.push(y)),
    decreases a.len(),
{
    reveal_with_fuel(text_before, 2);
    if a.len() == 0 {
        assert(a.push(x)[0] == x && b.push(y)[0] == y);
    } else {
        assert(a.push(x)[0] == a[0] && b.push(y)[0] == b[0]);
        if a[0] == b[0] {
            assert(a == b ==> a.skip(1) == b.skip(1));
            lemma_push_before(a.skip(1), b.skip(1), x, y);
            assert(a.push(x).skip(1) =~= a.skip(1).push(x));
            assert(b.push(y).skip(1) =~= b.skip(1).push(y));
        }
    }
}

proof fn lemma_digits_ordered(x: int, y: int)
    requires
        0 <= x < y < 10,
    ensures
        digit_char(x) < digit_char(y),
{
}

/// Numbers that are padded to one width are ordered as their texts are.
pub proof fn law_padded_numbers_are_ordered(i: nat, j: nat, w: nat)
    requires
        w >= 1,
        i < j < ten_to(w),
    ensures
        text_before(padded(i, w), padded(j, w)),
        padded(i, w).len() == w,
        padded(j, w).len() == w,
    decreases w,
{
    reveal_with_fuel(ten_to, 2);
    if w == 1 {
        lemma_digits_ordered(i as int, j as int);
        reveal_with_fuel(text_before, 2);
        assert(padded(i, 1) =~= seq![digit_char(i as int)]);
        assert(padded(j, 1) =~= seq![digit_char(j as int)]);
    } else {
        let v = (w - 1) as nat;
        lemma_padded_push(i, w);
        lemma_padded_push(j, w);
        let a = padded(i / 10, v);
        let b = padded(j / 10, v);
        assert(i / 10 < ten_to(v) && j / 10 < ten_to(v));
        if i / 10 < j / 10 {
            law_padded_numbers_are_ordered(i / 10, j / 10, v);
        } else {
            assert(i / 10 == j / 10);
            lemma_digits_ordered((i % 10) as int, (j % 10) as int);
        }
        lemma_push_before(a, b, digit_char((i % 10) as int), digit_char((j % 10) as int));
    }
}

// ── Reading back ────────────────────────────────────────────────────────────

/// A sequence that is in order is left as it is.
proof fn lemma_sorted_is_kept<C, T: Ordered<C>>(s: Seq<T::Shown>, order: C)
    requires
        crate::order::in_order::<C, T>(s, order),
    ensures
        sorted::<C, T>(s, order) == s,
    decreases s.len(),
{
    if s.len() > 0 {
        let init = s.drop_last();
        assert forall|i: int, j: int| 0 <= i < j < init.len() implies !T::before(
            #[trigger] init[j],
            #[trigger] init[i],
            order,
        ) by {
            assert(init[i] == s[i] && init[j] == s[j]);
        }
        lemma_sorted_is_kept::<C, T>(init, order);
        if init.len() > 0 {
            let k = init.len() - 1;
            assert(init.last() == s[k]);
            assert(!T::before(s[s.len() - 1], s[k], order));
        }
        assert(place::<C, T>(init, s.last(), order) == init.len());
        assert(init.insert(init.len() as int, s.last()) =~= s);
    }
}

/// The rows of a list behind rows of other lists are all that is found of it.
proof fn lemma_rows_of_list(a: Seq<ItemRowView>, b: Seq<ItemRowView>, id: ListId)
    requires
        forall|i: int| 0 <= i < a.len() ==> (#[trigger] a[i]).list_id != id,
        forall|i: int| 0 <= i < b.len() ==> (#[trigger] b[i]).list_id == id,
    ensures
        rows_of_list(a + b, id) == b,
    decreases a.len() + b.len(),
{
    if b.len() > 0 {
        assert((a + b).drop_last() =~= a + b.drop_last());
        assert((a + b).last() == b.last());
        lemma_rows_of_list(a, b.drop_last(), id);
        assert(b.drop_last().push(b.last()) =~= b);
    } else if a.len() > 0 {
        assert((a + b).drop_last() =~= a.drop_last() + b);
        assert((a + b).last() == a.last());
        lemma_rows_of_list(a.drop_last(), b, id);
    } else {
        assert((a + b) =~= b);
    }
}

/// The todos of a document are keyed by their positions, and due within the calendar.
proof fn lemma_todos_are_keyed(s: Seq<Datum>, i: int)
    requires
        all_todos(s) is Some,
        0 <= i < s.len(),
    ensures
        (all_todos(s)->0).len() == s.len(),
        (all_todos(s)->0)[i].order_key == padded(i as nat, 8),
        (all_todos(s)->0)[i].due matches Some(d) ==> in_calendar(d),
    decreases s.len(),
{
    lemma_keyed_len(s);
    lemma_keyed_len(s.drop_last());
    if i < s.len() - 1 {
        lemma_todos_are_keyed(s.drop_last(), i);
    }
}

/// What is read of a list is what its document held when it was stored: every todo, but
/// for its subtasks, in the order of the document. Beyond a hundred million todos their
/// keys no longer sort as their positions do.
pub proof fn law_read_gives_back_the_write(db: Db, list_id: ListId, doc: DocView)
    requires
        projected(bare_all(doc.items())).len() <= 100_000_000,
    ensures
        stored_items(rows_after(db, list_id, doc), list_id) == projected(
            bare_all(doc.items()),
        ).map_values(|t: TodoView| TodoView { subtasks: Seq::empty(), ..t }),
{
    let data = bare_all(doc.items());
    let todos = projected(data);
    let kept = without(db.items@, list_id);
    let a = item_rows(kept);
    let b = todos.map_values(|t: TodoView| item_row(list_id, t));
    law_removed_is_not_found(db.items@, list_id);
    lemma_found(kept, list_id);
    assert forall|i: int| 0 <= i < a.len() implies (#[trigger] a[i]).list_id != list_id by {
        assert(!kept[i].has_key(list_id));
    }
    assert forall|i: int| 0 <= i < b.len() implies (#[trigger] b[i]).list_id == list_id by {}
    lemma_rows_of_list(a, b, list_id);
    assert forall|i: int| 0 <= i < todos.len() implies (#[trigger] todos[i]).order_key == padded(
        i as nat,
        8,
    ) && (todos[i].due matches Some(d) ==> in_calendar(d)) by {
        if all_todos(data) is Some {
            lemma_keyed_len(data);
            lemma_todos_are_keyed(data, i);
        }
    }
    reveal_with_fuel(ten_to, 10);
    assert(ten_to(8) == 100_000_000);
    assert forall|i: int, j: int| 0 <= i < j < b.len() implies !<ItemRow as Ordered<
        ByOrderKey,
    >>::before(#[trigger] b[j], #[trigger] b[i], ByOrderKey) by {
        assert(todos[i].order_key == padded(i as nat, 8));
        assert(todos[j].order_key == padded(j as nat, 8));
        law_padded_numbers_are_ordered(i as nat, j as nat, 8);
        crate::order::lemma_text_order(
            padded(i as nat, 8),
            padded(j as nat, 8),
            padded(i as nat, 8),
        );
    }
    lemma_sorted_is_kept::<ByOrderKey, ItemRow>(b, ByOrderKey);
    let read = stored_items(rows_after(db, list_id, doc), list_id);
    let want = todos.map_values(|t: TodoView| TodoView { subtasks: Seq::empty(), ..t });
    assert(read.len() == want.len());
    assert forall|i: int| 0 <= i < want.len() implies read[i] == want[i] by {
        assert(read[i] == row_item(b[i]));
        assert(b[i] == item_row(list_id, todos[i]));
        assert(todos[i].due matches Some(d) ==> in_calendar(d));
        law_stored_todo_reads_back(list_id, todos[i]);
    }
    assert(read =~= want);
}

proof fn lemma_keyed_len(s: Seq<Datum>)
    requires
        all_todos(s) is Some,
    ensures
        (all_todos(s)->0).len() == s.len(),
    decreases s.len(),
{
    if s.len() > 0 {
        lemma_keyed_len(s.drop_last());
    }
}

/// What was queued after an edit brings another copy of the list up to date: whoever knows
/// the list's key and the author's public key reads the update; a sound copy that had the
/// edits from before takes it, and shows what the author's own copy shows.
pub proof fn law_queued_edits_reach_other_copies(
    row: OutboundRow,
    change: Seq<u8>,
    list_id: ListId,
    epoch: Epoch,
    session: Session,
    edits0: Set<Op>,
    edits1: Set<Op>,
)
    requires
        is_row_of(row, change, list_id, epoch, session),
        hands_on(change, edits0, edits1, true),
        edits0.subset_of(edits1),
        distinct(edits1),
    ensures
        read_update(
            row.payload,
            list_id,
            ed25519_public(session.signing_seed@),
            session.key_of(list_id, epoch)->0@,
        ) == Ok::<Seq<u8>, AppError>(change),
        readable(change) && agree(edits0, carried(change)),
        edits0.union(carried(change)) == edits1,
        merged(edits0.union(carried(change))) == merged(edits1),
{
    law_update_round_trip(
        row.payload,
        session.key_of(list_id, epoch)->0@,
        session.signing_seed@,
        change,
    );
    assert(edits0.union(carried(change)) =~= edits1);
}

/// Nothing is left of a list that was removed: no row of any table, and no open document.
pub proof fn law_deleted_list_leaves_nothing(before: Store, after: Store, list_id: ListId)
    requires
        before.dropped(after, list_id),
    ensures
        !after.db.holds_list(list_id),
        found(after.docs@, list_id) is None,
        found(after.db.documents@, list_id) is None,
        found(after.db.items@, list_id) is None,
        found(after.db.members@, list_id) is None,
        found(after.db.key_slots@, list_id) is None,
        found(after.db.outbound@, list_id) is None,
{
    law_removed_is_not_found(before.db.lists@, list_id);
    law_removed_is_not_found(before.docs@, list_id);
    law_removed_is_not_found(before.db.documents@, list_id);
    law_removed_is_not_found(before.db.items@, list_id);
    law_removed_is_not_found(before.db.members@, list_id);
    law_removed_is_not_found(before.db.key_slots@, list_id);
    law_removed_is_not_found(before.db.outbound@, list_id);
}

// ── Edits ───────────────────────────────────────────────────────────────────

/// What an edit that the store took leaves in the queue and among the documents. All that the
/// document has and had not before is in what it hands on; that is queued for upload, once,
/// under the list's epoch, as oneself and not yet taken, and behind everything that was queued
/// before. The document is stored as it is now, and those of other lists stay.
pub proof fn law_edit_is_queued_and_stored(
    before: Store,
    after: Store,
    list_id: ListId,
    e: EditView,
    given: Option<String>,
) -> (w: (Set<Op>, Set<Op>, Seq<u8>, DocView))
    requires
        before.took(after, list_id, e, given),
    ensures
        before.has_edits(list_id, w.0),
        after.has_edits(list_id, w.1),
        after.has_doc(list_id, w.3),
        w.0.subset_of(w.1),
        forall|op: Op| #[trigger] w.1.contains(op) && !w.0.contains(op) ==> carried(w.2).contains(op),
        forall|op: Op| #[trigger] carried(w.2).contains(op) ==> w.1.contains(op),
        before.ready(list_id) ==> readable(w.2),
        w.2.len() == 0 ==> after.db.outbound@ == before.db.outbound@,
        w.2.len() > 0 ==> exists|row: OutboundRow|
            row.payload.list_id == list_id && row.payload.author == before.session.member_id
                && !row.taken && Some(row.payload.epoch) == epoch_of(before.db.lists@, list_id)
                && #[trigger] is_update_of(
                row.payload,
                before.session.key_of(list_id, row.payload.epoch)->0@,
                before.session.signing_seed@,
                w.2,
            ) && (after.db.outbound@ == before.db.outbound@.push(row) || (after.db.outbound@
                == before.db.outbound@ && exists|i: int|
                0 <= i < before.db.outbound@.len()
                    && (#[trigger] before.db.outbound@[i]).payload.signature@
                    == row.payload.signature@)),
        exists|i: int|
            0 <= i < after.db.documents@.len() && (#[trigger] after.db.documents@[i]).list_id
                == list_id && imported(after.db.documents@[i].snapshot@) == w.3,
        forall|i: int|
            0 <= i < before.db.documents@.len() && before.db.documents@[i].list_id != list_id
                ==> #[trigger] after.db.documents@[i] == before.db.documents@[i],
{
    let epoch = epoch_of(before.db.lists@, list_id);
    let (d0, d1, e0, e1) = choose|d0: DocView, d1: DocView, edits0: Set<Op>, edits1: Set<Op>|
        #![trigger before.has_doc(list_id, d0), after.has_doc(list_id, d1), before.has_edits(
            list_id,
            edits0,
        ), after.has_edits(list_id, edits1)]
        {
            &&& before.has_doc(list_id, d0) && after.has_doc(list_id, d1)
            &&& before.has_edits(list_id, edits0) && after.has_edits(list_id, edits1)
            &&& edits0.subset_of(edits1)
            &&& edited(d0, e, Ok(given), d1)
            &&& persisted(
                before.db,
                after.db,
                before.session,
                list_id,
                d1,
                edits0,
                edits1,
                before.ready(list_id),
            )
        };
    let sound = before.ready(list_id);
    let (change, row) = choose|change: Seq<u8>, row: OutboundRow|
        hands_on(change, e0, e1, sound) && #[trigger] taken_in(
            before.db.outbound@,
            after.db.outbound@,
            row,
            change,
            list_id,
            epoch->0,
            before.session,
        );
    assert(hands_on(change, e0, e1, sound));
    assert forall|op: Op| #[trigger] e1.contains(op) && !e0.contains(op) implies carried(
        change,
    ).contains(op) by {
        assert(e1.difference(e0).contains(op));
    }
    if change.len() > 0 {
        let key = Signature(row.payload.signature);
        lemma_found(before.db.outbound@, key);
        if let Some(i) = found(before.db.outbound@, key) {
            assert(before.db.outbound@[i].payload.signature@ == row.payload.signature@);
        }
        assert(is_update_of(
            row.payload,
            before.session.key_of(list_id, row.payload.epoch)->0@,
            before.session.signing_seed@,
            change,
        ));
    }
    let doc = choose|r: DocumentRow|
        r.list_id == list_id && imported(r.snapshot@) == d1 && (sound ==> readable(r.snapshot@))
            && after.db.documents@ == #[trigger] upserted(before.db.documents@, list_id, r);
    let s = before.db.documents@;
    lemma_found(s, list_id);
    law_upserted_is_found(s, list_id, doc);
    let p = found(after.db.documents@, list_id)->0;
    lemma_found(after.db.documents@, list_id);
    assert(after.db.documents@[p] == doc);
    (e0, e1, change, d1)
}

/// An edit that fails leaves what is stored as it is: the todos, the documents, the lists, the
/// members and the keys. What is queued changes only where the document could not be read or
/// refused the edit.
pub proof fn law_failed_edit_stores_nothing(
    before: Store,
    after: Store,
    list_id: ListId,
    e: EditView,
    x: StoreError,
)
    requires
        before.edits(after, list_id, e, Err(x)),
    ensures
        after.db.items == before.db.items,
        after.db.documents == before.db.documents,
        after.db.lists == before.db.lists,
        after.db.members == before.db.members,
        after.db.key_slots == before.db.key_slots,
        after.db.account == before.db.account,
        x != StoreError::Doc(DocError::Refused) ==> after.db == before.db,
{
}

/// An edit goes through only where the list is stored and the data key of its epoch is known;
/// otherwise it fails, whatever it is.
pub proof fn law_edit_needs_the_list_and_its_key(
    before: Store,
    after: Store,
    list_id: ListId,
    e: EditView,
    r: Result<(), StoreError>,
)
    requires
        before.edits(after, list_id, e, r),
        (forall|i: int|
            0 <= i < before.db.lists@.len() ==> (#[trigger] before.db.lists@[i]).list_id
                != list_id) || (forall|i: int|
            0 <= i < before.session.deks@.len() ==> (#[trigger] before.session.deks@[i]).list_id
                != list_id),
    ensures
        r is Err,
        after.db.items == before.db.items,
        after.db.documents == before.db.documents,
{
    lemma_found(before.db.lists@, list_id);
    let epoch = epoch_of(before.db.lists@, list_id);
    if epoch is Some {
        lemma_found(before.session.deks@, (list_id, epoch->0));
    }
}

/// Sealed keys that can be opened are known afterwards: of the slots of a list under an epoch
/// the last that opens counts, and where none opens it is known as before.
pub proof fn law_opened_keys_are_known(
    deks: Seq<Dek>,
    slots: Seq<KeySlotRow>,
    public: Seq<u8>,
    secret: Seq<u8>,
    list_id: ListId,
    epoch: Epoch,
    i: int,
)
    requires
        -1 <= i < slots.len(),
        i >= 0 ==> slots[i].list_id == list_id && slots[i].epoch == epoch && opened_dek(
            slots[i].wrapped_dek@,
            public,
            secret,
        ) is Some,
        forall|j: int|
            i < j < slots.len() && (#[trigger] slots[j]).list_id == list_id && slots[j].epoch
                == epoch ==> opened_dek(slots[j].wrapped_dek@, public, secret) is None,
    ensures
        i >= 0 ==> dek_in(rehydrated(deks, slots, public, secret), list_id, epoch) == Some(
            array_of(opened_dek(slots[i].wrapped_dek@, public, secret)->0),
        ),
        i < 0 ==> dek_in(rehydrated(deks, slots, public, secret), list_id, epoch) == dek_in(
            deks,
            list_id,
            epoch,
        ),
    decreases slots.len(),
{
    if slots.len() > 0 {
        let s = slots.last();
        let init = slots.drop_last();
        let before = rehydrated(deks, init, public, secret);
        assert(s == slots[slots.len() - 1]);
        if i < slots.len() - 1 {
            assert forall|j: int|
                i < j < init.len() && (#[trigger] init[j]).list_id == list_id && init[j].epoch
                    == epoch implies opened_dek(init[j].wrapped_dek@, public, secret) is None by {
                assert(slots[j] == init[j]);
            }
            law_opened_keys_are_known(deks, init, public, secret, list_id, epoch, i);
        }
        if let Some(k) = opened_dek(s.wrapped_dek@, public, secret) {
            let row = Dek { list_id: s.list_id, epoch: s.epoch, dek: array_of(k) };
            if s.list_id == list_id && s.epoch == epoch {
                law_upserted_is_found(before, (s.list_id, s.epoch), row);
            } else {
                law_upsert_keeps_others(before, (s.list_id, s.epoch), row, (list_id, epoch));
            }
        }
    }
}

/// A list whose first update is too large is stored under its name, with its owner and its key,
/// but has no todos and no document, and nothing of it is queued; other lists are as before.
pub proof fn law_half_made_list(
    before: Store,
    after: Store,
    list_id: ListId,
    dek: [u8; 32],
    name: Seq<char>,
)
    requires
        before.half_made(after, list_id, dek, name),
    ensures
        after.db.items == before.db.items,
        after.db.documents == before.db.documents,
        after.db.outbound == before.db.outbound,
        epoch_of(after.db.lists@, list_id) == Some(1u32),
        exists|i: int|
            0 <= i < after.db.lists@.len() && (#[trigger] after.db.lists@[i]).list_id == list_id
                && after.db.lists@[i].name@ == name,
        forall|i: int|
            0 <= i < before.db.lists@.len() && before.db.lists@[i].list_id != list_id
                ==> #[trigger] after.db.lists@[i] == before.db.lists@[i],
{
    let (list, key, d0, d1, edits1) = choose|
        list: crate::db::ListRow,
        key: KeySlotRow,
        d0: DocView,
        d1: DocView,
        edits1: Set<Op>,
    |
        #![trigger upserted(before.db.lists@, list_id, list), upserted(
            before.db.key_slots@,
            (list_id, 1u32),
            key,
        ), crate::store::titled(d0, d1, name), after.has_edits(list_id, edits1)]
        {
            &&& list.list_id == list_id && list.name@ == name && list.current_epoch == 1
            &&& after.db.lists@ == upserted(before.db.lists@, list_id, list)
            &&& after.db.key_slots@ == upserted(before.db.key_slots@, (list_id, 1u32), key)
            &&& crate::store::titled(d0, d1, name)
            &&& after.has_edits(list_id, edits1)
            &&& after.db == (Db {
                lists: after.db.lists,
                key_slots: after.db.key_slots,
                members: after.db.members,
                ..before.db
            })
        };
    let s = before.db.lists@;
    lemma_found(s, list_id);
    law_upserted_is_found(s, list_id, list);
    let p = found(after.db.lists@, list_id)->0;
    lemma_found(after.db.lists@, list_id);
    assert(after.db.lists@[p] == list);
}

/// An edit is told to be of an unknown todo only where the list's document has no item with the
/// number.
pub proof fn law_unknown_todo_is_told(
    before: Store,
    after: Store,
    list_id: ListId,
    e: EditView,
) -> (d: DocView)
    requires
        before.edits(after, list_id, e, Err(StoreError::Doc(DocError::UnknownId))),
    ensures
        before.has_doc(list_id, d),
        after.has_doc(list_id, d),
        match e {
            EditView::UpdateItem(id, _) => d.position(id) is None,
            EditView::ToggleDone(id) => d.position(id) is None,
            EditView::SetPriority(id, _) => d.position(id) is None,
            EditView::SetDue(id, _) => d.position(id) is None,
            EditView::RemoveItem(id) => d.position(id) is None,
            EditView::AddTag(id, _) => d.position(id) is None,
            EditView::RemoveTag(id, _) => d.position(id) is None,
            EditView::AddSubtask(id, _) => d.position(id) is None,
            EditView::ToggleSubtask(id, _) => d.position(id) is None,
            EditView::RemoveSubtask(id, _) => d.position(id) is None,
            _ => false,
        },
{
    let (d0, d1) = choose|d0: DocView, d1: DocView|
        #![trigger before.has_doc(list_id, d0), after.has_doc(list_id, d1)]
        before.has_doc(list_id, d0) && after.has_doc(list_id, d1) && edited(
            d0,
            e,
            Err(DocError::UnknownId),
            d1,
        );
    d0
}

/// An edit of a list leaves the documents of all other lists as they are, and readable where they
/// were; one that goes through leaves its own readable too.
pub proof fn law_edit_keeps_other_documents(
    before: Store,
    after: Store,
    list_id: ListId,
    e: EditView,
    r: Result<(), StoreError>,
    other: ListId,
    doc: DocView,
)
    requires
        before.edits(after, list_id, e, r),
        other != list_id,
    ensures
        before.has_doc(other, doc) == after.has_doc(other, doc),
        before.ready(other) ==> after.ready(other),
        r is Ok && before.ready(list_id) ==> after.ready(list_id),
{
    if r is Ok {
        let given = choose|given: Option<String>| #[trigger]
            before.took(after, list_id, e, given);
        assert(before.took(after, list_id, e, given));
    }
}

/// The new key that comes with the removal of a member is stored sealed to oneself, under the
/// list and its new epoch; whoever holds the secret of one's identity opens it. The keys of other
/// epochs and lists stay, and so does who one is.
pub proof fn law_new_key_is_sealed_to_oneself(
    before: Store,
    after: Store,
    list_id: ListId,
    member_id: MemberId,
    epoch: Epoch,
    dek: [u8; 32],
    secret: Seq<u8>,
)
    requires
        before.rotated(after, list_id, member_id, epoch, dek),
        secret.len() == 32,
        x25519_public(secret) == before.session.identity_pub.0@,
    ensures
        exists|i: int|
            0 <= i < after.db.key_slots@.len() && (#[trigger] after.db.key_slots@[i]).list_id
                == list_id && after.db.key_slots@[i].epoch == epoch && opened_dek(
                after.db.key_slots@[i].wrapped_dek@,
                before.session.identity_pub.0@,
                secret,
            ) == Some(dek@),
        forall|i: int|
            0 <= i < before.db.key_slots@.len() && !(before.db.key_slots@[i].list_id == list_id
                && before.db.key_slots@[i].epoch == epoch) ==> #[trigger] after.db.key_slots@[i]
                == before.db.key_slots@[i],
        forall|l: ListId, e: Epoch|
            l != list_id || e != epoch ==> #[trigger] after.session.key_of(l, e)
                == before.session.key_of(l, e),
        after.session.member_id == before.session.member_id,
        after.session.identity_secret == before.session.identity_secret,
        after.session.identity_pub == before.session.identity_pub,
        after.session.signing_seed == before.session.signing_seed,
        after.session.token == before.session.token,
{
    let row = choose|row: KeySlotRow| #[trigger]
        upserted(before.db.key_slots@, (list_id, epoch), row) == after.db.key_slots@ && row.list_id
            == list_id && row.epoch == epoch && sealed_for(
            row.wrapped_dek@,
            before.session.identity_pub.0@,
            dek@,
        );
    let s = before.db.key_slots@;
    let t = after.db.key_slots@;
    let key = (list_id, epoch);
    lemma_found(s, key);
    law_upserted_is_found(s, key, row);
    lemma_found(t, key);
    let p = found(t, key)->0;
    assert(t[p] == row);
    assert(box_open(row.wrapped_dek@, before.session.identity_pub.0@, secret) == Some(dek@));
    assert(opened_dek(t[p].wrapped_dek@, before.session.identity_pub.0@, secret) == Some(dek@));
    assert forall|l: ListId, e: Epoch| l != list_id || e != epoch implies #[trigger]
        after.session.key_of(l, e) == before.session.key_of(l, e) by {
        assert((l, e) != (list_id, epoch));
        assert(before.session.key_of(l, e) == after.session.key_of(l, e));
    }
}

} // verus!
