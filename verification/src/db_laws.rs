//! What storing and removing rows comes to, told by what the rows hold.
use vstd::prelude::*;

use crate::db::{
    epoch_of, members_of, role_named, waiting, DocumentRow, ItemRow, KeySlotRow, ListRow,
    MemberRow, OutboundRow, Signature,
};
use crate::model::{Epoch, ListId, Member, MemberId, Role};
use crate::session::{dek_in, Dek};
use crate::store::{with_row, Store};
use crate::table::{
    found, law_upsert_keeps_others, law_upserted_is_found, lemma_found, lemma_is_found, upserted,
    without, Row,
};

verus! {

proof fn lemma_filter_alike<A>(s: Seq<A>, f: spec_fn(A) -> bool, g: spec_fn(A) -> bool)
    requires
        forall|i: int| 0 <= i < s.len() ==> f(#[trigger] s[i]) == g(s[i]),
    ensures
        s.filter(f) == s.filter(g),
    decreases s.len(),
{
    reveal(Seq::filter);
    if s.len() > 0 {
        let init = s.drop_last();
        assert forall|i: int| 0 <= i < init.len() implies f(#[trigger] init[i]) == g(init[i]) by {
            assert(init[i] == s[i]);
        }
        lemma_filter_alike(init, f, g);
        assert(f(s[s.len() - 1]) == g(s[s.len() - 1]));
    }
}

proof fn lemma_without_filters<K, T: Row<K>>(s: Seq<T>, key: K)
    ensures
        without(s, key) == s.filter(|r: T| !r.has_key(key)),
    decreases s.len(),
{
    reveal(Seq::filter);
    if s.len() > 0 {
        lemma_without_filters(s.drop_last(), key);
    }
}

/// To remove a list takes out, of each table, the rows of that list and no others: what is
/// stored of every other list stays, in its order.
pub proof fn law_delete_keeps_other_lists(before: Store, after: Store, list_id: ListId)
    requires
        before.dropped(after, list_id),
    ensures
        after.session == before.session,
        after.db.account == before.db.account,
        after.db.device_id == before.db.device_id,
        after.db.device_wrapped_keys == before.db.device_wrapped_keys,
        after.db.lists@ == before.db.lists@.filter(|r: ListRow| r.list_id != list_id),
        after.db.documents@ == before.db.documents@.filter(|r: DocumentRow| r.list_id != list_id),
        after.db.items@ == before.db.items@.filter(|r: ItemRow| r.list_id != list_id),
        after.db.members@ == before.db.members@.filter(|r: MemberRow| r.list_id != list_id),
        after.db.key_slots@ == before.db.key_slots@.filter(|r: KeySlotRow| r.list_id != list_id),
        after.db.outbound@ == before.db.outbound@.filter(
            |r: OutboundRow| r.payload.list_id != list_id,
        ),
{
    let d = before.db;
    lemma_without_filters(d.lists@, list_id);
    lemma_without_filters(d.documents@, list_id);
    lemma_without_filters(d.items@, list_id);
    lemma_without_filters(d.members@, list_id);
    lemma_without_filters(d.key_slots@, list_id);
    lemma_without_filters(d.outbound@, list_id);
    lemma_filter_alike(
        d.lists@,
        |r: ListRow| !r.has_key(list_id),
        |r: ListRow| r.list_id != list_id,
    );
    lemma_filter_alike(
        d.documents@,
        |r: DocumentRow| !r.has_key(list_id),
        |r: DocumentRow| r.list_id != list_id,
    );
    lemma_filter_alike(
        d.items@,
        |r: ItemRow| !r.has_key(list_id),
        |r: ItemRow| r.list_id != list_id,
    );
    lemma_filter_alike(
        d.members@,
        |r: MemberRow| !r.has_key(list_id),
        |r: MemberRow| r.list_id != list_id,
    );
    lemma_filter_alike(
        d.key_slots@,
        |r: KeySlotRow| !r.has_key(list_id),
        |r: KeySlotRow| r.list_id != list_id,
    );
    lemma_filter_alike(
        d.outbound@,
        |r: OutboundRow| !r.has_key(list_id),
        |r: OutboundRow| r.payload.list_id != list_id,
    );
}

/// The members of a list are those of its rows, in their order.
pub proof fn law_members_of_a_list(s: Seq<MemberRow>, list_id: ListId)
    ensures
        members_of(s, list_id) == s.filter(|r: MemberRow| r.list_id == list_id).map_values(
            |r: MemberRow| r.member,
        ),
    decreases s.len(),
{
    reveal(Seq::filter);
    let f = |r: MemberRow| r.list_id == list_id;
    let g = |r: MemberRow| r.member;
    if s.len() > 0 {
        law_members_of_a_list(s.drop_last(), list_id);
        assert(members_of(s.drop_last(), list_id) == s.drop_last().filter(f).map_values(g));
        assert(members_of(s, list_id) =~= s.filter(f).map_values(g));
    } else {
        assert(members_of(s, list_id) =~= s.filter(f).map_values(g));
    }
}

/// The updates of a list that wait are the rows of the queue that are of that list.
pub proof fn law_waiting_counts_the_rows_of_a_list(s: Seq<OutboundRow>, list_id: ListId)
    ensures
        waiting(s, list_id) == s.filter(|r: OutboundRow| r.payload.list_id == list_id).len(),
    decreases s.len(),
{
    reveal(Seq::filter);
    if s.len() > 0 {
        law_waiting_counts_the_rows_of_a_list(s.drop_last(), list_id);
    }
}

proof fn lemma_members_have(s: Seq<MemberRow>, list_id: ListId, m: Member)
    ensures
        members_of(s, list_id).contains(m) == exists|i: int|
            0 <= i < s.len() && (#[trigger] s[i]).list_id == list_id && s[i].member == m,
    decreases s.len(),
{
    if s.len() > 0 {
        let init = s.drop_last();
        lemma_members_have(init, list_id, m);
        let t = members_of(s, list_id);
        let t0 = members_of(init, list_id);
        if t.contains(m) {
            let j = choose|j: int| 0 <= j < t.len() && t[j] == m;
            if j < t0.len() {
                assert(t0[j] == m);
                let i = choose|i: int|
                    0 <= i < init.len() && (#[trigger] init[i]).list_id == list_id && init[i].member
                        == m;
                assert(s[i] == init[i]);
            } else {
                assert(s[s.len() - 1].member == m);
            }
        }
        if exists|i: int|
            0 <= i < s.len() && (#[trigger] s[i]).list_id == list_id && s[i].member == m {
            let i = choose|i: int|
                0 <= i < s.len() && (#[trigger] s[i]).list_id == list_id && s[i].member == m;
            if i < init.len() {
                assert(init[i] == s[i]);
                let j = choose|j: int| 0 <= j < t0.len() && t0[j] == m;
                assert(t[j] == m);
            } else {
                assert(t[t.len() - 1] == m);
            }
        }
    }
}

/// To remove a member takes their rows of that list out, and no other row; afterwards they are
/// not among the members of the list. The list's epoch is one higher than before, its new key
/// is known under it, and nothing else changes: no other list's epoch, and no document.
pub proof fn law_removed_member_is_gone(
    before: Store,
    after: Store,
    list_id: ListId,
    member_id: MemberId,
    epoch: Epoch,
    dek: [u8; 32],
)
    requires
        before.rotated(after, list_id, member_id, epoch, dek),
    ensures
        after.db.members@ == before.db.members@.filter(
            |r: MemberRow| !(r.list_id == list_id && r.member.id == member_id),
        ),
        forall|m: Member| #[trigger]
            members_of(after.db.members@, list_id).contains(m) ==> m.id != member_id,
        forall|l: ListId, m: Member|
            (l != list_id || m.id != member_id) ==> #[trigger] members_of(
                after.db.members@,
                l,
            ).contains(m) == members_of(before.db.members@, l).contains(m),
        epoch_of(after.db.lists@, list_id) == Some(epoch),
        after.db.lists@.len() == before.db.lists@.len(),
        forall|i: int|
            0 <= i < after.db.lists@.len() ==> #[trigger] after.db.lists@[i].list_id
                == before.db.lists@[i].list_id && after.db.lists@[i].name
                == before.db.lists@[i].name && after.db.lists@[i].role == before.db.lists@[i].role
                && (before.db.lists@[i].list_id != list_id ==> after.db.lists@[i]
                == before.db.lists@[i]),
        after.session.key_of(list_id, epoch) == Some(dek),
        after.session.member_id == before.session.member_id,
        after.db.items == before.db.items,
        after.db.documents == before.db.documents,
        after.db.outbound == before.db.outbound,
        after.db.account == before.db.account,
{
    let key = (list_id, member_id);
    let s = before.db.members@;
    lemma_without_filters(s, key);
    let f = |r: MemberRow| !r.has_key(key);
    let g = |r: MemberRow| !(r.list_id == list_id && r.member.id == member_id);
    lemma_filter_alike(s, f, g);
    let t = after.db.members@;
    assert(t == s.filter(g));
    assert forall|l: ListId, m: Member| (l != list_id || m.id != member_id) implies #[trigger]
        members_of(t, l).contains(m) == members_of(s, l).contains(m) by {
        lemma_members_have(t, l, m);
        lemma_members_have(s, l, m);
        lemma_rows_filtered(s, g);
        if members_of(t, l).contains(m) {
            let i = choose|i: int|
                0 <= i < t.len() && (#[trigger] t[i]).list_id == l && t[i].member == m;
            assert(t.contains(t[i]));
            let k = choose|k: int| 0 <= k < s.len() && s[k] == t[i];
            assert(s[k].list_id == l);
        }
        if members_of(s, l).contains(m) {
            let i = choose|i: int|
                0 <= i < s.len() && (#[trigger] s[i]).list_id == l && s[i].member == m;
            assert(g(s[i]));
            assert(s.contains(s[i]));
            assert(t.contains(s[i]));
            let k = choose|k: int| 0 <= k < t.len() && t[k] == s[i];
            assert(t[k].list_id == l);
        }
    }
    assert forall|m: Member| #[trigger] members_of(t, list_id).contains(m) implies m.id
        != member_id by {
        lemma_members_have(t, list_id, m);
        lemma_rows_filtered(s, g);
        let i = choose|i: int|
            0 <= i < t.len() && (#[trigger] t[i]).list_id == list_id && t[i].member == m;
        assert(t.contains(t[i]));
        assert(g(t[i]));
    }
    lemma_found(before.db.lists@, list_id);
}

proof fn lemma_rows_filtered<A>(s: Seq<A>, f: spec_fn(A) -> bool)
    ensures
        forall|x: A| #[trigger] s.filter(f).contains(x) == (s.contains(x) && f(x)),
    decreases s.len(),
{
    reveal(Seq::filter);
    if s.len() > 0 {
        let init = s.drop_last();
        lemma_rows_filtered(init, f);
        let t = s.filter(f);
        let t0 = init.filter(f);
        assert forall|x: A| #[trigger] t.contains(x) == (s.contains(x) && f(x)) by {
            if t.contains(x) {
                let i = choose|i: int| 0 <= i < t.len() && t[i] == x;
                if i < t0.len() {
                    assert(t0[i] == x);
                    assert(t0.contains(x));
                    let k = choose|k: int| 0 <= k < init.len() && init[k] == x;
                    assert(s[k] == x);
                } else {
                    assert(s[s.len() - 1] == x);
                }
            }
            if s.contains(x) && f(x) {
                let k = choose|k: int| 0 <= k < s.len() && s[k] == x;
                if k < init.len() {
                    assert(init[k] == x);
                    assert(t0.contains(x));
                    let i = choose|i: int| 0 <= i < t0.len() && t0[i] == x;
                    assert(t[i] == x);
                } else {
                    assert(t[t.len() - 1] == x);
                }
            }
        }
    }
}

/// A member who is recorded is among the members of the list afterwards, as given; the members
/// of other lists, and the others of this one, are as before. Only a list that is stored takes
/// members.
pub proof fn law_recorded_member_is_there(
    before: Store,
    after: Store,
    r: Result<(), crate::store::StoreError>,
    list_id: ListId,
    member: Member,
)
    requires
        before.joined(after, r, list_id, member),
    ensures
        r is Ok == exists|i: int|
            0 <= i < before.db.lists@.len() && (#[trigger] before.db.lists@[i]).list_id == list_id,
        r is Err ==> after == before,
        r is Ok ==> members_of(after.db.members@, list_id).contains(member),
        forall|l: ListId, m: Member|
            (l != list_id || m.id != member.id) ==> #[trigger] members_of(
                after.db.members@,
                l,
            ).contains(m) == members_of(before.db.members@, l).contains(m),
        r is Ok && !(exists|i: int|
            0 <= i < before.db.members@.len() && (#[trigger] before.db.members@[i]).list_id
                == list_id && before.db.members@[i].member.id == member.id)
            ==> after.db.members@ == before.db.members@.push(MemberRow { list_id, member }),
        after.db.lists == before.db.lists,
        after.db.items == before.db.items,
        after.session == before.session,
{
    let s = before.db.members@;
    let t = after.db.members@;
    let key = (list_id, member.id);
    let row = MemberRow { list_id, member };
    lemma_found(before.db.lists@, list_id);
    lemma_found(s, key);
    if r is Ok {
        law_upserted_is_found(s, key, row);
        lemma_members_have(t, list_id, member);
        let p = found(t, key)->0;
        lemma_found(t, key);
        assert(t[p] == row);
        assert(t[p].list_id == list_id && t[p].member == member);
        assert forall|l: ListId, m: Member| (l != list_id || m.id != member.id) implies #[trigger]
            members_of(t, l).contains(m) == members_of(s, l).contains(m) by {
            lemma_members_have(t, l, m);
            lemma_members_have(s, l, m);
            if members_of(t, l).contains(m) {
                let i = choose|i: int|
                    0 <= i < t.len() && (#[trigger] t[i]).list_id == l && t[i].member == m;
                assert(t[i] == s[i]);
            }
            if members_of(s, l).contains(m) {
                let i = choose|i: int|
                    0 <= i < s.len() && (#[trigger] s[i]).list_id == l && s[i].member == m;
                assert(t[i] == s[i]);
            }
        }
        if found(s, key) is Some {
            let i = found(s, key)->0;
            assert(s[i].list_id == list_id && s[i].member.id == member.id);
        }
    }
}

/// A member whose row is stored is among the members of the list.
pub proof fn law_upserted_member_is_there(s: Seq<MemberRow>, list_id: ListId, member: Member)
    ensures
        members_of(
            upserted(s, (list_id, member.id), MemberRow { list_id, member }),
            list_id,
        ).contains(member),
{
    let key = (list_id, member.id);
    let row = MemberRow { list_id, member };
    let t = upserted(s, key, row);
    law_upserted_is_found(s, key, row);
    lemma_found(t, key);
    let p = found(t, key)->0;
    assert(t[p].list_id == list_id && t[p].member == member);
    lemma_members_have(t, list_id, member);
}

/// To store a list puts its row in the place of the one there was, or behind the others where
/// there was none; every other list is as before.
pub proof fn law_stored_list_keeps_others(s: Seq<ListRow>, list_id: ListId, row: ListRow)
    requires
        row.list_id == list_id,
    ensures
        ({
            let t = upserted(s, list_id, row);
            &&& epoch_of(t, list_id) == Some(row.current_epoch)
            &&& forall|l: ListId| l != list_id ==> #[trigger] epoch_of(t, l) == epoch_of(s, l)
            &&& t.contains(row)
            &&& t.len() == s.len() || (t == s.push(row) && forall|i: int|
                0 <= i < s.len() ==> (#[trigger] s[i]).list_id != list_id)
            &&& forall|i: int|
                0 <= i < s.len() && s[i].list_id != list_id ==> #[trigger] t[i] == s[i]
        }),
{
    let t = upserted(s, list_id, row);
    lemma_found(s, list_id);
    law_upserted_is_found(s, list_id, row);
    let p = found(t, list_id)->0;
    lemma_found(t, list_id);
    assert(t[p] == row);
    assert forall|l: ListId| l != list_id implies #[trigger] epoch_of(t, l) == epoch_of(s, l) by {
        law_upsert_keeps_others(s, list_id, row, l);
    }
}

/// The epoch of a list is that of its first row; a list without a row has none.
pub proof fn law_epoch_of_a_list(s: Seq<ListRow>, list_id: ListId, i: int)
    requires
        0 <= i < s.len(),
        s[i].list_id == list_id,
        forall|j: int| 0 <= j < i ==> (#[trigger] s[j]).list_id != list_id,
    ensures
        epoch_of(s, list_id) == Some(s[i].current_epoch),
{
    lemma_is_found(s, list_id, i);
}

/// To store a sealed key puts it in the place of the one that the list had under that epoch, or
/// behind the others; no other key is touched.
pub proof fn law_stored_key_keeps_others(
    s: Seq<KeySlotRow>,
    list_id: ListId,
    epoch: Epoch,
    row: KeySlotRow,
)
    requires
        row.list_id == list_id && row.epoch == epoch,
    ensures
        ({
            let t = upserted(s, (list_id, epoch), row);
            &&& t.contains(row)
            &&& t.len() == s.len() || (t == s.push(row) && forall|i: int|
                0 <= i < s.len() ==> !((#[trigger] s[i]).list_id == list_id && s[i].epoch == epoch))
            &&& forall|i: int|
                0 <= i < s.len() && !(s[i].list_id == list_id && s[i].epoch == epoch)
                    ==> #[trigger] t[i] == s[i]
        }),
{
    let t = upserted(s, (list_id, epoch), row);
    lemma_found(s, (list_id, epoch));
    law_upserted_is_found(s, (list_id, epoch), row);
    let p = found(t, (list_id, epoch))->0;
    lemma_found(t, (list_id, epoch));
    assert(t[p] == row);
}

/// To store a document puts it in the place of the one that the list had, or behind the others;
/// no other list's document is touched.
pub proof fn law_stored_document_keeps_others(
    s: Seq<DocumentRow>,
    list_id: ListId,
    row: DocumentRow,
)
    requires
        row.list_id == list_id,
    ensures
        ({
            let t = upserted(s, list_id, row);
            &&& t.contains(row)
            &&& t.len() == s.len() || (t == s.push(row) && forall|i: int|
                0 <= i < s.len() ==> (#[trigger] s[i]).list_id != list_id)
            &&& forall|i: int|
                0 <= i < s.len() && s[i].list_id != list_id ==> #[trigger] t[i] == s[i]
        }),
{
    let t = upserted(s, list_id, row);
    lemma_found(s, list_id);
    law_upserted_is_found(s, list_id, row);
    let p = found(t, list_id)->0;
    lemma_found(t, list_id);
    assert(t[p] == row);
}

/// A data key that was recorded is the one that is known of the list under that epoch; all
/// others are known as before.
pub proof fn law_recorded_key_is_known(s: Seq<Dek>, k: Dek, l: ListId, e: Epoch)
    ensures
        dek_in(upserted(s, (k.list_id, k.epoch), k), k.list_id, k.epoch) == Some(k.dek),
        l != k.list_id || e != k.epoch ==> dek_in(
            upserted(s, (k.list_id, k.epoch), k),
            l,
            e,
        ) == dek_in(s, l, e),
        dek_in(s, l, e) is Some ==> exists|i: int|
            0 <= i < s.len() && (#[trigger] s[i]).list_id == l && s[i].epoch == e && Some(s[i].dek)
                == dek_in(s, l, e),
{
    law_upserted_is_found(s, (k.list_id, k.epoch), k);
    if l != k.list_id || e != k.epoch {
        law_upsert_keeps_others(s, (k.list_id, k.epoch), k, (l, e));
    }
    lemma_found(s, (l, e));
    if let Some(i) = found(s, (l, e)) {
        assert(s[i].list_id == l && s[i].epoch == e);
    }
}

/// An update is queued behind the others, once: where its signature is in the queue, nothing
/// changes.
pub proof fn law_update_is_queued_once(queue: Seq<OutboundRow>, row: OutboundRow)
    ensures
        (exists|i: int|
            0 <= i < queue.len() && (#[trigger] queue[i]).payload.signature@
                == row.payload.signature@) ==> with_row(queue, row) == queue,
        !(exists|i: int|
            0 <= i < queue.len() && (#[trigger] queue[i]).payload.signature@
                == row.payload.signature@) ==> with_row(queue, row) == queue.push(row),
        with_row(with_row(queue, row), row) == with_row(queue, row),
{
    let key = Signature(row.payload.signature);
    lemma_found(queue, key);
    if let Some(i) = found(queue, key) {
        assert(queue[i].payload.signature@ == row.payload.signature@);
    } else {
        let t = queue.push(row);
        lemma_found(t, key);
        assert(t[queue.len() as int].has_key(key));
    }
}

/// An owner is stored as one, and everybody else is a member.
pub proof fn law_stored_roles(s: Seq<char>)
    ensures
        (role_named(s) == Role::Owner) == (s == "owner"@),
        (role_named(s) == Role::Member) == (s != "owner"@),
{
}

} // verus!
