//! Keeping in step with the server. Nothing here knows a key: updates travel as they were
//! encrypted and signed.
use vstd::prelude::*;

use crate::db::{Db, OutboundRow, Signature};
use crate::model::{Epoch, ListId, UpdatePayload};
use crate::table::{
    find, found, law_removed_is_not_found, lemma_found, remove, without, Row,
};

verus! {

/// How many updates go over the wire at once.
pub const BATCH: usize = 500;

/// What the synchronisation is asked to do.
#[derive(Debug, PartialEq, Eq)]
pub enum SyncCommand {
    /// Upload the updates of a list that wait.
    Push(ListId),
    /// Make a list known to the server.
    CreateList { list_id: ListId, wrapped_dek: Vec<u8> },
    /// Seat a member; the body was made ready before.
    AddMember { list_id: ListId, body: Vec<u8> },
    /// Remove a member; the body was made ready before.
    RemoveMember { list_id: ListId, body: Vec<u8> },
    /// Bring every list up to date.
    InitialSync,
    /// Fetch the updates of a list.
    Pull(ListId),
    /// Follow a list live.
    Subscribe(ListId),
}

// ── Pushing ─────────────────────────────────────────────────────────────────

/// An update as the server takes it.
#[derive(Debug, PartialEq, Eq)]
pub struct AppendUpdate {
    pub version: u8,
    pub epoch: Epoch,
    pub author: [u8; 16],
    pub nonce: Vec<u8>,
    pub ciphertext: Vec<u8>,
    pub signature: Vec<u8>,
}

fn bytes_of<const N: usize>(a: &[u8; N]) -> (r: Vec<u8>)
    ensures
        r@ == a@,
{
    let mut v: Vec<u8> = Vec::new();
    let mut i: usize = 0;
    while i < N
        invariant
            i <= N,
            v@ == a@.take(i as int),
        decreases N - i,
    {
        v.push(a[i]);
        proof {
            assert(a@.take(i + 1) =~= a@.take(i as int).push(a@[i as int]));
        }
        i = i + 1;
    }
    proof {
        assert(a@.take(N as int) =~= a@);
    }
    v
}

/// The update as the server takes it: nothing of it is changed.
pub fn append_body(p: &UpdatePayload) -> (r: AppendUpdate)
    ensures
        r.version == p.version,
        r.epoch == p.epoch,
        r.author == p.author.0,
        r.nonce@ == p.nonce@,
        r.ciphertext@ == p.ciphertext@,
        r.signature@ == p.signature@,
{
    AppendUpdate {
        version: p.version,
        epoch: p.epoch,
        author: p.author.0,
        nonce: bytes_of(&p.nonce),
        ciphertext: p.ciphertext.clone(),
        signature: bytes_of(&p.signature),
    }
}

/// Whether an update of a list waits, and is not being uploaded.
pub open spec fn pending(row: OutboundRow, list_id: ListId) -> bool {
    row.payload.list_id == list_id && !row.taken
}

/// How many of the updates of a list are pending.
pub open spec fn pending_count(s: Seq<OutboundRow>, list_id: ListId) -> nat
    decreases s.len(),
{
    if s.len() == 0 {
        0
    } else if pending(s.last(), list_id) {
        pending_count(s.drop_last(), list_id) + 1
    } else {
        pending_count(s.drop_last(), list_id)
    }
}

/// The signatures of the first pending updates of a list, up to a limit.
pub open spec fn first_pending(s: Seq<OutboundRow>, list_id: ListId, limit: nat) -> Seq<Signature>
    decreases s.len(),
{
    if s.len() == 0 {
        Seq::empty()
    } else {
        let before = first_pending(s.drop_last(), list_id, limit);
        if pending(s.last(), list_id) && pending_count(s.drop_last(), list_id) < limit {
            before.push(Signature(s.last().payload.signature))
        } else {
            before
        }
    }
}

/// The queue with the first pending updates of a list being uploaded.
pub open spec fn marked(s: Seq<OutboundRow>, list_id: ListId, limit: nat) -> Seq<OutboundRow> {
    Seq::new(
        s.len(),
        |i: int|
            if pending(s[i], list_id) && pending_count(s.take(i), list_id) < limit {
                OutboundRow { taken: true, ..s[i] }
            } else {
                s[i]
            },
    )
}

/// The queue with an update put back whose upload failed.
pub open spec fn released(s: Seq<OutboundRow>, signature: Signature) -> Seq<OutboundRow> {
    match found(s, signature) {
        Some(i) => s.update(i, OutboundRow { taken: false, ..s[i] }),
        None => s,
    }
}

/// The queue after an upload: an update that the server took is forgotten, and one that
/// failed is put back.
pub open spec fn after_upload(
    s: Seq<OutboundRow>,
    signature: Signature,
    accepted: bool,
) -> Seq<OutboundRow> {
    if accepted {
        without(s, signature)
    } else {
        released(s, signature)
    }
}

impl Db {
    /// Takes the first pending updates of a list for their upload; gives their
    /// signatures.
    pub fn take_outbound(&mut self, list_id: ListId, limit: usize) -> (r: Vec<Signature>)
        ensures
            *final(self) == (Db { outbound: final(self).outbound, ..*old(self) }),
            r@ == first_pending(old(self).outbound@, list_id, limit as nat),
            final(self).outbound@ == marked(old(self).outbound@, list_id, limit as nat),
            r@.len() <= limit,
            forall|i: int|
                0 <= i < old(self).outbound@.len() && (#[trigger] old(self).outbound@[i]).payload.list_id
                    != list_id ==> final(self).outbound@[i] == old(self).outbound@[i],
    {
        let ghost all = self.outbound@;
        let n: usize = self.outbound.len();
        let mut out: Vec<Signature> = Vec::new();
        let mut i: usize = 0;
        proof {
            assert(all.take(0) =~= Seq::empty());
        }
        while i < n
            invariant
                i <= n,
                n == all.len(),
                n == self.outbound@.len(),
                *self == (Db { outbound: self.outbound, ..*old(self) }),
                out@ == first_pending(all.take(i as int), list_id, limit as nat),
                out@.len() <= limit,
                out@.len() == (if pending_count(all.take(i as int), list_id) < limit {
                    pending_count(all.take(i as int), list_id)
                } else {
                    limit as nat
                }),
                forall|j: int|
                    0 <= j < n ==> #[trigger] self.outbound@[j] == (if j < i {
                        marked(all, list_id, limit as nat)[j]
                    } else {
                        all[j]
                    }),
            decreases n - i,
        {
            proof {
                assert(all.take(i + 1).drop_last() =~= all.take(i as int));
                assert(all.take(i + 1).last() == all[i as int]);
            }
            if self.outbound[i].payload.list_id == list_id && !self.outbound[i].taken && out.len()
                < limit {
                out.push(Signature(self.outbound[i].payload.signature));
                self.outbound[i].taken = true;
            }
            i = i + 1;
        }
        proof {
            assert(all.take(n as int) =~= all);
            assert(self.outbound@ =~= marked(all, list_id, limit as nat));
            law_push_takes_its_own_list(all, list_id, limit as nat);
        }
        out
    }

    /// The update with a signature, if it is queued.
    pub fn outbound_payload(&self, signature: Signature) -> (r: Option<&UpdatePayload>)
        ensures
            match found(self.outbound@, signature) {
                Some(i) => r matches Some(p) && *p == self.outbound@[i].payload,
                None => r is None,
            },
    {
        match find(&self.outbound, &signature) {
            Some(i) => Some(&self.outbound[i].payload),
            None => None,
        }
    }

    /// Forgets an update that the server has taken.
    pub fn ack_outbound(&mut self, signature: Signature)
        ensures
            *final(self) == (Db { outbound: final(self).outbound, ..*old(self) }),
            final(self).outbound@ == without(old(self).outbound@, signature),
    {
        remove(&mut self.outbound, &signature);
    }

    /// Puts an update back into the queue whose upload failed.
    pub fn release_outbound(&mut self, signature: Signature)
        ensures
            *final(self) == (Db { outbound: final(self).outbound, ..*old(self) }),
            final(self).outbound@ == released(old(self).outbound@, signature),
    {
        if let Some(i) = find(&self.outbound, &signature) {
            self.outbound[i].taken = false;
        }
    }
}

proof fn lemma_pending_grows(s: Seq<OutboundRow>, list_id: ListId, i: int, j: int)
    requires
        0 <= i <= j <= s.len(),
    ensures
        pending_count(s.take(i), list_id) <= pending_count(s.take(j), list_id),
        i < j && pending(s[i], list_id) ==> pending_count(s.take(i), list_id) < pending_count(
            s.take(j),
            list_id,
        ),
    decreases j - i,
{
    if i < j {
        lemma_pending_grows(s, list_id, i, j - 1);
        assert(s.take(j).drop_last() =~= s.take(j - 1));
        assert(s.take(j).last() == s[j - 1]);
    }
}

/// The places of the rows that are taken out of the first of a queue.
proof fn lemma_taken_places(s: Seq<OutboundRow>, list_id: ListId, limit: nat, n: int) -> (places:
    Seq<int>)
    requires
        0 <= n <= s.len(),
    ensures
        places.len() == first_pending(s.take(n), list_id, limit).len(),
        places.len() == (if pending_count(s.take(n), list_id) < limit {
            pending_count(s.take(n), list_id)
        } else {
            limit
        }),
        forall|k: int|
            0 <= k < places.len() ==> 0 <= #[trigger] places[k] < n && first_pending(
                s.take(n),
                list_id,
                limit,
            )[k] == Signature(s[places[k]].payload.signature) && pending(s[places[k]], list_id)
                && pending_count(s.take(places[k]), list_id) < limit,
        forall|k: int, l: int|
            0 <= k < l < places.len() ==> #[trigger] places[k] < #[trigger] places[l],
        forall|i: int|
            0 <= i < n && pending(#[trigger] s[i], list_id) && pending_count(s.take(i), list_id)
                < limit ==> places.contains(i),
    decreases n,
{
    if n == 0 {
        Seq::empty()
    } else {
        let before = lemma_taken_places(s, list_id, limit, n - 1);
        assert(s.take(n).drop_last() =~= s.take(n - 1));
        assert(s.take(n).last() == s[n - 1]);
        if pending(s[n - 1], list_id) && pending_count(s.take(n - 1), list_id) < limit {
            let places = before.push(n - 1);
            assert forall|i: int|
                0 <= i < n && pending(#[trigger] s[i], list_id) && pending_count(
                    s.take(i),
                    list_id,
                ) < limit implies places.contains(i) by {
                if i == n - 1 {
                    assert(places[before.len() as int] == i);
                } else {
                    let k = choose|k: int| 0 <= k < before.len() && before[k] == i;
                    assert(places[k] == i);
                }
            }
            places
        } else {
            before
        }
    }
}

/// A push takes the waiting updates of its own list, and nothing else. Each signature that it
/// gives is that of a row of this list that was not taken, one row for one signature, in the
/// order of the queue; that row is taken afterwards, and all else of it stays. A row of another
/// list, or one that was taken before, is left exactly as it was.
pub proof fn law_push_takes_its_own_list(s: Seq<OutboundRow>, list_id: ListId, limit: nat)
    ensures
        ({
            let given = first_pending(s, list_id, limit);
            let after = marked(s, list_id, limit);
            &&& after.len() == s.len()
            &&& given.len() <= limit
            &&& forall|i: int|
                0 <= i < s.len() && ((#[trigger] s[i]).payload.list_id != list_id || s[i].taken)
                    ==> after[i] == s[i]
            &&& forall|i: int|
                0 <= i < s.len() ==> (#[trigger] after[i]).payload == s[i].payload
            &&& exists|places: Seq<int>|
                {
                    &&& places.len() == given.len()
                    &&& forall|k: int|
                        0 <= k < given.len() ==> 0 <= #[trigger] places[k] < s.len() && given[k]
                            == Signature(s[places[k]].payload.signature)
                            && s[places[k]].payload.list_id == list_id && !s[places[k]].taken
                            && after[places[k]].taken
                    &&& forall|k: int, l: int|
                        0 <= k < l < given.len() ==> #[trigger] places[k] < #[trigger] places[l]
                }
        }),
{
    let places = lemma_taken_places(s, list_id, limit, s.len() as int);
    assert(s.take(s.len() as int) =~= s);
    let given = first_pending(s, list_id, limit);
    let after = marked(s, list_id, limit);
    assert forall|k: int| 0 <= k < given.len() implies 0 <= #[trigger] places[k] < s.len()
        && given[k] == Signature(s[places[k]].payload.signature) && s[places[k]].payload.list_id
        == list_id && !s[places[k]].taken && after[places[k]].taken by {
        assert(pending(s[places[k]], list_id));
    }
}

/// A push leaves none of its list behind but for the limit: each waiting update of the list is
/// taken and its signature given, unless as many as the limit allows came before it. So a
/// second push before the uploads are done gives none of them again.
pub proof fn law_push_takes_all_that_wait(
    s: Seq<OutboundRow>,
    list_id: ListId,
    limit: nat,
    i: int,
)
    requires
        0 <= i < s.len(),
        s[i].payload.list_id == list_id,
        !s[i].taken,
    ensures
        ({
            let given = first_pending(s, list_id, limit);
            let after = marked(s, list_id, limit);
            let again = first_pending(after, list_id, limit);
            &&& after[i].taken ==> given.contains(Signature(s[i].payload.signature))
            &&& !after[i].taken ==> given.len() == limit && forall|j: int|
                i <= j < s.len() && (#[trigger] s[j]).payload.list_id == list_id ==> after[j]
                    == s[j]
            &&& given.len() < limit ==> after[i].taken && again.len() == 0
        }),
{
    let n = s.len() as int;
    let places = lemma_taken_places(s, list_id, limit, n);
    assert(s.take(n) =~= s);
    let given = first_pending(s, list_id, limit);
    let after = marked(s, list_id, limit);
    assert(pending(s[i], list_id));
    lemma_pending_grows(s, list_id, i, n);
    if after[i].taken {
        assert(places.contains(i));
        let k = choose|k: int| 0 <= k < places.len() && places[k] == i;
        assert(given[k] == Signature(s[i].payload.signature));
    } else {
        assert forall|j: int| i <= j < n && (#[trigger] s[j]).payload.list_id == list_id implies after[j]
            == s[j] by {
            lemma_pending_grows(s, list_id, i, j);
        }
    }
    if given.len() < limit {
        assert forall|j: int| 0 <= j < n implies !pending(#[trigger] after[j], list_id) by {
            lemma_pending_grows(s, list_id, j, n);
        }
        lemma_none_pending(after, list_id, limit);
    }
}

proof fn lemma_none_pending(s: Seq<OutboundRow>, list_id: ListId, limit: nat)
    requires
        forall|j: int| 0 <= j < s.len() ==> !pending(#[trigger] s[j], list_id),
    ensures
        first_pending(s, list_id, limit).len() == 0,
    decreases s.len(),
{
    if s.len() > 0 {
        assert forall|j: int| 0 <= j < s.drop_last().len() implies !pending(
            #[trigger] s.drop_last()[j],
            list_id,
        ) by {
            assert(s.drop_last()[j] == s[j]);
        }
        lemma_none_pending(s.drop_last(), list_id, limit);
        assert(s.last() == s[s.len() - 1]);
    }
}

/// What an upload leads to: an update that the server took is forgotten, and the next one
/// follows; one that failed goes back into the queue, and the push ends.
pub fn uploaded(db: &mut Db, signature: Signature, accepted: bool) -> (go_on: bool)
    ensures
        go_on == accepted,
        *final(db) == (Db { outbound: final(db).outbound, ..*old(db) }),
        final(db).outbound@ == after_upload(old(db).outbound@, signature, accepted),
{
    if accepted {
        db.ack_outbound(signature);
    } else {
        db.release_outbound(signature);
    }
    accepted
}

/// No update is lost before the server has it. One whose upload failed is queued as it was,
/// and waits again; once the server has taken one, it is queued no more, and all others
/// still are.
pub proof fn law_no_update_is_lost(s: Seq<OutboundRow>, signature: Signature, row: OutboundRow)
    requires
        s.contains(row),
    ensures
        after_upload(s, signature, false).len() == s.len(),
        forall|i: int|
            0 <= i < s.len() ==> (#[trigger] after_upload(s, signature, false)[i]).payload
                == s[i].payload,
        found(s, signature) matches Some(i) ==> !after_upload(s, signature, false)[i].taken,
        found(after_upload(s, signature, true), signature) is None,
        !row.has_key(signature) ==> after_upload(s, signature, true).contains(row),
        forall|i: int|
            0 <= i < s.len() && (#[trigger] s[i]).payload.signature@ != signature.0@
                ==> after_upload(s, signature, false)[i] == s[i],
        row.payload.signature@ != signature.0@ ==> after_upload(s, signature, true).contains(row),
        forall|i: int|
            0 <= i < after_upload(s, signature, true).len() ==> s.contains(
                #[trigger] after_upload(s, signature, true)[i],
            ) && after_upload(s, signature, true)[i].payload.signature@ != signature.0@,
{
    law_removed_is_not_found(s, signature);
    lemma_found(s, signature);
    lemma_found(after_upload(s, signature, true), signature);
    let k = choose|k: int| 0 <= k < s.len() && s[k] == row;
    assert(s[k] == row);
}

// ── Pulling ─────────────────────────────────────────────────────────────────

/// What a page of the server's log leads to.
#[derive(Clone, Copy, Debug, PartialEq, Eq, Structural)]
pub struct PullStep {
    /// How far the log was read.
    pub cursor: i64,
    /// Whether there is anything to hand to the store.
    pub forward: bool,
    /// Whether another page may follow.
    pub more: bool,
}

/// What a page of the server's log leads to, by the positions of its updates: the log is
/// read up to the last one, and a full page may be followed by another.
pub open spec fn pulled(cursor: i64, page: Seq<i64>) -> PullStep {
    PullStep {
        cursor: if page.len() > 0 {
            page.last()
        } else {
            cursor
        },
        forward: page.len() > 0,
        more: page.len() >= BATCH,
    }
}

/// What a page of the server's log leads to.
pub fn pull_step(cursor: i64, page: &Vec<i64>) -> (r: PullStep)
    ensures
        r == pulled(cursor, page@),
{
    let n: usize = page.len();
    PullStep {
        cursor: if n > 0 {
            page[n - 1]
        } else {
            cursor
        },
        forward: n > 0,
        more: n >= BATCH,
    }
}

/// A pull that goes on has moved on: where the positions of a page lie behind the cursor,
/// another page is only asked for from a later position. After a full page another is asked
/// for, after a shorter one none is; what a page holds is handed on, and the log is read up to
/// the last position of the page.
pub proof fn law_pull_moves_on(cursor: i64, page: Seq<i64>)
    requires
        forall|i: int| 0 <= i < page.len() ==> cursor < #[trigger] page[i],
    ensures
        pulled(cursor, page).more ==> cursor < pulled(cursor, page).cursor,
        pulled(cursor, page).forward == (pulled(cursor, page).cursor != cursor),
        page.len() >= 500 ==> pulled(cursor, page).more,
        page.len() < 500 ==> !pulled(cursor, page).more,
        page.len() > 0 ==> pulled(cursor, page).forward && page.contains(
            pulled(cursor, page).cursor,
        ),
        page.len() == 0 ==> pulled(cursor, page).cursor == cursor,
        (forall|i: int, j: int| 0 <= i < j < page.len() ==> #[trigger] page[i] < #[trigger] page[j])
            ==> forall|i: int|
            0 <= i < page.len() ==> #[trigger] page[i] <= pulled(cursor, page).cursor,
{
    if page.len() > 0 {
        assert(page.last() == page[page.len() - 1]);
    }
}

// ── Following up ────────────────────────────────────────────────────────────

/// A step towards having every list up to date.
#[derive(Debug, PartialEq, Eq)]
pub enum InitialStep {
    /// Fetch the members and the sealed keys of a list, and hand them to the store, so that it
    /// can read the list's updates. Where that fails, no further step is taken.
    Seed(ListId),
    /// Ask the synchronisation for something.
    Ask(SyncCommand),
}

/// What to do for the lists that the server knows: seed each, fetch it, and follow it.
pub open spec fn initial_steps(ids: Seq<ListId>) -> Seq<InitialStep>
    decreases ids.len(),
{
    if ids.len() == 0 {
        Seq::empty()
    } else {
        initial_steps(ids.drop_last()).push(InitialStep::Seed(ids.last())).push(
            InitialStep::Ask(SyncCommand::Pull(ids.last())),
        ).push(InitialStep::Ask(SyncCommand::Subscribe(ids.last())))
    }
}

/// A list is seeded before it is fetched, and fetched before it is followed; every list that
/// the server knows is.
pub proof fn law_seeded_before_fetched(ids: Seq<ListId>, k: int)
    requires
        0 <= k < ids.len(),
    ensures
        initial_steps(ids).len() == 3 * ids.len(),
        initial_steps(ids)[3 * k] == InitialStep::Seed(ids[k]),
        initial_steps(ids)[3 * k + 1] == InitialStep::Ask(SyncCommand::Pull(ids[k])),
        initial_steps(ids)[3 * k + 2] == InitialStep::Ask(SyncCommand::Subscribe(ids[k])),
    decreases ids.len(),
{
    lemma_step_count(ids.drop_last());
    lemma_step_count(ids);
    if k < ids.len() - 1 {
        law_seeded_before_fetched(ids.drop_last(), k);
        assert(ids.drop_last()[k] == ids[k]);
    }
}

proof fn lemma_step_count(ids: Seq<ListId>)
    ensures
        initial_steps(ids).len() == 3 * ids.len(),
    decreases ids.len(),
{
    if ids.len() > 0 {
        lemma_step_count(ids.drop_last());
    }
}

/// What to do for the lists that the server knows.
pub fn initial_sync(ids: &Vec<ListId>) -> (r: Vec<InitialStep>)
    ensures
        r@ == initial_steps(ids@),
{
    let mut out: Vec<InitialStep> = Vec::new();
    let n: usize = ids.len();
    let mut i: usize = 0;
    proof {
        assert(ids@.take(0) =~= Seq::empty());
    }
    while i < n
        invariant
            i <= n,
            n == ids@.len(),
            out@ == initial_steps(ids@.take(i as int)),
        decreases n - i,
    {
        proof {
            assert(ids@.take(i + 1).drop_last() =~= ids@.take(i as int));
            assert(ids@.take(i + 1).last() == ids@[i as int]);
        }
        out.push(InitialStep::Seed(ids[i]));
        out.push(InitialStep::Ask(SyncCommand::Pull(ids[i])));
        out.push(InitialStep::Ask(SyncCommand::Subscribe(ids[i])));
        i = i + 1;
    }
    proof {
        assert(ids@.take(n as int) =~= ids@);
    }
    out
}

/// The pause before a list is followed again, in milliseconds.
pub const RECONNECT_PAUSE: u64 = 2000;

/// What follows once a list is no longer followed: the gap is fetched at once, and after
/// a pause the list is followed again.
pub fn subscription_ended(list_id: ListId) -> (r: (SyncCommand, SyncCommand))
    ensures
        r == (SyncCommand::Pull(list_id), SyncCommand::Subscribe(list_id)),
{
    (SyncCommand::Pull(list_id), SyncCommand::Subscribe(list_id))
}

/// What follows once a list is known to the server: it is followed.
pub fn list_created(list_id: ListId) -> (r: SyncCommand)
    ensures
        r == SyncCommand::Subscribe(list_id),
{
    SyncCommand::Subscribe(list_id)
}

} // verus!
