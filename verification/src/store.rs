//! The store: what is stored on this device, the session, and the open documents. Every
//! change of a list takes one way: the document is edited, what changed is encrypted and
//! signed and queued for upload, and the document and the rows for reading are stored.
use vstd::prelude::*;
use vstd::string::*;

use crate::crypto::{
    aead_limit, generate_dek, is_update_of, produce_update, seal_to, sealed_for,
};
use crate::db::{
    epoch_of, item_row, item_rows, Db, DocumentRow, KeySlotRow, ListRow, MemberRow, OutboundRow,
    Signature,
};
use crate::doc_history::{carried, decoded, grown, readable, unseen, Op};
use crate::doc_value::{bare_all, projected, todo_views};
use crate::list_doc::{
    flag_in, fresh_number, imported, is_number, law_updates_carry_the_edits, new_item, numbered,
    revised, revised_untagged, slot, stays, subtask_toggled, taggable, text_place, with_due,
    with_subtasks, with_tags,
    DocError, DocView, Row as Path, Spot, TodoDoc, Version, ITEMS, META, SUBTASKS, TAGS, TITLE,
};
use crate::doc_value::{held_map, Datum, Kind};
use crate::listing::{
    list_summaries, load_view, open_view, ordered_items, refresh_view, refreshed, retargeted,
    summaries, view_items,
};
use crate::model::{
    Epoch, InputView, ListId, ListSummary, Member, MemberId, Priority, Role, SortMode, TodoItem,
    TodoItemInput, TodoView, ViewTarget,
};
use crate::session::Session;
use crate::table::{
    find, found, law_removed_is_not_found, law_upsert_keeps_others, law_upserted_is_found,
    lemma_found, remove, upsert, upserted, without, Row,
};
use crate::text::same;
use crate::view::{item_views, summary_views, ViewModel};

verus! {

/// The version of the layout that updates are signed and encrypted under.
pub const UPDATE_VERSION: u8 = 1;

/// Why the store did not do what it was asked.
#[derive(Clone, Copy, Debug, PartialEq, Eq, Structural)]
pub enum StoreError {
    /// The list is not stored here.
    UnknownList,
    /// The data key of the list's epoch is not known.
    NoKey,
    /// The document did not take the edit, or could not be read.
    Doc(DocError),
    /// An update was too large to be encrypted.
    TooLarge,
}

impl StoreError {
    /// What the error says.
    pub open spec fn text(self) -> Seq<char> {
        match self {
            StoreError::UnknownList => "unknown list"@,
            StoreError::NoKey => "no DEK for list/epoch"@,
            StoreError::Doc(DocError::UnknownId) => "unknown id"@,
            StoreError::Doc(DocError::Refused) => "the document refused the edit"@,
            StoreError::TooLarge => "the update is too large"@,
        }
    }

    /// What the error says.
    pub fn message(self) -> (r: &'static str)
        ensures
            r@ == self.text(),
    {
        match self {
            StoreError::UnknownList => "unknown list",
            StoreError::NoKey => "no DEK for list/epoch",
            StoreError::Doc(DocError::UnknownId) => "unknown id",
            StoreError::Doc(DocError::Refused) => "the document refused the edit",
            StoreError::TooLarge => "the update is too large",
        }
    }
}

/// An open document of a list.
pub struct OpenDoc {
    pub list_id: ListId,
    pub doc: TodoDoc,
}

impl Row<ListId> for OpenDoc {
    open spec fn has_key(self, key: ListId) -> bool {
        self.list_id == key
    }

    fn is_key(&self, key: &ListId) -> (r: bool) {
        self.list_id == *key
    }
}

/// The store.
pub struct Store {
    pub db: Db,
    pub session: Session,
    pub docs: Vec<OpenDoc>,
}

// ── Edits ───────────────────────────────────────────────────────────────────

/// An edit of a list's document.
#[derive(Debug)]
pub enum Edit {
    SetTitle(String),
    AddItem(TodoItemInput),
    UpdateItem(String, TodoItemInput),
    ToggleDone(String),
    SetPriority(String, Priority),
    SetDue(String, Option<i64>),
    MoveItem(usize, usize),
    RemoveItem(String),
    AddTag(String, String),
    RemoveTag(String, String),
    AddSubtask(String, String),
    ToggleSubtask(String, String),
    RemoveSubtask(String, String),
}

/// What an edit says.
#[allow(inconsistent_fields)]
pub ghost enum EditView {
    SetTitle(Seq<char>),
    AddItem(InputView),
    UpdateItem(Seq<char>, InputView),
    ToggleDone(Seq<char>),
    SetPriority(Seq<char>, Priority),
    SetDue(Seq<char>, Option<i64>),
    MoveItem(usize, usize),
    RemoveItem(Seq<char>),
    AddTag(Seq<char>, Seq<char>),
    RemoveTag(Seq<char>, Seq<char>),
    AddSubtask(Seq<char>, Seq<char>),
    ToggleSubtask(Seq<char>, Seq<char>),
    RemoveSubtask(Seq<char>, Seq<char>),
}

impl View for Edit {
    type V = EditView;

    open spec fn view(&self) -> EditView {
        match self {
            Edit::SetTitle(t) => EditView::SetTitle(t@),
            Edit::AddItem(x) => EditView::AddItem(x@),
            Edit::UpdateItem(id, x) => EditView::UpdateItem(id@, x@),
            Edit::ToggleDone(id) => EditView::ToggleDone(id@),
            Edit::SetPriority(id, p) => EditView::SetPriority(id@, *p),
            Edit::SetDue(id, d) => EditView::SetDue(id@, *d),
            Edit::MoveItem(a, b) => EditView::MoveItem(*a, *b),
            Edit::RemoveItem(id) => EditView::RemoveItem(id@),
            Edit::AddTag(id, t) => EditView::AddTag(id@, t@),
            Edit::RemoveTag(id, t) => EditView::RemoveTag(id@, t@),
            Edit::AddSubtask(id, t) => EditView::AddSubtask(id@, t@),
            Edit::ToggleSubtask(id, t) => EditView::ToggleSubtask(id@, t@),
            Edit::RemoveSubtask(id, t) => EditView::RemoveSubtask(id@, t@),
        }
    }
}

/// An edit without what it gives.
pub open spec fn unit(r: Result<Option<String>, DocError>) -> Result<(), DocError> {
    match r {
        Ok(_) => Ok(()),
        Err(e) => Err(e),
    }
}

/// Whether an edit turned a document into another, and gave this. New todos and subtasks
/// give their number; the other edits give nothing.
pub open spec fn edited(
    before: DocView,
    e: EditView,
    r: Result<Option<String>, DocError>,
    after: DocView,
) -> bool {
    match e {
        EditView::SetTitle(title) => r matches Ok(given) && given is None && after
            == before.with_map(
            Spot::Root(META),
            before.maps[META@].insert(TITLE@, Datum::Text(title)),
        ),
        EditView::AddItem(input) => r matches Ok(given) && given matches Some(id) && is_number(
            id@,
        ) && after == before.with_row(
            Path::Root(ITEMS),
            before.items().push(held_map(new_item(id@, input))),
        ),
        EditView::UpdateItem(id, input) => match before.position(id) {
            Some(i) if !taggable(before.item(i)) => unit(r) == Err::<(), DocError>(
                DocError::Refused,
            ) && after == before.with(i, revised_untagged(before.item(i), input)),
            _ => before.changes(after, id, unit(r), revised(before.todo(id), input)),
        },
        EditView::ToggleDone(id) => before.changes(
            after,
            id,
            unit(r),
            before.todo(id).insert("done"@, Datum::Bool(!flag_in(before.todo(id), "done"@))),
        ),
        EditView::SetPriority(id, p) => before.changes(
            after,
            id,
            unit(r),
            before.todo(id).insert("priority"@, Datum::Int(p.level() as i64)),
        ),
        EditView::SetDue(id, due) => before.changes(
            after,
            id,
            unit(r),
            with_due(before.todo(id), due),
        ),
        EditView::MoveItem(from, to) => before.moves_to(
            after,
            ITEMS,
            from as int,
            to as int,
            r is Ok,
        ) && (r matches Err(e) ==> e == DocError::Refused),
        EditView::RemoveItem(id) => match before.position(id) {
            None => unit(r) == Err::<(), DocError>(DocError::UnknownId) && after == before,
            Some(i) => r is Ok && after == before.with_row(
                Path::Root(ITEMS),
                before.items().remove(i),
            ),
        },
        EditView::AddTag(id, tag) => before.changes_list(
            after,
            id,
            unit(r),
            slot(before.todo(id), TAGS@, Kind::List),
            with_tags(
                before.todo(id),
                slot(before.todo(id), TAGS@, Kind::List)->0.push(Datum::Text(tag)),
            ),
        ),
        EditView::RemoveTag(id, tag) => before.changes_list(
            after,
            id,
            unit(r),
            slot(before.todo(id), TAGS@, Kind::List),
            with_tags(
                before.todo(id),
                ({
                    let l = slot(before.todo(id), TAGS@, Kind::List)->0;
                    match text_place(l, tag) {
                        Some(j) => l.remove(j),
                        None => l,
                    }
                }),
            ),
        ),
        EditView::AddSubtask(id, title) => match r {
            Ok(given) => given matches Some(sub) && is_number(sub@) && before.adds_subtask(
                after,
                id,
                Ok(sub),
                sub@,
                title,
            ),
            Err(e) => before.adds_subtask(after, id, Err(e), Seq::empty(), title),
        },
        EditView::ToggleSubtask(id, sub) => before.changes_list(
            after,
            id,
            unit(r),
            slot(before.todo(id), SUBTASKS@, Kind::MovableList),
            with_subtasks(
                before.todo(id),
                subtask_toggled(slot(before.todo(id), SUBTASKS@, Kind::MovableList)->0, sub),
            ),
        ),
        EditView::RemoveSubtask(id, sub) => before.changes_list(
            after,
            id,
            unit(r),
            slot(before.todo(id), SUBTASKS@, Kind::MovableList),
            with_subtasks(
                before.todo(id),
                ({
                    let l = slot(before.todo(id), SUBTASKS@, Kind::MovableList)->0;
                    match numbered(l, sub) {
                        Some(j) => l.remove(j),
                        None => l,
                    }
                }),
            ),
        ),
    }
}

fn nothing(r: Result<(), DocError>) -> (o: Result<Option<String>, DocError>)
    ensures
        unit(o) == r,
        o matches Ok(given) ==> given is None,
        o is Ok == r is Ok,
{
    match r {
        Ok(u) => {
            proof {
                assert(u == ());
            }
            Ok(None)
        },
        Err(e) => Err(e),
    }
}

fn number(r: Result<String, DocError>) -> (o: Result<Option<String>, DocError>)
    ensures
        match r {
            Ok(s) => o == Ok::<Option<String>, DocError>(Some(s)),
            Err(e) => o == Err::<Option<String>, DocError>(e),
        },
{
    match r {
        Ok(s) => Ok(Some(s)),
        Err(e) => Err(e),
    }
}

/// Edits a document.
pub fn apply(doc: &mut TodoDoc, e: &Edit) -> (r: Result<Option<String>, DocError>)
    requires
        old(doc).wf(),
    ensures
        final(doc).wf(),
        edited(old(doc)@, e@, r, final(doc)@),
        stays(old(doc).doc, final(doc).doc),
{
    match e {
        Edit::SetTitle(title) => nothing(doc.set_title(title.as_str())),
        Edit::AddItem(input) => number(doc.add_item(input)),
        Edit::UpdateItem(id, input) => nothing(doc.update_item(id.as_str(), input)),
        Edit::ToggleDone(id) => nothing(doc.toggle_done(id.as_str())),
        Edit::SetPriority(id, p) => nothing(doc.set_priority(id.as_str(), *p)),
        Edit::SetDue(id, due) => nothing(doc.set_due(id.as_str(), *due)),
        Edit::MoveItem(from, to) => nothing(doc.move_item(*from, *to)),
        Edit::RemoveItem(id) => nothing(doc.remove_item(id.as_str())),
        Edit::AddTag(id, tag) => nothing(doc.add_tag(id.as_str(), tag.as_str())),
        Edit::RemoveTag(id, tag) => nothing(doc.remove_tag(id.as_str(), tag.as_str())),
        Edit::AddSubtask(id, title) => number(doc.add_subtask(id.as_str(), title.as_str())),
        Edit::ToggleSubtask(id, sub) => nothing(doc.toggle_subtask(id.as_str(), sub.as_str())),
        Edit::RemoveSubtask(id, sub) => nothing(doc.remove_subtask(id.as_str(), sub.as_str())),
    }
}

// ── The store ───────────────────────────────────────────────────────────────

/// Whether a document has been stored, and no other with it. A sound one can be read again.
pub open spec fn kept(
    before: Seq<DocumentRow>,
    after: Seq<DocumentRow>,
    list_id: ListId,
    doc: DocView,
    sound: bool,
) -> bool {
    exists|row: DocumentRow|
        row.list_id == list_id && imported(row.snapshot@) == doc && (sound ==> readable(
            row.snapshot@,
        )) && after == #[trigger] upserted(before, list_id, row)
}

/// The rows for reading after a list's todos were stored.
pub open spec fn rows_after(before: Db, list_id: ListId, doc: DocView) -> Seq<
    crate::db::ItemRowView,
> {
    item_rows(without(before.items@, list_id)) + projected(bare_all(doc.items())).map_values(
        |t: TodoView| item_row(list_id, t),
    )
}

/// Whether bytes are what a document with these edits hands on: edits of its own, and all
/// that it did not have before. Those of a sound document can be read.
pub open spec fn hands_on(change: Seq<u8>, before: Set<Op>, after: Set<Op>, sound: bool) -> bool {
    &&& sound ==> readable(change)
    &&& after.difference(before).subset_of(carried(change))
    &&& carried(change).subset_of(after)
    &&& change.len() == 0 ==> carried(change) == Set::<Op>::empty()
}

/// Whether a row of the queue is an update, encrypted and signed under the session's key.
pub open spec fn is_row_of(
    row: OutboundRow,
    change: Seq<u8>,
    list_id: ListId,
    epoch: Epoch,
    session: Session,
) -> bool {
    &&& !row.taken
    &&& row.payload.version == UPDATE_VERSION
    &&& row.payload.list_id == list_id
    &&& row.payload.epoch == epoch
    &&& row.payload.author == session.member_id
    &&& is_update_of(
        row.payload,
        session.key_of(list_id, epoch)->0@,
        session.signing_seed@,
        change,
    )
}

/// The queue with one more row; a row whose signature is queued already is not queued
/// again.
pub open spec fn with_row(queue: Seq<OutboundRow>, row: OutboundRow) -> Seq<OutboundRow> {
    match found(queue, Signature(row.payload.signature)) {
        Some(_) => queue,
        None => queue.push(row),
    }
}

/// Whether a queue has taken an update in this row. Without bytes there is nothing to
/// take.
pub open spec fn taken_in(
    before: Seq<OutboundRow>,
    after: Seq<OutboundRow>,
    row: OutboundRow,
    change: Seq<u8>,
    list_id: ListId,
    epoch: Epoch,
    session: Session,
) -> bool {
    if change.len() == 0 {
        after == before
    } else {
        change.len() < aead_limit() && is_row_of(row, change, list_id, epoch, session) && after
            == with_row(before, row)
    }
}

/// Whether what changed in a document has been queued.
pub open spec fn queued(
    before: Seq<OutboundRow>,
    after: Seq<OutboundRow>,
    list_id: ListId,
    epoch: Epoch,
    session: Session,
    edits0: Set<Op>,
    edits1: Set<Op>,
    sound: bool,
) -> bool {
    exists|change: Seq<u8>, row: OutboundRow|
        hands_on(change, edits0, edits1, sound) && #[trigger] taken_in(
            before,
            after,
            row,
            change,
            list_id,
            epoch,
            session,
        )
}

/// Whether a store is what storing a document leaves.
pub open spec fn persisted(
    before: Db,
    after: Db,
    session: Session,
    list_id: ListId,
    doc: DocView,
    edits0: Set<Op>,
    edits1: Set<Op>,
    sound: bool,
) -> bool {
    &&& after == (Db {
        documents: after.documents,
        items: after.items,
        outbound: after.outbound,
        ..before
    })
    &&& kept(before.documents@, after.documents@, list_id, doc, sound)
    &&& item_rows(after.items@) == rows_after(before, list_id, doc)
    &&& queued(
        before.outbound@,
        after.outbound@,
        list_id,
        epoch_of(before.lists@, list_id)->0,
        session,
        edits0,
        edits1,
        sound,
    )
}

/// Whether a document with these edits, which had those before, hands on more bytes than can be
/// encrypted.
pub open spec fn overflows(edits0: Set<Op>, edits1: Set<Op>, sound: bool) -> bool {
    exists|change: Seq<u8>| #[trigger]
        hands_on(change, edits0, edits1, sound) && change.len() >= aead_limit()
}

impl Store {
    /// Every open document shows its latest version.
    pub open spec fn wf(&self) -> bool {
        forall|i: int| 0 <= i < self.docs@.len() ==> (#[trigger] self.docs@[i]).doc.wf()
    }

    /// Whether a document is what the store has of a list: the one that is open, else the
    /// one that is stored, else an empty one.
    pub open spec fn has_doc(self, list_id: ListId, doc: DocView) -> bool {
        match found(self.docs@, list_id) {
            Some(i) => self.docs@[i].doc@ == doc,
            None => match found(self.db.documents@, list_id) {
                Some(i) => imported(self.db.documents@[i].snapshot@) == doc,
                None => doc.is_empty(),
            },
        }
    }

    /// Whether edits are those of the document that the store has of a list.
    pub open spec fn has_edits(self, list_id: ListId, edits: Set<Op>) -> bool {
        match found(self.docs@, list_id) {
            Some(i) => self.docs@[i].doc.edits() == edits,
            None => match found(self.db.documents@, list_id) {
                Some(i) => carried(self.db.documents@[i].snapshot@) == edits,
                None => edits == Set::<Op>::empty(),
            },
        }
    }

    /// Whether the store can read the document that it has of a list, and the document is
    /// sound. What the store writes stays so.
    pub open spec fn ready(self, list_id: ListId) -> bool {
        match found(self.docs@, list_id) {
            Some(i) => self.docs@[i].doc.sound(),
            None => match found(self.db.documents@, list_id) {
                Some(i) => readable(self.db.documents@[i].snapshot@),
                None => true,
            },
        }
    }

    /// Whether the documents of all other lists are as they were, and can be read as before.
    pub open spec fn keeps_others(self, after: Store, list_id: ListId) -> bool {
        &&& forall|other: ListId, doc: DocView|
            other != list_id ==> #[trigger] self.has_doc(other, doc) == after.has_doc(other, doc)
        &&& forall|other: ListId|
            other != list_id && #[trigger] self.ready(other) ==> after.ready(other)
    }

    /// Whether the documents of all lists are as they were, and can be read as before.
    pub open spec fn keeps_all(self, after: Store) -> bool {
        &&& forall|list: ListId, doc: DocView| #[trigger]
            after.has_doc(list, doc) ==> self.has_doc(list, doc)
        &&& forall|list: ListId, edits: Set<Op>| #[trigger]
            after.has_edits(list, edits) == self.has_edits(list, edits)
        &&& forall|list: ListId| #[trigger] self.ready(list) ==> after.ready(list)
    }

    /// A store without open documents.
    pub fn new(db: Db, session: Session) -> (r: Store)
        ensures
            r.wf(),
            r.db == db,
            r.session == session,
            r.docs@.len() == 0,
    {
        Store { db, session, docs: Vec::new() }
    }

    /// Opens the document of a list, unless it is open; gives its place.
    fn ensure_doc(&mut self, list_id: ListId) -> (r: Result<usize, StoreError>)
        requires
            old(self).wf(),
        ensures
            final(self).wf(),
            final(self).db == old(self).db,
            final(self).session == old(self).session,
            match r {
                Ok(i) => i < final(self).docs@.len() && found(final(self).docs@, list_id) == Some(
                    i as int,
                ) && old(self).has_doc(list_id, final(self).docs@[i as int].doc@)
                    && old(self).has_edits(list_id, final(self).docs@[i as int].doc.edits())
                    && (old(self).ready(list_id) ==> final(self).docs@[i as int].doc.sound())
                    && final(self).docs@[i as int].list_id == list_id && (final(self).docs@
                    == old(self).docs@ || final(self).docs@ == old(self).docs@.push(
                    final(self).docs@[i as int],
                )),
                Err(e) => e == StoreError::Doc(DocError::Refused) && *final(self) == *old(self)
                    && !old(self).ready(list_id),
            },
    {
        if let Some(i) = find(&self.docs, &list_id) {
            return Ok(i);
        }
        let doc: TodoDoc = match self.db.load_document(list_id) {
            Some(snap) => match TodoDoc::from_snapshot(snap.as_slice()) {
                Ok(d) => d,
                Err(e) => {
                    return Err(StoreError::Doc(e));
                },
            },
            None => TodoDoc::new(),
        };
        let ghost before = self.docs@;
        let i: usize = self.docs.len();
        self.docs.push(OpenDoc { list_id, doc });
        proof {
            lemma_found(before, list_id);
            crate::table::lemma_is_found(self.docs@, list_id, i as int);
        }
        Ok(i)
    }

    /// Queues what changed in a document since a version, and stores the document and the
    /// rows for reading. `edits0` are the edits that the document had at that version.
    fn persist(
        &mut self,
        list_id: ListId,
        i: usize,
        since: &Version,
        Ghost(edits0): Ghost<Set<Op>>,
    ) -> (r: Result<(), StoreError>)
        requires
            old(self).wf(),
            i < old(self).docs@.len(),
            decoded(since.0@) matches Some(v) && old(self).docs@[i as int].doc.edits().difference(
                edits0,
            ).subset_of(unseen(old(self).docs@[i as int].doc.edits(), v)),
        ensures
            final(self).wf(),
            final(self).session == old(self).session,
            final(self).docs@.len() == old(self).docs@.len(),
            forall|j: int|
                0 <= j < old(self).docs@.len() ==> (#[trigger] final(self).docs@[j]).list_id
                    == old(self).docs@[j].list_id && final(self).docs@[j].doc@ == old(self).docs@[j].doc@ && final(self).docs@[j].doc.edits() == old(self).docs@[j].doc.edits() && (old(self).docs@[j].doc.sound() ==> final(self).docs@[j].doc.sound()),
            ({
                let epoch = epoch_of(old(self).db.lists@, list_id);
                match r {
                    Ok(_) => epoch is Some && old(self).session.key_of(list_id, epoch->0) is Some
                        && persisted(
                        old(self).db,
                        final(self).db,
                        old(self).session,
                        list_id,
                        old(self).docs@[i as int].doc@,
                        edits0,
                        old(self).docs@[i as int].doc.edits(),
                        old(self).docs@[i as int].doc.sound(),
                    ),
                    Err(StoreError::UnknownList) => epoch is None && final(self).db
                        == old(self).db,
                    Err(StoreError::NoKey) => epoch is Some && old(self).session.key_of(
                        list_id,
                        epoch->0,
                    ) is None && final(self).db == old(self).db,
                    Err(e) => epoch is Some && old(self).session.key_of(list_id, epoch->0) is Some
                        && (e == StoreError::TooLarge || e == StoreError::Doc(DocError::Refused))
                        && (e == StoreError::TooLarge ==> final(self).db == old(self).db
                        && overflows(
                        edits0,
                        old(self).docs@[i as int].doc.edits(),
                        old(self).docs@[i as int].doc.sound(),
                    )) && (
                    old(self).docs@[i as int].doc.sound() ==> e == StoreError::TooLarge)
                        && final(self).db == (Db {
                        outbound: final(self).db.outbound,
                        ..old(self).db
                    }),
                }
            }),
    {
        let epoch: Epoch = match self.db.list_epoch(list_id) {
            Some(e) => e,
            None => {
                return Err(StoreError::UnknownList);
            },
        };
        let dek: [u8; 32] = match self.session.dek(list_id, epoch) {
            Some(k) => k,
            None => {
                return Err(StoreError::NoKey);
            },
        };
        let ghost db0 = self.db;
        let ghost view = self.docs@[i as int].doc@;
        let ghost edits1 = self.docs@[i as int].doc.edits();
        let ghost sound = self.docs@[i as int].doc.sound();
        let change: Vec<u8> = match self.docs[i].doc.export_updates_from(since) {
            Ok(b) => b,
            Err(e) => {
                return Err(StoreError::Doc(e));
            },
        };
        proof {
            assert(hands_on(change@, edits0, edits1, sound));
        }
        let ghost mut row: OutboundRow = arbitrary();
        if change.len() > 0 {
            if !fits(change.len()) {
                return Err(StoreError::TooLarge);
            }
            match produce_update(
                UPDATE_VERSION,
                list_id,
                epoch,
                self.session.member_id(),
                &dek,
                self.session.signing_key(),
                change.as_slice(),
            ) {
                Ok(payload) => {
                    proof {
                        row = OutboundRow { payload, taken: false };
                    }
                    if self.db.enqueue_outbound(payload).is_err() {
                        return Err(StoreError::UnknownList);
                    }
                    proof {
                        assert(self.db.outbound@ == with_row(db0.outbound@, row));
                    }
                },
                Err(_) => {},
            }
        }
        proof {
            assert(taken_in(
                db0.outbound@,
                self.db.outbound@,
                row,
                change@,
                list_id,
                epoch,
                self.session,
            ));
            assert(queued(
                db0.outbound@,
                self.db.outbound@,
                list_id,
                epoch,
                self.session,
                edits0,
                edits1,
                sound,
            ));
        }
        let snap: Vec<u8> = match self.docs[i].doc.export_snapshot() {
            Ok(b) => b,
            Err(e) => {
                return Err(StoreError::Doc(e));
            },
        };
        let ghost row = DocumentRow { list_id, snapshot: snap };
        if self.db.save_document(list_id, snap).is_err() {
            return Err(StoreError::UnknownList);
        }
        proof {
            assert(kept(db0.documents@, self.db.documents@, list_id, view, sound)) by {
                assert(self.db.documents@ == upserted(db0.documents@, list_id, row));
            }
        }
        let items = self.docs[i].doc.items();
        if self.db.replace_todo_items(list_id, &items).is_err() {
            return Err(StoreError::UnknownList);
        }
        proof {
            assert(items@.map_values(|t: TodoItem| item_row(list_id, t@)) =~= projected(
                bare_all(view.items()),
            ).map_values(|t: TodoView| item_row(list_id, t))) by {
                assert(todo_views(items@) == projected(bare_all(view.items())));
                assert forall|j: int| 0 <= j < items@.len() implies item_row(
                    list_id,
                    (#[trigger] items@[j])@,
                ) == item_row(list_id, projected(bare_all(view.items()))[j]) by {
                    assert(todo_views(items@)[j] == items@[j]@);
                }
            }
            assert(item_rows(self.db.items@) == rows_after(db0, list_id, view));
        }
        Ok(())
    }
}

/// Documents of a list that were opened, edited or stored leave those of others alone.
proof fn lemma_others_kept(
    before: Store,
    after: Store,
    list_id: ListId,
    doc: DocView,
    sound: bool,
)
    requires
        before.docs@.len() <= after.docs@.len() <= before.docs@.len() + 1,
        forall|j: int|
            0 <= j < before.docs@.len() ==> (#[trigger] after.docs@[j]).list_id
                == before.docs@[j].list_id && (before.docs@[j].list_id != list_id
                ==> after.docs@[j].doc@ == before.docs@[j].doc@ && (before.docs@[j].doc.sound()
                ==> after.docs@[j].doc.sound())),
        after.docs@.len() > before.docs@.len() ==> after.docs@.last().list_id == list_id,
        kept(before.db.documents@, after.db.documents@, list_id, doc, sound),
    ensures
        before.keeps_others(after, list_id),
{
    let row = choose|row: DocumentRow|
        row.list_id == list_id && imported(row.snapshot@) == doc && (sound ==> readable(
            row.snapshot@,
        )) && after.db.documents@ == #[trigger] upserted(before.db.documents@, list_id, row);
    assert forall|other: ListId| other != list_id && #[trigger] before.ready(
        other,
    ) implies after.ready(other) by {
        law_upsert_keeps_others(before.db.documents@, list_id, row, other);
        lemma_other_kept(before, after, list_id, other);
    }
    assert forall|other: ListId, d: DocView| other != list_id implies #[trigger] before.has_doc(
        other,
        d,
    ) == after.has_doc(other, d) by {
        law_upsert_keeps_others(before.db.documents@, list_id, row, other);
        lemma_other_kept(before, after, list_id, other);
    }
}

/// So do documents that were opened or edited, and not stored.
proof fn lemma_others_kept_unstored(before: Store, after: Store, list_id: ListId)
    requires
        before.docs@.len() <= after.docs@.len() <= before.docs@.len() + 1,
        forall|j: int|
            0 <= j < before.docs@.len() ==> (#[trigger] after.docs@[j]).list_id
                == before.docs@[j].list_id && (before.docs@[j].list_id != list_id
                ==> after.docs@[j].doc@ == before.docs@[j].doc@ && (before.docs@[j].doc.sound()
                ==> after.docs@[j].doc.sound())),
        after.docs@.len() > before.docs@.len() ==> after.docs@.last().list_id == list_id,
        after.db.documents == before.db.documents,
    ensures
        before.keeps_others(after, list_id),
{
    assert forall|other: ListId| other != list_id && #[trigger] before.ready(
        other,
    ) implies after.ready(other) by {
        lemma_other_kept(before, after, list_id, other);
    }
    assert forall|other: ListId, d: DocView| other != list_id implies #[trigger] before.has_doc(
        other,
        d,
    ) == after.has_doc(other, d) by {
        lemma_other_kept(before, after, list_id, other);
    }
}

proof fn lemma_other_kept(before: Store, after: Store, list_id: ListId, other: ListId)
    requires
        other != list_id,
        before.docs@.len() <= after.docs@.len() <= before.docs@.len() + 1,
        forall|j: int|
            0 <= j < before.docs@.len() ==> (#[trigger] after.docs@[j]).list_id
                == before.docs@[j].list_id && (before.docs@[j].list_id != list_id
                ==> after.docs@[j].doc@ == before.docs@[j].doc@ && (before.docs@[j].doc.sound()
                ==> after.docs@[j].doc.sound())),
        after.docs@.len() > before.docs@.len() ==> after.docs@.last().list_id == list_id,
        found(after.db.documents@, other) == found(before.db.documents@, other),
        found(before.db.documents@, other) matches Some(i) ==> after.db.documents@[i]
            == before.db.documents@[i],
    ensures
        before.ready(other) ==> after.ready(other),
        forall|d: DocView| #[trigger] before.has_doc(other, d) == after.has_doc(other, d),
{
    lemma_found(before.docs@, other);
    lemma_found(after.docs@, other);
    match found(before.docs@, other) {
        Some(i) => {
            assert(after.docs@[i].has_key(other));
            assert forall|j: int| 0 <= j < i implies !(#[trigger] after.docs@[j]).has_key(other) by {
                assert(!before.docs@[j].has_key(other));
            }
            crate::table::lemma_is_found(after.docs@, other, i);
        },
        None => {
            if found(after.docs@, other) is Some {
                let k = found(after.docs@, other)->0;
                assert(k < before.docs@.len());
                assert(!before.docs@[k].has_key(other));
            }
        },
    }
}

/// Opening a list's document leaves all documents as they were.
proof fn lemma_opened(before: Store, after: Store, list_id: ListId, i: int)
    requires
        after.db == before.db,
        after.docs@ == before.docs@ || after.docs@ == before.docs@.push(after.docs@[i]),
        0 <= i < after.docs@.len(),
        after.docs@[i].list_id == list_id,
        found(after.docs@, list_id) == Some(i),
        before.has_doc(list_id, after.docs@[i].doc@),
        before.has_edits(list_id, after.docs@[i].doc.edits()),
        before.ready(list_id) ==> after.docs@[i].doc.sound(),
    ensures
        before.keeps_all(after),
{
    assert forall|list: ListId| list != list_id implies found(after.docs@, list) == #[trigger] found(
        before.docs@,
        list,
    ) && (found(before.docs@, list) matches Some(j) ==> after.docs@[j] == before.docs@[j]) by {
        lemma_found(before.docs@, list);
        lemma_found(after.docs@, list);
        match found(before.docs@, list) {
            Some(j) => {
                assert forall|k: int| 0 <= k < j implies !(#[trigger] after.docs@[k]).has_key(
                    list,
                ) by {
                    assert(after.docs@[k] == before.docs@[k]);
                }
                crate::table::lemma_is_found(after.docs@, list, j);
            },
            None => {
                if found(after.docs@, list) is Some {
                    let k = found(after.docs@, list)->0;
                    assert(k < before.docs@.len());
                    assert(after.docs@[k] == before.docs@[k]);
                }
            },
        }
    }
}

/// A document that was opened at a place, and then edited there, is the one that the store has
/// of its list; the documents of other lists are left alone.
proof fn lemma_still_open(before: Store, opened: Store, after: Store, list_id: ListId, i: int)
    requires
        opened.docs@ == before.docs@ || opened.docs@ == before.docs@.push(opened.docs@[i]),
        0 <= i < opened.docs@.len(),
        opened.docs@[i].list_id == list_id,
        found(opened.docs@, list_id) == Some(i),
        after.docs@.len() == opened.docs@.len(),
        forall|j: int|
            0 <= j < opened.docs@.len() ==> (#[trigger] after.docs@[j]).list_id
                == opened.docs@[j].list_id && (j != i ==> after.docs@[j].doc@
                == opened.docs@[j].doc@ && (opened.docs@[j].doc.sound()
                ==> after.docs@[j].doc.sound())),
        after.db.documents == before.db.documents,
    ensures
        found(after.docs@, list_id) == Some(i),
        after.has_doc(list_id, after.docs@[i].doc@),
        before.keeps_others(after, list_id),
{
    lemma_found(opened.docs@, list_id);
    assert(after.docs@[i].has_key(list_id));
    assert forall|j: int| 0 <= j < i implies !(#[trigger] after.docs@[j]).has_key(list_id) by {
        assert(!opened.docs@[j].has_key(list_id));
    }
    crate::table::lemma_is_found(after.docs@, list_id, i);
    assert forall|j: int| 0 <= j < before.docs@.len() implies (#[trigger] after.docs@[j]).list_id
        == before.docs@[j].list_id && (before.docs@[j].list_id != list_id ==> after.docs@[j].doc@
        == before.docs@[j].doc@ && (before.docs@[j].doc.sound() ==> after.docs@[j].doc.sound())) by {
        assert(opened.docs@[j] == before.docs@[j]);
    }
    lemma_others_kept_unstored(before, after, list_id);
}

impl Store {
    /// Whether the store after an edit holds its outcome: the document that the store had
    /// was edited, is the one that is open, and is stored.
    pub open spec fn took(self, after: Store, list_id: ListId, e: EditView, given: Option<String>) -> bool {
        let epoch = epoch_of(self.db.lists@, list_id);
        &&& epoch is Some && self.session.key_of(list_id, epoch->0) is Some
        &&& exists|d0: DocView, d1: DocView, edits0: Set<Op>, edits1: Set<Op>|
            #![trigger self.has_doc(list_id, d0), after.has_doc(list_id, d1), self.has_edits(
                list_id,
                edits0,
            ), after.has_edits(list_id, edits1)]
            {
                &&& self.has_doc(list_id, d0) && after.has_doc(list_id, d1)
                &&& self.has_edits(list_id, edits0) && after.has_edits(list_id, edits1)
                &&& edits0.subset_of(edits1)
                &&& edited(d0, e, Ok(given), d1)
                &&& persisted(
                    self.db,
                    after.db,
                    self.session,
                    list_id,
                    d1,
                    edits0,
                    edits1,
                    self.ready(list_id),
                )
            }
        &&& self.ready(list_id) ==> after.ready(list_id)
        &&& self.keeps_others(after, list_id)
    }

    /// Edits the document of a list, and stores what came of it.
    pub fn edit_doc(&mut self, list_id: ListId, e: &Edit) -> (r: Result<
        Option<String>,
        StoreError,
    >)
        requires
            old(self).wf(),
        ensures
            final(self).wf(),
            final(self).session == old(self).session,
            match r {
                Ok(given) => old(self).took(*final(self), list_id, e@, given),
                Err(x) => old(self).errs(*final(self), list_id, e@, x),
            },
    {
        let i: usize = match self.ensure_doc(list_id) {
            Ok(i) => i,
            Err(e) => {
                return Err(e);
            },
        };
        let ghost s1 = *self;
        let ghost d0 = self.docs@[i as int].doc@;
        let ghost doc0 = self.docs@[i as int].doc;
        let since = self.docs[i].doc.version();
        let given: Option<String> = match apply(&mut self.docs[i].doc, e) {
            Ok(g) => g,
            Err(x) => {
                proof {
                    lemma_still_open(*old(self), s1, *self, list_id, i as int);
                    assert(old(self).has_doc(list_id, d0));
                    assert(self.has_doc(list_id, self.docs@[i as int].doc@));
                    assert(edited(d0, e@, Err(x), self.docs@[i as int].doc@));
                    assert(old(self).comes_to(*self, list_id, e@, Err(x)));
                }
                return Err(StoreError::Doc(x));
            },
        };
        let ghost s2 = *self;
        let ghost d1 = self.docs@[i as int].doc@;
        let ghost edits1 = self.docs@[i as int].doc.edits();
        proof {
            law_updates_carry_the_edits(doc0.doc, self.docs@[i as int].doc.doc);
            reveal(grown);
            assert(old(self).has_doc(list_id, d0));
            assert(edited(d0, e@, Ok(given), d1));
        }
        match self.persist(list_id, i, &since, Ghost(doc0.edits())) {
            Ok(_) => {
                proof {
                    lemma_found(s1.docs@, list_id);
                    assert forall|j: int| 0 <= j < i implies !(#[trigger] self.docs@[j]).has_key(
                        list_id,
                    ) by {
                        assert(s2.docs@[j] == s1.docs@[j]);
                        assert(!s1.docs@[j].has_key(list_id));
                    }
                    crate::table::lemma_is_found(self.docs@, list_id, i as int);
                    assert(self.has_doc(list_id, d1));
                    assert(old(self).has_doc(list_id, d0));
                    assert(old(self).has_edits(list_id, doc0.edits()));
                    assert(self.has_edits(list_id, edits1));
                    assert forall|j: int| 0 <= j < old(self).docs@.len() implies (
                    #[trigger] self.docs@[j]).list_id == old(self).docs@[j].list_id && (old(self).docs@[j].list_id != list_id ==> self.docs@[j].doc@ == old(self).docs@[j].doc@ && (old(self).docs@[j].doc.sound() ==> self.docs@[j].doc.sound())) by {
                        assert(s1.docs@[j] == old(self).docs@[j]);
                        if j != i {
                            assert(s2.docs@[j] == s1.docs@[j]);
                        }
                    }
                    lemma_others_kept(
                        *old(self),
                        *self,
                        list_id,
                        d1,
                        s2.docs@[i as int].doc.sound(),
                    );
                }
                Ok(given)
            },
            Err(x) => {
                proof {
                    lemma_still_open(*old(self), s1, *self, list_id, i as int);
                    assert(old(self).has_edits(list_id, doc0.edits()));
                    assert(self.has_doc(list_id, d1));
                    assert(old(self).comes_to(*self, list_id, e@, Ok(given)));
                    assert(self.has_edits(list_id, edits1));
                    if x == StoreError::TooLarge {
                        let change = choose|change: Seq<u8>| #[trigger]
                            hands_on(change, doc0.edits(), edits1, s2.docs@[i as int].doc.sound())
                                && change.len() >= aead_limit();
                        assert(hands_on(change, doc0.edits(), edits1, old(self).ready(list_id)));
                        assert(overflows(doc0.edits(), edits1, old(self).ready(list_id)));
                    }
                }
                Err(x)
            },
        }
    }

    /// Makes a list with a given number and data key: it is stored as one's own, its key
    /// sealed to oneself, and its document carries the name.
    pub fn create_list_with(&mut self, list_id: ListId, dek: [u8; 32], name: &str) -> (r: Result<
        (),
        StoreError,
    >)
        requires
            old(self).wf(),
        ensures
            final(self).wf(),
            old(self).session.learns(final(self).session, list_id, 1, dek),
            match r {
                Ok(_) => old(self).made(*final(self), list_id, dek, name@),
                Err(e) => e == StoreError::TooLarge && old(self).half_made(
                    *final(self),
                    list_id,
                    dek,
                    name@,
                ),
            },
    {
        let epoch: Epoch = 1;
        let ghost db0 = self.db;
        let ghost session0 = self.session;
        let owned = name.to_owned();
        let ghost list_row = ListRow { list_id, name: owned, role: Role::Owner, current_epoch: 1 };
        self.db.upsert_list(list_id, Role::Owner, epoch, owned);
        proof {
            law_upserted_is_found(db0.lists@, list_id, list_row);
        }
        let wrapped = seal_to(&dek, &self.session.identity_pub());
        let ghost slot_row = KeySlotRow { list_id, epoch: 1, wrapped_dek: wrapped };
        if self.db.save_key_slot(list_id, epoch, wrapped).is_err() {
            return Err(StoreError::UnknownList);
        }
        self.session.insert_dek(list_id, epoch, dek);
        let me = Member {
            id: self.session.member_id(),
            identity_pub: self.session.identity_pub(),
            signing_pub: self.session.signing_pub(),
            role: Role::Owner,
        };
        if self.db.add_member_row(list_id, me).is_err() {
            return Err(StoreError::UnknownList);
        }
        let mut doc = TodoDoc::new();
        let ghost d0 = doc@;
        let ghost doc0 = doc;
        let since = doc.version();
        if let Err(e) = doc.set_title(name) {
            return Err(StoreError::Doc(e));
        }
        let ghost d1 = doc@;
        let ghost doc1 = doc;
        let ghost row = OpenDoc { list_id, doc };
        let ghost docs0 = self.docs@;
        upsert(&mut self.docs, &list_id, OpenDoc { list_id, doc });
        proof {
            law_upserted_is_found(docs0, list_id, row);
            lemma_found(docs0, list_id);
            law_upserted_is_found(db0.lists@, list_id, list_row);
            assert forall|j: int| 0 <= j < self.docs@.len() implies (#[trigger] self.docs@[j]).doc.wf() by {
                if self.docs@[j] != row {
                    assert(self.docs@[j] == docs0[j]);
                }
            }
        }
        let i: usize = match find(&self.docs, &list_id) {
            Some(i) => i,
            None => {
                return Err(StoreError::Doc(DocError::Refused));
            },
        };
        let ghost s1 = *self;
        proof {
            law_updates_carry_the_edits(doc0.doc, doc1.doc);
        }
        match self.persist(list_id, i, &since, Ghost(Set::<Op>::empty())) {
            Ok(_) => {
                proof {
                    lemma_found(s1.docs@, list_id);
                    assert forall|j: int| 0 <= j < i implies !(#[trigger] self.docs@[j]).has_key(
                        list_id,
                    ) by {
                        assert(!s1.docs@[j].has_key(list_id));
                    }
                    crate::table::lemma_is_found(self.docs@, list_id, i as int);
                    assert(self.has_doc(list_id, d1));
                    assert(self.has_edits(list_id, doc1.edits()));
                    assert(titled(d0, d1, name@));
                    assert(sealed_for(
                        slot_row.wrapped_dek@,
                        old(self).session.identity_pub.0@,
                        dek@,
                    ));
                    assert forall|j: int| 0 <= j < docs0.len() implies (#[trigger] self.docs@[j]).list_id
                        == docs0[j].list_id && (docs0[j].list_id != list_id ==> self.docs@[j].doc@
                        == docs0[j].doc@ && (docs0[j].doc.sound() ==> self.docs@[j].doc.sound())) by {
                        if s1.docs@[j] != row {
                            assert(s1.docs@[j] == docs0[j]);
                        }
                    }
                    lemma_others_kept(*old(self), *self, list_id, d1, true);
                }
                Ok(())
            },
            Err(e) => {
                proof {
                    lemma_found(s1.docs@, list_id);
                    assert forall|j: int| 0 <= j < i implies !(#[trigger] self.docs@[j]).has_key(
                        list_id,
                    ) by {
                        assert(!s1.docs@[j].has_key(list_id));
                    }
                    crate::table::lemma_is_found(self.docs@, list_id, i as int);
                    assert(titled(d0, d1, name@));
                    assert(self.has_doc(list_id, d1));
                    assert(self.has_edits(list_id, doc1.edits()));
                    assert forall|j: int| 0 <= j < docs0.len() implies (#[trigger] self.docs@[j]).list_id
                        == docs0[j].list_id && (docs0[j].list_id != list_id ==> self.docs@[j].doc@
                        == docs0[j].doc@ && (docs0[j].doc.sound() ==> self.docs@[j].doc.sound())) by {
                        if s1.docs@[j] != row {
                            assert(s1.docs@[j] == docs0[j]);
                        }
                    }
                    lemma_others_kept_unstored(*old(self), *self, list_id);
                    assert(self.db.lists@ == upserted(db0.lists@, list_id, list_row));
                    assert(self.db.key_slots@ == upserted(
                        db0.key_slots@,
                        (list_id, 1u32),
                        slot_row,
                    ));
                }
                Err(e)
            },
        }
    }
}

/// Whether an empty document was given a title.
pub open spec fn titled(before: DocView, after: DocView, name: Seq<char>) -> bool {
    before.is_empty() && after == before.with_map(
        Spot::Root(META),
        before.maps[META@].insert(TITLE@, Datum::Text(name)),
    )
}

impl Store {
    /// What a list leaves that could not be made because its first update is too large: its
    /// row, its key and oneself as its member are stored, and nothing else is. Its document,
    /// which carries the name, is open.
    pub open spec fn half_made(
        self,
        after: Store,
        list_id: ListId,
        dek: [u8; 32],
        name: Seq<char>,
    ) -> bool {
        exists|list: ListRow, key: KeySlotRow, d0: DocView, d1: DocView, edits1: Set<Op>|
            #![trigger upserted(self.db.lists@, list_id, list), upserted(
                self.db.key_slots@,
                (list_id, 1u32),
                key,
            ), titled(d0, d1, name), after.has_edits(list_id, edits1)]
            {
                &&& list.list_id == list_id && list.name@ == name && list.role == Role::Owner
                    && list.current_epoch == 1
                &&& after.db.lists@ == upserted(self.db.lists@, list_id, list)
                &&& key.list_id == list_id && key.epoch == 1 && sealed_for(
                    key.wrapped_dek@,
                    self.session.identity_pub.0@,
                    dek@,
                )
                &&& after.db.key_slots@ == upserted(self.db.key_slots@, (list_id, 1u32), key)
                &&& after.db.members@ == upserted(
                    self.db.members@,
                    (list_id, self.session.member_id),
                    MemberRow {
                        list_id,
                        member: Member {
                            id: self.session.member_id,
                            identity_pub: self.session.identity_pub,
                            signing_pub: self.session.signing_pub,
                            role: Role::Owner,
                        },
                    },
                )
                &&& titled(d0, d1, name)
                &&& after.has_doc(list_id, d1)
                &&& after.has_edits(list_id, edits1)
                &&& overflows(Set::<Op>::empty(), edits1, true)
                &&& self.keeps_others(after, list_id)
                &&& after.db == (Db {
                    lists: after.db.lists,
                    key_slots: after.db.key_slots,
                    members: after.db.members,
                    ..self.db
                })
            }
    }

    /// Whether a store is what making a list leaves.
    pub open spec fn made(self, after: Store, list_id: ListId, dek: [u8; 32], name: Seq<char>) -> bool {
        exists|list: ListRow, key: KeySlotRow, d0: DocView, d1: DocView, edits1: Set<Op>|
            #![trigger upserted(self.db.lists@, list_id, list), upserted(
                self.db.key_slots@,
                (list_id, 1u32),
                key,
            ), titled(d0, d1, name), after.has_edits(list_id, edits1)]
            {
                &&& list.list_id == list_id && list.name@ == name && list.role == Role::Owner
                    && list.current_epoch == 1
                &&& after.db.lists@ == upserted(self.db.lists@, list_id, list)
                &&& key.list_id == list_id && key.epoch == 1 && sealed_for(
                    key.wrapped_dek@,
                    self.session.identity_pub.0@,
                    dek@,
                )
                &&& after.db.key_slots@ == upserted(self.db.key_slots@, (list_id, 1u32), key)
                &&& after.db.members@ == upserted(
                    self.db.members@,
                    (list_id, self.session.member_id),
                    MemberRow {
                        list_id,
                        member: Member {
                            id: self.session.member_id,
                            identity_pub: self.session.identity_pub,
                            signing_pub: self.session.signing_pub,
                            role: Role::Owner,
                        },
                    },
                )
                &&& titled(d0, d1, name)
                &&& after.has_doc(list_id, d1)
                &&& after.has_edits(list_id, edits1)
                &&& kept(self.db.documents@, after.db.documents@, list_id, d1, true)
                &&& item_rows(after.db.items@) == rows_after(self.db, list_id, d1)
                &&& queued(
                    self.db.outbound@,
                    after.db.outbound@,
                    list_id,
                    1,
                    after.session,
                    Set::<Op>::empty(),
                    edits1,
                    true,
                )
                &&& after.ready(list_id)
                &&& self.keeps_others(after, list_id)
                &&& after.db.account == self.db.account
                &&& after.db.device_id == self.db.device_id
                &&& after.db.device_wrapped_keys == self.db.device_wrapped_keys
            }
    }
}

impl Store {
    /// Whether an edit of a list's document came to this, and left the document open.
    pub open spec fn comes_to(
        self,
        after: Store,
        list_id: ListId,
        e: EditView,
        r: Result<Option<String>, DocError>,
    ) -> bool {
        exists|d0: DocView, d1: DocView|
            #![trigger self.has_doc(list_id, d0), after.has_doc(list_id, d1)]
            self.has_doc(list_id, d0) && after.has_doc(list_id, d1) && edited(d0, e, r, d1)
    }

    /// Whether an edit of a list's document went through, and left the document open.
    pub open spec fn goes_through(self, after: Store, list_id: ListId, e: EditView) -> bool {
        exists|given: Option<String>| #[trigger] self.comes_to(after, list_id, e, Ok(given))
    }

    /// Whether the document that the store has of a list, and had before, hands on more bytes
    /// than can be encrypted.
    pub open spec fn outgrows(self, after: Store, list_id: ListId) -> bool {
        exists|edits0: Set<Op>, edits1: Set<Op>|
            #![trigger self.has_edits(list_id, edits0), after.has_edits(list_id, edits1)]
            self.has_edits(list_id, edits0) && after.has_edits(list_id, edits1) && overflows(
                edits0,
                edits1,
                self.ready(list_id),
            )
    }

    /// Why an edit of a list failed. Each error has its cause: no todo has the number; the
    /// list is not stored; its key is not known; the update is too large; or the document
    /// cannot be read, or refuses the edit. The open document is as the edit left it; what is
    /// stored, but for the queue, and all other documents are as they were.
    pub open spec fn errs(self, after: Store, list_id: ListId, e: EditView, x: StoreError) -> bool {
        let epoch = epoch_of(self.db.lists@, list_id);
        let writable = epoch is Some && self.session.key_of(list_id, epoch->0) is Some;
        &&& self.keeps_others(after, list_id)
        &&& match x {
            StoreError::UnknownList => epoch is None && after.db == self.db && self.goes_through(
                after,
                list_id,
                e,
            ),
            StoreError::NoKey => epoch is Some && !writable && after.db == self.db
                && self.goes_through(after, list_id, e),
            StoreError::Doc(DocError::UnknownId) => after.db == self.db && self.comes_to(
                after,
                list_id,
                e,
                Err(DocError::UnknownId),
            ),
            StoreError::TooLarge => after.db == self.db && writable && self.goes_through(
                after,
                list_id,
                e,
            ) && self.outgrows(after, list_id),
            StoreError::Doc(DocError::Refused) => {
                &&& after.db == (Db { outbound: after.db.outbound, ..self.db })
                &&& self.comes_to(after, list_id, e, Err(DocError::Refused)) || (!self.ready(
                    list_id,
                ) && (after == self || self.goes_through(after, list_id, e)))
            },
        }
    }

    /// What an edit that gives nothing comes to.
    pub open spec fn edits(
        self,
        after: Store,
        list_id: ListId,
        e: EditView,
        r: Result<(), StoreError>,
    ) -> bool {
        match r {
            Ok(_) => exists|given: Option<String>| #[trigger] self.took(after, list_id, e, given),
            Err(x) => self.errs(after, list_id, e, x),
        }
    }

    /// What an edit that gives a number comes to.
    pub open spec fn adds(
        self,
        after: Store,
        list_id: ListId,
        e: EditView,
        r: Result<String, StoreError>,
    ) -> bool {
        match r {
            Ok(id) => self.took(after, list_id, e, Some(id)),
            Err(x) => self.errs(after, list_id, e, x),
        }
    }

    pub fn session(&self) -> (r: &Session)
        ensures
            *r == self.session,
    {
        &self.session
    }

    pub fn session_mut(&mut self) -> (r: &mut Session)
        ensures
            *r == old(self).session,
            *final(self) == (Store { session: *final(r), ..*old(self) }),
    {
        &mut self.session
    }

    /// The summaries of all lists that are stored.
    pub fn list_summaries(&self) -> (r: Vec<ListSummary>)
        ensures
            summary_views(r@) == summaries(self.db),
    {
        list_summaries(&self.db)
    }

    /// The todos of a view, sorted.
    pub fn load_view(&self, target: ViewTarget, order: SortMode, now: i64) -> (r: Vec<
        (ListId, TodoItem),
    >)
        ensures
            item_views(r@) == ordered_items(view_items(self.db, target, now), order),
    {
        load_view(&self.db, target, order, now)
    }

    /// Reads the lists and the todos of every pane anew.
    pub fn refresh_view(&self, view: &mut ViewModel, now: i64)
        ensures
            final(view)@ == refreshed(old(view)@, self.db, now),
    {
        refresh_view(&self.db, view, now);
    }

    /// Points a pane at something else, and reads everything anew.
    pub fn open_view(&self, view: &mut ViewModel, target: ViewTarget, pane: usize, now: i64)
        ensures
            final(view)@ == refreshed(retargeted(old(view)@, target, pane as int), self.db, now),
    {
        open_view(&self.db, view, target, pane, now);
    }

    /// Makes a list; gives its number. The number and the data key are fresh, out of
    /// chance.
    pub fn create_list(&mut self, name: &str) -> (r: Result<ListId, StoreError>)
        requires
            old(self).wf(),
        ensures
            final(self).wf(),
            old(self).session.same_identity(final(self).session),
            match r {
                Ok(id) => final(self).session.key_of(id, 1) matches Some(dek)
                    && old(self).session.learns(final(self).session, id, 1, dek) && old(self).made(
                    *final(self),
                    id,
                    dek,
                    name@,
                ),
                Err(e) => e == StoreError::TooLarge && exists|id: ListId, dek: [u8; 32]|
                    old(self).session.learns(final(self).session, id, 1, dek) && #[trigger] old(
                        self).half_made(*final(self), id, dek, name@),
            },
    {
        let id = ListId(fresh_number());
        let dek = generate_dek();
        match self.create_list_with(id, dek, name) {
            Ok(_) => Ok(id),
            Err(e) => Err(e),
        }
    }

    /// Gives a list another name, here and in its document.
    pub fn rename_list(&mut self, list_id: ListId, name: &str) -> (r: Result<(), StoreError>)
        requires
            old(self).wf(),
        ensures
            final(self).wf(),
            final(self).session == old(self).session,
            exists|mid: Store, row: ListRow|
                #![trigger old(self).renamed(mid, list_id, row)]
                row.name@ == name@ && old(self).renamed(mid, list_id, row) && mid.edits(
                    *final(self),
                    list_id,
                    EditView::SetTitle(name@),
                    r,
                ),
    {
        let owned = name.to_owned();
        let ghost row = match found(self.db.lists@, list_id) {
            Some(i) => ListRow { name: owned, ..self.db.lists@[i] },
            None => ListRow { list_id, name: owned, role: Role::Owner, current_epoch: 0 },
        };
        self.db.rename_list(list_id, owned);
        let ghost mid = *self;
        proof {
            assert(old(self).renamed(mid, list_id, row));
        }
        let e = Edit::SetTitle(name.to_owned());
        match self.edit_doc(list_id, &e) {
            Ok(_) => Ok(()),
            Err(x) => Err(x),
        }
    }

    /// Whether a store is another with a list's row replaced, where there is one.
    pub open spec fn renamed(self, after: Store, list_id: ListId, row: ListRow) -> bool {
        &&& after.session == self.session
        &&& after.docs == self.docs
        &&& after.db == (Db { lists: after.db.lists, ..self.db })
        &&& after.db.lists@ == (match found(self.db.lists@, list_id) {
            Some(i) => self.db.lists@.update(i, ListRow { name: row.name, ..self.db.lists@[i] }),
            None => self.db.lists@,
        })
    }

    /// Whether a store is what removing a list leaves: nothing of the list is left, and all
    /// else is as it was.
    pub open spec fn dropped(self, after: Store, list_id: ListId) -> bool {
        &&& after.session == self.session
        &&& after.docs@ == without(self.docs@, list_id)
        &&& after.db.account == self.db.account
        &&& after.db.device_id == self.db.device_id
        &&& after.db.device_wrapped_keys == self.db.device_wrapped_keys
        &&& after.db.lists@ == without(self.db.lists@, list_id)
        &&& after.db.documents@ == without(self.db.documents@, list_id)
        &&& after.db.items@ == without(self.db.items@, list_id)
        &&& after.db.members@ == without(self.db.members@, list_id)
        &&& after.db.key_slots@ == without(self.db.key_slots@, list_id)
        &&& after.db.outbound@ == without(self.db.outbound@, list_id)
    }

    /// Removes a list with everything that belongs to it.
    pub fn delete_list(&mut self, list_id: ListId)
        requires
            old(self).wf(),
        ensures
            final(self).wf(),
            old(self).dropped(*final(self), list_id),
    {
        self.db.delete_list(list_id);
        let ghost docs0 = self.docs@;
        remove(&mut self.docs, &list_id);
        proof {
            law_removed_is_not_found(docs0, list_id);
            assert forall|j: int| 0 <= j < self.docs@.len() implies (#[trigger] self.docs@[j]).doc.wf() by {
                let x = self.docs@[j];
                assert(docs0.contains(x));
                let k = choose|k: int| 0 <= k < docs0.len() && docs0[k] == x;
                assert(docs0[k].doc.wf());
            }
        }
    }

    /// Overwrites what a form says of a todo.
    pub fn edit_todo(&mut self, list_id: ListId, item_id: &str, input: &TodoItemInput) -> (r: Result<(), StoreError>)
        requires
            old(self).wf(),
        ensures
            final(self).wf(),
            final(self).session == old(self).session,
            old(self).edits(*final(self), list_id, EditView::UpdateItem(item_id@, input@), r),
    {
        let e = Edit::UpdateItem(item_id.to_owned(), input.copy());
        match self.edit_doc(list_id, &e) {
            Ok(_) => Ok(()),
            Err(x) => Err(x),
        }
    }

    /// Marks a todo as done, or as not done.
    pub fn toggle_done(&mut self, list_id: ListId, item_id: &str) -> (r: Result<(), StoreError>)
        requires
            old(self).wf(),
        ensures
            final(self).wf(),
            final(self).session == old(self).session,
            old(self).edits(*final(self), list_id, EditView::ToggleDone(item_id@), r),
    {
        let e = Edit::ToggleDone(item_id.to_owned());
        match self.edit_doc(list_id, &e) {
            Ok(_) => Ok(()),
            Err(x) => Err(x),
        }
    }

    /// Sets the priority of a todo.
    pub fn set_priority(&mut self, list_id: ListId, item_id: &str, priority: Priority) -> (r: Result<(), StoreError>)
        requires
            old(self).wf(),
        ensures
            final(self).wf(),
            final(self).session == old(self).session,
            old(self).edits(*final(self), list_id, EditView::SetPriority(item_id@, priority), r),
    {
        let e = Edit::SetPriority(item_id.to_owned(), priority);
        match self.edit_doc(list_id, &e) {
            Ok(_) => Ok(()),
            Err(x) => Err(x),
        }
    }

    /// Sets or removes the due time of a todo.
    pub fn set_due(&mut self, list_id: ListId, item_id: &str, due: Option<i64>) -> (r: Result<(), StoreError>)
        requires
            old(self).wf(),
        ensures
            final(self).wf(),
            final(self).session == old(self).session,
            old(self).edits(*final(self), list_id, EditView::SetDue(item_id@, due), r),
    {
        let e = Edit::SetDue(item_id.to_owned(), due);
        match self.edit_doc(list_id, &e) {
            Ok(_) => Ok(()),
            Err(x) => Err(x),
        }
    }

    /// Moves a todo to another position.
    pub fn move_todo(&mut self, list_id: ListId, from: usize, to: usize) -> (r: Result<(), StoreError>)
        requires
            old(self).wf(),
        ensures
            final(self).wf(),
            final(self).session == old(self).session,
            old(self).edits(*final(self), list_id, EditView::MoveItem(from, to), r),
    {
        let e = Edit::MoveItem(from, to);
        match self.edit_doc(list_id, &e) {
            Ok(_) => Ok(()),
            Err(x) => Err(x),
        }
    }

    /// Removes a todo.
    pub fn delete_todo(&mut self, list_id: ListId, item_id: &str) -> (r: Result<(), StoreError>)
        requires
            old(self).wf(),
        ensures
            final(self).wf(),
            final(self).session == old(self).session,
            old(self).edits(*final(self), list_id, EditView::RemoveItem(item_id@), r),
    {
        let e = Edit::RemoveItem(item_id.to_owned());
        match self.edit_doc(list_id, &e) {
            Ok(_) => Ok(()),
            Err(x) => Err(x),
        }
    }

    /// Adds a tag to a todo.
    pub fn add_tag(&mut self, list_id: ListId, item_id: &str, tag: &str) -> (r: Result<(), StoreError>)
        requires
            old(self).wf(),
        ensures
            final(self).wf(),
            final(self).session == old(self).session,
            old(self).edits(*final(self), list_id, EditView::AddTag(item_id@, tag@), r),
    {
        let e = Edit::AddTag(item_id.to_owned(), tag.to_owned());
        match self.edit_doc(list_id, &e) {
            Ok(_) => Ok(()),
            Err(x) => Err(x),
        }
    }

    /// Removes a tag from a todo.
    pub fn remove_tag(&mut self, list_id: ListId, item_id: &str, tag: &str) -> (r: Result<(), StoreError>)
        requires
            old(self).wf(),
        ensures
            final(self).wf(),
            final(self).session == old(self).session,
            old(self).edits(*final(self), list_id, EditView::RemoveTag(item_id@, tag@), r),
    {
        let e = Edit::RemoveTag(item_id.to_owned(), tag.to_owned());
        match self.edit_doc(list_id, &e) {
            Ok(_) => Ok(()),
            Err(x) => Err(x),
        }
    }

    /// Marks a subtask as done, or as not done.
    pub fn toggle_subtask(&mut self, list_id: ListId, item_id: &str, subtask_id: &str) -> (r: Result<(), StoreError>)
        requires
            old(self).wf(),
        ensures
            final(self).wf(),
            final(self).session == old(self).session,
            old(self).edits(*final(self), list_id, EditView::ToggleSubtask(item_id@, subtask_id@), r),
    {
        let e = Edit::ToggleSubtask(item_id.to_owned(), subtask_id.to_owned());
        match self.edit_doc(list_id, &e) {
            Ok(_) => Ok(()),
            Err(x) => Err(x),
        }
    }

    /// Removes a subtask.
    pub fn remove_subtask(&mut self, list_id: ListId, item_id: &str, subtask_id: &str) -> (r: Result<(), StoreError>)
        requires
            old(self).wf(),
        ensures
            final(self).wf(),
            final(self).session == old(self).session,
            old(self).edits(*final(self), list_id, EditView::RemoveSubtask(item_id@, subtask_id@), r),
    {
        let e = Edit::RemoveSubtask(item_id.to_owned(), subtask_id.to_owned());
        match self.edit_doc(list_id, &e) {
            Ok(_) => Ok(()),
            Err(x) => Err(x),
        }
    }

    /// Adds a todo at the end of a list; gives its number.
    pub fn add_todo(&mut self, list_id: ListId, input: &TodoItemInput) -> (r: Result<String, StoreError>)
        requires
            old(self).wf(),
        ensures
            final(self).wf(),
            final(self).session == old(self).session,
            old(self).adds(*final(self), list_id, EditView::AddItem(input@), r),
    {
        let e = Edit::AddItem(input.copy());
        match self.edit_doc(list_id, &e) {
            Ok(Some(id)) => Ok(id),
            Ok(None) => Err(StoreError::Doc(DocError::Refused)),
            Err(x) => Err(x),
        }
    }

    /// Adds a subtask to a todo; gives its number.
    pub fn add_subtask(&mut self, list_id: ListId, item_id: &str, title: &str) -> (r: Result<String, StoreError>)
        requires
            old(self).wf(),
        ensures
            final(self).wf(),
            final(self).session == old(self).session,
            old(self).adds(*final(self), list_id, EditView::AddSubtask(item_id@, title@), r),
    {
        let e = Edit::AddSubtask(item_id.to_owned(), title.to_owned());
        match self.edit_doc(list_id, &e) {
            Ok(Some(id)) => Ok(id),
            Ok(None) => Err(StoreError::Doc(DocError::Refused)),
            Err(x) => Err(x),
        }
    }

    /// A whole todo, with its subtasks, out of the document.
    pub fn full_item(&mut self, list_id: ListId, item_id: &str) -> (r: Result<
        Option<TodoItem>,
        StoreError,
    >)
        requires
            old(self).wf(),
        ensures
            final(self).wf(),
            final(self).db == old(self).db,
            final(self).session == old(self).session,
            old(self).keeps_all(*final(self)),
            match r {
                Ok(t) => exists|d: DocView| #[trigger]
                    old(self).has_doc(list_id, d) && crate::doc_value::opt_todo(t)
                        == todo_numbered(projected(bare_all(d.items())), item_id@),
                Err(e) => e == StoreError::Doc(DocError::Refused) && !old(self).ready(list_id),
            },
    {
        let i: usize = match self.ensure_doc(list_id) {
            Ok(i) => i,
            Err(e) => {
                return Err(e);
            },
        };
        let ghost d = self.docs@[i as int].doc@;
        let items = self.docs[i].doc.items();
        proof {
            assert(old(self).has_doc(list_id, d));
            lemma_opened(*old(self), *self, list_id, i as int);
        }
        Ok(pick(items, item_id))
    }

    /// The members of a list.
    pub fn members(&self, list_id: ListId) -> (r: Vec<Member>)
        ensures
            r@ == crate::db::members_of(self.db.members@, list_id),
    {
        self.db.list_members(list_id)
    }

    /// Records a member of a list. The list must be stored.
    pub fn add_member_local(&mut self, list_id: ListId, member: Member) -> (r: Result<
        (),
        StoreError,
    >)
        requires
            old(self).wf(),
        ensures
            final(self).wf(),
            old(self).joined(*final(self), r, list_id, member),
    {
        match self.db.add_member_row(list_id, member) {
            Ok(_) => Ok(()),
            Err(_) => Err(StoreError::UnknownList),
        }
    }

    /// What recording a member comes to.
    pub open spec fn joined(
        self,
        after: Store,
        r: Result<(), StoreError>,
        list_id: ListId,
        member: Member,
    ) -> bool {
        if self.db.holds_list(list_id) {
            &&& r is Ok
            &&& after.session == self.session && after.docs == self.docs
            &&& after.db == (Db { members: after.db.members, ..self.db })
            &&& after.db.members@ == upserted(
                self.db.members@,
                (list_id, member.id),
                MemberRow { list_id, member },
            )
        } else {
            r == Err::<(), StoreError>(StoreError::UnknownList) && after == self
        }
    }

    /// Removes a member of a list, and turns to a new data key under the next epoch.
    pub fn remove_member_local_with(
        &mut self,
        list_id: ListId,
        member_id: MemberId,
        new_dek: [u8; 32],
    ) -> (r: Result<(), StoreError>)
        requires
            old(self).wf(),
            epoch_of(old(self).db.lists@, list_id) matches Some(e) ==> e < u32::MAX,
        ensures
            final(self).wf(),
            final(self).docs == old(self).docs,
            match epoch_of(old(self).db.lists@, list_id) {
                None => r == Err::<(), StoreError>(StoreError::UnknownList) && *final(self)
                    == *old(self),
                Some(e) => r is Ok && old(self).rotated(
                    *final(self),
                    list_id,
                    member_id,
                    (e + 1) as u32,
                    new_dek,
                ),
            },
    {
        let current: Epoch = match self.db.list_epoch(list_id) {
            Some(e) => e,
            None => {
                return Err(StoreError::UnknownList);
            },
        };
        let new_epoch: Epoch = current + 1;
        let ghost lists0 = self.db.lists@;
        let wrapped = seal_to(&new_dek, &self.session.identity_pub());
        let ghost row = KeySlotRow { list_id, epoch: new_epoch, wrapped_dek: wrapped };
        if self.db.save_key_slot(list_id, new_epoch, wrapped).is_err() {
            return Err(StoreError::UnknownList);
        }
        self.session.insert_dek(list_id, new_epoch, new_dek);
        self.db.set_epoch(list_id, new_epoch);
        self.db.remove_member_row(list_id, member_id);
        proof {
            lemma_found(lists0, list_id);
            let i = found(lists0, list_id)->0;
            assert forall|j: int| 0 <= j < i implies !(#[trigger] self.db.lists@[j]).has_key(
                list_id,
            ) by {
                assert(self.db.lists@[j] == lists0[j]);
            }
            crate::table::lemma_is_found(self.db.lists@, list_id, i);
            assert(sealed_for(row.wrapped_dek@, old(self).session.identity_pub.0@, new_dek@));
            assert(self.db.key_slots@ == upserted(
                old(self).db.key_slots@,
                (list_id, new_epoch),
                row,
            ));
        }
        Ok(())
    }

    /// Whether a store is what removing a member leaves: the new data key is sealed to
    /// oneself and known to the session, updates are written under the new epoch, and no
    /// row of the member is left.
    pub open spec fn rotated(
        self,
        after: Store,
        list_id: ListId,
        member_id: MemberId,
        epoch: Epoch,
        dek: [u8; 32],
    ) -> bool {
        &&& self.session.learns(after.session, list_id, epoch, dek)
        &&& epoch_of(after.db.lists@, list_id) == Some(epoch)
        &&& after.db == (Db {
            lists: after.db.lists,
            members: after.db.members,
            key_slots: after.db.key_slots,
            ..self.db
        })
        &&& found(self.db.lists@, list_id) matches Some(i) && after.db.lists@
            == self.db.lists@.update(
            i,
            ListRow { current_epoch: epoch, ..self.db.lists@[i] },
        )
        &&& after.db.members@ == without(self.db.members@, (list_id, member_id))
        &&& exists|row: KeySlotRow| #[trigger]
            upserted(self.db.key_slots@, (list_id, epoch), row) == after.db.key_slots@
                && row.list_id == list_id && row.epoch == epoch && sealed_for(
                row.wrapped_dek@,
                self.session.identity_pub.0@,
                dek@,
            )
    }

    /// Removes a member of a list, and turns to a fresh data key under the next epoch.
    pub fn remove_member_local(&mut self, list_id: ListId, member_id: MemberId) -> (r: Result<
        (),
        StoreError,
    >)
        requires
            old(self).wf(),
            epoch_of(old(self).db.lists@, list_id) matches Some(e) ==> e < u32::MAX,
        ensures
            final(self).wf(),
            final(self).docs == old(self).docs,
            match epoch_of(old(self).db.lists@, list_id) {
                None => r == Err::<(), StoreError>(StoreError::UnknownList) && *final(self)
                    == *old(self),
                Some(e) => r is Ok && exists|dek: [u8; 32]| #[trigger]
                    old(self).rotated(*final(self), list_id, member_id, (e + 1) as u32, dek),
            },
    {
        let dek = generate_dek();
        self.remove_member_local_with(list_id, member_id, dek)
    }
}

/// The first todo with a number.
pub open spec fn todo_numbered(s: Seq<TodoView>, id: Seq<char>) -> Option<TodoView>
    decreases s.len(),
{
    if s.len() == 0 {
        None
    } else {
        match todo_numbered(s.drop_last(), id) {
            Some(t) => Some(t),
            None => if s.last().id == id {
                Some(s.last())
            } else {
                None
            },
        }
    }
}

fn pick(items: Vec<TodoItem>, id: &str) -> (r: Option<TodoItem>)
    ensures
        crate::doc_value::opt_todo(r) == todo_numbered(todo_views(items@), id@),
{
    let ghost all = todo_views(items@);
    let ghost given = items@;
    let mut rest = items;
    let mut picked: Option<TodoItem> = None;
    let ghost mut done: int = 0;
    proof {
        assert(all.take(0) =~= Seq::empty());
        assert(given.skip(0) =~= given);
    }
    while rest.len() > 0
        invariant
            0 <= done <= given.len(),
            rest@ == given.skip(done),
            all == todo_views(given),
            crate::doc_value::opt_todo(picked) == todo_numbered(all.take(done), id@),
        decreases rest@.len(),
    {
        proof {
            assert(all.take(done + 1).drop_last() =~= all.take(done));
            assert(all.take(done + 1).last() == given[done]@);
            assert(given.skip(done).remove(0) =~= given.skip(done + 1));
        }
        let t = rest.remove(0);
        if picked.is_none() && same(t.id.as_str(), id) {
            picked = Some(t);
        }
        proof {
            done = done + 1;
        }
    }
    proof {
        assert(all.take(all.len() as int) =~= all);
    }
    picked
}

/// Whether an update of so many bytes can be encrypted.
fn fits(n: usize) -> (r: bool)
    ensures
        r == (n < aead_limit()),
{
    (n as u64) < 274877906880u64
}

} // verus!
