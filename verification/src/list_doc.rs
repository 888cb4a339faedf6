//! A list's document: a title, and the todos in their order. The document can be merged
//! with other copies of itself.
//!
//! ```text
//! meta   a map            { title }
//! items  a movable list   [ item, item, ... ]
//!        item  a map      { id, title, notes, due?, priority, done,
//!                           tags: a list of texts,
//!                           subtasks: a movable list of maps { id, title, done } }
//! ```
use loro::{
    ExportMode, LoroDoc, LoroList, LoroMap, LoroMovableList, LoroValue, ValueOrContainer,
    VersionVector,
};
use vstd::prelude::*;
use vstd::string::*;

use crate::doc_value::{
    all_texts, all_todos, bare, bare_all, field, held_list, held_map, lemma_list_value, live_list, live_map, project, projected,
    todo_of, todo_views, Datum, Kind, Plain,
};
use crate::dates::{in_calendar, padded};
use crate::doc_history::{
    agree, carried, comes_in, concerns, confined, covered, decoded, distinct, grown, history, intact, kept_back,
    lemma_confined_further, lemma_grown_by_nothing, lemma_grown_further, no_edits, puts_in,
    readable, same_number, sources, unseen, untouched, version_of, within, Op,
};
use crate::model::{
    law_priority_rank_round_trip, InputView, Priority, TodoItem, TodoItemInput, TodoView,
};
use crate::net::{hyphenated, uuid_string};
use crate::text::{same, texts};

verus! {

broadcast use {lemma_confined_further, lemma_grown_by_nothing, lemma_grown_further};

// ── The outside document ────────────────────────────────────────────────────

/// `loro::LoroDoc`, a document that can be merged with other copies of itself. It keeps
/// the edits that were made to it, and shows what they come to. It counts the edits of each
/// author in 32 bits: what is said of edits here is said of documents within that limit.
#[verifier::external_type_specification]
#[verifier::external_body]
pub struct ExLoroDoc(loro::LoroDoc);

/// The maps at the root of a document by name; one that was never written is empty.
pub uninterp spec fn root_maps(d: LoroDoc) -> Map<Seq<char>, Map<Seq<char>, Datum>>;

/// The movable lists at the root of a document by name; one that was never written is
/// empty.
pub uninterp spec fn root_lists(d: LoroDoc) -> Map<Seq<char>, Seq<Datum>>;

/// Whether a document shows its latest version, rather than one that was checked out.
pub uninterp spec fn latest(d: LoroDoc) -> bool;

/// What edits come to, in whatever order they arrived.
pub uninterp spec fn merged(ops: Set<Op>) -> DocView;

/// What a document without history holds after these bytes were imported.
pub uninterp spec fn imported(bytes: Seq<u8>) -> DocView;

/// Whether a document has its whole history, no two edits of which share a number, and
/// shows what they come to.
pub open spec fn sound(d: LoroDoc) -> bool {
    &&& latest(d)
    &&& intact(d)
    &&& distinct(history(d))
    &&& view_of(d) == merged(history(d))
    &&& sources(d).len() == view_of(d).items().len()
    &&& forall|i: int| 0 <= i < sources(d).len() ==> history(d).contains(#[trigger] sources(d)[i])
}

/// Whether a document is another with more edits made to it, and as sound as that.
pub open spec fn stays(a: LoroDoc, b: LoroDoc) -> bool {
    &&& latest(b)
    &&& sound(a) ==> sound(b)
    &&& grown(a, b)
}

/// What a document holds.
#[verifier::ext_equal]
pub ghost struct DocView {
    pub maps: Map<Seq<char>, Map<Seq<char>, Datum>>,
    pub lists: Map<Seq<char>, Seq<Datum>>,
}

/// What a document holds.
pub open spec fn view_of(d: LoroDoc) -> DocView {
    DocView { maps: root_maps(d), lists: root_lists(d) }
}

/// A map in a document: one at the root, one that is an item of a list at the root, or
/// one that is an item of a list in such an item.
#[derive(Clone, Copy, Debug)]
pub enum Spot {
    Root(&'static str),
    Item(&'static str, usize),
    Inner(&'static str, usize, &'static str, usize),
}

impl Spot {
    /// Whether the map is the head of a list's document, or lies in the document's items.
    pub open spec fn known(self) -> bool {
        match self {
            Spot::Root(n) => n@ == META@,
            Spot::Item(n, _) => n@ == ITEMS@,
            Spot::Inner(n, _, _, _) => n@ == ITEMS@,
        }
    }
}

/// A movable list in a document: one at the root, or one in an item of such a list.
#[derive(Clone, Copy, Debug)]
pub enum Row {
    Root(&'static str),
    Inner(&'static str, usize, &'static str),
}

impl Row {
    /// Whether the list is that of the document's items, or lies in one of them.
    pub open spec fn known(self) -> bool {
        match self {
            Row::Root(n) => n@ == ITEMS@,
            Row::Inner(n, _, _) => n@ == ITEMS@,
        }
    }
}

impl DocView {
    /// Whether the document holds nothing.
    pub open spec fn is_empty(self) -> bool {
        &&& forall|n: Seq<char>| #[trigger] self.maps[n] == Map::<Seq<char>, Datum>::empty()
        &&& forall|n: Seq<char>| #[trigger] self.lists[n] == Seq::<Datum>::empty()
    }

    /// The map at a spot, if there is one.
    pub open spec fn map_at(self, s: Spot) -> Option<Map<Seq<char>, Datum>> {
        match s {
            Spot::Root(n) => Some(self.maps[n@]),
            Spot::Item(n, i) => if i < self.lists[n@].len() {
                live_map(self.lists[n@][i as int])
            } else {
                None
            },
            Spot::Inner(n, i, k, j) => match self.row_at(Row::Inner(n, i, k)) {
                Some(l) if j < l.len() => live_map(l[j as int]),
                _ => None,
            },
        }
    }

    /// The list at a row, if there is one.
    pub open spec fn row_at(self, r: Row) -> Option<Seq<Datum>> {
        match r {
            Row::Root(n) => Some(self.lists[n@]),
            Row::Inner(n, i, k) => if i < self.lists[n@].len() {
                match live_map(self.lists[n@][i as int]) {
                    Some(m) if m.contains_key(k@) => live_list(m[k@], Kind::MovableList),
                    _ => None,
                }
            } else {
                None
            },
        }
    }

    /// The plain list under a name in an item of a list at the root, if there is one.
    pub open spec fn list_at(self, n: Seq<char>, i: int, k: Seq<char>) -> Option<Seq<Datum>> {
        if 0 <= i < self.lists[n].len() {
            match live_map(self.lists[n][i]) {
                Some(m) if m.contains_key(k) => live_list(m[k], Kind::List),
                _ => None,
            }
        } else {
            None
        }
    }

    /// The document with another map as an item of a list at the root.
    pub open spec fn with_item(self, n: Seq<char>, i: int, m: Map<Seq<char>, Datum>) -> DocView {
        DocView { lists: self.lists.insert(n, self.lists[n].update(i, held_map(m))), ..self }
    }

    /// The document with another list at a row.
    pub open spec fn with_row(self, r: Row, l: Seq<Datum>) -> DocView {
        match r {
            Row::Root(n) => DocView { lists: self.lists.insert(n@, l), ..self },
            Row::Inner(n, i, k) => self.with_item(
                n@,
                i as int,
                live_map(self.lists[n@][i as int])->0.insert(k@, held_list(Kind::MovableList, l)),
            ),
        }
    }

    /// The document with another map at a spot.
    pub open spec fn with_map(self, s: Spot, m: Map<Seq<char>, Datum>) -> DocView {
        match s {
            Spot::Root(n) => DocView { maps: self.maps.insert(n@, m), ..self },
            Spot::Item(n, i) => self.with_item(n@, i as int, m),
            Spot::Inner(n, i, k, j) => self.with_row(
                Row::Inner(n, i, k),
                self.row_at(Row::Inner(n, i, k))->0.update(j as int, held_map(m)),
            ),
        }
    }

    /// Whether a document is what a move of an item of a list at the root leaves.
    pub open spec fn moves_to(
        self,
        after: DocView,
        n: &'static str,
        from: int,
        to: int,
        done: bool,
    ) -> bool {
        let l = self.lists[n@];
        &&& done == (from == to || (from < l.len() && to < l.len()))
        &&& from == to || !done ==> after == self
        &&& from != to && done ==> after == self.with_row(Row::Root(n), shifted(l, from, to))
    }

    /// The document with another plain list in an item of a list at the root.
    pub open spec fn with_list(self, n: Seq<char>, i: int, k: Seq<char>, l: Seq<Datum>) -> DocView {
        self.with_item(
            n,
            i,
            live_map(self.lists[n][i])->0.insert(k, held_list(Kind::List, l)),
        )
    }
}

/// `loro::LoroDoc::new`: a document without history, that holds nothing.
#[verifier::external_body]
fn doc_new() -> (r: LoroDoc)
    ensures
        history(r) == Set::<Op>::empty(),
        intact(r) && sound(r),
        view_of(r).is_empty(),
{
    LoroDoc::new()
}

/// `loro::LoroDoc::import`. A document without edits takes in those that the bytes carry.
/// A sound one takes readable bytes: it then has their edits besides its own, shows what all
/// of them come to, and still has every item that none of the new edits is about. That is
/// said only where no two different edits share a number; nothing is said of bytes with an
/// edit under a number that the document has for another, nor of bytes that are not readable.
#[verifier::external_body]
fn doc_import(doc: &mut LoroDoc, bytes: &[u8]) -> (r: bool)
    requires
        latest(*old(doc)),
    ensures
        latest(*final(doc)),
        r && history(*old(doc)) == Set::<Op>::empty() ==> history(*final(doc)) == carried(bytes@)
            && view_of(*final(doc)) == imported(bytes@),
        sound(*old(doc)) && readable(bytes@) && agree(history(*old(doc)), carried(bytes@)) ==> r
            && sound(*final(doc)) && history(*final(doc)) == history(*old(doc)).union(
            carried(bytes@),
        ) && view_of(*final(doc)) == merged(history(*final(doc))),
        sound(*old(doc)) && readable(bytes@) && agree(history(*old(doc)), carried(bytes@))
            ==> keeps_untouched(*old(doc), *final(doc), carried(bytes@)),
{
    doc.import(bytes).is_ok()
}

/// Whether every item of a document that no edit of these is about is in another as well.
pub open spec fn keeps_untouched(a: LoroDoc, b: LoroDoc, ops: Set<Op>) -> bool {
    forall|i: int|
        0 <= i < view_of(a).items().len() && untouched(history(a), ops, #[trigger] sources(a)[i])
            ==> view_of(b).items().contains(view_of(a).items()[i])
}

/// Whether a document is another that has received these edits besides its own.
pub open spec fn merges(a: LoroDoc, b: LoroDoc, ops: Set<Op>) -> bool {
    &&& sound(b)
    &&& history(b) == history(a).union(ops)
    &&& view_of(b) == merged(history(a).union(ops))
    &&& keeps_untouched(a, b, ops)
}

/// `loro::LoroDoc::commit`: ends a group of edits. It does not change what the document
/// holds.
#[verifier::external_body]
fn doc_commit(doc: &mut LoroDoc)
    requires
        latest(*old(doc)),
    ensures
        root_maps(*final(doc)) == root_maps(*old(doc)),
        root_lists(*final(doc)) == root_lists(*old(doc)),
        history(*final(doc)) == history(*old(doc)),
        sources(*final(doc)) == sources(*old(doc)),
        stays(*old(doc), *final(doc)),
{
    doc.commit()
}

/// `loro::LoroDoc::export` of a snapshot: bytes that give back what the document holds,
/// where it shows its latest version. They carry edits of the document alone. A sound
/// document gives them; they are readable, they carry all edits that the document does not
/// keep back, and a copy that is made from them keeps none of these back.
#[verifier::external_body]
fn doc_snapshot(doc: &LoroDoc) -> (r: Option<Vec<u8>>)
    requires
        latest(*doc),
    ensures
        r matches Some(b) ==> imported(b@) == view_of(*doc),
        r matches Some(b) ==> carried(b@).subset_of(history(*doc)),
        sound(*doc) ==> r is Some && readable(r->0@),
        sound(*doc) ==> forall|op: Op| #[trigger]
            carried(r->0@).contains(op) == (history(*doc).contains(op) && !kept_back(
                history(*doc),
                op,
            )),
        sound(*doc) ==> forall|op: Op|
            carried(r->0@).contains(op) ==> !#[trigger] kept_back(carried(r->0@), op),
{
    doc.export(ExportMode::Snapshot).ok()
}

/// Whether bytes are a snapshot of a sound document with these edits: they can be read, they
/// carry all edits that the document does not keep back, and a copy keeps none of them back.
pub open spec fn is_snapshot(bytes: Seq<u8>, edits: Set<Op>) -> bool {
    &&& readable(bytes)
    &&& carried(bytes) == unseen(edits, no_edits())
    &&& forall|op: Op| carried(bytes).contains(op) ==> !#[trigger] kept_back(carried(bytes), op)
}

/// The version of a document, encoded.
#[derive(Debug, PartialEq, Eq)]
pub struct Version(pub Vec<u8>);

/// `loro::LoroDoc::export` of the updates after a version, which
/// `loro::VersionVector::decode` reads: they carry the edits that the version does not
/// cover. Without bytes nothing is carried. A sound document gives them for every version
/// that can be read, and they are readable.
#[verifier::external_body]
fn doc_updates(doc: &LoroDoc, from: &Version) -> (r: Option<Vec<u8>>)
    requires
        latest(*doc),
    ensures
        r matches Some(b) ==> forall|op: Op| #[trigger]
            carried(b@).contains(op) == (history(*doc).contains(op) && !covered(
                decoded(from.0@)->0,
                op,
            ) && !kept_back(history(*doc), op)),
        r matches Some(b) ==> b@.len() == 0 ==> carried(b@) == Set::<Op>::empty(),
        r is Some ==> decoded(from.0@) is Some,
        sound(*doc) && decoded(from.0@) is Some ==> r is Some && readable(r->0@),
{
    let vv = VersionVector::decode(&from.0).ok()?;
    doc.export(ExportMode::updates(&vv)).ok()
}

/// `loro::LoroDoc::oplog_vv`, as `loro::VersionVector::encode` writes it: the version of a
/// document.
#[verifier::external_body]
fn doc_version(doc: &LoroDoc) -> (r: Version)
    ensures
        decoded(r.0@) == Some(version_of(*doc)),
{
    Version(doc.oplog_vv().encode())
}

/// `loro::VersionVector::default`: the version that covers nothing.
#[verifier::external_body]
fn first_version() -> (r: Version)
    ensures
        decoded(r.0@) == Some(no_edits()),
{
    Version(VersionVector::default().encode())
}

/// A value that can be written into a map.
#[derive(Debug)]
pub enum Field<'a> {
    Text(&'a str),
    Int(i64),
    Flag(bool),
}

impl<'a> Field<'a> {
    /// The value.
    pub open spec fn value(self) -> Datum {
        match self {
            Field::Text(s) => Datum::Text(s@),
            Field::Int(i) => Datum::Int(i),
            Field::Flag(b) => Datum::Bool(b),
        }
    }
}

/// `loro::LoroMap::insert` of a text, a number or a mark into a root map of a document, or
/// into a map in a root list. A document at its latest version takes it.
#[verifier::external_body]
fn outer_insert(doc: &mut LoroDoc, s: Spot, key: &str, v: Field<'_>) -> (r: Option<()>)
    requires
        latest(*old(doc)),
        !(s is Inner),
        s.known(),
        view_of(*old(doc)).map_at(s) is Some,
    ensures
        r is Some,
        view_of(*final(doc)) == view_of(*old(doc)).with_map(
            s,
            view_of(*old(doc)).map_at(s)->0.insert(key@, v.value()),
        ),
        stays(*old(doc), *final(doc)),
        s matches Spot::Item(_, i) ==> within(*old(doc), *final(doc), i as int),
{
    let map = match s {
        Spot::Root(n) => doc.get_map(n),
        Spot::Item(n, i) => doc.get_movable_list(n).get(i)?.into_container().ok()?.into_map().ok()?,
        Spot::Inner(..) => return None,
    };
    match v {
        Field::Text(t) => map.insert(key, t).ok(),
        Field::Int(i) => map.insert(key, i).ok(),
        Field::Flag(b) => map.insert(key, b).ok(),
    }
}

/// `loro::LoroMap::insert` of a text, a number or a mark into a map that lies in a list
/// under another map.
#[verifier::external_body]
fn inner_insert(
    doc: &mut LoroDoc,
    n: &'static str,
    i: usize,
    k: &'static str,
    j: usize,
    key: &str,
    v: Field<'_>,
) -> (r: Option<()>)
    requires
        latest(*old(doc)),
        n@ == ITEMS@,
        view_of(*old(doc)).map_at(Spot::Inner(n, i, k, j)) is Some,
    ensures
        r is Some,
        view_of(*final(doc)) == view_of(*old(doc)).with_map(
            Spot::Inner(n, i, k, j),
            view_of(*old(doc)).map_at(Spot::Inner(n, i, k, j))->0.insert(key@, v.value()),
        ),
        stays(*old(doc), *final(doc)),
{
    let outer = doc.get_movable_list(n).get(i)?.into_container().ok()?.into_map().ok()?;
    let list = outer.get(k)?.into_container().ok()?.into_movable_list().ok()?;
    let map = list.get(j)?.into_container().ok()?.into_map().ok()?;
    match v {
        Field::Text(t) => map.insert(key, t).ok(),
        Field::Int(i) => map.insert(key, i).ok(),
        Field::Flag(b) => map.insert(key, b).ok(),
    }
}

/// Writes a value into a map of a document.
fn map_insert(doc: &mut LoroDoc, s: Spot, key: &str, v: Field<'_>) -> (r: Option<()>)
    requires
        latest(*old(doc)),
        s.known(),
        view_of(*old(doc)).map_at(s) is Some,
    ensures
        r is Some,
        view_of(*final(doc)) == view_of(*old(doc)).with_map(
            s,
            view_of(*old(doc)).map_at(s)->0.insert(key@, v.value()),
        ),
        stays(*old(doc), *final(doc)),
        s matches Spot::Item(_, i) ==> within(*old(doc), *final(doc), i as int),
{
    match s {
        Spot::Inner(n, i, k, j) => inner_insert(doc, n, i, k, j, key, v),
        _ => outer_insert(doc, s, key, v),
    }
}

/// `loro::LoroMap::delete` on a map in a root list. A document at its latest version takes it.
#[verifier::external_body]
fn map_delete(doc: &mut LoroDoc, n: &'static str, i: usize, key: &str) -> (r: Option<()>)
    requires
        latest(*old(doc)),
        n@ == ITEMS@,
        view_of(*old(doc)).map_at(Spot::Item(n, i)) is Some,
    ensures
        r is Some,
        view_of(*final(doc)) == view_of(*old(doc)).with_map(
            Spot::Item(n, i),
            view_of(*old(doc)).map_at(Spot::Item(n, i))->0.remove(key@),
        ),
        stays(*old(doc), *final(doc)),
{
    let map = doc.get_movable_list(n).get(i)?.into_container().ok()?.into_map().ok()?;
    map.delete(key).ok()
}

/// A value that was found in a map: a text, a mark, or anything else.
#[derive(Debug)]
pub enum Found {
    Text(String),
    Flag(bool),
    Else,
}

/// Whether what was found is a value.
pub open spec fn is_found(f: Option<Found>, v: Option<Datum>) -> bool {
    match (f, v) {
        (None, None) => true,
        (Some(Found::Text(t)), Some(Datum::Text(x))) => t@ == x,
        (Some(Found::Flag(b)), Some(Datum::Bool(x))) => b == x,
        (Some(Found::Else), Some(x)) => !(x is Text) && !(x is Bool),
        _ => false,
    }
}

/// An entry of an optional map.
pub open spec fn entry(m: Option<Map<Seq<char>, Datum>>, key: Seq<char>) -> Option<Datum> {
    match m {
        Some(x) if x.contains_key(key) => Some(x[key]),
        _ => None,
    }
}

/// `loro::LoroMap::get` on a root map of a document, or on a map in a root list.
#[verifier::external_body]
fn outer_get(doc: &LoroDoc, s: Spot, key: &str) -> (r: Option<Found>)
    requires
        !(s is Inner),
        s.known(),
    ensures
        is_found(r, entry(view_of(*doc).map_at(s), key@)),
{
    let map = match s {
        Spot::Root(n) => doc.get_map(n),
        Spot::Item(n, i) => doc.get_movable_list(n).get(i)?.into_container().ok()?.into_map().ok()?,
        Spot::Inner(..) => return None,
    };
    match map.get(key)? {
        ValueOrContainer::Value(LoroValue::String(t)) => Some(Found::Text(t.to_string())),
        ValueOrContainer::Value(LoroValue::Bool(b)) => Some(Found::Flag(b)),
        _ => Some(Found::Else),
    }
}

/// `loro::LoroMap::get` on a map that lies in a list under another map.
#[verifier::external_body]
fn inner_get(
    doc: &LoroDoc,
    n: &'static str,
    i: usize,
    k: &'static str,
    j: usize,
    key: &str,
) -> (r: Option<Found>)
    requires
        n@ == ITEMS@,
    ensures
        is_found(r, entry(view_of(*doc).map_at(Spot::Inner(n, i, k, j)), key@)),
{
    let outer = doc.get_movable_list(n).get(i)?.into_container().ok()?.into_map().ok()?;
    let list = outer.get(k)?.into_container().ok()?.into_movable_list().ok()?;
    let map = list.get(j)?.into_container().ok()?.into_map().ok()?;
    match map.get(key)? {
        ValueOrContainer::Value(LoroValue::String(t)) => Some(Found::Text(t.to_string())),
        ValueOrContainer::Value(LoroValue::Bool(b)) => Some(Found::Flag(b)),
        _ => Some(Found::Else),
    }
}

/// Reads a map of a document; nothing where there is no such map or no such entry.
fn map_get(doc: &LoroDoc, s: Spot, key: &str) -> (r: Option<Found>)
    requires
        s.known(),
    ensures
        is_found(r, entry(view_of(*doc).map_at(s), key@)),
{
    match s {
        Spot::Inner(n, i, k, j) => inner_get(doc, n, i, k, j, key),
        _ => outer_get(doc, s, key),
    }
}

/// `loro::LoroMovableList::len` on a list of a document; zero where there is no such
/// list.
#[verifier::external_body]
fn row_len(doc: &LoroDoc, r: Row) -> (n: usize)
    requires
        r.known(),
    ensures
        n == (match view_of(*doc).row_at(r) {
            Some(l) => l.len() as int,
            None => 0,
        }),
{
    let list = match r {
        Row::Root(n) => Some(doc.get_movable_list(n)),
        Row::Inner(n, i, k) => doc.get_movable_list(n).get(i)
            .and_then(|x| x.into_container().ok())
            .and_then(|x| x.into_map().ok())
            .and_then(|x| x.get(k))
            .and_then(|x| x.into_container().ok())
            .and_then(|x| x.into_movable_list().ok()),
    };
    list.map_or(0, |l| l.len())
}

/// `loro::LoroMovableList::insert_container` of an empty map into a list of a document. A
/// document at its latest version takes it.
#[verifier::external_body]
fn row_insert_map(doc: &mut LoroDoc, r: Row, pos: usize) -> (o: Option<()>)
    requires
        latest(*old(doc)),
        r.known(),
        view_of(*old(doc)).row_at(r) matches Some(l) && pos <= l.len(),
    ensures
        o is Some,
        view_of(*final(doc)) == view_of(*old(doc)).with_row(
            r,
            view_of(*old(doc)).row_at(r)->0.insert(
                pos as int,
                held_map(Map::<Seq<char>, Datum>::empty()),
            ),
        ),
        stays(*old(doc), *final(doc)),
        r is Root ==> exists|op: Op| #[trigger] puts_in(*old(doc), *final(doc), pos as int, op),
{
    let list = match r {
        Row::Root(n) => doc.get_movable_list(n),
        Row::Inner(n, i, k) => {
            let m = doc.get_movable_list(n).get(i)?.into_container().ok()?.into_map().ok()?;
            m.get(k)?.into_container().ok()?.into_movable_list().ok()?
        },
    };
    list.insert_container(pos, LoroMap::new()).ok().map(|_| ())
}

/// `loro::LoroMovableList::delete` of one item of a list of a document. A document at its
/// latest version takes it.
#[verifier::external_body]
fn row_delete(doc: &mut LoroDoc, r: Row, pos: usize) -> (o: Option<()>)
    requires
        latest(*old(doc)),
        r.known(),
        view_of(*old(doc)).row_at(r) matches Some(l) && pos < l.len(),
    ensures
        o is Some,
        view_of(*final(doc)) == view_of(*old(doc)).with_row(
            r,
            view_of(*old(doc)).row_at(r)->0.remove(pos as int),
        ),
        stays(*old(doc), *final(doc)),
{
    let list = match r {
        Row::Root(n) => doc.get_movable_list(n),
        Row::Inner(n, i, k) => {
            let m = doc.get_movable_list(n).get(i)?.into_container().ok()?.into_map().ok()?;
            m.get(k)?.into_container().ok()?.into_movable_list().ok()?
        },
    };
    list.delete(pos, 1).ok()
}

/// A list with one of its items at another place.
pub open spec fn shifted(l: Seq<Datum>, from: int, to: int) -> Seq<Datum> {
    l.remove(from).insert(to, l[from])
}

/// `loro::LoroMovableList::mov` on a list at the root of a document: the item at `from`
/// is at `to` afterwards. Nothing moves where the two are the same; else both must be
/// positions in the list.
#[verifier::external_body]
fn row_move(doc: &mut LoroDoc, n: &'static str, from: usize, to: usize) -> (o: Option<()>)
    requires
        latest(*old(doc)),
        n@ == ITEMS@,
    ensures
        view_of(*old(doc)).moves_to(view_of(*final(doc)), n, from as int, to as int, o is Some),
        stays(*old(doc), *final(doc)),
{
    doc.get_movable_list(n).mov(from, to).ok()
}

/// What a list under a name in a map is, or is created as: an empty one where there is
/// nothing. Anything else under the name stands in the way.
pub open spec fn slot(m: Map<Seq<char>, Datum>, key: Seq<char>, kind: Kind) -> Option<Seq<Datum>> {
    if !m.contains_key(key) || m[key] is Null {
        Some(Seq::empty())
    } else {
        live_list(m[key], kind)
    }
}

/// `loro::LoroMap::get_or_create_container` of a list or a movable list in an item of a
/// list at the root of a document. It is refused where, and only where, anything but such a
/// list is in the way; nothing changes then.
#[verifier::external_body]
#[allow(deprecated)]
fn ensure_list(
    doc: &mut LoroDoc,
    n: &'static str,
    i: usize,
    key: &str,
    movable: bool,
) -> (o: Option<()>)
    requires
        latest(*old(doc)),
        n@ == ITEMS@,
        view_of(*old(doc)).map_at(Spot::Item(n, i)) is Some,
    ensures
        ({
            let before = view_of(*old(doc));
            let m = before.map_at(Spot::Item(n, i))->0;
            let kind = if movable {
                Kind::MovableList
            } else {
                Kind::List
            };
            match slot(m, key@, kind) {
                Some(l) => o is Some && view_of(*final(doc)) == before.with_item(
                    n@,
                    i as int,
                    m.insert(key@, held_list(kind, l)),
                ),
                None => o is None && view_of(*final(doc)) == before,
            }
        }),
        stays(*old(doc), *final(doc)),
        within(*old(doc), *final(doc), i as int),
{
    let m = doc.get_movable_list(n).get(i)?.into_container().ok()?.into_map().ok()?;
    if movable {
        m.get_or_create_container(key, LoroMovableList::new()).ok().map(|_| ())
    } else {
        m.get_or_create_container(key, LoroList::new()).ok().map(|_| ())
    }
}

/// `loro::LoroList::len` on a plain list in an item of a list at the root of a document;
/// zero where there is no such list.
#[verifier::external_body]
fn list_len(doc: &LoroDoc, n: &str, i: usize, k: &str) -> (r: usize)
    requires
        n@ == ITEMS@,
    ensures
        r == (match view_of(*doc).list_at(n@, i as int, k@) {
            Some(l) => l.len() as int,
            None => 0,
        }),
{
    let list = doc.get_movable_list(n).get(i)
        .and_then(|x| x.into_container().ok())
        .and_then(|x| x.into_map().ok())
        .and_then(|x| x.get(k))
        .and_then(|x| x.into_container().ok())
        .and_then(|x| x.into_list().ok());
    list.map_or(0, |l| l.len())
}

/// `loro::LoroList::get` on a plain list in an item of a list at the root of a document:
/// the text at a position; `None` for anything else.
#[verifier::external_body]
fn list_text(doc: &LoroDoc, n: &str, i: usize, k: &str, j: usize) -> (r: Option<String>)
    requires
        n@ == ITEMS@,
    ensures
        crate::keymap::opt_text(r) == (match view_of(*doc).list_at(n@, i as int, k@) {
            Some(l) if j < l.len() => match l[j as int] {
                Datum::Text(t) => Some(t),
                _ => None,
            },
            _ => None,
        }),
{
    let m = doc.get_movable_list(n).get(i)?.into_container().ok()?.into_map().ok()?;
    let l = m.get(k)?.into_container().ok()?.into_list().ok()?;
    l.get(j)?.into_value().ok()?.into_string().ok().map(|t| t.to_string())
}

/// `loro::LoroList::push` of a text onto a plain list in an item of a list at the root of
/// a document at its latest version, which takes it.
#[verifier::external_body]
fn list_push(doc: &mut LoroDoc, n: &str, i: usize, k: &str, text: &str) -> (o: Option<()>)
    requires
        latest(*old(doc)),
        n@ == ITEMS@,
        view_of(*old(doc)).list_at(n@, i as int, k@) is Some,
    ensures
        o is Some,
        view_of(*final(doc)) == view_of(*old(doc)).with_list(
            n@,
            i as int,
            k@,
            view_of(*old(doc)).list_at(n@, i as int, k@)->0.push(Datum::Text(text@)),
        ),
        stays(*old(doc), *final(doc)),
        within(*old(doc), *final(doc), i as int),
{
    let m = doc.get_movable_list(n).get(i)?.into_container().ok()?.into_map().ok()?;
    let l = m.get(k)?.into_container().ok()?.into_list().ok()?;
    l.push(text).ok()
}

/// `loro::LoroList::delete` of items of a plain list in an item of a list at the root of a
/// document at its latest version, which takes it.
#[verifier::external_body]
fn list_delete(doc: &mut LoroDoc, n: &str, i: usize, k: &str, pos: usize, len: usize) -> (o: Option<
    (),
>)
    requires
        latest(*old(doc)),
        n@ == ITEMS@,
        view_of(*old(doc)).list_at(n@, i as int, k@) matches Some(l) && pos + len <= l.len(),
    ensures
        o is Some,
        view_of(*final(doc)) == view_of(*old(doc)).with_list(
            n@,
            i as int,
            k@,
            ({
                let l = view_of(*old(doc)).list_at(n@, i as int, k@)->0;
                l.take(pos as int) + l.skip(pos + len)
            }),
        ),
        stays(*old(doc), *final(doc)),
        sources(*final(doc)) == sources(*old(doc)),
        forall|op: Op, other: Op| #[trigger]
            concerns(op, other) && history(*final(doc)).contains(op) && !history(
                *old(doc),
            ).contains(op) ==> other == sources(*old(doc))[i as int],
{
    let m = doc.get_movable_list(n).get(i)?.into_container().ok()?.into_map().ok()?;
    let l = m.get(k)?.into_container().ok()?.into_list().ok()?;
    l.delete(pos, len).ok()
}

/// `serde_json::Value`.
#[verifier::external_type_specification]
#[verifier::external_body]
pub struct ExJson(serde_json::Value);

/// What a JSON value holds.
pub uninterp spec fn json_value(v: serde_json::Value) -> Datum;

/// `loro::LoroMovableList::get_deep_value` on a list at the root of a document, as
/// `serde_json::to_value` gives it: every item with its containers replaced by what they
/// hold.
#[verifier::external_body]
fn row_json(doc: &LoroDoc, n: &str) -> (r: serde_json::Value)
    requires
        n@ == ITEMS@,
    ensures
        json_value(r) == Datum::List(bare_all(view_of(*doc).lists[n@])),
{
    serde_json::to_value(doc.get_movable_list(n).get_deep_value())
        .unwrap_or(serde_json::Value::Null)
}

/// Takes a `serde_json::Value` apart, one variant for one. A number is an integer where
/// `serde_json::Number::as_i64` gives one.
#[verifier::external_body]
fn plain_of(v: serde_json::Value) -> (r: Plain)
    ensures
        r.value() == json_value(v),
{
    match v {
        serde_json::Value::Null => Plain::Null,
        serde_json::Value::Bool(b) => Plain::Bool(b),
        serde_json::Value::Number(n) => n.as_i64().map_or(Plain::Other, Plain::Int),
        serde_json::Value::String(s) => Plain::Text(s),
        serde_json::Value::Array(a) => Plain::List(a.into_iter().map(plain_of).collect()),
        serde_json::Value::Object(o) => {
            Plain::Table(o.into_iter().map(|(k, x)| (k, plain_of(x))).collect())
        },
    }
}

/// Whether a text is a 16-byte number in its hyphenated form.
pub open spec fn is_number(s: Seq<char>) -> bool {
    exists|b: Seq<u8>| b.len() == 16 && s == #[trigger] hyphenated(b)
}

/// `uuid::Uuid::new_v4`: a fresh number, out of chance.
#[verifier::external_body]
pub(crate) fn fresh_number() -> [u8; 16] {
    *uuid::Uuid::new_v4().as_bytes()
}

// ── The document of a list ──────────────────────────────────────────────────

pub const META: &'static str = "meta";

pub const ITEMS: &'static str = "items";

pub const TITLE: &'static str = "title";

pub const TAGS: &'static str = "tags";

pub const SUBTASKS: &'static str = "subtasks";

/// A list's document.
pub struct TodoDoc {
    pub doc: LoroDoc,
}

/// Why a document was not changed as asked.
#[derive(Clone, Copy, Debug, PartialEq, Eq, Structural)]
pub enum DocError {
    /// No todo has that number.
    UnknownId,
    /// The document refused an edit, or bytes.
    Refused,
}

impl View for TodoDoc {
    type V = DocView;

    open spec fn view(&self) -> DocView {
        view_of(self.doc)
    }
}

/// The text in an item under a name.
pub open spec fn text_in(v: Datum, key: Seq<char>) -> Option<Seq<char>> {
    match entry(live_map(v), key) {
        Some(Datum::Text(t)) => Some(t),
        _ => None,
    }
}

/// The mark in a map under a name; unset where there is none.
pub open spec fn flag_in(m: Map<Seq<char>, Datum>, key: Seq<char>) -> bool {
    match entry(Some(m), key) {
        Some(Datum::Bool(b)) => b,
        _ => false,
    }
}

/// The first of some maps that has a number.
pub open spec fn numbered(s: Seq<Datum>, id: Seq<char>) -> Option<int>
    decreases s.len(),
{
    if s.len() == 0 {
        None
    } else {
        match numbered(s.drop_last(), id) {
            Some(i) => Some(i),
            None => if text_in(s.last(), "id"@) == Some(id) {
                Some(s.len() - 1)
            } else {
                None
            },
        }
    }
}

/// The first of some values that is a text.
pub open spec fn text_place(s: Seq<Datum>, text: Seq<char>) -> Option<int>
    decreases s.len(),
{
    if s.len() == 0 {
        None
    } else {
        match text_place(s.drop_last(), text) {
            Some(i) => Some(i),
            None => if s.last() == Datum::Text(text) {
                Some(s.len() - 1)
            } else {
                None
            },
        }
    }
}

proof fn lemma_numbered(s: Seq<Datum>, id: Seq<char>)
    ensures
        match numbered(s, id) {
            Some(i) => 0 <= i < s.len() && text_in(s[i], "id"@) == Some(id) && live_map(s[i])
                is Some,
            None => true,
        },
    decreases s.len(),
{
    if s.len() > 0 {
        lemma_numbered(s.drop_last(), id);
    }
}

/// The values of tags.
pub open spec fn tag_data(tags: Seq<Seq<char>>) -> Seq<Datum> {
    tags.map_values(|t: Seq<char>| Datum::Text(t))
}

/// An item with its due time.
pub open spec fn with_due(m: Map<Seq<char>, Datum>, due: Option<i64>) -> Map<Seq<char>, Datum> {
    match due {
        Some(d) => m.insert("due"@, Datum::Int(d)),
        None => m.remove("due"@),
    }
}

/// An item with its tags.
pub open spec fn with_tags(m: Map<Seq<char>, Datum>, tags: Seq<Datum>) -> Map<Seq<char>, Datum> {
    m.insert(TAGS@, held_list(Kind::List, tags))
}

/// A new item.
pub open spec fn new_item(id: Seq<char>, input: InputView) -> Map<Seq<char>, Datum> {
    let m = Map::<Seq<char>, Datum>::empty().insert("id"@, Datum::Text(id)).insert(
        "title"@,
        Datum::Text(input.title),
    ).insert("notes"@, Datum::Text(input.notes)).insert(
        "priority"@,
        Datum::Int(input.priority.level() as i64),
    ).insert("done"@, Datum::Bool(false));
    let dated = match input.due {
        Some(d) => m.insert("due"@, Datum::Int(d)),
        None => m,
    };
    with_tags(dated, tag_data(input.tags))
}

/// An item with what a form says of it, but for the tags.
pub open spec fn revised_untagged(m: Map<Seq<char>, Datum>, input: InputView) -> Map<
    Seq<char>,
    Datum,
> {
    with_due(
        m.insert("title"@, Datum::Text(input.title)).insert(
            "notes"@,
            Datum::Text(input.notes),
        ).insert("priority"@, Datum::Int(input.priority.level() as i64)),
        input.due,
    )
}

/// An item with what a form says of it.
pub open spec fn revised(m: Map<Seq<char>, Datum>, input: InputView) -> Map<Seq<char>, Datum> {
    with_tags(revised_untagged(m, input), tag_data(input.tags))
}

/// Whether an item has a list of tags, or room for one.
pub open spec fn taggable(m: Map<Seq<char>, Datum>) -> bool {
    slot(m, TAGS@, Kind::List) is Some
}

/// A new subtask.
pub open spec fn new_subtask(id: Seq<char>, title: Seq<char>) -> Map<Seq<char>, Datum> {
    Map::<Seq<char>, Datum>::empty().insert("id"@, Datum::Text(id)).insert(
        "title"@,
        Datum::Text(title),
    ).insert("done"@, Datum::Bool(false))
}

/// An item with its subtasks.
pub open spec fn with_subtasks(m: Map<Seq<char>, Datum>, subs: Seq<Datum>) -> Map<
    Seq<char>,
    Datum,
> {
    m.insert(SUBTASKS@, held_list(Kind::MovableList, subs))
}

impl DocView {
    /// The items of the list.
    pub open spec fn items(self) -> Seq<Datum> {
        self.lists[ITEMS@]
    }

    /// The position of a todo.
    pub open spec fn position(self, id: Seq<char>) -> Option<int> {
        numbered(self.items(), id)
    }

    /// An item.
    pub open spec fn item(self, i: int) -> Map<Seq<char>, Datum> {
        live_map(self.items()[i])->0
    }

    /// The document with another item.
    pub open spec fn with(self, i: int, m: Map<Seq<char>, Datum>) -> DocView {
        self.with_item(ITEMS@, i, m)
    }

    /// What a todo's change comes to: `changed` is the todo afterwards. A number that no
    /// todo has is an error, and changes nothing.
    pub open spec fn changes(
        self,
        after: DocView,
        id: Seq<char>,
        done: Result<(), DocError>,
        changed: Map<Seq<char>, Datum>,
    ) -> bool {
        match self.position(id) {
            None => done == Err::<(), DocError>(DocError::UnknownId) && after == self,
            Some(i) => done is Ok && after == self.with(i, changed),
        }
    }

    /// What a change of a list in a todo comes to. It is refused where something else is in
    /// the place of the list, and then changes nothing.
    pub open spec fn changes_list(
        self,
        after: DocView,
        id: Seq<char>,
        done: Result<(), DocError>,
        list: Option<Seq<Datum>>,
        changed: Map<Seq<char>, Datum>,
    ) -> bool {
        if self.position(id) is Some && list is None {
            done == Err::<(), DocError>(DocError::Refused) && after == self
        } else {
            self.changes(after, id, done, changed)
        }
    }

    /// What adding a subtask comes to. It is refused where something else is in the place of
    /// the todo's subtasks, and then changes nothing.
    pub open spec fn adds_subtask(
        self,
        after: DocView,
        item: Seq<char>,
        done: Result<String, DocError>,
        id: Seq<char>,
        title: Seq<char>,
    ) -> bool {
        match self.position(item) {
            None => done == Err::<String, DocError>(DocError::UnknownId) && after == self,
            Some(i) => match slot(self.item(i), SUBTASKS@, Kind::MovableList) {
                None => done == Err::<String, DocError>(DocError::Refused) && after == self,
                Some(l) => done is Ok && after == self.with(
                    i,
                    with_subtasks(self.item(i), l.push(held_map(new_subtask(id, title)))),
                ),
            },
        }
    }

    /// The todo that has a number.
    pub open spec fn todo(self, id: Seq<char>) -> Map<Seq<char>, Datum> {
        self.item(self.position(id)->0)
    }
}

proof fn lemma_with_twice(
    v: DocView,
    i: int,
    a: Map<Seq<char>, Datum>,
    b: Map<Seq<char>, Datum>,
)
    requires
        0 <= i < v.items().len(),
    ensures
        v.with(i, a).with(i, b) == v.with(i, b),
        v.with(i, a).item(i) == a,
        v.with(i, a).items().len() == v.items().len(),
        live_map(v.with(i, a).items()[i]) == Some(a),
{
    assert(v.items().update(i, held_map(a)).update(i, held_map(b)) =~= v.items().update(
        i,
        held_map(b),
    ));
    assert(v.with(i, a).with(i, b).lists =~= v.with(i, b).lists);
}

impl Default for TodoDoc {
    fn default() -> (r: TodoDoc)
        ensures
            r.wf(),
            r.sound(),
            r@.is_empty(),
            r.edits() == Set::<Op>::empty(),
    {
        TodoDoc::new()
    }
}

impl TodoDoc {
    /// The document shows its latest version.
    pub open spec fn wf(&self) -> bool {
        latest(self.doc)
    }

    /// The document has its whole history, and shows what its edits come to. So does every
    /// document that was made here, and every one that was read from readable bytes.
    pub open spec fn sound(&self) -> bool {
        sound(self.doc)
    }

    /// The edits that were made to the document, and those that it has received.
    pub open spec fn edits(&self) -> Set<Op> {
        history(self.doc)
    }

    /// An empty document.
    pub fn new() -> (r: TodoDoc)
        ensures
            r.wf(),
            r.sound(),
            r@.is_empty(),
            r.edits() == Set::<Op>::empty(),
    {
        TodoDoc { doc: doc_new() }
    }

    /// A document from a snapshot. Readable bytes are always taken.
    pub fn from_snapshot(bytes: &[u8]) -> (r: Result<TodoDoc, DocError>)
        ensures
            match r {
                Ok(d) => d.wf() && d@ == imported(bytes@) && d.edits() == carried(bytes@),
                Err(e) => e == DocError::Refused,
            },
            readable(bytes@) ==> (r matches Ok(d) && d.sound()),
    {
        let mut doc = doc_new();
        if doc_import(&mut doc, bytes) {
            Ok(TodoDoc { doc })
        } else {
            Err(DocError::Refused)
        }
    }

    /// The whole document, with its history.
    pub fn export_snapshot(&mut self) -> (r: Result<Vec<u8>, DocError>)
        requires
            old(self).wf(),
        ensures
            final(self).wf(),
            final(self)@ == old(self)@,
            final(self).edits() == old(self).edits(),
            sources(final(self).doc) == sources(old(self).doc),
            stays(old(self).doc, final(self).doc),
            match r {
                Ok(b) => imported(b@) == old(self)@ && carried(b@).subset_of(old(self).edits()),
                Err(e) => e == DocError::Refused,
            },
            old(self).sound() ==> (r matches Ok(b) && is_snapshot(b@, old(self).edits())),
    {
        doc_commit(&mut self.doc);
        match doc_snapshot(&self.doc) {
            Some(b) => {
                proof {
                    if self.sound() {
                        assert(carried(b@) =~= unseen(self.edits(), no_edits()));
                    }
                }
                Ok(b)
            },
            None => Err(DocError::Refused),
        }
    }

    /// The updates after a version.
    pub fn export_updates_from(&mut self, from: &Version) -> (r: Result<Vec<u8>, DocError>)
        requires
            old(self).wf(),
        ensures
            final(self).wf(),
            final(self)@ == old(self)@,
            final(self).edits() == old(self).edits(),
            sources(final(self).doc) == sources(old(self).doc),
            stays(old(self).doc, final(self).doc),
            match r {
                Ok(b) => decoded(from.0@) matches Some(v) && carried(b@) == unseen(
                    old(self).edits(),
                    v,
                ) && (b@.len() == 0 ==> carried(b@) == Set::<Op>::empty()),
                Err(e) => e == DocError::Refused,
            },
            old(self).sound() && decoded(from.0@) is Some ==> (r matches Ok(b) && readable(b@)),
    {
        doc_commit(&mut self.doc);
        match doc_updates(&self.doc, from) {
            Some(b) => {
                proof {
                    assert(carried(b@) =~= unseen(self.edits(), decoded(from.0@)->0));
                }
                Ok(b)
            },
            None => Err(DocError::Refused),
        }
    }

    /// All updates from the beginning.
    pub fn export_all_updates(&mut self) -> (r: Result<Vec<u8>, DocError>)
        requires
            old(self).wf(),
        ensures
            final(self).wf(),
            final(self)@ == old(self)@,
            final(self).edits() == old(self).edits(),
            sources(final(self).doc) == sources(old(self).doc),
            stays(old(self).doc, final(self).doc),
            match r {
                Ok(b) => carried(b@) == unseen(old(self).edits(), no_edits()),
                Err(e) => e == DocError::Refused,
            },
            old(self).sound() ==> (r matches Ok(b) && readable(b@)),
    {
        let from = first_version();
        self.export_updates_from(&from)
    }

    /// Merges a snapshot or updates of another copy. A sound document takes readable bytes:
    /// it has their edits besides its own, shows what all of them come to, and still has
    /// every todo that none of the new edits is about. Nothing is said of bytes with an edit
    /// under a number that the document has for another, nor of bytes that are not readable.
    pub fn import(&mut self, bytes: &[u8]) -> (r: Result<(), DocError>)
        requires
            old(self).wf(),
        ensures
            final(self).wf(),
            r matches Err(e) ==> e == DocError::Refused,
            old(self).sound() && readable(bytes@) && agree(old(self).edits(), carried(bytes@))
                ==> r is Ok && merges(old(self).doc, final(self).doc, carried(bytes@)),
    {
        if doc_import(&mut self.doc, bytes) {
            Ok(())
        } else {
            Err(DocError::Refused)
        }
    }

    /// The version of the document, from which later updates can be exported.
    pub fn version(&self) -> (r: Version)
        ensures
            decoded(r.0@) == Some(version_of(self.doc)),
    {
        doc_version(&self.doc)
    }

    /// The title; empty where there is none.
    pub fn title(&self) -> (r: String)
        ensures
            r@ == (match entry(Some(self@.maps[META@]), TITLE@) {
                Some(Datum::Text(t)) => t,
                _ => Seq::empty(),
            }),
    {
        match map_get(&self.doc, Spot::Root(META), TITLE) {
            Some(Found::Text(t)) => t,
            _ => {
                let s = String::new();
                proof {
                    assert(s@ =~= Seq::empty());
                }
                s
            },
        }
    }

    /// Sets the title.
    pub fn set_title(&mut self, title: &str) -> (r: Result<(), DocError>)
        requires
            old(self).wf(),
        ensures
            final(self).wf(),
            stays(old(self).doc, final(self).doc),
            r is Ok,
            final(self)@ == old(self)@.with_map(
                Spot::Root(META),
                old(self)@.maps[META@].insert(TITLE@, Datum::Text(title@)),
            ),
    {
        if map_insert(&mut self.doc, Spot::Root(META), TITLE, Field::Text(title)).is_none() {
            return Err(DocError::Refused);
        }
        doc_commit(&mut self.doc);
        Ok(())
    }

    /// The position of a todo.
    fn item_index(&self, id: &str) -> (r: Option<usize>)
        ensures
            match r {
                Some(i) => self@.position(id@) == Some(i as int) && i < self@.items().len()
                    && live_map(self@.items()[i as int]) is Some,
                None => self@.position(id@) is None,
            },
    {
        let ghost all = self@.items();
        let n: usize = row_len(&self.doc, Row::Root(ITEMS));
        let mut i: usize = 0;
        proof {
            assert(all.take(0) =~= Seq::empty());
        }
        while i < n
            invariant
                i <= n,
                n == all.len(),
                all == self@.items(),
                numbered(all.take(i as int), id@) is None,
            decreases n - i,
        {
            proof {
                assert(all.take(i + 1).drop_last() =~= all.take(i as int));
                assert(all.take(i + 1).last() == all[i as int]);
            }
            let found: bool = match map_get(&self.doc, Spot::Item(ITEMS, i), "id") {
                Some(Found::Text(t)) => same(t.as_str(), id),
                _ => false,
            };
            if found {
                proof {
                    lemma_first_numbered(all, id@, i as int);
                }
                return Some(i);
            }
            i = i + 1;
        }
        proof {
            assert(all.take(n as int) =~= all);
        }
        None
    }

    /// Writes one entry of an item.
    fn put(&mut self, i: usize, key: &str, v: Field<'_>) -> (r: bool)
        requires
            old(self).wf(),
            i < old(self)@.items().len(),
            live_map(old(self)@.items()[i as int]) is Some,
        ensures
            final(self).wf(),
            stays(old(self).doc, final(self).doc),
            within(old(self).doc, final(self).doc, i as int),
            r,
            final(self)@ == old(self)@.with(
                i as int,
                old(self)@.item(i as int).insert(key@, v.value()),
            ),
    {
        let o = map_insert(&mut self.doc, Spot::Item(ITEMS, i), key, v);
        o.is_some()
    }

    /// Writes or removes the due time of an item.
    fn put_due(&mut self, i: usize, due: Option<i64>) -> (r: bool)
        requires
            old(self).wf(),
            i < old(self)@.items().len(),
            live_map(old(self)@.items()[i as int]) is Some,
        ensures
            final(self).wf(),
            stays(old(self).doc, final(self).doc),
            r,
            final(self)@ == old(self)@.with(
                i as int,
                with_due(old(self)@.item(i as int), due),
            ),
    {
        match due {
            Some(d) => self.put(i, "due", Field::Int(d)),
            None => {
                let o = map_delete(&mut self.doc, ITEMS, i, "due");
                o.is_some()
            },
        }
    }

    /// Makes sure that an item has its list of tags or of subtasks.
    fn ensure(&mut self, i: usize, key: &str, movable: bool) -> (r: bool)
        requires
            old(self).wf(),
            i < old(self)@.items().len(),
            live_map(old(self)@.items()[i as int]) is Some,
        ensures
            final(self).wf(),
            stays(old(self).doc, final(self).doc),
            within(old(self).doc, final(self).doc, i as int),
            ({
                let kind = if movable {
                    Kind::MovableList
                } else {
                    Kind::List
                };
                let m = old(self)@.item(i as int);
                match slot(m, key@, kind) {
                    Some(l) => r && final(self)@ == old(self)@.with(
                        i as int,
                        m.insert(key@, held_list(kind, l)),
                    ),
                    None => !r && final(self)@ == old(self)@,
                }
            }),
    {
        let o = ensure_list(&mut self.doc, ITEMS, i, key, movable);
        o.is_some()
    }

    /// Adds a tag to an item that has a list of them.
    fn push_tag(&mut self, i: usize, tag: &str) -> (r: bool)
        requires
            old(self).wf(),
            i < old(self)@.items().len(),
            old(self)@.list_at(ITEMS@, i as int, TAGS@) is Some,
        ensures
            final(self).wf(),
            stays(old(self).doc, final(self).doc),
            within(old(self).doc, final(self).doc, i as int),
            r,
            final(self)@ == old(self)@.with(
                i as int,
                with_tags(
                    old(self)@.item(i as int),
                    old(self)@.list_at(ITEMS@, i as int, TAGS@)->0.push(Datum::Text(tag@)),
                ),
            ),
    {
        let o = list_push(&mut self.doc, ITEMS, i, TAGS, tag);
        o.is_some()
    }

    /// Takes tags out of an item that has a list of them.
    fn cut_tags(&mut self, i: usize, pos: usize, len: usize) -> (r: bool)
        requires
            old(self).wf(),
            i < old(self)@.items().len(),
            old(self)@.list_at(ITEMS@, i as int, TAGS@) matches Some(l) && pos + len <= l.len(),
        ensures
            final(self).wf(),
            stays(old(self).doc, final(self).doc),
            within(old(self).doc, final(self).doc, i as int),
            ({
                let l = old(self)@.list_at(ITEMS@, i as int, TAGS@)->0;
                r && final(self)@ == old(self)@.with(
                    i as int,
                    with_tags(
                        old(self)@.item(i as int),
                        l.take(pos as int) + l.skip(pos + len),
                    ),
                )
            }),
    {
        proof {
            reveal(confined);
        }
        let o = list_delete(&mut self.doc, ITEMS, i, TAGS, pos, len);
        o.is_some()
    }
}

proof fn lemma_tag_data_push(tags: Seq<Seq<char>>, n: int)
    requires
        0 <= n < tags.len(),
    ensures
        tag_data(tags.take(n + 1)) == tag_data(tags.take(n)).push(Datum::Text(tags[n])),
{
    assert(tag_data(tags.take(n + 1)) =~= tag_data(tags.take(n)).push(Datum::Text(tags[n])));
}

impl TodoDoc {
    /// Gives an item these tags, and no others.
    fn put_tags(&mut self, i: usize, tags: &Vec<String>) -> (r: bool)
        requires
            old(self).wf(),
            i < old(self)@.items().len(),
            live_map(old(self)@.items()[i as int]) is Some,
        ensures
            final(self).wf(),
            stays(old(self).doc, final(self).doc),
            within(old(self).doc, final(self).doc, i as int),
            r == (slot(old(self)@.item(i as int), TAGS@, Kind::List) is Some),
            final(self)@ == (if r {
                old(self)@.with(
                    i as int,
                    with_tags(old(self)@.item(i as int), tag_data(texts(tags@))),
                )
            } else {
                old(self)@
            }),
    {
        let ghost v0 = self@;
        let ghost m0 = v0.item(i as int);
        let ghost k = i as int;
        if !self.ensure(i, TAGS, false) {
            return false;
        }
        let ghost l0 = slot(m0, TAGS@, Kind::List)->0;
        proof {
            lemma_with_twice(v0, k, with_tags(m0, l0), with_tags(m0, l0));
        }
        let n: usize = list_len(&self.doc, ITEMS, i, TAGS);
        if n > 0 {
            let ghost v1 = self@;
            if !self.cut_tags(i, 0, n) {
                return false;
            }
            proof {
                let gone = l0.take(0) + l0.skip(n as int);
                assert(gone =~= Seq::empty());
                let m1 = with_tags(m0, l0);
                assert(with_tags(m1, gone) =~= with_tags(m0, Seq::empty()));
                lemma_with_twice(v0, k, m1, with_tags(m0, Seq::empty()));
            }
        }
        let ghost names = texts(tags@);
        proof {
            assert(l0.len() == 0 ==> l0 =~= Seq::empty());
            assert(tag_data(names.take(0)) =~= Seq::empty());
            lemma_with_twice(v0, k, with_tags(m0, Seq::empty()), with_tags(m0, Seq::empty()));
        }
        let count: usize = tags.len();
        let mut j: usize = 0;
        while j < count
            invariant
                j <= count,
                count == tags@.len(),
                names == texts(tags@),
                k == i,
                self.wf(),
                stays(old(self).doc, self.doc),
                within(old(self).doc, self.doc, k),
                0 <= k < v0.items().len(),
                m0 == v0.item(k),
                self@ == v0.with(k, with_tags(m0, tag_data(names.take(j as int)))),
                old(self)@ == v0,
            decreases count - j,
        {
            let ghost now = tag_data(names.take(j as int));
            proof {
                lemma_with_twice(v0, k, with_tags(m0, now), with_tags(m0, now));
                lemma_tag_data_push(names, j as int);
            }
            if !self.push_tag(i, tags[j].as_str()) {
                return false;
            }
            proof {
                let next = now.push(Datum::Text(tags@[j as int]@));
                assert(names[j as int] == tags@[j as int]@);
                assert(with_tags(with_tags(m0, now), next) =~= with_tags(m0, next));
                lemma_with_twice(v0, k, with_tags(m0, now), with_tags(m0, next));
            }
            j = j + 1;
        }
        proof {
            assert(names.take(count as int) =~= names);
        }
        true
    }

    /// Overwrites what a form says of a todo.
    fn revise(&mut self, i: usize, input: &TodoItemInput) -> (r: bool)
        requires
            old(self).wf(),
            i < old(self)@.items().len(),
            live_map(old(self)@.items()[i as int]) is Some,
        ensures
            final(self).wf(),
            stays(old(self).doc, final(self).doc),
            r == taggable(old(self)@.item(i as int)),
            final(self)@ == old(self)@.with(
                i as int,
                if r {
                    revised(old(self)@.item(i as int), input@)
                } else {
                    revised_untagged(old(self)@.item(i as int), input@)
                },
            ),
    {
        let ghost v0 = self@;
        let ghost k = i as int;
        let ghost m0 = v0.item(k);
        if !self.put(i, "title", Field::Text(input.title.as_str())) {
            return false;
        }
        let ghost m1 = m0.insert("title"@, Datum::Text(input.title@));
        proof {
            lemma_with_twice(v0, k, m1, m1);
        }
        if !self.put(i, "notes", Field::Text(input.notes.as_str())) {
            return false;
        }
        let ghost m2 = m1.insert("notes"@, Datum::Text(input.notes@));
        proof {
            lemma_with_twice(v0, k, m1, m2);
            lemma_with_twice(v0, k, m2, m2);
        }
        if !self.put(i, "priority", Field::Int(input.priority.rank())) {
            return false;
        }
        let ghost m3 = m2.insert("priority"@, Datum::Int(input.priority.level() as i64));
        proof {
            lemma_with_twice(v0, k, m2, m3);
            lemma_with_twice(v0, k, m3, m3);
        }
        if !self.put_due(i, input.due) {
            return false;
        }
        let ghost m4 = with_due(m3, input.due);
        proof {
            reveal_strlit("title");
            reveal_strlit("notes");
            reveal_strlit("priority");
            reveal_strlit("due");
            reveal_strlit("tags");
            assert("title"@[1] == 'i' && "tags"@[1] == 'a');
            assert(slot(m4, TAGS@, Kind::List) == slot(m0, TAGS@, Kind::List));
            lemma_with_twice(v0, k, m3, m4);
            lemma_with_twice(v0, k, m4, m4);
        }
        if !self.put_tags(i, &input.tags) {
            return false;
        }
        proof {
            lemma_with_twice(v0, k, m4, revised(m0, input@));
        }
        true
    }

    /// Overwrites what a form says of a todo. Where something else is in the place of its
    /// tags, they are refused; the rest is written.
    pub fn update_item(&mut self, id: &str, input: &TodoItemInput) -> (r: Result<(), DocError>)
        requires
            old(self).wf(),
        ensures
            final(self).wf(),
            stays(old(self).doc, final(self).doc),
            match old(self)@.position(id@) {
                Some(i) if !taggable(old(self)@.item(i)) => r == Err::<(), DocError>(
                    DocError::Refused,
                ) && final(self)@ == old(self)@.with(
                    i,
                    revised_untagged(old(self)@.item(i), input@),
                ),
                _ => old(self)@.changes(
                    final(self)@,
                    id@,
                    r,
                    revised(old(self)@.todo(id@), input@),
                ),
            },
    {
        match self.item_index(id) {
            None => Err(DocError::UnknownId),
            Some(i) => {
                if self.revise(i, input) {
                    doc_commit(&mut self.doc);
                    Ok(())
                } else {
                    Err(DocError::Refused)
                }
            },
        }
    }

    /// Marks a todo as done, or as not done.
    pub fn toggle_done(&mut self, id: &str) -> (r: Result<(), DocError>)
        requires
            old(self).wf(),
        ensures
            final(self).wf(),
            stays(old(self).doc, final(self).doc),
            ({
                let m = old(self)@.todo(id@);
                old(self)@.changes(
                    final(self)@,
                    id@,
                    r,
                    m.insert("done"@, Datum::Bool(!flag_in(m, "done"@))),
                )
            }),
    {
        match self.item_index(id) {
            None => Err(DocError::UnknownId),
            Some(i) => {
                let now: bool = match map_get(&self.doc, Spot::Item(ITEMS, i), "done") {
                    Some(Found::Flag(b)) => b,
                    _ => false,
                };
                if self.put(i, "done", Field::Flag(!now)) {
                    doc_commit(&mut self.doc);
                    Ok(())
                } else {
                    Err(DocError::Refused)
                }
            },
        }
    }

    /// Sets the priority of a todo.
    pub fn set_priority(&mut self, id: &str, priority: Priority) -> (r: Result<(), DocError>)
        requires
            old(self).wf(),
        ensures
            final(self).wf(),
            stays(old(self).doc, final(self).doc),
            old(self)@.changes(
                final(self)@,
                id@,
                r,
                old(self)@.todo(id@).insert(
                    "priority"@,
                    Datum::Int(priority.level() as i64),
                ),
            ),
    {
        match self.item_index(id) {
            None => Err(DocError::UnknownId),
            Some(i) => {
                if self.put(i, "priority", Field::Int(priority.rank())) {
                    doc_commit(&mut self.doc);
                    Ok(())
                } else {
                    Err(DocError::Refused)
                }
            },
        }
    }

    /// Sets or removes the due time of a todo.
    pub fn set_due(&mut self, id: &str, due: Option<i64>) -> (r: Result<(), DocError>)
        requires
            old(self).wf(),
        ensures
            final(self).wf(),
            stays(old(self).doc, final(self).doc),
            old(self)@.changes(final(self)@, id@, r, with_due(old(self)@.todo(id@), due)),
    {
        match self.item_index(id) {
            None => Err(DocError::UnknownId),
            Some(i) => {
                if self.put_due(i, due) {
                    doc_commit(&mut self.doc);
                    Ok(())
                } else {
                    Err(DocError::Refused)
                }
            },
        }
    }

    /// Moves the todo at one position to another. Positions beyond the list are refused,
    /// unless they are the same.
    pub fn move_item(&mut self, from: usize, to: usize) -> (r: Result<(), DocError>)
        requires
            old(self).wf(),
        ensures
            final(self).wf(),
            stays(old(self).doc, final(self).doc),
            r matches Err(e) ==> e == DocError::Refused,
            old(self)@.moves_to(final(self)@, ITEMS, from as int, to as int, r is Ok),
    {
        if row_move(&mut self.doc, ITEMS, from, to).is_none() {
            return Err(DocError::Refused);
        }
        doc_commit(&mut self.doc);
        Ok(())
    }

    /// Removes a todo.
    pub fn remove_item(&mut self, id: &str) -> (r: Result<(), DocError>)
        requires
            old(self).wf(),
        ensures
            final(self).wf(),
            stays(old(self).doc, final(self).doc),
            match old(self)@.position(id@) {
                None => r == Err::<(), DocError>(DocError::UnknownId) && final(self)@
                    == old(self)@,
                Some(i) => r is Ok && final(self)@ == old(self)@.with_row(
                    Row::Root(ITEMS),
                    old(self)@.items().remove(i),
                ),
            },
    {
        match self.item_index(id) {
            None => Err(DocError::UnknownId),
            Some(i) => {
                let o = row_delete(&mut self.doc, Row::Root(ITEMS), i);
                if o.is_none() {
                    return Err(DocError::Refused);
                }
                doc_commit(&mut self.doc);
                Ok(())
            },
        }
    }
}

/// Whether a document is a sound one to which an item was added at the end, and nothing else
/// was done.
pub open spec fn adds(a: LoroDoc, b: LoroDoc) -> bool {
    sound(a) ==> exists|op: Op| #[trigger]
        comes_in(
            history(a),
            sources(a),
            history(b),
            sources(b),
            view_of(a).items().len() as int,
            op,
        )
}

/// A change of the last item, after one was added, is another item that was added.
proof fn lemma_added(v: DocView, m: Map<Seq<char>, Datum>, b: Map<Seq<char>, Datum>)
    ensures
        v.with_row(Row::Root(ITEMS), v.items().push(held_map(m))).with(
            v.items().len() as int,
            b,
        ) == v.with_row(Row::Root(ITEMS), v.items().push(held_map(b))),
        v.with_row(Row::Root(ITEMS), v.items().push(held_map(m))).items() == v.items().push(
            held_map(m),
        ),
{
    let n = v.items().len() as int;
    let w = v.with_row(Row::Root(ITEMS), v.items().push(held_map(m)));
    assert(w.items().update(n, held_map(b)) =~= v.items().push(held_map(b)));
    assert(w.with(n, b).lists =~= v.with_row(
        Row::Root(ITEMS),
        v.items().push(held_map(b)),
    ).lists);
}

impl TodoDoc {
    /// Fills in a new item, whose map is still empty.
    fn fill(&mut self, i: usize, id: &str, input: &TodoItemInput) -> (r: bool)
        requires
            old(self).wf(),
            i < old(self)@.items().len(),
            old(self)@.items()[i as int] == held_map(Map::<Seq<char>, Datum>::empty()),
        ensures
            final(self).wf(),
            stays(old(self).doc, final(self).doc),
            within(old(self).doc, final(self).doc, i as int),
            r,
            final(self)@ == old(self)@.with(i as int, new_item(id@, input@)),
    {
        let ghost v0 = self@;
        let ghost k = i as int;
        let ghost m0 = Map::<Seq<char>, Datum>::empty();
        if !self.put(i, "id", Field::Text(id)) {
            return false;
        }
        let ghost m1 = m0.insert("id"@, Datum::Text(id@));
        proof {
            lemma_with_twice(v0, k, m1, m1);
        }
        if !self.put(i, "title", Field::Text(input.title.as_str())) {
            return false;
        }
        let ghost m2 = m1.insert("title"@, Datum::Text(input.title@));
        proof {
            lemma_with_twice(v0, k, m1, m2);
            lemma_with_twice(v0, k, m2, m2);
        }
        if !self.put(i, "notes", Field::Text(input.notes.as_str())) {
            return false;
        }
        let ghost m3 = m2.insert("notes"@, Datum::Text(input.notes@));
        proof {
            lemma_with_twice(v0, k, m2, m3);
            lemma_with_twice(v0, k, m3, m3);
        }
        if !self.put(i, "priority", Field::Int(input.priority.rank())) {
            return false;
        }
        let ghost m4 = m3.insert("priority"@, Datum::Int(input.priority.level() as i64));
        proof {
            lemma_with_twice(v0, k, m3, m4);
            lemma_with_twice(v0, k, m4, m4);
        }
        if !self.put(i, "done", Field::Flag(false)) {
            return false;
        }
        let ghost m5 = m4.insert("done"@, Datum::Bool(false));
        proof {
            lemma_with_twice(v0, k, m4, m5);
            lemma_with_twice(v0, k, m5, m5);
        }
        proof {
            reveal_strlit("id");
            reveal_strlit("title");
            reveal_strlit("notes");
            reveal_strlit("priority");
            reveal_strlit("done");
            reveal_strlit("due");
            reveal_strlit("tags");
            assert("title"@[1] == 'i' && "tags"@[1] == 'a');
            assert("done"@[0] == 'd' && "tags"@[0] == 't');
            assert(!m5.contains_key(TAGS@));
        }
        let ghost m6 = match input.due {
            Some(d) => m5.insert("due"@, Datum::Int(d)),
            None => m5,
        };
        if let Some(d) = input.due {
            if !self.put(i, "due", Field::Int(d)) {
                return false;
            }
        }
        proof {
            lemma_with_twice(v0, k, m5, m6);
            lemma_with_twice(v0, k, m6, m6);
        }
        if !self.put_tags(i, &input.tags) {
            return false;
        }
        proof {
            lemma_with_twice(v0, k, m6, new_item(id@, input@));
        }
        true
    }

    /// Adds a todo with a given number at the end; gives the number's text.
    pub fn add_item_with(&mut self, number: [u8; 16], input: &TodoItemInput) -> (r: Result<
        String,
        DocError,
    >)
        requires
            old(self).wf(),
        ensures
            final(self).wf(),
            stays(old(self).doc, final(self).doc),
            r matches Ok(id) && id@ == hyphenated(number@),
            final(self)@ == old(self)@.with_row(
                Row::Root(ITEMS),
                old(self)@.items().push(held_map(new_item(hyphenated(number@), input@))),
            ),
            adds(old(self).doc, final(self).doc),
    {
        let ghost v0 = self@;
        let ghost s0 = v0.items();
        let id = uuid_string(number);
        let n: usize = row_len(&self.doc, Row::Root(ITEMS));
        if row_insert_map(&mut self.doc, Row::Root(ITEMS), n).is_none() {
            return Err(DocError::Refused);
        }
        let ghost doc1 = self.doc;
        let ghost none = Map::<Seq<char>, Datum>::empty();
        proof {
            assert(s0.insert(n as int, held_map(none)) =~= s0.push(held_map(none)));
            lemma_added(v0, none, none);
        }
        if !self.fill(n, id.as_str(), input) {
            return Err(DocError::Refused);
        }
        proof {
            lemma_added(v0, none, new_item(id@, input@));
        }
        doc_commit(&mut self.doc);
        proof {
            let op = choose|op: Op| #[trigger] puts_in(old(self).doc, doc1, n as int, op);
            if sound(old(self).doc) {
                reveal(grown);
                assert(sources(doc1)[n as int] == op);
                assert(puts_in(old(self).doc, self.doc, n as int, op));
            }
        }
        Ok(id)
    }

    /// Adds a todo at the end; gives its number, which is fresh.
    pub fn add_item(&mut self, input: &TodoItemInput) -> (r: Result<String, DocError>)
        requires
            old(self).wf(),
        ensures
            final(self).wf(),
            stays(old(self).doc, final(self).doc),
            r matches Ok(id) && is_number(id@) && final(self)@ == old(self)@.with_row(
                Row::Root(ITEMS),
                old(self)@.items().push(held_map(new_item(id@, input@))),
            ),
            adds(old(self).doc, final(self).doc),
    {
        let number = fresh_number();
        self.add_item_with(number, input)
    }

    /// Adds a tag to a todo.
    pub fn add_tag(&mut self, id: &str, tag: &str) -> (r: Result<(), DocError>)
        requires
            old(self).wf(),
        ensures
            final(self).wf(),
            stays(old(self).doc, final(self).doc),
            ({
                let m = old(self)@.todo(id@);
                old(self)@.changes_list(
                    final(self)@,
                    id@,
                    r,
                    slot(m, TAGS@, Kind::List),
                    with_tags(m, slot(m, TAGS@, Kind::List)->0.push(Datum::Text(tag@))),
                )
            }),
    {
        match self.item_index(id) {
            None => Err(DocError::UnknownId),
            Some(i) => {
                let ghost v0 = self@;
                let ghost k = i as int;
                let ghost m0 = v0.item(k);
                if !self.ensure(i, TAGS, false) {
                    return Err(DocError::Refused);
                }
                let ghost l0 = slot(m0, TAGS@, Kind::List)->0;
                proof {
                    lemma_with_twice(v0, k, with_tags(m0, l0), with_tags(m0, l0));
                    assert(self@ == v0.with(k, with_tags(m0, l0)));
                }
                if !self.push_tag(i, tag) {
                    return Err(DocError::Refused);
                }
                proof {
                    let next = l0.push(Datum::Text(tag@));
                    assert(with_tags(with_tags(m0, l0), next) =~= with_tags(m0, next));
                    lemma_with_twice(v0, k, with_tags(m0, l0), with_tags(m0, next));
                }
                doc_commit(&mut self.doc);
                Ok(())
            },
        }
    }

    /// The position of a tag of an item.
    fn tag_index(&self, i: usize, tag: &str) -> (r: Option<usize>)
        requires
            self@.list_at(ITEMS@, i as int, TAGS@) is Some,
        ensures
            ({
                let l = self@.list_at(ITEMS@, i as int, TAGS@)->0;
                match r {
                    Some(j) => j < l.len() && text_place(l, tag@) == Some(j as int),
                    None => text_place(l, tag@) is None,
                }
            }),
    {
        let ghost l = self@.list_at(ITEMS@, i as int, TAGS@)->0;
        let n: usize = list_len(&self.doc, ITEMS, i, TAGS);
        let mut found: Option<usize> = None;
        let mut j: usize = 0;
        proof {
            assert(l.take(0) =~= Seq::empty());
        }
        while j < n
            invariant
                j <= n,
                n == l.len(),
                self@.list_at(ITEMS@, i as int, TAGS@) == Some(l),
                match found {
                    Some(k) => k < j && text_place(l.take(j as int), tag@) == Some(k as int),
                    None => text_place(l.take(j as int), tag@) is None,
                },
            decreases n - j,
        {
            proof {
                assert(l.take(j + 1).drop_last() =~= l.take(j as int));
                assert(l.take(j + 1).last() == l[j as int]);
            }
            let hit: bool = match list_text(&self.doc, ITEMS, i, TAGS, j) {
                Some(t) => same(t.as_str(), tag),
                None => false,
            };
            if found.is_none() && hit {
                found = Some(j);
            }
            j = j + 1;
        }
        proof {
            assert(l.take(n as int) =~= l);
        }
        found
    }

    /// Removes a tag from a todo: the first that reads so, if there is one.
    pub fn remove_tag(&mut self, id: &str, tag: &str) -> (r: Result<(), DocError>)
        requires
            old(self).wf(),
        ensures
            final(self).wf(),
            stays(old(self).doc, final(self).doc),
            ({
                let m = old(self)@.todo(id@);
                let l = slot(m, TAGS@, Kind::List)->0;
                old(self)@.changes_list(
                    final(self)@,
                    id@,
                    r,
                    slot(m, TAGS@, Kind::List),
                    with_tags(
                        m,
                        match text_place(l, tag@) {
                            Some(j) => l.remove(j),
                            None => l,
                        },
                    ),
                )
            }),
    {
        match self.item_index(id) {
            None => Err(DocError::UnknownId),
            Some(i) => {
                let ghost v0 = self@;
                let ghost k = i as int;
                let ghost m0 = v0.item(k);
                if !self.ensure(i, TAGS, false) {
                    return Err(DocError::Refused);
                }
                let ghost l0 = slot(m0, TAGS@, Kind::List)->0;
                proof {
                    lemma_with_twice(v0, k, with_tags(m0, l0), with_tags(m0, l0));
                    assert(self@ == v0.with(k, with_tags(m0, l0)));
                }
                if let Some(j) = self.tag_index(i, tag) {
                    if !self.cut_tags(i, j, 1) {
                        return Err(DocError::Refused);
                    }
                    proof {
                        let next = l0.remove(j as int);
                        assert(l0.take(j as int) + l0.skip(j + 1) =~= next);
                        assert(with_tags(with_tags(m0, l0), next) =~= with_tags(m0, next));
                        lemma_with_twice(v0, k, with_tags(m0, l0), with_tags(m0, next));
                    }
                }
                doc_commit(&mut self.doc);
                Ok(())
            },
        }
    }

    /// The position of a subtask of an item.
    fn subtask_index(&self, i: usize, id: &str) -> (r: Option<usize>)
        requires
            self@.row_at(Row::Inner(ITEMS, i, SUBTASKS)) is Some,
        ensures
            ({
                let l = self@.row_at(Row::Inner(ITEMS, i, SUBTASKS))->0;
                match r {
                    Some(j) => j < l.len() && numbered(l, id@) == Some(j as int) && live_map(
                        l[j as int],
                    ) is Some,
                    None => numbered(l, id@) is None,
                }
            }),
    {
        let ghost l = self@.row_at(Row::Inner(ITEMS, i, SUBTASKS))->0;
        let n: usize = row_len(&self.doc, Row::Inner(ITEMS, i, SUBTASKS));
        let mut j: usize = 0;
        proof {
            assert(l.take(0) =~= Seq::empty());
        }
        while j < n
            invariant
                j <= n,
                n == l.len(),
                self@.row_at(Row::Inner(ITEMS, i, SUBTASKS)) == Some(l),
                numbered(l.take(j as int), id@) is None,
            decreases n - j,
        {
            proof {
                assert(l.take(j + 1).drop_last() =~= l.take(j as int));
                assert(l.take(j + 1).last() == l[j as int]);
            }
            let hit: bool = match map_get(&self.doc, Spot::Inner(ITEMS, i, SUBTASKS, j), "id") {
                Some(Found::Text(t)) => same(t.as_str(), id),
                _ => false,
            };
            if hit {
                proof {
                    lemma_first_numbered(l, id@, j as int);
                }
                return Some(j);
            }
            j = j + 1;
        }
        proof {
            assert(l.take(n as int) =~= l);
        }
        None
    }

    /// Writes one entry of a subtask.
    fn put_inner(&mut self, i: usize, j: usize, key: &str, v: Field<'_>) -> (r: bool)
        requires
            old(self).wf(),
            i < old(self)@.items().len(),
            old(self)@.map_at(Spot::Inner(ITEMS, i, SUBTASKS, j)) is Some,
        ensures
            final(self).wf(),
            stays(old(self).doc, final(self).doc),
            ({
                let l = old(self)@.row_at(Row::Inner(ITEMS, i, SUBTASKS))->0;
                let m = live_map(l[j as int])->0;
                r && final(self)@ == old(self)@.with(
                    i as int,
                    with_subtasks(
                        old(self)@.item(i as int),
                        l.update(j as int, held_map(m.insert(key@, v.value()))),
                    ),
                )
            }),
    {
        let o = map_insert(&mut self.doc, Spot::Inner(ITEMS, i, SUBTASKS, j), key, v);
        o.is_some()
    }
}

impl TodoDoc {
    /// Fills in a new subtask, whose map is still empty.
    fn fill_inner(&mut self, i: usize, j: usize, id: &str, title: &str) -> (r: bool)
        requires
            old(self).wf(),
            i < old(self)@.items().len(),
            live_map(old(self)@.items()[i as int]) is Some,
            old(self)@.row_at(Row::Inner(ITEMS, i, SUBTASKS)) matches Some(l) && j < l.len()
                && l[j as int] == held_map(Map::<Seq<char>, Datum>::empty()),
        ensures
            final(self).wf(),
            stays(old(self).doc, final(self).doc),
            ({
                let l = old(self)@.row_at(Row::Inner(ITEMS, i, SUBTASKS))->0;
                r && final(self)@ == old(self)@.with(
                    i as int,
                    with_subtasks(
                        old(self)@.item(i as int),
                        l.update(j as int, held_map(new_subtask(id@, title@))),
                    ),
                )
            }),
    {
        let ghost v0 = self@;
        let ghost k = i as int;
        let ghost m0 = v0.item(k);
        let ghost l0 = v0.row_at(Row::Inner(ITEMS, i, SUBTASKS))->0;
        let ghost a1 = Map::<Seq<char>, Datum>::empty().insert("id"@, Datum::Text(id@));
        let ghost a2 = a1.insert("title"@, Datum::Text(title@));
        let ghost l1 = l0.update(j as int, held_map(a1));
        let ghost l2 = l0.update(j as int, held_map(a2));
        let ghost l3 = l0.update(j as int, held_map(new_subtask(id@, title@)));
        if !self.put_inner(i, j, "id", Field::Text(id)) {
            return false;
        }
        proof {
            lemma_with_twice(v0, k, with_subtasks(m0, l1), with_subtasks(m0, l1));
            assert(self@.row_at(Row::Inner(ITEMS, i, SUBTASKS)) == Some(l1));
        }
        if !self.put_inner(i, j, "title", Field::Text(title)) {
            return false;
        }
        let ghost v2 = self@;
        proof {
            assert(l1.update(j as int, held_map(a2)) =~= l2);
            assert(with_subtasks(with_subtasks(m0, l1), l2) =~= with_subtasks(m0, l2));
            lemma_with_twice(v0, k, with_subtasks(m0, l1), with_subtasks(m0, l2));
            lemma_with_twice(v0, k, with_subtasks(m0, l2), with_subtasks(m0, l2));
            assert(v2 == v0.with(k, with_subtasks(m0, l2)));
            assert(v2.row_at(Row::Inner(ITEMS, i, SUBTASKS)) == Some(l2));
        }
        if !self.put_inner(i, j, "done", Field::Flag(false)) {
            return false;
        }
        proof {
            assert(l2.update(j as int, held_map(new_subtask(id@, title@))) =~= l3);
            assert(with_subtasks(with_subtasks(m0, l2), l3) =~= with_subtasks(m0, l3));
            lemma_with_twice(v0, k, with_subtasks(m0, l2), with_subtasks(m0, l3));
        }
        true
    }

    /// Adds a subtask with a given number to a todo; gives the number's text.
    pub fn add_subtask_with(&mut self, number: [u8; 16], item_id: &str, title: &str) -> (r: Result<
        String,
        DocError,
    >)
        requires
            old(self).wf(),
        ensures
            final(self).wf(),
            stays(old(self).doc, final(self).doc),
            r matches Ok(id) ==> id@ == hyphenated(number@),
            old(self)@.adds_subtask(final(self)@, item_id@, r, hyphenated(number@), title@),
    {
        match self.item_index(item_id) {
            None => Err(DocError::UnknownId),
            Some(i) => {
                let ghost v0 = self@;
                let ghost k = i as int;
                let ghost m0 = v0.item(k);
                if !self.ensure(i, SUBTASKS, true) {
                    return Err(DocError::Refused);
                }
                let ghost l0 = slot(m0, SUBTASKS@, Kind::MovableList)->0;
                let ghost m1 = with_subtasks(m0, l0);
                proof {
                    lemma_with_twice(v0, k, m1, m1);
                    assert(self@ == v0.with(k, m1));
                    assert(self@.row_at(Row::Inner(ITEMS, i, SUBTASKS)) == Some(l0));
                }
                let id = uuid_string(number);
                let n: usize = row_len(&self.doc, Row::Inner(ITEMS, i, SUBTASKS));
                let o = row_insert_map(&mut self.doc, Row::Inner(ITEMS, i, SUBTASKS), n);
                if o.is_none() {
                    return Err(DocError::Refused);
                }
                let ghost none = held_map(Map::<Seq<char>, Datum>::empty());
                let ghost l2 = l0.push(none);
                let ghost m2 = with_subtasks(m0, l2);
                let ghost v2 = self@;
                proof {
                    assert(l0.insert(n as int, none) =~= l2);
                    assert(with_subtasks(m1, l2) =~= m2);
                    lemma_with_twice(v0, k, m1, m2);
                    lemma_with_twice(v0, k, m2, m2);
                    assert(v2 == v0.with(k, m2));
                    assert(v2.row_at(Row::Inner(ITEMS, i, SUBTASKS)) == Some(l2));
                }
                if !self.fill_inner(i, n, id.as_str(), title) {
                    return Err(DocError::Refused);
                }
                proof {
                    let l3 = l0.push(held_map(new_subtask(id@, title@)));
                    assert(l2.update(n as int, held_map(new_subtask(id@, title@))) =~= l3);
                    assert(with_subtasks(m2, l3) =~= with_subtasks(m0, l3));
                    lemma_with_twice(v0, k, m2, with_subtasks(m0, l3));
                }
                doc_commit(&mut self.doc);
                Ok(id)
            },
        }
    }

    /// Adds a subtask to a todo; gives its number, which is fresh.
    pub fn add_subtask(&mut self, item_id: &str, title: &str) -> (r: Result<String, DocError>)
        requires
            old(self).wf(),
        ensures
            final(self).wf(),
            stays(old(self).doc, final(self).doc),
            match r {
                Ok(id) => is_number(id@) && old(self)@.adds_subtask(
                    final(self)@,
                    item_id@,
                    r,
                    id@,
                    title@,
                ),
                Err(e) => old(self)@.adds_subtask(
                    final(self)@,
                    item_id@,
                    r,
                    Seq::empty(),
                    title@,
                ),
            },
    {
        let number = fresh_number();
        self.add_subtask_with(number, item_id, title)
    }

    /// Marks a subtask as done, or as not done; one that is not there is left alone.
    pub fn toggle_subtask(&mut self, item_id: &str, subtask_id: &str) -> (r: Result<(), DocError>)
        requires
            old(self).wf(),
        ensures
            final(self).wf(),
            stays(old(self).doc, final(self).doc),
            ({
                let m = old(self)@.todo(item_id@);
                old(self)@.changes_list(
                    final(self)@,
                    item_id@,
                    r,
                    slot(m, SUBTASKS@, Kind::MovableList),
                    with_subtasks(
                        m,
                        subtask_toggled(slot(m, SUBTASKS@, Kind::MovableList)->0, subtask_id@),
                    ),
                )
            }),
    {
        match self.item_index(item_id) {
            None => Err(DocError::UnknownId),
            Some(i) => {
                let ghost v0 = self@;
                let ghost k = i as int;
                let ghost m0 = v0.item(k);
                if !self.ensure(i, SUBTASKS, true) {
                    return Err(DocError::Refused);
                }
                let ghost l0 = slot(m0, SUBTASKS@, Kind::MovableList)->0;
                let ghost m1 = with_subtasks(m0, l0);
                proof {
                    lemma_with_twice(v0, k, m1, m1);
                    assert(self@ == v0.with(k, m1));
                    assert(self@.row_at(Row::Inner(ITEMS, i, SUBTASKS)) == Some(l0));
                }
                if let Some(j) = self.subtask_index(i, subtask_id) {
                    let spot = Spot::Inner(ITEMS, i, SUBTASKS, j);
                    let now: bool = match map_get(&self.doc, spot, "done") {
                        Some(Found::Flag(b)) => b,
                        _ => false,
                    };
                    if !self.put_inner(i, j, "done", Field::Flag(!now)) {
                        return Err(DocError::Refused);
                    }
                    proof {
                        let l2 = subtask_toggled(l0, subtask_id@);
                        assert(with_subtasks(m1, l2) =~= with_subtasks(m0, l2));
                        lemma_with_twice(v0, k, m1, with_subtasks(m0, l2));
                    }
                }
                doc_commit(&mut self.doc);
                Ok(())
            },
        }
    }

    /// Removes a subtask; one that is not there is left alone.
    pub fn remove_subtask(&mut self, item_id: &str, subtask_id: &str) -> (r: Result<(), DocError>)
        requires
            old(self).wf(),
        ensures
            final(self).wf(),
            stays(old(self).doc, final(self).doc),
            ({
                let m = old(self)@.todo(item_id@);
                let l = slot(m, SUBTASKS@, Kind::MovableList)->0;
                old(self)@.changes_list(
                    final(self)@,
                    item_id@,
                    r,
                    slot(m, SUBTASKS@, Kind::MovableList),
                    with_subtasks(
                        m,
                        match numbered(l, subtask_id@) {
                            Some(j) => l.remove(j),
                            None => l,
                        },
                    ),
                )
            }),
    {
        match self.item_index(item_id) {
            None => Err(DocError::UnknownId),
            Some(i) => {
                let ghost v0 = self@;
                let ghost k = i as int;
                let ghost m0 = v0.item(k);
                if !self.ensure(i, SUBTASKS, true) {
                    return Err(DocError::Refused);
                }
                let ghost l0 = slot(m0, SUBTASKS@, Kind::MovableList)->0;
                let ghost m1 = with_subtasks(m0, l0);
                proof {
                    lemma_with_twice(v0, k, m1, m1);
                    assert(self@ == v0.with(k, m1));
                    assert(self@.row_at(Row::Inner(ITEMS, i, SUBTASKS)) == Some(l0));
                }
                if let Some(j) = self.subtask_index(i, subtask_id) {
                    let o = row_delete(&mut self.doc, Row::Inner(ITEMS, i, SUBTASKS), j);
                    if o.is_none() {
                        return Err(DocError::Refused);
                    }
                    proof {
                        let l2 = l0.remove(j as int);
                        assert(with_subtasks(m1, l2) =~= with_subtasks(m0, l2));
                        lemma_with_twice(v0, k, m1, with_subtasks(m0, l2));
                    }
                }
                doc_commit(&mut self.doc);
                Ok(())
            },
        }
    }

    /// The todos, in their order.
    pub fn items(&self) -> (r: Vec<TodoItem>)
        ensures
            todo_views(r@) == projected(bare_all(self@.items())),
    {
        let json = row_json(&self.doc, ITEMS);
        match plain_of(json) {
            Plain::List(v) => {
                proof {
                    lemma_list_value(&v);
                }
                project(&v)
            },
            _ => Vec::new(),
        }
    }
}

/// Subtasks with one marked as done, or as not done; one that is not there changes
/// nothing.
pub open spec fn subtask_toggled(l: Seq<Datum>, id: Seq<char>) -> Seq<Datum> {
    match numbered(l, id) {
        Some(j) => {
            let m = live_map(l[j])->0;
            l.update(j, held_map(m.insert("done"@, Datum::Bool(!flag_in(m, "done"@)))))
        },
        None => l,
    }
}

/// The first item with a number is the first of those up to it.
proof fn lemma_first_numbered(s: Seq<Datum>, id: Seq<char>, i: int)
    requires
        0 <= i < s.len(),
        numbered(s.take(i), id) is None,
        text_in(s[i], "id"@) == Some(id),
    ensures
        numbered(s, id) == Some(i),
        live_map(s[i]) is Some,
    decreases s.len() - i,
{
    assert(s.take(i + 1).drop_last() =~= s.take(i));
    assert(s.take(i + 1).last() == s[i]);
    lemma_numbered_extends(s, id, i + 1);
}

proof fn lemma_numbered_extends(s: Seq<Datum>, id: Seq<char>, n: int)
    requires
        0 <= n <= s.len(),
        numbered(s.take(n), id) is Some,
    ensures
        numbered(s, id) == numbered(s.take(n), id),
    decreases s.len() - n,
{
    if n < s.len() {
        assert(s.take(n + 1).drop_last() =~= s.take(n));
        lemma_numbered_extends(s, id, n + 1);
    } else {
        assert(s.take(n) =~= s);
    }
}

// ── Laws ────────────────────────────────────────────────────────────────────

/// A snapshot that a sound document exports is taken, and gives back what the document held.
/// `r` is what reading the snapshot comes to.
pub proof fn law_snapshot_round_trips(
    before: TodoDoc,
    bytes: Seq<u8>,
    r: Result<TodoDoc, DocError>,
)
    requires
        before.sound(),
        imported(bytes) == before@,
        is_snapshot(bytes, before.edits()),
        readable(bytes) ==> r is Ok,
        r matches Ok(d) ==> d@ == imported(bytes),
    ensures
        r matches Ok(d) && d@ == before@ && projected(bare_all(d@.items())) == projected(
            bare_all(before@.items()),
        ),
{
}

/// It does not matter in which order updates arrive, nor whether they arrive again.
pub proof fn law_import_order_does_not_matter(edits: Set<Op>, x: Seq<u8>, y: Seq<u8>)
    requires
        distinct(edits.union(carried(x)).union(carried(y))),
    ensures
        agree(edits, carried(x)) && agree(edits.union(carried(x)), carried(y)),
        agree(edits, carried(y)) && agree(edits.union(carried(y)), carried(x)),
        merged(edits.union(carried(x)).union(carried(y))) == merged(
            edits.union(carried(y)).union(carried(x)),
        ),
        merged(edits.union(carried(x)).union(carried(x))) == merged(edits.union(carried(x))),
{
    let all = edits.union(carried(x)).union(carried(y));
    assert forall|p: Op, q: Op| all.contains(p) && all.contains(q) && same_number(p, q) implies p
        == q by {}
    assert(all =~= edits.union(carried(y)).union(carried(x)));
    assert(edits.union(carried(x)).union(carried(x)) =~= edits.union(carried(x)));
}

/// Whether two copies that parted number their edits apart: none that one made has the number
/// of one that the other made.
pub open spec fn apart(base: Set<Op>, a: Set<Op>, b: Set<Op>) -> bool {
    forall|p: Op, q: Op| #[trigger]
        a.contains(p) && #[trigger] b.contains(q) && !base.contains(p) && !base.contains(q)
            ==> !same_number(p, q)
}

/// Edits made apart on two copies agree: neither copy has a different edit under the number
/// of one that the other sends.
proof fn lemma_apart_agree(base: Set<Op>, a: Set<Op>, b: Set<Op>, sent: Set<Op>)
    requires
        base.subset_of(a),
        base.subset_of(b),
        distinct(a),
        distinct(b),
        apart(base, a, b),
        sent.subset_of(b),
    ensures
        agree(a, sent),
{
    assert forall|p: Op, q: Op| #[trigger]
        a.contains(p) && #[trigger] sent.contains(q) && same_number(p, q) implies p == q by {
        assert(b.contains(q));
        if base.contains(q) {
            assert(a.contains(q));
        } else if base.contains(p) {
            assert(b.contains(p));
        }
    }
}

/// Whether a copy with these edits takes bytes that carry those: what merging them owes.
pub open spec fn takes(before: TodoDoc, bytes: Seq<u8>, after: TodoDoc, r: Result<(), DocError>) -> bool {
    before.sound() && readable(bytes) && agree(before.edits(), carried(bytes)) ==> r is Ok
        && merges(before.doc, after.doc, carried(bytes))
}

/// Every item of a copy is still there after it received the updates of another to which an
/// item was added.
proof fn lemma_items_stay(base: TodoDoc, a1: TodoDoc, b0: TodoDoc, b1: TodoDoc, y: Seq<u8>, a2: TodoDoc)
    requires
        a1.sound() && b0.sound() && b1.sound(),
        b0.edits() == base.edits(),
        base.edits().subset_of(a1.edits()),
        adds(b0.doc, b1.doc) && grown(b0.doc, b1.doc),
        apart(base.edits(), a1.edits(), b1.edits()),
        forall|op: Op| a1.edits().contains(op) ==> !#[trigger] kept_back(a1.edits(), op),
        carried(y).subset_of(b1.edits()),
        keeps_untouched(a1.doc, a2.doc, carried(y)),
    ensures
        forall|i: int|
            0 <= i < a1@.items().len() ==> a2@.items().contains(#[trigger] a1@.items()[i]),
{
    reveal(grown);
    reveal(confined);
    let s = choose|op: Op| #[trigger]
        comes_in(
            b0.edits(),
            sources(b0.doc),
            b1.edits(),
            sources(b1.doc),
            view_of(b0.doc).items().len() as int,
            op,
        );
    assert forall|i: int| 0 <= i < a1@.items().len() implies a2@.items().contains(
        #[trigger] a1@.items()[i],
    ) by {
        let q = sources(a1.doc)[i];
        assert(a1.edits().contains(q));
        assert(untouched(a1.edits(), carried(y), q)) by {
            assert forall|op: Op| #[trigger] concerns(op, q) && carried(y).contains(op) implies a1.edits().contains(op) by {
                if !base.edits().contains(op) {
                    assert(q == s);
                    assert(b1.edits().contains(s) && !base.edits().contains(s));
                    assert(same_number(q, s));
                }
            }
        }
    }
}

/// Whether a document is a copy that was read from a snapshot.
pub open spec fn is_copy(d: TodoDoc, snapshot: Seq<u8>) -> bool {
    d.sound() && d@ == imported(snapshot) && d.edits() == carried(snapshot)
}

/// Whether bytes are the updates of a document after the version that it had before it was
/// edited.
pub open spec fn is_update(bytes: Seq<u8>, before: TodoDoc, after: TodoDoc) -> bool {
    readable(bytes) && carried(bytes) == unseen(after.edits(), version_of(before.doc))
}

/// What a copy keeps back after it was edited: nothing. Its updates carry what was done to it.
proof fn lemma_copy_edited(a0: TodoDoc, a1: TodoDoc, x: Seq<u8>)
    requires
        forall|op: Op| a0.edits().contains(op) ==> !#[trigger] kept_back(a0.edits(), op),
        grown(a0.doc, a1.doc),
        is_update(x, a0, a1),
    ensures
        a0.edits().subset_of(a1.edits()),
        forall|op: Op| a1.edits().contains(op) ==> !#[trigger] kept_back(a1.edits(), op),
        carried(x).subset_of(a1.edits()),
        a1.edits().difference(a0.edits()).subset_of(carried(x)),
{
    reveal(grown);
    law_updates_carry_the_edits(a0.doc, a1.doc);
    assert forall|op: Op| a1.edits().contains(op) implies !#[trigger] kept_back(a1.edits(), op) by {
        if a0.edits().contains(op) {
            assert(!kept_back(a0.edits(), op));
        } else {
            assert(history(a1.doc).contains(op) && !history(a0.doc).contains(op));
        }
    }
}

/// Two copies of one snapshot that were edited apart from each other take each other's updates,
/// and then hold the same: what the edits of both come to. `x` and `y` are the updates after
/// the versions that the copies had when they parted; `ra` and `rb` are what taking them comes
/// to. No edit that one copy made has the number of one that the other made.
pub proof fn law_copies_converge(
    origin: Set<Op>,
    snapshot: Seq<u8>,
    a0: TodoDoc,
    a1: TodoDoc,
    x: Seq<u8>,
    a2: TodoDoc,
    ra: Result<(), DocError>,
    b0: TodoDoc,
    b1: TodoDoc,
    y: Seq<u8>,
    b2: TodoDoc,
    rb: Result<(), DocError>,
)
    requires
        is_snapshot(snapshot, origin),
        is_copy(a0, snapshot) && is_copy(b0, snapshot),
        stays(a0.doc, a1.doc) && is_update(x, a0, a1) && takes(a1, y, a2, ra),
        stays(b0.doc, b1.doc) && is_update(y, b0, b1) && takes(b1, x, b2, rb),
        apart(carried(snapshot), a1.edits(), b1.edits()),
    ensures
        ra is Ok && rb is Ok,
        a2.sound() && b2.sound(),
        a2@ == b2@,
        a2@ == merged(a1.edits().union(b1.edits())),
        projected(bare_all(a2@.items())) == projected(bare_all(b2@.items())),
        merges(a1.doc, a2.doc, carried(y)) && merges(b1.doc, b2.doc, carried(x)),
{
    let base = carried(snapshot);
    lemma_copy_edited(a0, a1, x);
    lemma_copy_edited(b0, b1, y);
    lemma_apart_agree(base, a1.edits(), b1.edits(), carried(y));
    assert forall|p: Op, q: Op| #[trigger]
        b1.edits().contains(p) && #[trigger] a1.edits().contains(q) && !base.contains(p)
            && !base.contains(q) implies !same_number(p, q) by {
        assert(!same_number(q, p));
    }
    lemma_apart_agree(base, b1.edits(), a1.edits(), carried(x));
    let all = a1.edits().union(b1.edits());
    assert(a1.edits().union(carried(y)) =~= all) by {
        assert forall|op: Op| b1.edits().contains(op) implies a1.edits().contains(op)
            || carried(y).contains(op) by {
            if !base.contains(op) {
                assert(b1.edits().difference(b0.edits()).contains(op));
            }
        }
    }
    assert(b1.edits().union(carried(x)) =~= all) by {
        assert forall|op: Op| a1.edits().contains(op) implies b1.edits().contains(op)
            || carried(x).contains(op) by {
            if !base.contains(op) {
                assert(a1.edits().difference(a0.edits()).contains(op));
            }
        }
    }
}

/// Two copies of one snapshot to each of which a todo was added take each other's updates, and
/// then hold the same: both new todos, and all that there were before.
pub proof fn law_concurrent_todos_are_both_there(
    origin: Set<Op>,
    snapshot: Seq<u8>,
    a0: TodoDoc,
    a1: TodoDoc,
    x: Seq<u8>,
    a2: TodoDoc,
    ra: Result<(), DocError>,
    b0: TodoDoc,
    b1: TodoDoc,
    y: Seq<u8>,
    b2: TodoDoc,
    rb: Result<(), DocError>,
)
    requires
        is_snapshot(snapshot, origin),
        is_copy(a0, snapshot) && is_copy(b0, snapshot),
        stays(a0.doc, a1.doc) && adds(a0.doc, a1.doc),
        stays(b0.doc, b1.doc) && adds(b0.doc, b1.doc),
        is_update(x, a0, a1) && takes(a1, y, a2, ra),
        is_update(y, b0, b1) && takes(b1, x, b2, rb),
        apart(carried(snapshot), a1.edits(), b1.edits()),
    ensures
        ra is Ok && rb is Ok,
        a2@ == b2@,
        projected(bare_all(a2@.items())) == projected(bare_all(b2@.items())),
        forall|i: int|
            0 <= i < a1@.items().len() ==> a2@.items().contains(#[trigger] a1@.items()[i]),
        forall|i: int|
            0 <= i < b1@.items().len() ==> a2@.items().contains(#[trigger] b1@.items()[i]),
{
    law_copies_converge(origin, snapshot, a0, a1, x, a2, ra, b0, b1, y, b2, rb);
    let base = a0.edits();
    lemma_copy_edited(a0, a1, x);
    lemma_copy_edited(b0, b1, y);
    lemma_items_stay(a0, a1, b0, b1, y, a2);
    assert forall|p: Op, q: Op| #[trigger]
        b1.edits().contains(p) && #[trigger] a1.edits().contains(q) && !base.contains(p)
            && !base.contains(q) implies !same_number(p, q) by {
        assert(!same_number(q, p));
    }
    lemma_items_stay(b0, b1, a0, a1, x, b2);
}

/// The updates after the version that a document had carry every edit made to it since.
pub proof fn law_updates_carry_the_edits(before: LoroDoc, after: LoroDoc)
    requires
        grown(before, after),
    ensures
        history(after).difference(history(before)).subset_of(
            unseen(history(after), version_of(before)),
        ),
{
    reveal(grown);
}

/// All updates of a document that keeps nothing back rebuild it in an empty one.
pub proof fn law_all_updates_rebuild(edits: Set<Op>, x: Seq<u8>)
    requires
        forall|op: Op| edits.contains(op) ==> !#[trigger] kept_back(edits, op),
        carried(x) == unseen(edits, no_edits()),
    ensures
        agree(Set::<Op>::empty(), carried(x)),
        merged(Set::<Op>::empty().union(carried(x))) == merged(edits),
{
    assert(Set::<Op>::empty().union(carried(x)) =~= edits);
}

/// To mark a todo as done twice leaves its mark as it was.
pub proof fn law_done_twice(m: Map<Seq<char>, Datum>)
    ensures
        ({
            let once = m.insert("done"@, Datum::Bool(!flag_in(m, "done"@)));
            let twice = once.insert("done"@, Datum::Bool(!flag_in(once, "done"@)));
            flag_in(twice, "done"@) == flag_in(m, "done"@)
        }),
{
}

/// A todo that was moved and moved back is where it was, and so are all the others.
pub proof fn law_moved_there_and_back(l: Seq<Datum>, from: int, to: int)
    requires
        0 <= from < l.len(),
        0 <= to < l.len(),
    ensures
        shifted(shifted(l, from, to), to, from) == l,
        shifted(l, from, to)[to] == l[from],
        shifted(l, from, to).len() == l.len(),
{
    let s = shifted(l, from, to);
    assert(s.remove(to) =~= l.remove(from));
    assert(shifted(s, to, from) =~= l);
}

/// No todo is left with a number that one todo had, once that was removed.
pub proof fn law_removed_is_gone(l: Seq<Datum>, id: Seq<char>)
    requires
        numbered(l, id) is Some,
        forall|i: int, j: int|
            0 <= i < l.len() && 0 <= j < l.len() && text_in(#[trigger] l[i], "id"@) == Some(id)
                && text_in(#[trigger] l[j], "id"@) == Some(id) ==> i == j,
    ensures
        numbered(l.remove(numbered(l, id)->0), id) is None,
{
    let k = numbered(l, id)->0;
    lemma_numbered(l, id);
    let rest = l.remove(k);
    lemma_numbered(rest, id);
    if numbered(rest, id) is Some {
        let i = numbered(rest, id)->0;
        let j = if i < k {
            i
        } else {
            i + 1
        };
        assert(rest[i] == l[j]);
        assert(text_in(l[j], "id"@) == Some(id) && text_in(l[k], "id"@) == Some(id));
    }
}

/// What a new todo reads as.
pub open spec fn fresh_todo(id: Seq<char>, input: InputView, position: nat) -> TodoView {
    TodoView {
        id,
        title: input.title,
        notes: input.notes,
        due: match input.due {
            Some(d) => if in_calendar(d) {
                Some(d)
            } else {
                None
            },
            None => None,
        },
        priority: input.priority,
        done: false,
        tags: input.tags,
        subtasks: Seq::empty(),
        order_key: padded(position, 8),
    }
}

proof fn lemma_tags_read_back(tags: Seq<Seq<char>>)
    ensures
        all_texts(tag_data(tags)) == Some(tags),
    decreases tags.len(),
{
    if tags.len() == 0 {
        assert(tags =~= Seq::empty());
    } else {
        lemma_tags_read_back(tags.drop_last());
        assert(tag_data(tags).drop_last() =~= tag_data(tags.drop_last()));
        assert(tags.drop_last().push(tags.last()) =~= tags);
    }
}

proof fn lemma_bare_tags(tags: Seq<Seq<char>>)
    ensures
        bare(held_list(Kind::List, tag_data(tags))) == Datum::List(tag_data(tags)),
{
    reveal_with_fuel(bare, 3);
    let b = bare(held_list(Kind::List, tag_data(tags)));
    assert(b is List);
    assert(b->List_0 =~= tag_data(tags));
}

proof fn lemma_bare_map(m: Map<Seq<char>, Datum>, key: Seq<char>)
    ensures
        bare(held_map(m)) is Table,
        (bare(held_map(m))->Table_0).contains_key(key) == m.contains_key(key),
        m.contains_key(key) ==> (bare(held_map(m))->Table_0)[key] == bare(m[key]),
{
    reveal_with_fuel(bare, 3);
}

proof fn lemma_fresh_todo(id: Seq<char>, input: InputView, position: nat)
    ensures
        todo_of(bare(held_map(new_item(id, input))), position) == Some(
            fresh_todo(id, input, position),
        ),
{
    reveal_strlit("id");
    reveal_strlit("title");
    reveal_strlit("notes");
    reveal_strlit("due");
    reveal_strlit("priority");
    reveal_strlit("done");
    reveal_strlit("tags");
    reveal_strlit("subtasks");
    let m = new_item(id, input);
    let v = bare(held_map(m));
    assert("id"@[0] == 'i');
    assert("title"@[0] == 't' && "title"@[1] == 'i');
    assert("tags"@[0] == 't' && "tags"@[1] == 'a');
    assert("notes"@[0] == 'n');
    assert("due"@[0] == 'd' && "due"@[1] == 'u');
    assert("done"@[0] == 'd' && "done"@[1] == 'o');
    assert("priority"@[0] == 'p');
    assert("subtasks"@[0] == 's');
    lemma_bare_map(m, "id"@);
    lemma_bare_map(m, "title"@);
    lemma_bare_map(m, "notes"@);
    lemma_bare_map(m, "due"@);
    lemma_bare_map(m, "priority"@);
    lemma_bare_map(m, "done"@);
    lemma_bare_map(m, "tags"@);
    lemma_bare_map(m, "subtasks"@);
    lemma_bare_tags(input.tags);
    lemma_tags_read_back(input.tags);
    law_priority_rank_round_trip(input.priority);
    assert(field(v, "id"@, 0) == Some(Datum::Text(id)));
    assert(field(v, "title"@, 1) == Some(Datum::Text(input.title)));
    assert(field(v, "notes"@, 2) == Some(Datum::Text(input.notes)));
    assert(field(v, "priority"@, 4) == Some(Datum::Int(input.priority.level() as i64)));
    assert(field(v, "done"@, 5) == Some(Datum::Bool(false)));
    assert(field(v, "tags"@, 6) == Some(Datum::List(tag_data(input.tags))));
    assert(field(v, "subtasks"@, 7) is None);
}

/// A todo that was added reads back as it was given, behind all the others.
pub proof fn law_added_todo_reads_back(l: Seq<Datum>, id: Seq<char>, input: InputView)
    requires
        all_todos(bare_all(l)) is Some,
    ensures
        projected(bare_all(l.push(held_map(new_item(id, input))))) == projected(
            bare_all(l),
        ).push(fresh_todo(id, input, l.len())),
{
    let x = held_map(new_item(id, input));
    assert(bare_all(l.push(x)).drop_last() =~= bare_all(l));
    assert(bare_all(l.push(x)).last() == bare(x));
    lemma_fresh_todo(id, input, l.len());
}

/// What a todo reads as after a form overwrote it.
pub open spec fn revised_todo(t: TodoView, input: InputView) -> TodoView {
    TodoView {
        title: input.title,
        notes: input.notes,
        due: match input.due {
            Some(d) => if in_calendar(d) {
                Some(d)
            } else {
                None
            },
            None => None,
        },
        priority: input.priority,
        tags: input.tags,
        ..t
    }
}

proof fn lemma_revised_todo(m: Map<Seq<char>, Datum>, input: InputView, position: nat)
    requires
        todo_of(bare(held_map(m)), position) is Some,
    ensures
        todo_of(bare(held_map(revised(m, input))), position) == Some(
            revised_todo(todo_of(bare(held_map(m)), position)->0, input),
        ),
{
    reveal_strlit("id");
    reveal_strlit("title");
    reveal_strlit("notes");
    reveal_strlit("due");
    reveal_strlit("priority");
    reveal_strlit("done");
    reveal_strlit("tags");
    reveal_strlit("subtasks");
    let n = revised(m, input);
    let v = bare(held_map(n));
    let w = bare(held_map(m));
    assert("id"@[0] == 'i');
    assert("title"@[0] == 't' && "title"@[1] == 'i');
    assert("tags"@[0] == 't' && "tags"@[1] == 'a');
    assert("notes"@[0] == 'n');
    assert("due"@[0] == 'd' && "due"@[1] == 'u');
    assert("done"@[0] == 'd' && "done"@[1] == 'o');
    assert("priority"@[0] == 'p');
    assert("subtasks"@[0] == 's');
    lemma_bare_map(n, "id"@);
    lemma_bare_map(n, "title"@);
    lemma_bare_map(n, "notes"@);
    lemma_bare_map(n, "due"@);
    lemma_bare_map(n, "priority"@);
    lemma_bare_map(n, "done"@);
    lemma_bare_map(n, "tags"@);
    lemma_bare_map(n, "subtasks"@);
    lemma_bare_map(m, "id"@);
    lemma_bare_map(m, "done"@);
    lemma_bare_map(m, "subtasks"@);
    lemma_bare_tags(input.tags);
    lemma_tags_read_back(input.tags);
    law_priority_rank_round_trip(input.priority);
    assert(field(v, "id"@, 0) == field(w, "id"@, 0));
    assert(field(v, "done"@, 5) == field(w, "done"@, 5));
    assert(field(v, "subtasks"@, 7) == field(w, "subtasks"@, 7));
    assert(field(v, "title"@, 1) == Some(Datum::Text(input.title)));
    assert(field(v, "notes"@, 2) == Some(Datum::Text(input.notes)));
    assert(field(v, "priority"@, 4) == Some(Datum::Int(input.priority.level() as i64)));
    assert(field(v, "tags"@, 6) == Some(Datum::List(tag_data(input.tags))));
    assert(input.due is None ==> field(v, "due"@, 3) is None);
}

/// Values of which one is replaced by another that is a todo read as before, but for that one.
proof fn lemma_one_todo_replaced(s: Seq<Datum>, i: int, x: Datum, t: TodoView)
    requires
        all_todos(s) is Some,
        0 <= i < s.len(),
        todo_of(x, i as nat) == Some(t),
    ensures
        (all_todos(s)->0).len() == s.len(),
        todo_of(s[i], i as nat) == Some((all_todos(s)->0)[i]),
        all_todos(s.update(i, x)) == Some((all_todos(s)->0).update(i, t)),
    decreases s.len(),
{
    let init = s.drop_last();
    lemma_todo_count(s);
    lemma_todo_count(init);
    if i == s.len() - 1 {
        assert(s.update(i, x).drop_last() =~= init);
        assert((all_todos(init)->0).push(t) =~= (all_todos(s)->0).update(i, t));
    } else {
        lemma_one_todo_replaced(init, i, x, t);
        assert(s.update(i, x).drop_last() =~= init.update(i, x));
        assert(s.update(i, x).last() == s.last());
        let last = todo_of(s.last(), (s.len() - 1) as nat)->0;
        assert((all_todos(init)->0).update(i, t).push(last) =~= (all_todos(s)->0).update(i, t));
    }
}

proof fn lemma_todo_count(s: Seq<Datum>)
    ensures
        all_todos(s) matches Some(t) ==> t.len() == s.len(),
    decreases s.len(),
{
    if s.len() > 0 {
        lemma_todo_count(s.drop_last());
    }
}

/// A todo that a form overwrote reads back as the form said, with its number, its mark and its
/// subtasks as before; all other todos read as they did.
pub proof fn law_updated_todo_reads_back(l: Seq<Datum>, i: int, input: InputView)
    requires
        all_todos(bare_all(l)) is Some,
        0 <= i < l.len(),
        live_map(l[i]) is Some,
    ensures
        projected(bare_all(l.update(i, held_map(revised(live_map(l[i])->0, input))))) == projected(
            bare_all(l),
        ).update(i, revised_todo(projected(bare_all(l))[i], input)),
{
    let m = live_map(l[i])->0;
    let x = held_map(revised(m, input));
    let s = bare_all(l);
    assert(l[i] == held_map(m));
    assert(bare_all(l.update(i, x)) =~= s.update(i, bare(x)));
    assert(s[i] == bare(l[i]));
    lemma_todo_count(s);
    assert(todo_of(s[i], i as nat) is Some) by {
        lemma_each_todo(s, i);
    }
    lemma_revised_todo(m, input, i as nat);
    lemma_one_todo_replaced(s, i, bare(x), todo_of(bare(x), i as nat)->0);
}

proof fn lemma_each_todo(s: Seq<Datum>, i: int)
    requires
        all_todos(s) is Some,
        0 <= i < s.len(),
    ensures
        todo_of(s[i], i as nat) is Some,
    decreases s.len(),
{
    if i < s.len() - 1 {
        lemma_each_todo(s.drop_last(), i);
    }
}

} // verus!
