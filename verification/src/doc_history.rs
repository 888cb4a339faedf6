//! The edits that a document keeps: those that were made to it, those that it has received,
//! and those that it hands on.
use loro::LoroDoc;
use vstd::prelude::*;

verus! {

/// An edit as a document keeps it: who made it, which of theirs it is, and what it does.
pub ghost struct Op {
    pub peer: u64,
    pub counter: int,
    pub body: Seq<u8>,
}

/// The edits that were made to a document, and those that it has received.
pub uninterp spec fn history(d: LoroDoc) -> Set<Op>;

/// Whether a document has its history from the beginning, and every part of it can be read.
pub uninterp spec fn intact(d: LoroDoc) -> bool;

/// The edits that put in the items of a list's document, in the order of the items.
pub uninterp spec fn sources(d: LoroDoc) -> Seq<Op>;

/// How many edits of each author the version of a document covers.
pub uninterp spec fn version_of(d: LoroDoc) -> Map<u64, int>;

/// The edits that exported bytes carry: those that a document without edits takes in.
pub uninterp spec fn carried(bytes: Seq<u8>) -> Set<Op>;

/// Whether bytes are a snapshot or updates that a document with its whole history exported.
pub uninterp spec fn readable(bytes: Seq<u8>) -> bool;

/// How many edits of each author an encoded version covers, if it can be read.
pub uninterp spec fn decoded(version: Seq<u8>) -> Option<Map<u64, int>>;

/// Whether a document with these edits keeps one of them back when it exports updates: one
/// that waits for others that it builds on, or one of which only the outcome is left.
pub uninterp spec fn kept_back(ops: Set<Op>, op: Op) -> bool;

/// Whether an edit is about the item that another edit put in: it moves it, takes it away,
/// puts something in its place, or writes into it.
pub uninterp spec fn concerns(op: Op, item: Op) -> bool;

/// Whether a version covers an edit.
pub open spec fn covered(version: Map<u64, int>, op: Op) -> bool {
    version.contains_key(op.peer) && op.counter < version[op.peer]
}

/// The version that covers nothing.
pub open spec fn no_edits() -> Map<u64, int> {
    Map::empty()
}

/// Whether two edits have the same number of the same author.
pub open spec fn same_number(x: Op, y: Op) -> bool {
    x.peer == y.peer && x.counter == y.counter
}

/// Whether no edit of one set shares its number with a different one of another.
pub open spec fn agree(a: Set<Op>, b: Set<Op>) -> bool {
    forall|x: Op, y: Op| #[trigger]
        a.contains(x) && #[trigger] b.contains(y) && same_number(x, y) ==> x == y
}

/// Whether no two edits share a number.
pub open spec fn distinct(ops: Set<Op>) -> bool {
    agree(ops, ops)
}

/// Whether what is new in a set of edits is about one item alone.
#[verifier::opaque]
pub open spec fn confined(before: Set<Op>, after: Set<Op>, item: Op) -> bool {
    forall|op: Op, other: Op| #[trigger]
        concerns(op, other) && after.contains(op) && !before.contains(op) ==> other == item
}

/// Whether a document is another after edits of one of its items alone.
pub open spec fn within(a: LoroDoc, b: LoroDoc, i: int) -> bool {
    sources(b) == sources(a) && confined(history(a), history(b), sources(a)[i])
}

/// Whether a document is another into which an edit put an item, and what else is new is
/// about that item alone.
pub open spec fn puts_in(a: LoroDoc, b: LoroDoc, pos: int, op: Op) -> bool {
    comes_in(history(a), sources(a), history(b), sources(b), pos, op)
}

/// Whether an edit among new ones put in an item, and the others are about that item alone.
pub open spec fn comes_in(
    before: Set<Op>,
    sources0: Seq<Op>,
    after: Set<Op>,
    sources1: Seq<Op>,
    pos: int,
    op: Op,
) -> bool {
    &&& after.contains(op) && !before.contains(op)
    &&& sources1 == sources0.insert(pos, op)
    &&& confined(before, after, op)
}

/// Whether no edit is about an item that becomes effective when a document with these edits
/// receives more: neither one that it does not have, nor one that it has kept back until now.
pub open spec fn untouched(ops: Set<Op>, more: Set<Op>, item: Op) -> bool {
    forall|op: Op| #[trigger]
        concerns(op, item) ==> (ops.contains(op) ==> !kept_back(ops, op)) && (more.contains(op)
            ==> ops.contains(op))
}

/// The edits that are exported as updates after a version.
pub open spec fn unseen(ops: Set<Op>, version: Map<u64, int>) -> Set<Op> {
    Set::new(|op: Op| ops.contains(op) && !covered(version, op) && !kept_back(ops, op))
}
/// Whether a document is another with more edits made to it. The new ones are beyond the
/// version before, and are not kept back.
#[verifier::opaque]
pub open spec fn grown(a: LoroDoc, b: LoroDoc) -> bool {
    &&& history(a).subset_of(history(b))
    &&& forall|op: Op| #[trigger] covered(version_of(a), op) ==> covered(version_of(b), op)
    &&& forall|op: Op| #[trigger]
        history(b).contains(op) && !history(a).contains(op) ==> !covered(version_of(a), op)
            && !kept_back(history(b), op)
    &&& forall|op: Op| #[trigger]
        kept_back(history(b), op) && history(a).contains(op) ==> kept_back(history(a), op)
}

pub broadcast proof fn lemma_grown_further(a: LoroDoc, b: LoroDoc, c: LoroDoc)
    requires
        #[trigger] grown(a, b),
        #[trigger] grown(b, c),
    ensures
        grown(a, c),
{
    reveal(grown);
    assert forall|op: Op| #[trigger]
        history(c).contains(op) && !history(a).contains(op) implies !covered(version_of(a), op)
        && !kept_back(history(c), op) by {
        if history(b).contains(op) {
            assert(!kept_back(history(b), op));
        } else {
            assert(!covered(version_of(b), op));
        }
    }
    assert forall|op: Op| #[trigger]
        kept_back(history(c), op) && history(a).contains(op) implies kept_back(
        history(a),
        op,
    ) by {
        assert(history(b).contains(op));
        assert(kept_back(history(b), op));
    }
}

pub broadcast proof fn lemma_confined_further(a: Set<Op>, b: Set<Op>, c: Set<Op>, item: Op)
    requires
        #[trigger] confined(a, b, item),
        #[trigger] confined(b, c, item),
    ensures
        confined(a, c, item),
{
    reveal(confined);
}

pub broadcast proof fn lemma_grown_by_nothing(a: LoroDoc)
    ensures
        #[trigger] grown(a, a),
{
    reveal(grown);
}

} // verus!
