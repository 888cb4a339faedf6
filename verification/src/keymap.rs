//! Keymaps: ordered maps from key sequences to commands, and the resolution of
//! incoming keys against them.
use indexmap::IndexMap;
use vstd::prelude::*;
use vstd::string::*;

use crate::keys::{
    case_normal, key_sequence_to_string, normalize_case, normalize_key, normalized, same_key,
    sequence_text, KeyCode, KeyEvent, KeyEventKind, KeyModifiers,
};
use crate::text::{join, joined_with, texts};

verus! {

// ── The ordered index ───────────────────────────────────────────────────────

/// `indexmap::IndexMap`, a hash map that keeps its entries in insertion order.
#[verifier::external_type_specification]
#[verifier::external_body]
#[verifier::reject_recursive_types(K)]
#[verifier::reject_recursive_types(V)]
#[verifier::reject_recursive_types(S)]
pub struct ExIndexMap<K, V, S>(IndexMap<K, V, S>);

/// The entries of an ordered index, in insertion order.
pub uninterp spec fn index_entries(m: IndexMap<Vec<u64>, usize>) -> Seq<(Seq<u64>, usize)>;

/// `IndexMap::new`: a map without entries.
#[verifier::external_body]
pub(crate) fn index_new() -> (r: IndexMap<Vec<u64>, usize>)
    ensures
        index_entries(r).len() == 0,
{
    IndexMap::new()
}

/// `IndexMap::get`: the value stored for `key`, if there is one.
#[verifier::external_body]
pub(crate) fn index_get(m: &IndexMap<Vec<u64>, usize>, key: &Vec<u64>) -> (r: Option<usize>)
    ensures
        match r {
            Some(v) => exists|i: int|
                0 <= i < index_entries(*m).len() && #[trigger] index_entries(*m)[i] == (key@, v),
            None => forall|i: int|
                0 <= i < index_entries(*m).len() ==> #[trigger] index_entries(*m)[i].0 != key@,
        },
{
    m.get(key).copied()
}

/// `IndexMap::insert`, for a key that the map does not hold: the entry comes last.
#[verifier::external_body]
pub(crate) fn index_insert(m: &mut IndexMap<Vec<u64>, usize>, key: Vec<u64>, value: usize)
    requires
        forall|i: int|
            0 <= i < index_entries(*old(m)).len() ==> #[trigger] index_entries(*old(m))[i].0
                != key@,
    ensures
        index_entries(*final(m)) == index_entries(*old(m)).push((key@, value)),
{
    m.insert(key, value);
}

// ── Keys as numbers ─────────────────────────────────────────────────────────

/// The position of a key among the kinds of keys, and its payload.
pub open spec fn code_parts(code: KeyCode) -> (int, int) {
    match code {
        KeyCode::Backspace => (0, 0),
        KeyCode::Enter => (1, 0),
        KeyCode::Left => (2, 0),
        KeyCode::Right => (3, 0),
        KeyCode::Up => (4, 0),
        KeyCode::Down => (5, 0),
        KeyCode::Home => (6, 0),
        KeyCode::End => (7, 0),
        KeyCode::PageUp => (8, 0),
        KeyCode::PageDown => (9, 0),
        KeyCode::Tab => (10, 0),
        KeyCode::BackTab => (11, 0),
        KeyCode::Delete => (12, 0),
        KeyCode::Insert => (13, 0),
        KeyCode::F(n) => (14, n as int),
        KeyCode::Char(c) => (15, c as int),
        KeyCode::Null => (16, 0),
        KeyCode::Esc => (17, 0),
        KeyCode::CapsLock => (18, 0),
        KeyCode::ScrollLock => (19, 0),
        KeyCode::NumLock => (20, 0),
        KeyCode::PrintScreen => (21, 0),
        KeyCode::Pause => (22, 0),
        KeyCode::Menu => (23, 0),
        KeyCode::KeypadBegin => (24, 0),
        KeyCode::Media(n) => (25, n as int),
        KeyCode::Modifier(n) => (26, n as int),
    }
}

spec fn bit(b: bool) -> int {
    if b {
        1
    } else {
        0
    }
}

spec fn modifier_number(m: KeyModifiers) -> int {
    bit(m.shift) + 2 * bit(m.control) + 4 * bit(m.alt) + 8 * bit(m.super_key) + 16 * bit(m.hyper)
        + 32 * bit(m.meta)
}

spec fn kind_number(k: KeyEventKind) -> int {
    match k {
        KeyEventKind::Press => 0,
        KeyEventKind::Repeat => 1,
        KeyEventKind::Release => 2,
    }
}

spec fn event_number(k: KeyEvent) -> int {
    let (tag, payload) = code_parts(k.code);
    (((tag * 2097152 + payload) * 64 + modifier_number(k.modifiers)) * 4 + kind_number(k.kind))
        * 256 + k.state
}

/// The number under which a key event is indexed: equal for events that are the
/// same key, and only for those.
pub closed spec fn key_number(k: KeyEvent) -> u64 {
    event_number(case_normal(k)) as u64
}

proof fn lemma_modifier_number(a: KeyModifiers, b: KeyModifiers)
    ensures
        0 <= modifier_number(a) < 64,
        modifier_number(a) == modifier_number(b) ==> a == b,
{
}

proof fn lemma_event_number(a: KeyEvent, b: KeyEvent)
    ensures
        0 <= event_number(a) < 27 * 2097152 * 64 * 4 * 256,
        event_number(a) == event_number(b) ==> a == b,
{
    lemma_modifier_number(a.modifiers, b.modifiers);
    lemma_modifier_number(b.modifiers, a.modifiers);
    let (ta, pa) = code_parts(a.code);
    let (tb, pb) = code_parts(b.code);
    assert(0 <= ta < 27 && 0 <= pa < 2097152);
    assert(0 <= tb < 27 && 0 <= pb < 2097152);
    if event_number(a) == event_number(b) {
        assert(a.state == b.state);
        assert(kind_number(a.kind) == kind_number(b.kind));
        assert(modifier_number(a.modifiers) == modifier_number(b.modifiers));
        assert(pa == pb && ta == tb);
        assert(a.code == b.code);
    }
}

/// Two events have the same number exactly when they are the same key.
pub proof fn lemma_key_number(a: KeyEvent, b: KeyEvent)
    ensures
        (key_number(a) == key_number(b)) == same_key(a, b),
{
    lemma_event_number(case_normal(a), case_normal(b));
    lemma_event_number(case_normal(b), case_normal(a));
}

/// The position of a key among the kinds of keys, and its payload.
fn parts_of(code: KeyCode) -> (r: (u64, u64))
    ensures
        (r.0 as int, r.1 as int) == code_parts(code),
        r.0 < 27,
        r.1 < 2097152,
{
    match code {
        KeyCode::Backspace => (0, 0),
        KeyCode::Enter => (1, 0),
        KeyCode::Left => (2, 0),
        KeyCode::Right => (3, 0),
        KeyCode::Up => (4, 0),
        KeyCode::Down => (5, 0),
        KeyCode::Home => (6, 0),
        KeyCode::End => (7, 0),
        KeyCode::PageUp => (8, 0),
        KeyCode::PageDown => (9, 0),
        KeyCode::Tab => (10, 0),
        KeyCode::BackTab => (11, 0),
        KeyCode::Delete => (12, 0),
        KeyCode::Insert => (13, 0),
        KeyCode::F(n) => (14, n as u64),
        KeyCode::Char(c) => (15, c as u64),
        KeyCode::Null => (16, 0),
        KeyCode::Esc => (17, 0),
        KeyCode::CapsLock => (18, 0),
        KeyCode::ScrollLock => (19, 0),
        KeyCode::NumLock => (20, 0),
        KeyCode::PrintScreen => (21, 0),
        KeyCode::Pause => (22, 0),
        KeyCode::Menu => (23, 0),
        KeyCode::KeypadBegin => (24, 0),
        KeyCode::Media(n) => (25, n as u64),
        KeyCode::Modifier(n) => (26, n as u64),
    }
}

fn bits_of(m: KeyModifiers) -> (r: u64)
    ensures
        r == modifier_number(m),
        r < 64,
{
    (if m.shift { 1u64 } else { 0u64 }) + (if m.control { 2u64 } else { 0u64 }) + (if m.alt {
        4u64
    } else {
        0u64
    }) + (if m.super_key { 8u64 } else { 0u64 }) + (if m.hyper { 16u64 } else { 0u64 }) + (if m.meta {
        32u64
    } else {
        0u64
    })
}

/// The number under which a key event is indexed.
pub fn number_of_key(key: &KeyEvent) -> (r: u64)
    ensures
        r == key_number(*key),
{
    let k = normalize_case(*key);
    let (tag, payload): (u64, u64) = parts_of(k.code);
    let bits: u64 = bits_of(k.modifiers);
    let kind: u64 = match k.kind {
        KeyEventKind::Press => 0,
        KeyEventKind::Repeat => 1,
        KeyEventKind::Release => 2,
    };
    (((tag * 2097152 + payload) * 64 + bits) * 4 + kind) * 256 + k.state as u64
}

/// The numbers of a key sequence.
pub open spec fn sequence_numbers(keys: Seq<KeyEvent>) -> Seq<u64> {
    keys.map_values(|k: KeyEvent| key_number(k))
}

/// Two sequences are the same keys in the same order.
pub open spec fn same_keys(a: Seq<KeyEvent>, b: Seq<KeyEvent>) -> bool {
    a.len() == b.len() && forall|i: int| 0 <= i < a.len() ==> same_key(#[trigger] a[i], b[i])
}

/// `a` starts with the keys of `b`.
pub open spec fn starts_with_keys(a: Seq<KeyEvent>, b: Seq<KeyEvent>) -> bool {
    a.len() >= b.len() && forall|i: int| 0 <= i < b.len() ==> same_key(a[i], #[trigger] b[i])
}

proof fn lemma_sequence_numbers(a: Seq<KeyEvent>, b: Seq<KeyEvent>)
    ensures
        (sequence_numbers(a) == sequence_numbers(b)) == same_keys(a, b),
{
    let x = sequence_numbers(a);
    let y = sequence_numbers(b);
    if x == y {
        assert(a.len() == x.len() && b.len() == y.len());
        assert forall|i: int| 0 <= i < a.len() implies same_key(#[trigger] a[i], b[i]) by {
            assert(x[i] == key_number(a[i]));
            assert(y[i] == key_number(b[i]));
            lemma_key_number(a[i], b[i]);
        }
    }
    if same_keys(a, b) {
        assert forall|i: int| 0 <= i < a.len() implies x[i] == y[i] by {
            assert(same_key(a[i], b[i]));
            lemma_key_number(a[i], b[i]);
        }
        assert(x =~= y);
    }
}

/// The numbers of a key sequence.
fn numbers_of(keys: &Vec<KeyEvent>) -> (r: Vec<u64>)
    ensures
        r@ == sequence_numbers(keys@),
{
    let mut out: Vec<u64> = Vec::new();
    let mut i: usize = 0;
    while i < keys.len()
        invariant
            i <= keys@.len(),
            out@ == sequence_numbers(keys@.take(i as int)),
        decreases keys@.len() - i,
    {
        out.push(number_of_key(&keys[i]));
        proof {
            assert(sequence_numbers(keys@.take(i + 1)) =~= sequence_numbers(
                keys@.take(i as int),
            ).push(key_number(keys@[i as int])));
        }
        i = i + 1;
    }
    proof {
        assert(keys@.take(keys@.len() as int) =~= keys@);
    }
    out
}

/// A copy of a key sequence.
pub fn copy_keys(keys: &Vec<KeyEvent>) -> (r: Vec<KeyEvent>)
    ensures
        r@ == keys@,
{
    let mut out: Vec<KeyEvent> = Vec::new();
    let mut i: usize = 0;
    while i < keys.len()
        invariant
            i <= keys@.len(),
            out@ == keys@.take(i as int),
        decreases keys@.len() - i,
    {
        out.push(keys[i]);
        proof {
            assert(keys@.take(i as int).push(keys@[i as int]) =~= keys@.take(i + 1));
        }
        i = i + 1;
    }
    proof {
        assert(keys@.take(keys@.len() as int) =~= keys@);
    }
    out
}

// ── The keymap ──────────────────────────────────────────────────────────────

/// Where a key sequence stands among the entries of a keymap.
pub open spec fn position<V>(m: Seq<(Seq<KeyEvent>, V)>, keys: Seq<KeyEvent>) -> Option<int>
    decreases m.len(),
{
    if m.len() == 0 {
        None
    } else if same_keys(m.last().0, keys) {
        Some(m.len() - 1)
    } else {
        position(m.drop_last(), keys)
    }
}

/// What a key sequence is bound to.
pub open spec fn lookup<V>(m: Seq<(Seq<KeyEvent>, V)>, keys: Seq<KeyEvent>) -> Option<V> {
    match position(m, keys) {
        Some(i) => Some(m[i].1),
        None => None,
    }
}

/// The entries once `keys` is bound to `v`: a bound sequence keeps its place.
pub open spec fn bound<V>(m: Seq<(Seq<KeyEvent>, V)>, keys: Seq<KeyEvent>, v: V) -> Seq<
    (Seq<KeyEvent>, V),
> {
    match position(m, keys) {
        Some(i) => m.update(i, (m[i].0, v)),
        None => m.push((keys, v)),
    }
}

/// No key sequence is bound twice.
pub open spec fn distinct<V>(m: Seq<(Seq<KeyEvent>, V)>) -> bool {
    forall|i: int, j: int|
        0 <= i < j < m.len() ==> !same_keys(#[trigger] m[i].0, #[trigger] m[j].0)
}

/// Whether `keys` is the start of a bound sequence.
pub open spec fn is_prefix<V>(m: Seq<(Seq<KeyEvent>, V)>, keys: Seq<KeyEvent>) -> bool {
    exists|i: int| 0 <= i < m.len() && starts_with_keys(#[trigger] m[i].0, keys)
}

/// The position is that of an entry, and there is one if any entry matches.
pub proof fn lemma_position<V>(m: Seq<(Seq<KeyEvent>, V)>, keys: Seq<KeyEvent>)
    ensures
        match position(m, keys) {
            Some(i) => 0 <= i < m.len() && same_keys(m[i].0, keys),
            None => forall|i: int| 0 <= i < m.len() ==> !same_keys(#[trigger] m[i].0, keys),
        },
    decreases m.len(),
{
    if m.len() > 0 && !same_keys(m.last().0, keys) {
        lemma_position(m.drop_last(), keys);
        match position(m, keys) {
            Some(i) => {
                assert(m.drop_last()[i] == m[i]);
            },
            None => {
                assert forall|i: int| 0 <= i < m.len() implies !same_keys(
                    #[trigger] m[i].0,
                    keys,
                ) by {
                    if i < m.len() - 1 {
                        assert(m.drop_last()[i] == m[i]);
                    }
                }
            },
        }
    }
}

proof fn lemma_same_keys_trans(a: Seq<KeyEvent>, b: Seq<KeyEvent>, c: Seq<KeyEvent>)
    requires
        same_keys(a, b),
        same_keys(c, b),
    ensures
        same_keys(a, c),
        same_keys(c, a),
{
    assert forall|i: int| 0 <= i < a.len() implies same_key(#[trigger] a[i], c[i]) by {
        assert(same_key(c[i], b[i]));
    }
    assert forall|i: int| 0 <= i < c.len() implies same_key(#[trigger] c[i], a[i]) by {
        assert(same_key(a[i], b[i]));
    }
}

/// In a keymap without duplicates, a matching entry is the position.
pub proof fn lemma_position_unique<V>(m: Seq<(Seq<KeyEvent>, V)>, keys: Seq<KeyEvent>, i: int)
    requires
        distinct(m),
        0 <= i < m.len(),
        same_keys(m[i].0, keys),
    ensures
        position(m, keys) == Some(i),
{
    lemma_position(m, keys);
    let p = position(m, keys)->0;
    lemma_same_keys_trans(m[i].0, keys, m[p].0);
    if p < i {
        assert(!same_keys(m[p].0, m[i].0));
    } else if i < p {
        assert(!same_keys(m[i].0, m[p].0));
    }
}

/// An ordered map from key sequences to commands.
pub struct KeyMap<V> {
    index: IndexMap<Vec<u64>, usize>,
    entries: Vec<(Vec<KeyEvent>, V)>,
}

impl<V> View for KeyMap<V> {
    type V = Seq<(Seq<KeyEvent>, V)>;

    closed spec fn view(&self) -> Seq<(Seq<KeyEvent>, V)> {
        Seq::new(self.entries@.len(), |i: int| (self.entries@[i].0@, self.entries@[i].1))
    }
}

impl<V> KeyMap<V> {
    /// The index and the entries agree, and no sequence is bound twice.
    pub closed spec fn wf(&self) -> bool {
        let ix = index_entries(self.index);
        &&& ix.len() == self.entries@.len()
        &&& forall|i: int|
            0 <= i < ix.len() ==> #[trigger] ix[i] == (
                sequence_numbers(self.entries@[i].0@),
                i as usize,
            )
        &&& distinct(self@)
    }

    /// A valid keymap binds no sequence twice.
    pub proof fn lemma_distinct(&self)
        requires
            self.wf(),
        ensures
            distinct(self@),
    {
    }

    /// A keymap without bindings.
    pub fn new() -> (r: KeyMap<V>)
        ensures
            r.wf(),
            r@ == Seq::<(Seq<KeyEvent>, V)>::empty(),
    {
        let r = KeyMap { index: index_new(), entries: Vec::new() };
        proof {
            assert(r@ =~= Seq::<(Seq<KeyEvent>, V)>::empty());
        }
        r
    }

    /// The number of bindings.
    pub fn len(&self) -> (r: usize)
        ensures
            r == self@.len(),
    {
        self.entries.len()
    }

    /// The key sequence of the binding at `i`.
    pub fn keys_at(&self, i: usize) -> (r: &Vec<KeyEvent>)
        requires
            i < self@.len(),
        ensures
            r@ == self@[i as int].0,
    {
        &self.entries[i].0
    }

    /// The command of the binding at `i`.
    pub fn value_at(&self, i: usize) -> (r: &V)
        requires
            i < self@.len(),
        ensures
            *r == self@[i as int].1,
    {
        &self.entries[i].1
    }

    /// The position at which a sequence is bound.
    pub fn position_of(&self, keys: &Vec<KeyEvent>) -> (r: Option<usize>)
        requires
            self.wf(),
        ensures
            match r {
                Some(i) => i < self@.len() && position(self@, keys@) == Some(i as int),
                None => position(self@, keys@) is None,
            },
    {
        let nums = numbers_of(keys);
        let r = index_get(&self.index, &nums);
        proof {
            let ix = index_entries(self.index);
            lemma_position(self@, keys@);
            match r {
                Some(v) => {
                    let i = choose|i: int| 0 <= i < ix.len() && #[trigger] ix[i] == (nums@, v);
                    lemma_sequence_numbers(self@[i].0, keys@);
                    lemma_position_unique(self@, keys@, i);
                    assert(self.entries.len() == ix.len());
                    assert(i as usize == v);
                },
                None => {
                    if let Some(p) = position(self@, keys@) {
                        lemma_sequence_numbers(self@[p].0, keys@);
                        assert(ix[p].0 == nums@);
                    }
                },
            }
        }
        r
    }

    /// What a sequence is bound to.
    pub fn get(&self, keys: &Vec<KeyEvent>) -> (r: Option<&V>)
        requires
            self.wf(),
        ensures
            match r {
                Some(v) => lookup(self@, keys@) == Some(*v),
                None => lookup(self@, keys@) is None,
            },
    {
        match self.position_of(keys) {
            Some(i) => Some(&self.entries[i].1),
            None => None,
        }
    }

    /// Binds a sequence; one that is bound already keeps its place.
    pub fn insert(&mut self, keys: Vec<KeyEvent>, value: V)
        requires
            old(self).wf(),
        ensures
            final(self).wf(),
            final(self)@ == bound(old(self)@, keys@, value),
    {
        let ghost before = self@;
        proof {
            lemma_position(self@, keys@);
        }
        match self.position_of(&keys) {
            Some(i) => {
                let ghost ents = self.entries@;
                let kept = copy_keys(&self.entries[i].0);
                self.entries.set(i, (kept, value));
                proof {
                    assert(self@ =~= before.update(i as int, (before[i as int].0, value)));
                    assert forall|a: int, b: int| 0 <= a < b < self@.len() implies !same_keys(
                        #[trigger] self@[a].0,
                        #[trigger] self@[b].0,
                    ) by {
                        assert(self@[a].0 == before[a].0);
                        assert(self@[b].0 == before[b].0);
                    }
                }
            },
            None => {
                let nums = numbers_of(&keys);
                let n: usize = self.entries.len();
                let ghost ks = keys@;
                proof {
                    let ix = index_entries(self.index);
                    assert forall|i: int| 0 <= i < ix.len() implies #[trigger] ix[i].0 != nums@ by {
                        lemma_sequence_numbers(before[i].0, ks);
                        assert(!same_keys(before[i].0, ks));
                        assert(ix[i] == (sequence_numbers(before[i].0), i as usize));
                    }
                }
                index_insert(&mut self.index, nums, n);
                self.entries.push((keys, value));
                proof {
                    assert(self@ =~= before.push((ks, value)));
                    assert forall|a: int, b: int| 0 <= a < b < self@.len() implies !same_keys(
                        #[trigger] self@[a].0,
                        #[trigger] self@[b].0,
                    ) by {
                        assert(self@[a].0 == before[a].0);
                        if b < before.len() {
                            assert(self@[b].0 == before[b].0);
                        }
                    }
                }
            },
        }
    }

    /// Whether `keys` is the start of a bound sequence.
    pub fn has_prefix(&self, keys: &Vec<KeyEvent>) -> (r: bool)
        ensures
            r == is_prefix(self@, keys@),
    {
        let mut i: usize = 0;
        while i < self.entries.len()
            invariant
                i <= self@.len(),
                self@.len() == self.entries@.len(),
                forall|j: int| 0 <= j < i ==> !starts_with_keys(#[trigger] self@[j].0, keys@),
            decreases self@.len() - i,
        {
            if begins(&self.entries[i].0, keys) {
                proof {
                    assert(starts_with_keys(self@[i as int].0, keys@));
                }
                return true;
            }
            i = i + 1;
        }
        false
    }
}

/// Whether `a` starts with the keys of `b`.
fn begins(a: &Vec<KeyEvent>, b: &Vec<KeyEvent>) -> (r: bool)
    ensures
        r == starts_with_keys(a@, b@),
{
    if a.len() < b.len() {
        return false;
    }
    let mut i: usize = 0;
    while i < b.len()
        invariant
            i <= b@.len() <= a@.len(),
            forall|j: int| 0 <= j < i ==> same_key(a@[j], #[trigger] b@[j]),
        decreases b@.len() - i,
    {
        if normalize_case(a[i]) != normalize_case(b[i]) {
            return false;
        }
        i = i + 1;
    }
    true
}

// ── Resolution ──────────────────────────────────────────────────────────────

/// What a key does to a surface with bindings `m` and buffered keys `pending`:
/// the command that it completes, and the keys that stay buffered.
pub open spec fn resolved<V>(
    m: Seq<(Seq<KeyEvent>, V)>,
    pending: Seq<KeyEvent>,
    key: KeyEvent,
) -> (Option<V>, Seq<KeyEvent>) {
    let k = normalized(key);
    let none = Seq::<KeyEvent>::empty();
    match lookup(m, seq![k]) {
        Some(v) => (Some(v), none),
        None => {
            let p = pending.push(k);
            match lookup(m, p) {
                Some(v) => (Some(v), none),
                None => (
                    None,
                    if is_prefix(m, p) {
                        p
                    } else {
                        none
                    },
                ),
            }
        },
    }
}

/// Resolves a key against a keymap. A single-key binding fires at once; a miss is
/// buffered and tried as a sequence; the buffer empties itself once no binding
/// starts with it.
pub fn resolve<'a, V>(keymap: &'a KeyMap<V>, pending: &mut Vec<KeyEvent>, key: KeyEvent) -> (r:
    Option<&'a V>)
    requires
        keymap.wf(),
    ensures
        (match r {
            Some(v) => Some(*v),
            None => None,
        }, final(pending)@) == resolved(keymap@, old(pending)@, key),
{
    let k = normalize_key(key);
    let mut single: Vec<KeyEvent> = Vec::new();
    single.push(k);
    proof {
        assert(single@ =~= seq![k]);
    }
    if let Some(v) = keymap.get(&single) {
        pending.clear();
        proof {
            assert(pending@ =~= Seq::<KeyEvent>::empty());
        }
        return Some(v);
    }
    pending.push(k);
    if let Some(v) = keymap.get(&*pending) {
        pending.clear();
        proof {
            assert(pending@ =~= Seq::<KeyEvent>::empty());
        }
        return Some(v);
    }
    if !keymap.has_prefix(&*pending) {
        pending.clear();
        proof {
            assert(pending@ =~= Seq::<KeyEvent>::empty());
        }
    }
    None
}

/// After any key the buffer is empty or the start of some binding: a stray key
/// never wedges it.
pub proof fn law_buffer_never_wedges<V>(
    m: Seq<(Seq<KeyEvent>, V)>,
    pending: Seq<KeyEvent>,
    key: KeyEvent,
)
    ensures
        resolved(m, pending, key).1.len() == 0 || is_prefix(m, resolved(m, pending, key).1),
        resolved(m, pending, key).0 is Some ==> resolved(m, pending, key).1.len() == 0,
{
}

/// A bound single key fires whatever is buffered.
pub proof fn law_single_key_fires<V>(
    m: Seq<(Seq<KeyEvent>, V)>,
    pending: Seq<KeyEvent>,
    key: KeyEvent,
    v: V,
)
    requires
        lookup(m, seq![normalized(key)]) == Some(v),
    ensures
        resolved(m, pending, key) == (Some(v), Seq::<KeyEvent>::empty()),
{
}

/// Binding a sequence makes it resolve to that command and leaves every other
/// sequence as it was.
pub proof fn law_bound_then_lookup<V>(
    m: Seq<(Seq<KeyEvent>, V)>,
    keys: Seq<KeyEvent>,
    v: V,
    other: Seq<KeyEvent>,
)
    requires
        distinct(m),
    ensures
        distinct(bound(m, keys, v)),
        lookup(bound(m, keys, v), keys) == Some(v),
        !same_keys(keys, other) && !same_keys(other, keys) ==> lookup(bound(m, keys, v), other)
            == lookup(m, other),
{
    let n = bound(m, keys, v);
    lemma_position(m, keys);
    lemma_position(m, other);
    lemma_position(n, other);
    assert(same_keys(keys, keys));
    assert forall|i: int, j: int| 0 <= i < j < n.len() implies !same_keys(
        #[trigger] n[i].0,
        #[trigger] n[j].0,
    ) by {
        if j < m.len() {
            assert(n[i].0 == m[i].0 && n[j].0 == m[j].0);
        } else {
            assert(n[i].0 == m[i].0);
        }
    }
    match position(m, keys) {
        Some(i) => {
            lemma_position_unique(n, keys, i);
        },
        None => {
            lemma_position_unique(n, keys, m.len() as int);
        },
    }
    if !same_keys(keys, other) && !same_keys(other, keys) {
        match position(n, other) {
            Some(i) => {
                if i < m.len() {
                    assert(n[i].0 == m[i].0);
                    lemma_position_unique(m, other, i);
                    if position(m, keys) == Some(i) {
                        lemma_same_keys_trans_right(m[i].0, keys, other);
                    }
                }
            },
            None => {
                if let Some(i) = position(m, other) {
                    assert(n[i].0 == m[i].0);
                }
            },
        }
    }
}

proof fn lemma_same_keys_trans_right(a: Seq<KeyEvent>, b: Seq<KeyEvent>, c: Seq<KeyEvent>)
    requires
        same_keys(a, b),
        same_keys(a, c),
    ensures
        same_keys(b, c),
{
    assert forall|i: int| 0 <= i < b.len() implies same_key(#[trigger] b[i], c[i]) by {
        assert(same_key(a[i], b[i]));
        assert(same_key(a[i], c[i]));
    }
}

// ── Commands ────────────────────────────────────────────────────────────────

/// A command that a keybinding can name.
pub trait Verb: Sized {
    /// The command with this name.
    spec fn named(name: Seq<char>) -> Option<Self>;

    /// Reads a command name.
    fn parse(name: &str) -> (r: Option<Self>)
        ensures
            r == Self::named(name@),
    ;
}

/// A command that can be told apart from another.
pub trait SameVerb: Sized {
    /// Whether two commands are the same.
    fn is(&self, other: &Self) -> (r: bool)
        ensures
            r == (*self == *other),
    ;
}

/// Reads a command name as a verb of one surface.
pub fn parse_command<V: Verb>(cmd: &str) -> (r: Option<V>)
    ensures
        r == V::named(cmd@),
{
    V::parse(cmd)
}

/// A keybinding's value: the command that it triggers, and whether the footer
/// lists it. A bare name is never listed.
#[derive(Debug, PartialEq, Eq)]
pub enum CommandSpec {
    Bare(String),
    Full { command: String, show: bool },
}

impl CommandSpec {
    /// The command name.
    pub open spec fn name(&self) -> Seq<char> {
        match self {
            CommandSpec::Bare(s) => s@,
            CommandSpec::Full { command, .. } => command@,
        }
    }

    /// Whether the footer lists the binding.
    pub open spec fn shown(&self) -> bool {
        match self {
            CommandSpec::Bare(_) => false,
            CommandSpec::Full { show, .. } => *show,
        }
    }

    /// The command name.
    pub fn command(&self) -> (r: &str)
        ensures
            r@ == self.name(),
    {
        match self {
            CommandSpec::Bare(s) => s.as_str(),
            CommandSpec::Full { command, .. } => command.as_str(),
        }
    }

    /// Whether the footer lists the binding.
    pub fn show(&self) -> (r: bool)
        ensures
            r == self.shown(),
    {
        match self {
            CommandSpec::Bare(_) => false,
            CommandSpec::Full { show, .. } => *show,
        }
    }

    /// A copy of the value.
    pub fn copy(&self) -> (r: CommandSpec)
        ensures
            r == *self,
    {
        match self {
            CommandSpec::Bare(s) => CommandSpec::Bare(s.clone()),
            CommandSpec::Full { command, show } => CommandSpec::Full {
                command: command.clone(),
                show: *show,
            },
        }
    }
}

/// A command name with a space for every underscore.
pub open spec fn label_of(name: Seq<char>) -> Seq<char> {
    name.map_values(
        |c: char|
            if c == '_' {
                ' '
            } else {
                c
            },
    )
}

/// A readable label for a command name: `toggle_sidebar` becomes `toggle sidebar`.
pub fn command_label(cmd: &str) -> (r: String)
    ensures
        r@ == label_of(cmd@),
{
    let v = crate::text::chars_of(cmd);
    let mut out = String::new();
    let mut i: usize = 0;
    proof {
        assert(out@ =~= label_of(v@.take(0)));
    }
    while i < v.len()
        invariant
            i <= v@.len(),
            v@ == cmd@,
            out@ == label_of(v@.take(i as int)),
        decreases v@.len() - i,
    {
        let c: char = if v[i] == '_' {
            ' '
        } else {
            v[i]
        };
        out.push(c);
        proof {
            assert(label_of(v@.take(i + 1)) =~= label_of(v@.take(i as int)).push(c));
        }
        i = i + 1;
    }
    proof {
        assert(v@.take(v@.len() as int) =~= v@);
    }
    out
}

/// The typed bindings of a surface: those whose command name the surface knows,
/// in order.
pub open spec fn compiled<V: Verb>(raw: Seq<(Seq<KeyEvent>, CommandSpec)>) -> Seq<
    (Seq<KeyEvent>, V),
>
    decreases raw.len(),
{
    if raw.len() == 0 {
        Seq::empty()
    } else {
        match V::named(raw.last().1.name()) {
            Some(v) => compiled::<V>(raw.drop_last()).push((raw.last().0, v)),
            None => compiled::<V>(raw.drop_last()),
        }
    }
}

/// Each compiled binding comes from a raw one with the same keys.
proof fn lemma_compiled_keys<V: Verb>(raw: Seq<(Seq<KeyEvent>, CommandSpec)>)
    ensures
        forall|j: int|
            0 <= j < compiled::<V>(raw).len() ==> exists|i: int|
                0 <= i < raw.len() && #[trigger] raw[i].0 == (#[trigger] compiled::<V>(raw)[j]).0,
    decreases raw.len(),
{
    if raw.len() > 0 {
        let init = raw.drop_last();
        lemma_compiled_keys::<V>(init);
        let out = compiled::<V>(raw);
        assert forall|j: int| 0 <= j < out.len() implies exists|i: int|
            0 <= i < raw.len() && #[trigger] raw[i].0 == (#[trigger] out[j]).0 by {
            if j < compiled::<V>(init).len() {
                assert(out[j] == compiled::<V>(init)[j]);
                let i = choose|i: int|
                    0 <= i < init.len() && #[trigger] init[i].0 == compiled::<V>(init)[j].0;
                assert(raw[i].0 == out[j].0);
            } else {
                assert(raw[raw.len() - 1].0 == out[j].0);
            }
        }
    }
}

/// Compiles raw bindings once; a name that the surface does not know is skipped,
/// so that one typo cannot break the rest.
pub fn compile_keymap<V: Verb>(raw: Option<&KeyMap<CommandSpec>>) -> (r: KeyMap<V>)
    requires
        raw matches Some(m) ==> m.wf(),
    ensures
        r.wf(),
        r@ == (match raw {
            Some(m) => compiled::<V>(m@),
            None => Seq::empty(),
        }),
{
    let mut out: KeyMap<V> = KeyMap::new();
    match raw {
        None => {},
        Some(m) => {
            let mut i: usize = 0;
            proof {
                assert(m@.take(0) =~= Seq::<(Seq<KeyEvent>, CommandSpec)>::empty());
                m.lemma_distinct();
            }
            while i < m.len()
                invariant
                    i <= m@.len(),
                    m.wf(),
                    distinct(m@),
                    out.wf(),
                    out@ == compiled::<V>(m@.take(i as int)),
                decreases m@.len() - i,
            {
                proof {
                    assert(m@.take(i + 1).drop_last() =~= m@.take(i as int));
                    assert(m@.take(i + 1).last() == m@[i as int]);
                }
                if let Some(v) = V::parse(m.value_at(i).command()) {
                    let ks = copy_keys(m.keys_at(i));
                    proof {
                        let before = m@.take(i as int);
                        lemma_position(out@, ks@);
                        lemma_compiled_keys::<V>(before);
                        if let Some(p) = position(out@, ks@) {
                            let q = choose|q: int|
                                0 <= q < before.len() && #[trigger] before[q].0 == out@[p].0;
                            assert(m@[q].0 == out@[p].0);
                            assert(!same_keys(m@[q].0, m@[i as int].0));
                        }
                    }
                    out.insert(ks, v);
                }
                i = i + 1;
            }
            proof {
                assert(m@.take(m@.len() as int) =~= m@);
            }
        },
    }
    out
}

// ── Hints ───────────────────────────────────────────────────────────────────

/// The texts of the sequences bound to `verb`, in order.
pub open spec fn key_texts<V>(m: Seq<(Seq<KeyEvent>, V)>, verb: V) -> Seq<Seq<char>>
    decreases m.len(),
{
    if m.len() == 0 {
        Seq::empty()
    } else if m.last().1 == verb {
        key_texts(m.drop_last(), verb).push(sequence_text(m.last().0))
    } else {
        key_texts(m.drop_last(), verb)
    }
}

/// The text of every sequence bound to `verb`.
fn collect_keys<V: SameVerb>(keymap: &KeyMap<V>, verb: &V) -> (r: Vec<String>)
    ensures
        texts(r@) == key_texts(keymap@, *verb),
{
    let mut out: Vec<String> = Vec::new();
    let mut i: usize = 0;
    proof {
        assert(keymap@.take(0) =~= Seq::<(Seq<KeyEvent>, V)>::empty());
        assert(texts(out@) =~= Seq::<Seq<char>>::empty());
    }
    while i < keymap.len()
        invariant
            i <= keymap@.len(),
            texts(out@) == key_texts(keymap@.take(i as int), *verb),
        decreases keymap@.len() - i,
    {
        proof {
            assert(keymap@.take(i + 1).drop_last() =~= keymap@.take(i as int));
            assert(keymap@.take(i + 1).last() == keymap@[i as int]);
        }
        if keymap.value_at(i).is(verb) {
            let ghost before = out@;
            let t = key_sequence_to_string(keymap.keys_at(i));
            out.push(t);
            proof {
                assert(texts(out@) =~= texts(before).push(t@));
            }
        }
        i = i + 1;
    }
    proof {
        assert(keymap@.take(keymap@.len() as int) =~= keymap@);
    }
    out
}

/// The meaning of an optional text.
pub open spec fn opt_text(s: Option<String>) -> Option<Seq<char>> {
    match s {
        Some(t) => Some(t@),
        None => None,
    }
}

/// The first sequence bound to `verb`, as a text; `None` where it is unbound.
pub fn first_key_for<V: SameVerb>(keymap: &KeyMap<V>, verb: &V) -> (r: Option<String>)
    ensures
        opt_text(r) == (if key_texts(keymap@, *verb).len() > 0 {
            Some(key_texts(keymap@, *verb)[0])
        } else {
            None
        }),
{
    let mut keys = collect_keys(keymap, verb);
    if keys.len() > 0 {
        let k = keys.swap_remove(0);
        Some(k)
    } else {
        None
    }
}

/// Every sequence bound to `verb`, joined by `/`; `None` where it is unbound.
pub fn all_keys_for<V: SameVerb>(keymap: &KeyMap<V>, verb: &V) -> (r: Option<String>)
    ensures
        opt_text(r) == (if key_texts(keymap@, *verb).len() > 0 {
            Some(joined_with(key_texts(keymap@, *verb), "/"@))
        } else {
            None
        }),
{
    let keys = collect_keys(keymap, verb);
    if keys.len() > 0 {
        Some(join(&keys, "/"))
    } else {
        None
    }
}

// ── Texts by position ───────────────────────────────────────────────────────

/// The numbers of a text's characters.
pub open spec fn text_numbers(s: Seq<char>) -> Seq<u64> {
    s.map_values(|c: char| c as u64)
}

proof fn lemma_char_number(a: char, b: char)
    ensures
        (a as u64 == b as u64) == (a == b),
{
    assert(a as u64 as int == a as int);
    assert(b as u64 as int == b as int);
}

proof fn lemma_text_numbers(a: Seq<char>, b: Seq<char>)
    ensures
        (text_numbers(a) == text_numbers(b)) == (a == b),
{
    if text_numbers(a) == text_numbers(b) {
        assert(a.len() == text_numbers(a).len());
        assert(b.len() == text_numbers(b).len());
        assert forall|i: int| 0 <= i < a.len() implies a[i] == b[i] by {
            assert(text_numbers(a)[i] == a[i] as u64);
            assert(text_numbers(b)[i] == b[i] as u64);
            lemma_char_number(a[i], b[i]);
        }
        assert(a =~= b);
    }
}

fn numbers_of_text(s: &str) -> (r: Vec<u64>)
    ensures
        r@ == text_numbers(s@),
{
    let v = crate::text::chars_of(s);
    let mut out: Vec<u64> = Vec::new();
    let mut i: usize = 0;
    while i < v.len()
        invariant
            i <= v@.len(),
            v@ == s@,
            out@ == text_numbers(v@.take(i as int)),
        decreases v@.len() - i,
    {
        out.push(v[i] as u64);
        proof {
            assert(text_numbers(v@.take(i + 1)) =~= text_numbers(v@.take(i as int)).push(
                v@[i as int] as u64,
            ));
        }
        i = i + 1;
    }
    proof {
        assert(v@.take(v@.len() as int) =~= v@);
    }
    out
}

/// Texts in the order in which they were added, none of them twice.
pub struct TextIndex {
    index: IndexMap<Vec<u64>, usize>,
    names: Vec<String>,
}

impl View for TextIndex {
    type V = Seq<Seq<char>>;

    closed spec fn view(&self) -> Seq<Seq<char>> {
        texts(self.names@)
    }
}

/// Where a text stands among others; none of them stands twice.
pub open spec fn text_position(names: Seq<Seq<char>>, name: Seq<char>) -> Option<int> {
    if names.contains(name) {
        Some(names.index_of(name))
    } else {
        None
    }
}

impl TextIndex {
    /// The index and the texts agree, and no text stands twice.
    pub closed spec fn wf(&self) -> bool {
        let ix = index_entries(self.index);
        &&& ix.len() == self.names@.len()
        &&& forall|i: int|
            0 <= i < ix.len() ==> #[trigger] ix[i] == (text_numbers(self.names@[i]@), i as usize)
        &&& self@.no_duplicates()
    }

    /// No texts.
    pub fn new() -> (r: TextIndex)
        ensures
            r.wf(),
            r@ == Seq::<Seq<char>>::empty(),
    {
        let r = TextIndex { index: index_new(), names: Vec::new() };
        proof {
            assert(r@ =~= Seq::<Seq<char>>::empty());
        }
        r
    }

    /// Where a text stands, if it does.
    pub fn find(&self, name: &str) -> (r: Option<usize>)
        requires
            self.wf(),
        ensures
            match r {
                Some(i) => i < self@.len() && text_position(self@, name@) == Some(i as int),
                None => text_position(self@, name@) is None,
            },
    {
        let nums = numbers_of_text(name);
        let r = index_get(&self.index, &nums);
        proof {
            let ix = index_entries(self.index);
            match r {
                Some(v) => {
                    let i = choose|i: int| 0 <= i < ix.len() && #[trigger] ix[i] == (nums@, v);
                    lemma_text_numbers(self@[i], name@);
                    assert(self@[i] == name@);
                    assert(self@.contains(name@));
                    assert(self.names.len() == ix.len());
                    let k = self@.index_of(name@);
                    assert(self@[k] == name@);
                    assert(k == i);
                },
                None => {
                    if self@.contains(name@) {
                        let k = self@.index_of(name@);
                        assert(self@[k] == name@);
                        assert(ix[k].0 == nums@);
                    }
                },
            }
        }
        r
    }

    /// A copy of the texts.
    pub fn to_vec(&self) -> (r: Vec<String>)
        ensures
            texts(r@) == self@,
    {
        crate::model::copy_texts(&self.names)
    }

    /// Adds a text that does not stand here yet.
    pub fn add_new(&mut self, name: String)
        requires
            old(self).wf(),
            !old(self)@.contains(name@),
        ensures
            final(self).wf(),
            final(self)@ == old(self)@.push(name@),
    {
        let nums = numbers_of_text(name.as_str());
        let n: usize = self.names.len();
        let ghost before = self@;
        let ghost nm = name@;
        proof {
            let ix = index_entries(self.index);
            assert forall|i: int| 0 <= i < ix.len() implies #[trigger] ix[i].0 != nums@ by {
                lemma_text_numbers(before[i], nm);
                assert(before.contains(before[i]));
                assert(ix[i] == (text_numbers(before[i]), i as usize));
            }
        }
        index_insert(&mut self.index, nums, n);
        self.names.push(name);
        proof {
            assert(self@ =~= before.push(nm));
            assert forall|i: int, j: int| 0 <= i < self@.len() && 0 <= j < self@.len() && i
                != j implies self@[i] != self@[j] by {
                if i == before.len() {
                    assert(before.contains(before[j]));
                } else if j == before.len() {
                    assert(before.contains(before[i]));
                }
            }
        }
    }
}

} // verus!
