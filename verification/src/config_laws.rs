//! What holds of bindings: what keys resolve to, and what reading and merging bindings gives.
use vstd::prelude::*;

use crate::config::{bindings_of, expanded, filled_surface, law_user_bindings_prevail, RawBindings};
use crate::keymap::{
    compiled, distinct, is_prefix, key_texts, label_of, law_bound_then_lookup, lemma_position,
    lemma_position_unique, lookup, position, resolved, same_keys, CommandSpec, Verb,
};
use crate::keys::{
    event_of, named_code, normalized, parsed_key, parsed_sequence, same_key, sequence_text,
    KeyCode, KeyEvent, KeyModifiers,
};
use crate::text::{lower_ascii, upper_char};

verus! {

// ── Keys ────────────────────────────────────────────────────────────────────

/// A capital is the letter with Shift, whether Shift is told or not; a letter without Shift is
/// another key than its capital, and a key that types nothing is the same only as itself.
pub proof fn law_capital_is_letter_with_shift(a: KeyEvent, b: KeyEvent, c: char)
    requires
        'a' <= c && c <= 'z',
        a.kind == b.kind && a.state == b.state,
        !a.modifiers.shift,
        b.modifiers == (KeyModifiers { shift: true, ..a.modifiers }),
    ensures
        same_key(
            KeyEvent { code: KeyCode::Char(upper_char(c)), ..a },
            KeyEvent { code: KeyCode::Char(c), ..b },
        ),
        same_key(
            KeyEvent { code: KeyCode::Char(upper_char(c)), ..a },
            KeyEvent { code: KeyCode::Char(upper_char(c)), ..b },
        ),
        !same_key(
            KeyEvent { code: KeyCode::Char(upper_char(c)), ..a },
            KeyEvent { code: KeyCode::Char(c), ..a },
        ),
        !(a.code is Char) && !(b.code is Char) ==> same_key(a, b) == (a == b),
{
    assert('A' <= upper_char(c) && upper_char(c) <= 'Z');
}

/// What is bound is found, under its own keys and no others.
pub proof fn law_lookup_finds_the_binding<V>(
    m: Seq<(Seq<KeyEvent>, V)>,
    keys: Seq<KeyEvent>,
    i: int,
)
    requires
        distinct(m),
    ensures
        0 <= i < m.len() && same_keys(m[i].0, keys) ==> lookup(m, keys) == Some(m[i].1),
        (forall|j: int| 0 <= j < m.len() ==> !same_keys(#[trigger] m[j].0, keys)) ==> lookup(
            m,
            keys,
        ) is None,
{
    lemma_position(m, keys);
    if 0 <= i < m.len() && same_keys(m[i].0, keys) {
        lemma_position_unique(m, keys, i);
    }
}

/// Two keys that are bound one behind the other trigger their command when they are typed so,
/// where neither is bound by itself: the first is kept in mind, and the second triggers.
pub proof fn law_two_keys_trigger<V>(m: Seq<(Seq<KeyEvent>, V)>, a: KeyEvent, b: KeyEvent, i: int)
    requires
        distinct(m),
        0 <= i < m.len(),
        m[i].0.len() == 2,
        same_key(m[i].0[0], normalized(a)),
        same_key(m[i].0[1], normalized(b)),
        forall|j: int|
            0 <= j < m.len() && (#[trigger] m[j]).0.len() == 1 ==> !same_key(
                m[j].0[0],
                normalized(a),
            ) && !same_key(m[j].0[0], normalized(b)),
    ensures
        resolved(m, Seq::empty(), a) == (None::<V>, seq![normalized(a)]),
        resolved(m, seq![normalized(a)], b) == (Some(m[i].1), Seq::<KeyEvent>::empty()),
{
    let x = normalized(a);
    let y = normalized(b);
    let none = Seq::<KeyEvent>::empty();
    lemma_position(m, seq![x]);
    lemma_position(m, seq![y]);
    if let Some(p) = position(m, seq![x]) {
        assert(same_key(m[p].0[0], seq![x][0]));
    }
    if let Some(p) = position(m, seq![y]) {
        assert(same_key(m[p].0[0], seq![y][0]));
    }
    assert(none.push(x) =~= seq![x]);
    assert(crate::keymap::starts_with_keys(m[i].0, seq![x]));
    assert(is_prefix(m, seq![x]));
    let both = seq![x].push(y);
    assert forall|j: int| 0 <= j < m[i].0.len() implies same_key(#[trigger] m[i].0[j], both[j]) by {
        assert(j == 0 || j == 1);
    }
    assert(same_keys(m[i].0, both));
    lemma_position_unique(m, both, i);
}

/// A key that starts nothing and goes on nothing triggers nothing, and what was typed before it
/// is forgotten.
pub proof fn law_unbound_key_is_forgotten<V>(
    m: Seq<(Seq<KeyEvent>, V)>,
    pending: Seq<KeyEvent>,
    key: KeyEvent,
)
    requires
        forall|i: int, j: int|
            0 <= i < m.len() && 0 <= j < (#[trigger] m[i]).0.len() ==> !same_key(
                #[trigger] m[i].0[j],
                normalized(key),
            ),
        forall|i: int| 0 <= i < m.len() ==> (#[trigger] m[i]).0.len() > 0,
    ensures
        resolved(m, pending, key) == (None::<V>, Seq::<KeyEvent>::empty()),
{
    let x = normalized(key);
    let p = pending.push(x);
    lemma_position(m, seq![x]);
    lemma_position(m, p);
    if let Some(i) = position(m, seq![x]) {
        assert(same_key(m[i].0[0], seq![x][0]));
    }
    if let Some(i) = position(m, p) {
        let n = pending.len() as int;
        assert(same_key(m[i].0[n], p[n]));
    }
    if is_prefix(m, p) {
        let i = choose|i: int|
            0 <= i < m.len() && crate::keymap::starts_with_keys(#[trigger] m[i].0, p);
        let n = pending.len() as int;
        assert(same_key(m[i].0[n], p[n]));
    }
}

// ── Bindings ────────────────────────────────────────────────────────────────

/// A surface has a binding if and only if the bindings it is compiled from have one with the
/// same keys whose name is that command's; names of other surfaces are left out.
pub proof fn law_compiled_bindings<V: Verb>(
    raw: Seq<(Seq<KeyEvent>, CommandSpec)>,
    keys: Seq<KeyEvent>,
    v: V,
)
    ensures
        compiled::<V>(raw).contains((keys, v)) == exists|i: int|
            0 <= i < raw.len() && (#[trigger] raw[i]).0 == keys && V::named(raw[i].1.name())
                == Some(v),
    decreases raw.len(),
{
    let c = compiled::<V>(raw);
    if raw.len() > 0 {
        let init = raw.drop_last();
        let d = compiled::<V>(init);
        law_compiled_bindings::<V>(init, keys, v);
        if c.contains((keys, v)) {
            let j = choose|j: int| 0 <= j < c.len() && c[j] == (keys, v);
            if j < d.len() {
                assert(d[j] == (keys, v));
                let i = choose|i: int|
                    0 <= i < init.len() && (#[trigger] init[i]).0 == keys && V::named(
                        init[i].1.name(),
                    ) == Some(v);
                assert(raw[i] == init[i]);
            } else {
                assert(raw[raw.len() - 1].0 == keys);
            }
        }
        if exists|i: int|
            0 <= i < raw.len() && (#[trigger] raw[i]).0 == keys && V::named(raw[i].1.name())
                == Some(v) {
            let i = choose|i: int|
                0 <= i < raw.len() && (#[trigger] raw[i]).0 == keys && V::named(raw[i].1.name())
                    == Some(v);
            if i < init.len() {
                assert(init[i] == raw[i]);
                let j = choose|j: int| 0 <= j < d.len() && d[j] == (keys, v);
                assert(c[j] == (keys, v));
            } else {
                assert(c[c.len() - 1] == (keys, v));
            }
        }
    }
}

/// The texts of a command's keys are those of all bindings of that command, in their order.
pub proof fn law_key_texts_are_of_the_command<V>(m: Seq<(Seq<KeyEvent>, V)>, verb: V)
    ensures
        key_texts(m, verb) == m.filter(|e: (Seq<KeyEvent>, V)| e.1 == verb).map_values(
            |e: (Seq<KeyEvent>, V)| sequence_text(e.0),
        ),
    decreases m.len(),
{
    reveal(Seq::filter);
    let f = |e: (Seq<KeyEvent>, V)| e.1 == verb;
    let g = |e: (Seq<KeyEvent>, V)| sequence_text(e.0);
    if m.len() > 0 {
        law_key_texts_are_of_the_command(m.drop_last(), verb);
        assert(key_texts(m.drop_last(), verb) == m.drop_last().filter(f).map_values(g));
    }
    assert(key_texts(m, verb) =~= m.filter(f).map_values(g));
}

/// Bindings that are read bind each sequence to the last command that was given for it, and a
/// sequence that cannot be read refuses them all.
pub proof fn law_read_bindings(raw: Seq<(String, CommandSpec)>, i: int)
    requires
        0 <= i < raw.len(),
    ensures
        parsed_sequence(raw[i].0@) is Err ==> bindings_of(raw) is Err,
        bindings_of(raw) matches Ok(m) ==> distinct(m) && (parsed_sequence(raw[i].0@) matches Ok(
            keys,
        ) && ((forall|j: int|
            i < j < raw.len() ==> (parsed_sequence((#[trigger] raw[j]).0@) matches Ok(k)
                && !same_keys(k, keys) && !same_keys(keys, k))) ==> lookup(m, keys) == Some(
            raw[i].1,
        ))),
    decreases raw.len(),
{
    let init = raw.drop_last();
    lemma_read_is_distinct(raw);
    lemma_read_is_distinct(init);
    if i < init.len() {
        law_read_bindings(init, i);
        assert(init[i] == raw[i]);
    }
    if bindings_of(raw) is Ok {
        let m = bindings_of(init)->Ok_0;
        let last = parsed_sequence(raw.last().0@)->Ok_0;
        let keys = parsed_sequence(raw[i].0@)->Ok_0;
        assert(raw.last() == raw[raw.len() - 1]);
        if i == raw.len() - 1 {
            law_bound_then_lookup(m, keys, raw[i].1, keys);
        } else {
            if forall|j: int|
                i < j < raw.len() ==> (parsed_sequence((#[trigger] raw[j]).0@) matches Ok(k)
                    && !same_keys(k, keys) && !same_keys(keys, k)) {
                assert forall|j: int| i < j < init.len() implies (parsed_sequence(
                    (#[trigger] init[j]).0@,
                ) matches Ok(k) && !same_keys(k, keys) && !same_keys(keys, k)) by {
                    assert(init[j] == raw[j]);
                }
                assert(!same_keys(last, keys) && !same_keys(keys, last)) by {
                    let z = raw[raw.len() - 1];
                    assert(parsed_sequence(z.0@) matches Ok(k) && !same_keys(k, keys));
                }
                law_bound_then_lookup(m, last, raw.last().1, keys);
            }
        }
    }
}

proof fn lemma_read_is_distinct(raw: Seq<(String, CommandSpec)>)
    ensures
        bindings_of(raw) matches Ok(m) ==> distinct(m),
    decreases raw.len(),
{
    if raw.len() > 0 {
        lemma_read_is_distinct(raw.drop_last());
        if bindings_of(raw) is Ok {
            let keys = parsed_sequence(raw.last().0@)->Ok_0;
            law_bound_then_lookup(bindings_of(raw.drop_last())->Ok_0, keys, raw.last().1, keys);
        }
    }
}

/// A surface that a user has bound nothing on has the defaults; one without defaults has what
/// the user bound; and where both bind a sequence the user prevails.
pub proof fn law_merged_surface(
    user: Option<RawBindings>,
    defaults: Option<RawBindings>,
    keys: Seq<KeyEvent>,
)
    requires
        user matches Some(u) ==> distinct(u),
        defaults matches Some(d) ==> distinct(d),
    ensures
        filled_surface(user, defaults) is Some == (user is Some || defaults is Some),
        filled_surface(user, defaults) matches Some(m) ==> lookup(m, keys) == (if user is Some
            && lookup(user->0, keys) is Some {
            lookup(user->0, keys)
        } else if defaults is Some {
            lookup(defaults->0, keys)
        } else {
            None
        }),
{
    if let Some(d) = defaults {
        let u = match user {
            Some(u) => u,
            None => Seq::empty(),
        };
        law_user_bindings_prevail(u, d, keys);
    }
}

/// A path that starts with a tilde starts with the home directory instead, where that is known;
/// every other path is as it was.
pub proof fn law_home_directory_is_put_in(path: Seq<char>, home: Seq<char>)
    ensures
        path.len() > 0 && path[0] == '~' ==> expanded(path, Some(home)).take(home.len() as int)
            == home && expanded(path, Some(home)).skip(home.len() as int) == path.skip(1),
        path.len() == 0 || path[0] != '~' ==> expanded(path, Some(home)) == path,
        expanded(path, None) == path,
{
    if path.len() > 0 && path[0] == '~' {
        assert((home + path.skip(1)).take(home.len() as int) =~= home);
        assert((home + path.skip(1)).skip(home.len() as int) =~= path.skip(1));
    }
}

/// The label of a command is its name with blanks for underscores.
pub proof fn law_label_has_no_underscore(name: Seq<char>, i: int)
    requires
        0 <= i < name.len(),
    ensures
        label_of(name).len() == name.len(),
        label_of(name)[i] != '_',
        name[i] == '_' ==> label_of(name)[i] == ' ',
        name[i] != '_' ==> label_of(name)[i] == name[i],
{
}

/// A key is read only where it has a name or is one ASCII character, and what is read has the
/// modifiers that were given; with Shift a letter is a capital.
pub proof fn law_keys_that_are_read(s: Seq<char>, m: KeyModifiers)
    ensures
        ({
            let r = event_of(s, m);
            &&& r is Ok == (named_code(s) is Some || (s.len() == 1 && (s[0] as u32) <= 127))
            &&& r matches Ok(k) ==> k.modifiers.control == m.control && k.modifiers.alt == m.alt
                && (m.shift ==> k.modifiers.shift)
            &&& r matches Ok(k) ==> (named_code(s) matches Some(code) ==> k.code == code)
            &&& r matches Ok(k) ==> (named_code(s) is None && !m.shift ==> k.code == KeyCode::Char(
                s[0],
            ))
            &&& r matches Ok(k) ==> (named_code(s) is None && m.shift && 'a' <= s[0] && s[0] <= 'z'
                ==> k.code == KeyCode::Char(upper_char(s[0])))
        }),
{
}

/// Keys are read without regard to the case of their names.
pub proof fn law_key_names_have_no_case(a: Seq<char>, b: Seq<char>)
    requires
        lower_ascii(a) == lower_ascii(b),
    ensures
        parsed_key(a) == parsed_key(b),
{
}

} // verus!
