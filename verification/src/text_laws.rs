//! What holds of splitting, joining, trimming and writing texts.
use vstd::prelude::*;
use vstd::string::*;

use crate::components::todo_form::tags_in;
use crate::text::{
    decimal, digit_char, digits_value, first_at, is_space, joined_with, lemma_pieces_nonempty, lower_ascii,
    occurs_at, pieces, replaced, trim_left, trim_right, trimmed, unsigned_value,
};

verus! {

// ── Trimming ────────────────────────────────────────────────────────────────

proof fn lemma_trim_left(s: Seq<char>) -> (a: int)
    ensures
        0 <= a <= s.len(),
        trim_left(s) == s.skip(a),
        forall|i: int| 0 <= i < a ==> is_space(#[trigger] s[i]),
        a < s.len() ==> !is_space(s[a]),
    decreases s.len(),
{
    if s.len() > 0 && is_space(s[0]) {
        let b = lemma_trim_left(s.skip(1));
        assert(s.skip(1).skip(b) =~= s.skip(b + 1));
        assert forall|i: int| 0 <= i < b + 1 implies is_space(#[trigger] s[i]) by {
            if i > 0 {
                assert(s.skip(1)[i - 1] == s[i]);
            }
        }
        if b + 1 < s.len() {
            assert(s.skip(1)[b] == s[b + 1]);
        }
        b + 1
    } else {
        assert(s.skip(0) =~= s);
        0
    }
}

proof fn lemma_trim_right(s: Seq<char>) -> (b: int)
    ensures
        0 <= b <= s.len(),
        trim_right(s) == s.take(b),
        forall|i: int| b <= i < s.len() ==> is_space(#[trigger] s[i]),
        b > 0 ==> !is_space(s[b - 1]),
    decreases s.len(),
{
    if s.len() > 0 && is_space(s.last()) {
        let b = lemma_trim_right(s.drop_last());
        assert(s.drop_last().take(b) =~= s.take(b));
        assert forall|i: int| b <= i < s.len() implies is_space(#[trigger] s[i]) by {
            if i < s.len() - 1 {
                assert(s.drop_last()[i] == s[i]);
            }
        }
        b
    } else {
        assert(s.take(s.len() as int) =~= s);
        s.len() as int
    }
}

/// A trimmed text is the part of it between the white space at its ends: what was cut is all
/// white space, and what is left neither starts nor ends with any.
pub proof fn law_trimmed(s: Seq<char>) -> (p: (int, int))
    ensures
        0 <= p.0 <= p.1 <= s.len(),
        trimmed(s) == s.subrange(p.0, p.1),
        forall|i: int| 0 <= i < p.0 || p.1 <= i < s.len() ==> is_space(#[trigger] s[i]),
        p.0 < p.1 ==> !is_space(s[p.0]) && !is_space(s[p.1 - 1]),
{
    let a = lemma_trim_left(s);
    let t = s.skip(a);
    let b = lemma_trim_right(t);
    assert(t.take(b) =~= s.subrange(a, a + b));
    assert forall|i: int| 0 <= i < a || a + b <= i < s.len() implies is_space(#[trigger] s[i]) by {
        if i >= a {
            assert(t[i - a] == s[i]);
        }
    }
    if b > 0 {
        assert(t[0] == s[a]);
        assert(t[b - 1] == s[a + b - 1]);
    }
    (a, a + b)
}

/// To trim a text again changes nothing; a text is trimmed to nothing if and only if it is all
/// white space. A blank and the signs for tab and newline are white space, letters, digits and
/// commas are not.
pub proof fn law_trimmed_twice(s: Seq<char>)
    ensures
        trimmed(trimmed(s)) == trimmed(s),
        (trimmed(s).len() == 0) == forall|i: int| 0 <= i < s.len() ==> is_space(#[trigger] s[i]),
        is_space(' ') && is_space('\t') && is_space('\n'),
        forall|c: char| 'a' <= c <= 'z' || 'A' <= c <= 'Z' || '0' <= c <= '9' || c == ','
            ==> !#[trigger] is_space(c),
{
    let p = law_trimmed(s);
    let t = trimmed(s);
    let q = law_trimmed(t);
    if p.0 < p.1 {
        assert(t[0] == s[p.0]);
        assert(t[t.len() - 1] == s[p.1 - 1]);
        assert(q.0 == 0);
        assert(q.1 == t.len());
    }
    assert(t.subrange(0, t.len() as int) =~= t);
    if p.0 == p.1 {
        assert(t.len() == 0);
        assert(trimmed(t) =~= t);
    }
}

// ── Splitting and joining ───────────────────────────────────────────────────

/// The pieces between the separators, joined again with the separator, are the text; and no
/// piece has the separator in it.
pub proof fn law_pieces_join(s: Seq<char>, sep: char)
    ensures
        joined_with(pieces(s, sep), seq![sep]) == s,
        forall|i: int|
            0 <= i < pieces(s, sep).len() ==> !(#[trigger] pieces(s, sep)[i]).contains(sep),
    decreases s.len(),
{
    let p = pieces(s, sep);
    if s.len() > 0 {
        let head = pieces(s.drop_last(), sep);
        law_pieces_join(s.drop_last(), sep);
        lemma_pieces_nonempty(s.drop_last(), sep);
        if s.last() == sep {
            assert(p.drop_last() =~= head);
            assert(p.len() > 1);
            assert(s.drop_last() + seq![sep] + Seq::<char>::empty() =~= s);
            assert forall|i: int| 0 <= i < p.len() implies !(#[trigger] p[i]).contains(sep) by {
                if i < head.len() {
                    assert(p[i] == head[i]);
                }
            }
        } else {
            let last = head.last().push(s.last());
            assert(p =~= head.drop_last().push(last));
            assert(p.drop_last() =~= head.drop_last());
            if head.len() == 1 {
                assert(p.len() == 1);
                assert(head[0].push(s.last()) =~= s);
            } else {
                assert(joined_with(head.drop_last(), seq![sep]) + seq![sep] + last =~= s) by {
                    assert(joined_with(head, seq![sep]) == joined_with(head.drop_last(), seq![sep])
                        + seq![sep] + head.last());
                    assert(s =~= s.drop_last().push(s.last()));
                }
            }
            assert forall|i: int| 0 <= i < p.len() implies !(#[trigger] p[i]).contains(sep) by {
                if i < head.len() - 1 {
                    assert(p[i] == head[i]);
                } else {
                    assert(!head[head.len() - 1].contains(sep));
                    if last.contains(sep) {
                        let k = choose|k: int| 0 <= k < last.len() && last[k] == sep;
                        assert(k < last.len() - 1);
                        assert(head.last()[k] == sep);
                    }
                }
            }
        }
    } else {
        assert(p =~= seq![s]);
    }
}

/// A text without the separator is one piece.
proof fn lemma_one_piece(s: Seq<char>, sep: char)
    requires
        !s.contains(sep),
    ensures
        pieces(s, sep) == seq![s],
    decreases s.len(),
{
    if s.len() > 0 {
        let init = s.drop_last();
        assert forall|i: int| 0 <= i < init.len() implies init[i] != sep by {
            assert(init[i] == s[i]);
        }
        assert(s[s.len() - 1] != sep);
        lemma_one_piece(init, sep);
        assert(pieces(s, sep) =~= seq![s]) by {
            assert(init.push(s.last()) =~= s);
        }
    }
}

/// The pieces of two texts with a separator between them are those of the first and those of
/// the second.
pub proof fn law_pieces_of_both(a: Seq<char>, b: Seq<char>, sep: char)
    ensures
        pieces(a.push(sep) + b, sep) == pieces(a, sep) + pieces(b, sep),
    decreases b.len(),
{
    let s = a.push(sep) + b;
    lemma_pieces_nonempty(a, sep);
    if b.len() == 0 {
        assert(s =~= a.push(sep));
        assert(s.drop_last() =~= a);
        assert(pieces(s, sep) =~= pieces(a, sep) + pieces(b, sep)) by {
            assert(b =~= Seq::<char>::empty());
        }
    } else {
        let init = b.drop_last();
        law_pieces_of_both(a, init, sep);
        lemma_pieces_nonempty(init, sep);
        assert(s.drop_last() =~= a.push(sep) + init);
        assert(s.last() == b.last());
        assert(pieces(s, sep) =~= pieces(a, sep) + pieces(b, sep));
    }
}

// ── Tags ────────────────────────────────────────────────────────────────────

proof fn lemma_tags_of_both(a: Seq<Seq<char>>, b: Seq<Seq<char>>)
    ensures
        tags_in(a + b) == tags_in(a) + tags_in(b),
    decreases b.len(),
{
    if b.len() == 0 {
        assert(a + b =~= a);
        assert(tags_in(a) + tags_in(b) =~= tags_in(a));
    } else {
        lemma_tags_of_both(a, b.drop_last());
        assert((a + b).drop_last() =~= a + b.drop_last());
        assert((a + b).last() == b.last());
        assert(tags_in(a + b) =~= tags_in(a) + tags_in(b));
    }
}

/// Whether a text can stand as a tag: it is not blank, has no white space at its ends, and no
/// comma.
pub open spec fn is_tag(t: Seq<char>) -> bool {
    t.len() > 0 && !is_space(t[0]) && !is_space(t[t.len() - 1]) && !t.contains(',')
}

proof fn lemma_trim_tag(t: Seq<char>)
    requires
        is_tag(t),
    ensures
        trimmed(t) == t,
        trimmed(seq![' '] + t) == t,
{
    let p = law_trimmed(t);
    assert(t.subrange(0, t.len() as int) =~= t);
    assert(p.0 == 0 && p.1 == t.len());
    let s = seq![' '] + t;
    let q = law_trimmed(s);
    assert(s[1] == t[0]);
    assert(s[s.len() - 1] == t[t.len() - 1]);
    assert(is_space(s[0]));
    assert(q.0 == 1 && q.1 == s.len());
    assert(s.subrange(1, s.len() as int) =~= t);
}

/// Tags that are written with commas between them are read back as they were.
pub proof fn law_tags_read_back(tags: Seq<Seq<char>>)
    requires
        forall|i: int| 0 <= i < tags.len() ==> is_tag(#[trigger] tags[i]),
    ensures
        tags_in(pieces(joined_with(tags, ", "@), ',')) == tags,
    decreases tags.len(),
{
    reveal_strlit(", ");
    reveal_with_fuel(tags_in, 3);
    let text = joined_with(tags, ", "@);
    if tags.len() == 0 {
        assert(text =~= Seq::<char>::empty());
        assert(pieces(text, ',') =~= seq![text]);
        assert(trimmed(text).len() == 0);
        assert(pieces(text, ',').drop_last() =~= Seq::<Seq<char>>::empty());
        assert(tags_in(pieces(text, ',')) =~= tags);
    } else if tags.len() == 1 {
        lemma_one_piece(tags[0], ',');
        lemma_trim_tag(tags[0]);
        assert(pieces(text, ',').drop_last() =~= Seq::<Seq<char>>::empty());
        assert(tags_in(pieces(text, ',')) =~= tags);
    } else {
        let init = tags.drop_last();
        let last = tags.last();
        assert forall|i: int| 0 <= i < init.len() implies is_tag(#[trigger] init[i]) by {
            assert(init[i] == tags[i]);
        }
        law_tags_read_back(init);
        let a = joined_with(init, ", "@);
        let b = seq![' '] + last;
        assert(is_tag(tags[tags.len() - 1]));
        assert(text =~= a.push(',') + b);
        law_pieces_of_both(a, b, ',');
        assert(!b.contains(',')) by {
            if b.contains(',') {
                let k = choose|k: int| 0 <= k < b.len() && b[k] == ',';
                assert(k > 0);
                assert(last[k - 1] == ',');
            }
        }
        lemma_one_piece(b, ',');
        lemma_trim_tag(last);
        lemma_tags_of_both(pieces(a, ','), seq![b]);
        assert(seq![b].drop_last() =~= Seq::<Seq<char>>::empty());
        assert(tags_in(seq![b]) =~= seq![last]);
        assert(tags_in(pieces(text, ',')) =~= tags);
    }
}

/// The tags of some pieces are all of them but the blank ones, trimmed, in their order.
pub proof fn law_tags_are_all_pieces(parts: Seq<Seq<char>>)
    ensures
        tags_in(parts) == parts.map_values(|p: Seq<char>| trimmed(p)).filter(
            |p: Seq<char>| p.len() > 0,
        ),
    decreases parts.len(),
{
    reveal(Seq::filter);
    let f = |p: Seq<char>| trimmed(p);
    let g = |p: Seq<char>| p.len() > 0;
    let m = parts.map_values(f);
    if parts.len() > 0 {
        law_tags_are_all_pieces(parts.drop_last());
        assert(m.drop_last() =~= parts.drop_last().map_values(f));
        assert(m.last() == trimmed(parts.last()));
    } else {
        assert(m.filter(g) =~= tags_in(parts));
    }
}

// ── Numbers ─────────────────────────────────────────────────────────────────

proof fn lemma_digit(d: int)
    requires
        0 <= d < 10,
    ensures
        '0' <= digit_char(d) && digit_char(d) <= '9',
        digit_char(d) as nat - 48 == d,
{
}

/// A number that is written in decimal reads back, and has no zero before it but for zero.
pub proof fn law_decimal_reads_back(n: nat)
    ensures
        decimal(n).len() > 0,
        digits_value(decimal(n)) == Some(n),
        unsigned_value(decimal(n)) == Some(n),
        decimal(n)[0] == '0' ==> n == 0,
    decreases n,
{
    reveal_with_fuel(digits_value, 2);
    let s = decimal(n);
    if n < 10 {
        lemma_digit(n as int);
        assert(s.drop_last() =~= Seq::<char>::empty());
    } else {
        law_decimal_reads_back(n / 10);
        lemma_digit((n % 10) as int);
        assert(s.drop_last() =~= decimal(n / 10));
        assert(s[0] == decimal(n / 10)[0]);
    }
    lemma_first_is_digit(n);
}

proof fn lemma_first_is_digit(n: nat)
    ensures
        decimal(n).len() > 0,
        '0' <= decimal(n)[0] && decimal(n)[0] <= '9',
    decreases n,
{
    if n < 10 {
        lemma_digit(n as int);
    } else {
        lemma_first_is_digit(n / 10);
        assert(decimal(n)[0] == decimal(n / 10)[0]);
    }
}

/// A text in lowercase is as long, has no ASCII capital, and is in lowercase already.
pub proof fn law_lowercase_has_no_capitals(s: Seq<char>, i: int)
    requires
        0 <= i < s.len(),
    ensures
        lower_ascii(s).len() == s.len(),
        !('A' <= lower_ascii(s)[i] && lower_ascii(s)[i] <= 'Z'),
        !('A' <= s[i] && s[i] <= 'Z') ==> lower_ascii(s)[i] == s[i],
        'A' <= s[i] && s[i] <= 'Z' ==> lower_ascii(s)[i] as u32 == s[i] as u32 + 32,
{
}

// ── Finding and replacing ───────────────────────────────────────────────────

proof fn lemma_least(s: Seq<char>, p: Seq<char>, k: int) -> (i: int)
    requires
        occurs_at(s, p, k),
    ensures
        0 <= i <= k,
        occurs_at(s, p, i),
        forall|j: int| j < i ==> !occurs_at(s, p, j),
    decreases k,
{
    if exists|j: int| j < k && occurs_at(s, p, j) {
        let j = choose|j: int| j < k && occurs_at(s, p, j);
        lemma_least(s, p, j)
    } else {
        k
    }
}

/// A text is found at the first place where it stands: there, and nowhere before; one that stands
/// nowhere is not found.
pub proof fn law_first_place(s: Seq<char>, p: Seq<char>, k: int)
    ensures
        occurs_at(s, p, k) ==> (first_at(s, p) matches Some(i) && 0 <= i <= k && s.subrange(
            i,
            i + p.len(),
        ) == p && forall|j: int| j < i ==> !occurs_at(s, p, j)),
        (forall|j: int| !occurs_at(s, p, j)) ==> first_at(s, p) is None,
{
    if occurs_at(s, p, k) {
        let i = lemma_least(s, p, k);
        let f = first_at(s, p)->0;
        assert(occurs_at(s, p, i) && forall|j: int| j < i ==> !occurs_at(s, p, j));
        assert(occurs_at(s, p, f) && forall|j: int| j < f ==> !occurs_at(s, p, j));
        assert(!(k < f));
    }
}

/// A text in which another does not stand is left as it is when that is replaced.
pub proof fn law_nothing_to_replace(s: Seq<char>, from: Seq<char>, to: Seq<char>)
    requires
        forall|j: int| !occurs_at(s, from, j),
    ensures
        replaced(s, from, to) == s,
    decreases s.len(),
{
    if s.len() > 0 {
        let rest = s.skip(1);
        assert(!occurs_at(s, from, 0));
        assert forall|j: int| !occurs_at(rest, from, j) by {
            if occurs_at(rest, from, j) {
                assert(s.subrange(j + 1, j + 1 + from.len()) =~= rest.subrange(j, j + from.len()));
                assert(occurs_at(s, from, j + 1));
            }
        }
        law_nothing_to_replace(rest, from, to);
        assert(seq![s[0]] + rest =~= s);
    }
}

/// Where a text stands at the first place of another, it is replaced there, and what follows is
/// replaced as if it stood alone.
pub proof fn law_first_is_replaced(a: Seq<char>, from: Seq<char>, b: Seq<char>, to: Seq<char>)
    requires
        from.len() > 0,
        forall|j: int| 0 <= j < a.len() ==> !occurs_at(a + from + b, from, j),
    ensures
        replaced(a + from + b, from, to) == a + to + replaced(b, from, to),
    decreases a.len(),
{
    let s = a + from + b;
    if a.len() == 0 {
        assert(s.subrange(0, 0 + from.len() as int) =~= from);
        assert(s.skip(from.len() as int) =~= b);
        assert(a + to + replaced(b, from, to) =~= to + replaced(b, from, to));
    } else {
        assert(!occurs_at(s, from, 0));
        let rest = a.skip(1);
        assert(s.skip(1) =~= rest + from + b);
        assert forall|j: int| 0 <= j < rest.len() implies !occurs_at(rest + from + b, from, j) by {
            if occurs_at(rest + from + b, from, j) {
                let t = rest + from + b;
                assert(s.subrange(j + 1, j + 1 + from.len()) =~= t.subrange(j, j + from.len()));
                assert(occurs_at(s, from, j + 1));
            }
        }
        law_first_is_replaced(rest, from, b, to);
        assert(seq![s[0]] + (rest + to + replaced(b, from, to)) =~= a + to + replaced(b, from, to));
    }
}

/// A number may have a plus before it; without a digit there is no number, and with anything but
/// digits neither.
pub proof fn law_numbers_that_are_read(n: nat, s: Seq<char>, i: int)
    ensures
        unsigned_value(seq!['+'] + decimal(n)) == Some(n),
        unsigned_value(Seq::empty()) is None,
        0 < i < s.len() && !('0' <= s[i] && s[i] <= '9') ==> unsigned_value(s) is None,
{
    law_decimal_reads_back(n);
    let p = seq!['+'] + decimal(n);
    assert(p.skip(1) =~= decimal(n));
    if 0 < i < s.len() && !('0' <= s[i] && s[i] <= '9') {
        let d = if s[0] == '+' {
            s.skip(1)
        } else {
            s
        };
        let k = if s[0] == '+' {
            i - 1
        } else {
            i
        };
        assert(d[k] == s[i]);
        lemma_no_number(d, k);
    }
}

proof fn lemma_no_number(s: Seq<char>, i: int)
    requires
        0 <= i < s.len(),
        !('0' <= s[i] && s[i] <= '9'),
    ensures
        digits_value(s) is None,
    decreases s.len(),
{
    if i < s.len() - 1 {
        assert(s.drop_last()[i] == s[i]);
        lemma_no_number(s.drop_last(), i);
    }
}

} // verus!
