//! Character-level text helpers: the string operations that the rest of the
//! library needs, stated over `Seq<char>`.
use vstd::prelude::*;
use vstd::string::*;

verus! {

// ── Trusted items ───────────────────────────────────────────────────────────

/// `String::push` appends one character at the end of the string.
pub assume_specification [String::push](s: &mut String, c: char)
    ensures
        final(s)@ == old(s)@.push(c),
;

/// The lowercase equivalent of a text, by the Unicode case mappings.
pub uninterp spec fn lowercase(s: Seq<char>) -> Seq<char>;

/// `str::to_lowercase`: a function of the text alone, named `lowercase`.
#[verifier::external_body]
pub(crate) fn to_lowercase(s: &str) -> (r: String)
    ensures
        r@ == lowercase(s@),
{
    s.to_lowercase()
}

// ── Characters ──────────────────────────────────────────────────────────────

/// The characters with the Unicode `White_Space` property.
pub open spec fn is_space(c: char) -> bool {
    let n = c as u32;
    ||| 0x09 <= n <= 0x0d
    ||| n == 0x20
    ||| n == 0x85
    ||| n == 0xa0
    ||| n == 0x1680
    ||| 0x2000 <= n <= 0x200a
    ||| n == 0x2028
    ||| n == 0x2029
    ||| n == 0x202f
    ||| n == 0x205f
    ||| n == 0x3000
}

/// Whether a character is white space.
pub fn char_is_space(c: char) -> (r: bool)
    ensures
        r == is_space(c),
{
    let n: u32 = c as u32;
    (0x09 <= n && n <= 0x0d) || n == 0x20 || n == 0x85 || n == 0xa0 || n == 0x1680 || (0x2000 <= n
        && n <= 0x200a) || n == 0x2028 || n == 0x2029 || n == 0x202f || n == 0x205f || n == 0x3000
}

/// The ASCII lowercase form of a character; other characters stand for themselves.
pub open spec fn lower_char(c: char) -> char {
    if 'A' <= c && c <= 'Z' {
        ((c as u32 + 32) as u32) as char
    } else {
        c
    }
}

/// The ASCII uppercase form of a character; other characters stand for themselves.
pub open spec fn upper_char(c: char) -> char {
    if 'a' <= c && c <= 'z' {
        ((c as u32 - 32) as u32) as char
    } else {
        c
    }
}

/// ASCII lowercase of one character.
pub fn char_lower(c: char) -> (r: char)
    ensures
        r == lower_char(c),
{
    if 'A' <= c && c <= 'Z' {
        (c as u8 + 32) as char
    } else {
        c
    }
}

/// ASCII uppercase of one character.
pub fn char_upper(c: char) -> (r: char)
    ensures
        r == upper_char(c),
{
    if 'a' <= c && c <= 'z' {
        (c as u8 - 32) as char
    } else {
        c
    }
}

// ── Conversions ─────────────────────────────────────────────────────────────

/// The characters of a text, in order.
pub fn chars_of(s: &str) -> (r: Vec<char>)
    ensures
        r@ == s@,
{
    let mut v: Vec<char> = Vec::new();
    for c in it: s.chars()
        invariant
            v@ == it.seq().take(it.index()),
            it.seq() == s@,
    {
        v.push(c);
    }
    v
}

/// The text made of the characters `v[from..to]`.
pub fn string_of(v: &Vec<char>, from: usize, to: usize) -> (r: String)
    requires
        from <= to <= v@.len(),
    ensures
        r@ == v@.subrange(from as int, to as int),
{
    let mut s = String::new();
    let mut i: usize = from;
    proof {
        assert(s@ =~= v@.subrange(from as int, from as int));
    }
    while i < to
        invariant
            from <= i <= to <= v@.len(),
            s@ == v@.subrange(from as int, i as int),
        decreases to - i,
    {
        s.push(v[i]);
        proof {
            assert(v@.subrange(from as int, i as int).push(v@[i as int]) =~= v@.subrange(
                from as int,
                i + 1,
            ));
        }
        i = i + 1;
    }
    s
}

/// The text made of all the characters of `v`.
pub fn to_text(v: &Vec<char>) -> (r: String)
    ensures
        r@ == v@,
{
    let r = string_of(v, 0, v.len());
    proof {
        assert(v@.subrange(0, v@.len() as int) =~= v@);
    }
    r
}

/// A copy of a vector of characters.
pub fn copy_chars(v: &Vec<char>) -> (r: Vec<char>)
    ensures
        r@ == v@,
{
    let mut out: Vec<char> = Vec::new();
    let mut i: usize = 0;
    while i < v.len()
        invariant
            i <= v@.len(),
            out@ == v@.take(i as int),
        decreases v@.len() - i,
    {
        out.push(v[i]);
        proof {
            assert(v@.take(i as int).push(v@[i as int]) =~= v@.take(i + 1));
        }
        i = i + 1;
    }
    proof {
        assert(v@.take(v@.len() as int) =~= v@);
    }
    out
}

/// Whether two texts are the same.
pub fn same(a: &str, b: &str) -> (r: bool)
    ensures
        r == (a@ == b@),
{
    let x = chars_of(a);
    let y = chars_of(b);
    if x.len() != y.len() {
        return false;
    }
    let mut i: usize = 0;
    while i < x.len()
        invariant
            i <= x@.len(),
            x@ == a@,
            y@ == b@,
            x@.len() == y@.len(),
            forall|j: int| 0 <= j < i ==> x@[j] == y@[j],
        decreases x@.len() - i,
    {
        if x[i] != y[i] {
            return false;
        }
        i = i + 1;
    }
    proof {
        assert(a@ =~= b@);
    }
    true
}

/// `a` followed by `b`.
pub fn joined(a: &str, b: &str) -> (r: String)
    ensures
        r@ == a@ + b@,
{
    let mut s = a.to_owned();
    s.append(b);
    s
}

/// `a`, `b` and `c` one after the other.
pub fn joined3(a: &str, b: &str, c: &str) -> (r: String)
    ensures
        r@ == a@ + b@ + c@,
{
    let mut s = a.to_owned();
    s.append(b);
    s.append(c);
    s
}

/// ASCII lowercase of every character.
pub open spec fn lower_ascii(s: Seq<char>) -> Seq<char> {
    s.map_values(|c: char| lower_char(c))
}

/// A text with every ASCII letter in lowercase.
pub fn ascii_lowercase(s: &str) -> (r: Vec<char>)
    ensures
        r@ == lower_ascii(s@),
{
    let v = chars_of(s);
    let mut out: Vec<char> = Vec::new();
    let mut i: usize = 0;
    while i < v.len()
        invariant
            i <= v@.len(),
            v@ == s@,
            out@ == lower_ascii(v@.take(i as int)),
        decreases v@.len() - i,
    {
        out.push(char_lower(v[i]));
        proof {
            assert(lower_ascii(v@.take(i + 1)) =~= lower_ascii(v@.take(i as int)).push(
                lower_char(v@[i as int]),
            ));
        }
        i = i + 1;
    }
    proof {
        assert(v@.take(v@.len() as int) =~= v@);
    }
    out
}

// ── Searching ───────────────────────────────────────────────────────────────

/// Whether `p` stands in `s` at position `i`.
pub open spec fn occurs_at(s: Seq<char>, p: Seq<char>, i: int) -> bool {
    0 <= i && i + p.len() <= s.len() && s.subrange(i, i + p.len()) == p
}

/// Whether `p` stands somewhere in `s`.
pub open spec fn contains(s: Seq<char>, p: Seq<char>) -> bool {
    exists|i: int| occurs_at(s, p, i)
}

/// Whether `s` begins with `p`.
pub open spec fn begins_with(s: Seq<char>, p: Seq<char>) -> bool {
    occurs_at(s, p, 0)
}

/// The first position of `p` in `s`, if `p` stands there at all.
pub open spec fn first_at(s: Seq<char>, p: Seq<char>) -> Option<int> {
    if contains(s, p) {
        Some(choose|i: int| #[trigger] occurs_at(s, p, i) && forall|j: int| j < i ==> !occurs_at(s, p, j))
    } else {
        None
    }
}

/// Whether `p` stands in `s` at position `at`.
pub fn stands_at(s: &Vec<char>, p: &Vec<char>, at: usize) -> (r: bool)
    requires
        at <= s@.len(),
    ensures
        r == occurs_at(s@, p@, at as int),
{
    let n: usize = s.len();
    if p.len() > n - at {
        return false;
    }
    let mut i: usize = 0;
    while i < p.len()
        invariant
            i <= p@.len(),
            at + p@.len() <= s@.len(),
            n == s@.len(),
            forall|j: int| 0 <= j < i ==> s@[at + j] == p@[j],
        decreases p@.len() - i,
    {
        if s[at + i] != p[i] {
            proof {
                assert(s@.subrange(at as int, at + p@.len())[i as int] != p@[i as int]);
            }
            return false;
        }
        i = i + 1;
    }
    proof {
        assert(s@.subrange(at as int, at + p@.len()) =~= p@);
    }
    true
}

/// The first position of `p` in `s`.
pub fn find(s: &Vec<char>, p: &Vec<char>) -> (r: Option<usize>)
    ensures
        r is Some == contains(s@, p@),
        first_at(s@, p@) == (match r {
            Some(i) => Some(i as int),
            None => None,
        }),
        r matches Some(i) ==> i + p@.len() <= s@.len() && occurs_at(s@, p@, i as int),
{
    let mut i: usize = 0;
    loop
        invariant
            i <= s@.len(),
            forall|j: int| j < i ==> !occurs_at(s@, p@, j),
        decreases s@.len() - i,
    {
        if stands_at(s, p, i) {
            proof {
                assert(occurs_at(s@, p@, i as int));
                let k = choose|k: int|
                    #[trigger] occurs_at(s@, p@, k) && forall|j: int| j < k ==> !occurs_at(
                        s@,
                        p@,
                        j,
                    );
                assert(k == i);
            }
            return Some(i);
        }
        if i == s.len() {
            return None;
        }
        i = i + 1;
    }
}

/// Whether the text `s` holds `p`.
pub fn has(s: &Vec<char>, p: &str) -> (r: bool)
    ensures
        r == contains(s@, p@),
{
    let q = chars_of(p);
    find(s, &q).is_some()
}

// ── Rewriting ───────────────────────────────────────────────────────────────

/// `s` with every `from` replaced by `to`, scanning from the left and never
/// inside a replacement.
pub open spec fn replaced(s: Seq<char>, from: Seq<char>, to: Seq<char>) -> Seq<char>
    decreases s.len(),
{
    if s.len() == 0 {
        s
    } else if from.len() > 0 && begins_with(s, from) {
        to + replaced(s.skip(from.len() as int), from, to)
    } else {
        seq![s[0]] + replaced(s.skip(1), from, to)
    }
}

/// Replaces every `from` in `s` by `to`.
pub fn replace_all(s: &Vec<char>, from: &str, to: &str) -> (r: Vec<char>)
    requires
        from@.len() > 0,
    ensures
        r@ == replaced(s@, from@, to@),
{
    let f = chars_of(from);
    let t = chars_of(to);
    let mut out: Vec<char> = Vec::new();
    let mut i: usize = 0;
    proof {
        assert(s@.skip(0) =~= s@);
    }
    while i < s.len()
        invariant
            i <= s@.len(),
            f@ == from@,
            t@ == to@,
            f@.len() > 0,
            out@ + replaced(s@.skip(i as int), from@, to@) == replaced(s@, from@, to@),
        decreases s@.len() - i,
    {
        let ghost rest = s@.skip(i as int);
        if stands_at(s, &f, i) {
            proof {
                assert(rest.subrange(0, f@.len() as int) =~= s@.subrange(
                    i as int,
                    i + f@.len(),
                ));
                assert(rest.skip(f@.len() as int) =~= s@.skip(i + f@.len()));
                assert(out@ + (t@ + replaced(s@.skip(i + f@.len()), from@, to@)) =~= (out@ + t@)
                    + replaced(s@.skip(i + f@.len()), from@, to@));
            }
            push_all(&mut out, &t);
            i = i + f.len();
        } else {
            proof {
                if begins_with(rest, from@) {
                    assert(s@.subrange(i as int, i + f@.len()) =~= rest.subrange(
                        0,
                        f@.len() as int,
                    ));
                }
                assert(rest.skip(1) =~= s@.skip(i + 1));
                assert(out@ + (seq![s@[i as int]] + replaced(s@.skip(i + 1), from@, to@))
                    =~= out@.push(s@[i as int]) + replaced(s@.skip(i + 1), from@, to@));
            }
            out.push(s[i]);
            i = i + 1;
        }
    }
    proof {
        assert(s@.skip(i as int) =~= Seq::<char>::empty());
        assert(out@ + Seq::<char>::empty() =~= out@);
    }
    out
}

/// Appends the characters of `more`.
pub fn push_all(v: &mut Vec<char>, more: &Vec<char>)
    ensures
        final(v)@ == old(v)@ + more@,
{
    let ghost start = v@;
    let mut i: usize = 0;
    while i < more.len()
        invariant
            i <= more@.len(),
            v@ == start + more@.take(i as int),
        decreases more@.len() - i,
    {
        v.push(more[i]);
        proof {
            assert((start + more@.take(i as int)).push(more@[i as int]) =~= start + more@.take(
                i + 1,
            ));
        }
        i = i + 1;
    }
    proof {
        assert(more@.take(more@.len() as int) =~= more@);
    }
}

/// The pieces of `s` between the occurrences of `sep`.
pub open spec fn pieces(s: Seq<char>, sep: char) -> Seq<Seq<char>>
    decreases s.len(),
{
    if s.len() == 0 {
        seq![s]
    } else if s.last() == sep {
        pieces(s.drop_last(), sep).push(Seq::empty())
    } else {
        let head = pieces(s.drop_last(), sep);
        head.drop_last().push(head.last().push(s.last()))
    }
}

/// There is always at least one piece.
pub proof fn lemma_pieces_nonempty(s: Seq<char>, sep: char)
    ensures
        pieces(s, sep).len() > 0,
    decreases s.len(),
{
    if s.len() > 0 {
        lemma_pieces_nonempty(s.drop_last(), sep);
    }
}

/// The views of a vector of texts.
pub open spec fn texts(v: Seq<String>) -> Seq<Seq<char>> {
    v.map_values(|s: String| s@)
}

/// Splits `s` at every `sep`.
pub fn split(s: &str, sep: char) -> (r: Vec<String>)
    ensures
        texts(r@) == pieces(s@, sep),
        r@.len() > 0,
{
    let v = chars_of(s);
    let mut done: Vec<String> = Vec::new();
    let mut cur = String::new();
    let mut i: usize = 0;
    proof {
        assert(v@.take(0) =~= Seq::<char>::empty());
        assert(texts(done@).push(cur@) =~= seq![Seq::<char>::empty()]);
    }
    while i < v.len()
        invariant
            i <= v@.len(),
            v@ == s@,
            texts(done@).push(cur@) == pieces(v@.take(i as int), sep),
        decreases v@.len() - i,
    {
        let ghost before = v@.take(i as int);
        let ghost old_done = done@;
        let ghost old_cur = cur@;
        proof {
            assert(v@.take(i + 1).drop_last() =~= before);
            assert(v@.take(i + 1).last() == v@[i as int]);
            assert(pieces(before, sep).drop_last() =~= texts(done@));
            assert(pieces(before, sep).last() == cur@);
        }
        if v[i] == sep {
            done.push(cur);
            cur = String::new();
            proof {
                assert(texts(done@) =~= texts(old_done).push(old_cur));
                assert(cur@ =~= Seq::<char>::empty());
            }
        } else {
            cur.push(v[i]);
        }
        i = i + 1;
    }
    proof {
        assert(v@.take(v@.len() as int) =~= v@);
        assert(texts(done@.push(cur)) =~= texts(done@).push(cur@));
    }
    done.push(cur);
    done
}

/// `parts` with `sep` between each two.
pub open spec fn joined_with(parts: Seq<Seq<char>>, sep: Seq<char>) -> Seq<char>
    decreases parts.len(),
{
    if parts.len() == 0 {
        Seq::empty()
    } else if parts.len() == 1 {
        parts[0]
    } else {
        joined_with(parts.drop_last(), sep) + sep + parts.last()
    }
}

/// Joins texts with a separator.
pub fn join(parts: &Vec<String>, sep: &str) -> (r: String)
    ensures
        r@ == joined_with(texts(parts@), sep@),
{
    let mut out = String::new();
    let mut i: usize = 0;
    proof {
        assert(out@ =~= joined_with(texts(parts@.take(0)), sep@));
    }
    while i < parts.len()
        invariant
            i <= parts@.len(),
            out@ == joined_with(texts(parts@.take(i as int)), sep@),
        decreases parts@.len() - i,
    {
        proof {
            assert(texts(parts@.take(i + 1)).drop_last() =~= texts(parts@.take(i as int)));
            assert(texts(parts@.take(i + 1)).last() == parts@[i as int]@);
        }
        if i > 0 {
            out.append(sep);
        }
        out.append(parts[i].as_str());
        proof {
            if i == 0 {
                assert(out@ =~= parts@[0]@);
            }
        }
        i = i + 1;
    }
    proof {
        assert(parts@.take(parts@.len() as int) =~= parts@);
    }
    out
}

// ── Trimming ────────────────────────────────────────────────────────────────

/// `s` without the white space at its start.
pub open spec fn trim_left(s: Seq<char>) -> Seq<char>
    decreases s.len(),
{
    if s.len() > 0 && is_space(s[0]) {
        trim_left(s.skip(1))
    } else {
        s
    }
}

/// `s` without the white space at its end.
pub open spec fn trim_right(s: Seq<char>) -> Seq<char>
    decreases s.len(),
{
    if s.len() > 0 && is_space(s.last()) {
        trim_right(s.drop_last())
    } else {
        s
    }
}

/// `s` without the white space at both ends.
pub open spec fn trimmed(s: Seq<char>) -> Seq<char> {
    trim_right(trim_left(s))
}

/// `s` without the copies of `p` at its start.
pub open spec fn strip_all(s: Seq<char>, p: Seq<char>) -> Seq<char>
    decreases s.len(),
{
    if p.len() > 0 && begins_with(s, p) {
        strip_all(s.skip(p.len() as int), p)
    } else {
        s
    }
}

/// Removes white space at both ends.
pub fn trim_chars(v: &Vec<char>) -> (r: Vec<char>)
    ensures
        r@ == trimmed(v@),
{
    let n: usize = v.len();
    let mut a: usize = 0;
    proof {
        assert(v@.skip(0) =~= v@);
    }
    while a < n && char_is_space(v[a])
        invariant
            a <= n,
            n == v@.len(),
            trim_left(v@.skip(a as int)) == trim_left(v@),
        decreases n - a,
    {
        proof {
            assert(v@.skip(a as int).skip(1) =~= v@.skip(a + 1));
        }
        a = a + 1;
    }
    proof {
        assert(trim_left(v@.skip(a as int)) == v@.skip(a as int));
        assert(v@.skip(a as int) =~= v@.subrange(a as int, n as int));
    }
    let mut b: usize = n;
    while a < b && char_is_space(v[b - 1])
        invariant
            a <= b <= n,
            n == v@.len(),
            trim_right(v@.subrange(a as int, b as int)) == trimmed(v@),
        decreases b,
    {
        proof {
            assert(v@.subrange(a as int, b as int).drop_last() =~= v@.subrange(
                a as int,
                b - 1,
            ));
        }
        b = b - 1;
    }
    slice_chars(v, a, b)
}

/// The characters `v[from..to]`.
pub fn slice_chars(v: &Vec<char>, from: usize, to: usize) -> (r: Vec<char>)
    requires
        from <= to <= v@.len(),
    ensures
        r@ == v@.subrange(from as int, to as int),
{
    let mut out: Vec<char> = Vec::new();
    let mut i: usize = from;
    proof {
        assert(out@ =~= v@.subrange(from as int, from as int));
    }
    while i < to
        invariant
            from <= i <= to <= v@.len(),
            out@ == v@.subrange(from as int, i as int),
        decreases to - i,
    {
        out.push(v[i]);
        proof {
            assert(v@.subrange(from as int, i as int).push(v@[i as int]) =~= v@.subrange(
                from as int,
                i + 1,
            ));
        }
        i = i + 1;
    }
    out
}

/// Removes white space at both ends of a text.
pub fn trim(s: &str) -> (r: String)
    ensures
        r@ == trimmed(s@),
{
    let v = chars_of(s);
    let t = trim_chars(&v);
    to_text(&t)
}

/// Removes every copy of `p` at the start of `v`.
pub fn strip_prefixes(v: &Vec<char>, p: &str) -> (r: Vec<char>)
    requires
        p@.len() > 0,
    ensures
        r@ == strip_all(v@, p@),
{
    let q = chars_of(p);
    let n: usize = v.len();
    let mut a: usize = 0;
    proof {
        assert(v@.skip(0) =~= v@);
    }
    while stands_at(v, &q, a)
        invariant
            a <= n,
            n == v@.len(),
            q@ == p@,
            p@.len() > 0,
            strip_all(v@.skip(a as int), p@) == strip_all(v@, p@),
        decreases n - a,
    {
        proof {
            let rest = v@.skip(a as int);
            assert(rest.subrange(0, q@.len() as int) =~= v@.subrange(a as int, a + q@.len()));
            assert(rest.skip(q@.len() as int) =~= v@.skip(a + q@.len()));
        }
        a = a + q.len();
    }
    proof {
        let rest = v@.skip(a as int);
        if begins_with(rest, p@) {
            assert(v@.subrange(a as int, a + q@.len()) =~= rest.subrange(0, q@.len() as int));
        }
        assert(rest =~= v@.subrange(a as int, n as int));
    }
    slice_chars(v, a, n)
}

// ── Numbers ─────────────────────────────────────────────────────────────────

/// The decimal digit of a value below ten.
pub open spec fn digit_char(d: int) -> char {
    ((48 + d) as u32) as char
}

/// The decimal form of a number.
pub open spec fn decimal(n: nat) -> Seq<char>
    decreases n,
{
    if n < 10 {
        seq![digit_char(n as int)]
    } else {
        decimal(n / 10).push(digit_char((n % 10) as int))
    }
}

/// Formats a number in decimal.
pub fn number(n: u64) -> (r: String)
    ensures
        r@ == decimal(n as nat),
    decreases n,
{
    let d: u8 = (n % 10) as u8;
    let c: char = (48u8 + d) as char;
    if n < 10 {
        let mut s = String::new();
        s.push(c);
        proof {
            assert(s@ =~= seq![c]);
        }
        s
    } else {
        let mut s = number(n / 10);
        s.push(c);
        s
    }
}

/// The value of a text made of decimal digits alone, `None` where another
/// character stands in it.
pub open spec fn digits_value(s: Seq<char>) -> Option<nat>
    decreases s.len(),
{
    if s.len() == 0 {
        Some(0)
    } else {
        match digits_value(s.drop_last()) {
            Some(v) if '0' <= s.last() && s.last() <= '9' => Some(
                10 * v + (s.last() as nat - 48) as nat,
            ),
            _ => None,
        }
    }
}

/// The value of a decimal text: digits, with an optional `+` before them.
pub open spec fn unsigned_value(s: Seq<char>) -> Option<nat> {
    let d = if s.len() > 0 && s[0] == '+' {
        s.skip(1)
    } else {
        s
    };
    if d.len() == 0 {
        None
    } else {
        digits_value(d)
    }
}

/// A prefix with a bad character, or one above the limit, never recovers.
proof fn lemma_digits_prefix(s: Seq<char>, k: int)
    requires
        0 <= k <= s.len(),
    ensures
        digits_value(s.take(k)) is None ==> digits_value(s) is None,
        digits_value(s) matches Some(v) ==> digits_value(s.take(k)) matches Some(w) && w <= v,
    decreases s.len() - k,
{
    if k < s.len() {
        lemma_digits_prefix(s, k + 1);
        assert(s.take(k + 1).drop_last() =~= s.take(k));
    } else {
        assert(s.take(k) =~= s);
    }
}

/// Reads a decimal text as a byte.
pub fn parse_u8(v: &Vec<char>) -> (r: Option<u8>)
    ensures
        r == (match unsigned_value(v@) {
            Some(n) if n <= 255 => Some(n as u8),
            _ => None,
        }),
{
    let n: usize = v.len();
    let start: usize = if n > 0 && v[0] == '+' {
        1
    } else {
        0
    };
    let ghost d = v@.skip(start as int);
    proof {
        assert(v@.skip(0) =~= v@);
    }
    if start == n {
        return None;
    }
    let mut acc: u32 = 0;
    let mut i: usize = start;
    proof {
        assert(d.take(0) =~= Seq::<char>::empty());
    }
    while i < n
        invariant
            start <= i <= n,
            n == v@.len(),
            d == v@.skip(start as int),
            start < n,
            start == (if v@[0] == '+' { 1int } else { 0int }),
            v@.skip(0) == v@,
            acc <= 255,
            digits_value(d.take(i - start)) == Some(acc as nat),
        decreases n - i,
    {
        let c = v[i];
        proof {
            assert(d.take(i - start + 1).drop_last() =~= d.take(i - start));
            assert(d.take(i - start + 1).last() == c);
            lemma_digits_prefix(d, i - start + 1);
        }
        if c < '0' || c > '9' {
            return None;
        }
        acc = 10 * acc + (c as u32 - 48);
        if acc > 255 {
            return None;
        }
        i = i + 1;
    }
    proof {
        assert(d.take(n - start) =~= d);
    }
    Some(acc as u8)
}

} // verus!
