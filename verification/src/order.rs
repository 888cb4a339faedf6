//! Comparing texts, and sorting so that equal items keep their order.
use vstd::prelude::*;

use crate::text::chars_of;

verus! {

/// Whether a text comes strictly before another: by its characters, from the left,
/// and a prefix before what it starts.
pub open spec fn text_before(a: Seq<char>, b: Seq<char>) -> bool
    decreases a.len(),
{
    if b.len() == 0 {
        false
    } else if a.len() == 0 {
        true
    } else if a[0] != b[0] {
        a[0] < b[0]
    } else {
        text_before(a.skip(1), b.skip(1))
    }
}

/// Texts are ordered: not both before each other, and "not after" carries over.
pub proof fn lemma_text_order(a: Seq<char>, b: Seq<char>, c: Seq<char>)
    ensures
        !(text_before(a, b) && text_before(b, a)),
        !text_before(b, a) && !text_before(c, b) ==> !text_before(c, a),
    decreases a.len() + b.len() + c.len(),
{
    if a.len() > 0 && b.len() > 0 && c.len() > 0 {
        lemma_text_order(a.skip(1), b.skip(1), c.skip(1));
    } else if a.len() > 0 && b.len() > 0 {
        lemma_text_order(a.skip(1), b.skip(1), c);
    }
}

/// Two texts of which neither comes before the other are the same.
pub proof fn lemma_text_equal(a: Seq<char>, b: Seq<char>)
    requires
        !text_before(a, b),
        !text_before(b, a),
    ensures
        a == b,
    decreases a.len(),
{
    if a.len() > 0 && b.len() > 0 {
        lemma_text_equal(a.skip(1), b.skip(1));
        assert(a =~= seq![a[0]] + a.skip(1));
        assert(b =~= seq![b[0]] + b.skip(1));
    } else {
        assert(a =~= b);
    }
}

/// Whether a text comes strictly before another.
pub fn is_text_before(a: &str, b: &str) -> (r: bool)
    ensures
        r == text_before(a@, b@),
{
    let x = chars_of(a);
    let y = chars_of(b);
    let mut i: usize = 0;
    proof {
        assert(x@.skip(0) =~= x@);
        assert(y@.skip(0) =~= y@);
    }
    while i < x.len() && i < y.len()
        invariant
            x@ == a@,
            y@ == b@,
            i <= x@.len(),
            i <= y@.len(),
            text_before(x@, y@) == text_before(x@.skip(i as int), y@.skip(i as int)),
        decreases x@.len() - i,
    {
        if x[i] != y[i] {
            return x[i] < y[i];
        }
        proof {
            assert(x@.skip(i as int).skip(1) =~= x@.skip(i + 1));
            assert(y@.skip(i as int).skip(1) =~= y@.skip(i + 1));
        }
        i = i + 1;
    }
    i < y.len()
}

/// Items that an order `C` puts in a row. The order goes by what an item shows, and is
/// a strict weak order.
pub trait Ordered<C>: Sized {
    /// What an item shows.
    type Shown;

    /// What an item shows.
    spec fn shown(self) -> Self::Shown;

    /// Whether an item comes strictly before another.
    spec fn before(a: Self::Shown, b: Self::Shown, order: C) -> bool;

    /// Not both before each other, and "not after" carries over.
    proof fn weak_order(a: Self::Shown, b: Self::Shown, c: Self::Shown, order: C)
        ensures
            !(Self::before(a, b, order) && Self::before(b, a, order)),
            !Self::before(b, a, order) && !Self::before(c, b, order) ==> !Self::before(
                c,
                a,
                order,
            ),
    ;

    /// Whether an item comes strictly before another.
    fn is_before(&self, other: &Self, order: &C) -> (r: bool)
        ensures
            r == Self::before(self.shown(), other.shown(), *order),
    ;
}

/// What items show.
pub open spec fn shown<C, T: Ordered<C>>(v: Seq<T>) -> Seq<T::Shown> {
    v.map_values(|x: T| x.shown())
}

/// The position at which an item goes into a sorted sequence: after everything
/// that it does not come before.
pub open spec fn place<C, T: Ordered<C>>(s: Seq<T::Shown>, x: T::Shown, order: C) -> int
    decreases s.len(),
{
    if s.len() == 0 {
        0
    } else if T::before(x, s.last(), order) {
        place::<C, T>(s.drop_last(), x, order)
    } else {
        s.len() as int
    }
}

/// The items in order; items of which neither comes before the other keep their
/// order.
pub open spec fn sorted<C, T: Ordered<C>>(s: Seq<T::Shown>, order: C) -> Seq<T::Shown>
    decreases s.len(),
{
    if s.len() == 0 {
        s
    } else {
        let init = sorted::<C, T>(s.drop_last(), order);
        init.insert(place::<C, T>(init, s.last(), order), s.last())
    }
}

proof fn lemma_place<C, T: Ordered<C>>(s: Seq<T::Shown>, x: T::Shown, order: C)
    ensures
        0 <= place::<C, T>(s, x, order) <= s.len(),
        place::<C, T>(s, x, order) > 0 ==> !T::before(
            x,
            s[place::<C, T>(s, x, order) - 1],
            order,
        ),
        forall|i: int|
            place::<C, T>(s, x, order) <= i < s.len() ==> T::before(x, #[trigger] s[i], order),
    decreases s.len(),
{
    if s.len() > 0 && T::before(x, s.last(), order) {
        lemma_place::<C, T>(s.drop_last(), x, order);
        assert forall|i: int| place::<C, T>(s, x, order) <= i < s.len() implies T::before(
            x,
            #[trigger] s[i],
            order,
        ) by {
            if i < s.len() - 1 {
                assert(s.drop_last()[i] == s[i]);
            }
        }
    }
}

/// Whether nothing comes before what stands ahead of it.
pub open spec fn in_order<C, T: Ordered<C>>(s: Seq<T::Shown>, order: C) -> bool {
    forall|i: int, j: int|
        0 <= i < j < s.len() ==> !T::before(#[trigger] s[j], #[trigger] s[i], order)
}

/// Sorting puts the items in order, and keeps exactly the items.
pub proof fn law_sorted<C, T: Ordered<C>>(s: Seq<T::Shown>, order: C)
    ensures
        in_order::<C, T>(sorted::<C, T>(s, order), order),
        sorted::<C, T>(s, order).to_multiset() == s.to_multiset(),
        sorted::<C, T>(s, order).len() == s.len(),
    decreases s.len(),
{
    if s.len() == 0 {
        assert(sorted::<C, T>(s, order) =~= s);
    } else {
        let init = sorted::<C, T>(s.drop_last(), order);
        let x = s.last();
        let p = place::<C, T>(init, x, order);
        let out = sorted::<C, T>(s, order);
        law_sorted::<C, T>(s.drop_last(), order);
        lemma_place::<C, T>(init, x, order);
        assert forall|i: int, j: int| 0 <= i < j < out.len() implies !T::before(
            #[trigger] out[j],
            #[trigger] out[i],
            order,
        ) by {
            if j == p {
                // Everything ahead of the item is not after it.
                assert(out[i] == init[i]);
                if i < p - 1 {
                    assert(!T::before(init[p - 1], init[i], order));
                    T::weak_order(init[i], init[p - 1], x, order);
                }
            } else if i == p {
                assert(out[j] == init[j - 1]);
                T::weak_order(x, init[j - 1], x, order);
            } else {
                let a = if i < p {
                    i
                } else {
                    i - 1
                };
                let b = if j < p {
                    j
                } else {
                    j - 1
                };
                assert(out[i] == init[a] && out[j] == init[b]);
            }
        }
        assert(s =~= s.drop_last().push(x));
        vstd::seq_lib::to_multiset_build(s.drop_last(), x);
        assert(out.to_multiset() =~= init.to_multiset().insert(x)) by {
            vstd::seq_lib::to_multiset_insert(init, p, x);
        }
    }
}

/// Whether neither of two items comes before the other.
pub open spec fn tied<C, T: Ordered<C>>(a: T::Shown, b: T::Shown, order: C) -> bool {
    !T::before(a, b, order) && !T::before(b, a, order)
}

proof fn lemma_filter_none<A>(s: Seq<A>, f: spec_fn(A) -> bool)
    requires
        forall|i: int| 0 <= i < s.len() ==> !f(#[trigger] s[i]),
    ensures
        s.filter(f) == Seq::<A>::empty(),
    decreases s.len(),
{
    reveal(Seq::filter);
    if s.len() > 0 {
        lemma_filter_none(s.drop_last(), f);
    }
}

/// Sorting is stable: the items that tie with `x` stay in the order that they had.
pub proof fn law_sort_is_stable<C, T: Ordered<C>>(s: Seq<T::Shown>, x: T::Shown, order: C)
    ensures
        ({
            let with_x = |y: T::Shown| tied::<C, T>(x, y, order);
            sorted::<C, T>(s, order).filter(with_x) == s.filter(with_x)
        }),
    decreases s.len(),
{
    let f = |y: T::Shown| tied::<C, T>(x, y, order);
    if s.len() > 0 {
        let init = sorted::<C, T>(s.drop_last(), order);
        let z = s.last();
        let p = place::<C, T>(init, z, order);
        let out = sorted::<C, T>(s, order);
        law_sort_is_stable::<C, T>(s.drop_last(), x, order);
        lemma_place::<C, T>(init, z, order);
        let front = init.take(p);
        let back = init.skip(p);
        assert(init =~= front + back);
        assert(out =~= front.push(z) + back);
        assert(s =~= s.drop_last().push(z));
        Seq::filter_distributes_over_add(front, back, f);
        Seq::filter_distributes_over_add(front.push(z), back, f);
        lemma_filter_push(front, z, f);
        lemma_filter_push(s.drop_last(), z, f);
        if f(z) {
            assert forall|i: int| 0 <= i < back.len() implies !f(#[trigger] back[i]) by {
                assert(back[i] == init[p + i]);
                // Were it tied with `x`, it would be tied with `z`, which comes before it.
                T::weak_order(back[i], x, z, order);
            }
            lemma_filter_none(back, f);
        }
        assert(out.filter(f) =~= s.filter(f));
    }
}

proof fn lemma_filter_push<A>(s: Seq<A>, z: A, f: spec_fn(A) -> bool)
    ensures
        s.push(z).filter(f) == (if f(z) {
            s.filter(f).push(z)
        } else {
            s.filter(f)
        }),
{
    reveal(Seq::filter);
    assert(s.push(z).drop_last() =~= s);
}

/// Sorts; items of which neither comes before the other keep their order.
pub fn sort<C, T: Ordered<C>>(items: &mut Vec<T>, order: &C)
    ensures
        shown::<C, T>(final(items)@) == sorted::<C, T>(shown::<C, T>(old(items)@), *order),
{
    let ghost all = items@;
    let ghost seen = shown::<C, T>(all);
    let mut out: Vec<T> = Vec::new();
    let ghost mut done: int = 0;
    proof {
        assert(seen.take(0) =~= Seq::<T::Shown>::empty());
        assert(all.skip(0) =~= all);
        assert(shown::<C, T>(out@) =~= Seq::<T::Shown>::empty());
    }
    while items.len() > 0
        invariant
            0 <= done <= all.len(),
            items@ == all.skip(done),
            seen == shown::<C, T>(all),
            shown::<C, T>(out@) == sorted::<C, T>(seen.take(done), *order),
        decreases items@.len(),
    {
        proof {
            assert(seen.take(done + 1).drop_last() =~= seen.take(done));
            assert(seen.take(done + 1).last() == all[done].shown());
            assert(all.skip(done).remove(0) =~= all.skip(done + 1));
        }
        let x = items.remove(0);
        let ghost before = shown::<C, T>(out@);
        let mut p: usize = out.len();
        proof {
            assert(before.take(before.len() as int) =~= before);
        }
        while p > 0 && x.is_before(&out[p - 1], order)
            invariant
                p <= out@.len(),
                before == shown::<C, T>(out@),
                place::<C, T>(before.take(p as int), x.shown(), *order) == place::<C, T>(
                    before,
                    x.shown(),
                    *order,
                ),
            decreases p,
        {
            proof {
                assert(before.take(p as int).drop_last() =~= before.take(p - 1));
                assert(before.take(p as int).last() == out@[p - 1].shown());
            }
            p = p - 1;
        }
        proof {
            if p > 0 {
                assert(before.take(p as int).last() == out@[p - 1].shown());
            }
            assert(p == place::<C, T>(before, x.shown(), *order));
        }
        let ghost y = x.shown();
        out.insert(p, x);
        proof {
            assert(shown::<C, T>(out@) =~= before.insert(p as int, y));
            done = done + 1;
        }
    }
    proof {
        assert(seen.take(seen.len() as int) =~= seen);
    }
    *items = out;
}

} // verus!
