//! Moving around a ring of positions.
use vstd::prelude::*;

verus! {

/// The position some steps further around a ring of `n`, or back where the steps are negative.
pub open spec fn step(cur: int, delta: int, n: int) -> int {
    (cur + delta) % n
}

/// The next position around a ring.
pub fn next_of(cur: usize, n: usize) -> (r: usize)
    requires
        cur < n,
    ensures
        r == step(cur as int, 1, n as int),
        r < n,
{
    proof {
        if cur == n - 1 {
            vstd::arithmetic::div_mod::lemma_mod_self_0(n as int);
        } else {
            vstd::arithmetic::div_mod::lemma_small_mod((cur + 1) as nat, n as nat);
        }
    }
    if cur == n - 1 {
        0
    } else {
        cur + 1
    }
}

/// The previous position around a ring.
pub fn prev_of(cur: usize, n: usize) -> (r: usize)
    requires
        cur < n,
    ensures
        r == step(cur as int, -1, n as int),
        r < n,
{
    proof {
        if cur == 0 {
            vstd::arithmetic::div_mod::lemma_mod_add_multiples_vanish(-1, n as int);
            vstd::arithmetic::div_mod::lemma_small_mod((n - 1) as nat, n as nat);
        } else {
            vstd::arithmetic::div_mod::lemma_small_mod((cur - 1) as nat, n as nat);
        }
    }
    if cur == 0 {
        n - 1
    } else {
        cur - 1
    }
}

/// The position some steps further around a ring, or back.
pub fn stepped(cur: usize, delta: isize, n: usize) -> (r: usize)
    requires
        cur < n,
    ensures
        r == step(cur as int, delta as int, n as int),
        r < n,
{
    let at: i128 = cur as i128 + delta as i128;
    let len: i128 = n as i128;
    if at >= 0 {
        proof {
            vstd::arithmetic::div_mod::lemma_mod_bound(at as int, len as int);
        }
        (at % len) as usize
    } else {
        let back: i128 = -at;
        let rest: i128 = back % len;
        let r: i128 = if rest == 0 {
            0
        } else {
            len - rest
        };
        proof {
            let q = back as int / len as int;
            vstd::arithmetic::div_mod::lemma_fundamental_div_mod(back as int, len as int);
            vstd::arithmetic::div_mod::lemma_mod_bound(back as int, len as int);
            let k = if rest == 0 {
                -q
            } else {
                -q - 1
            };
            assert(at == len * k + r) by (nonlinear_arith)
                requires
                    at == -back,
                    back == len * q + rest,
                    rest == 0 ==> k == -q && r == 0,
                    rest != 0 ==> k == -q - 1 && r == len - rest,
            ;
            assert(at == k * len + r) by (nonlinear_arith)
                requires
                    at == len * k + r,
            ;
            vstd::arithmetic::div_mod::lemma_fundamental_div_mod_converse(
                at as int,
                len as int,
                k,
                r as int,
            );
        }
        r as usize
    }
}

/// So many steps and as many back end where they began; and a single step from either end of
/// the ring reaches the other.
pub proof fn law_steps_and_back(cur: int, delta: int, n: int)
    requires
        0 <= cur < n,
    ensures
        0 <= step(cur, delta, n) < n,
        step(step(cur, delta, n), -delta, n) == cur,
        step(n - 1, 1, n) == 0,
        step(0, -1, n) == n - 1,
{
    vstd::arithmetic::div_mod::lemma_mod_bound(cur + delta, n);
    vstd::arithmetic::div_mod::lemma_small_mod(cur as nat, n as nat);
    vstd::arithmetic::div_mod::lemma_add_mod_noop(cur + delta, -delta, n);
    vstd::arithmetic::div_mod::lemma_add_mod_noop((cur + delta) % n, -delta, n);
    vstd::arithmetic::div_mod::lemma_mod_twice(cur + delta, n);
    vstd::arithmetic::div_mod::lemma_mod_self_0(n);
    vstd::arithmetic::div_mod::lemma_mod_add_multiples_vanish(-1, n);
    vstd::arithmetic::div_mod::lemma_small_mod((n - 1) as nat, n as nat);
}

/// A step forward and a step back, in either order, end where they began.
pub proof fn law_step_and_back(cur: int, n: int)
    requires
        0 <= cur < n,
    ensures
        step(step(cur, 1, n), -1, n) == cur,
        step(step(cur, -1, n), 1, n) == cur,
{
    vstd::arithmetic::div_mod::lemma_small_mod(cur as nat, n as nat);
    vstd::arithmetic::div_mod::lemma_add_mod_noop(cur + 1, -1, n);
    vstd::arithmetic::div_mod::lemma_add_mod_noop(cur - 1, 1, n);
    vstd::arithmetic::div_mod::lemma_add_mod_noop((cur + 1) % n, -1, n);
    vstd::arithmetic::div_mod::lemma_add_mod_noop((cur - 1) % n, 1, n);
    vstd::arithmetic::div_mod::lemma_mod_twice(cur + 1, n);
    vstd::arithmetic::div_mod::lemma_mod_twice(cur - 1, n);
}

} // verus!
