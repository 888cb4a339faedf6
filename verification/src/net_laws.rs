//! What holds of addresses and of what is typed on the command line.
use vstd::prelude::*;
use vstd::string::*;

use crate::cli::without_gaps;
use crate::components::members::hex_text;
use crate::form_laws::law_hex_tells_bytes_apart;
use crate::net::{hyphenated, list_url, socket_base, without_slashes};
use crate::text::is_space;

verus! {

/// An address without the slashes at its end ends in none, and lacks nothing but slashes.
pub proof fn law_only_slashes_are_cut(s: Seq<char>) -> (n: int)
    ensures
        0 <= n <= s.len(),
        without_slashes(s) == s.take(n),
        n > 0 ==> s[n - 1] != '/',
        forall|i: int| n <= i < s.len() ==> #[trigger] s[i] == '/',
    decreases s.len(),
{
    if s.len() > 0 && s.last() == '/' {
        let n = law_only_slashes_are_cut(s.drop_last());
        assert(s.drop_last().take(n) =~= s.take(n));
        assert forall|i: int| n <= i < s.len() implies #[trigger] s[i] == '/' by {
            if i < s.len() - 1 {
                assert(s.drop_last()[i] == s[i]);
            }
        }
        n
    } else {
        assert(s.take(s.len() as int) =~= s);
        s.len() as int
    }
}

/// Live updates are at the same place as the rest, under the scheme of web sockets: secure where
/// the rest is secure, and only there.
pub proof fn law_sockets_are_as_secure(rest: Seq<char>)
    ensures
        socket_base("https://"@ + rest) == "wss://"@ + rest,
        socket_base("http://"@ + rest) == "ws://"@ + rest,
{
    reveal_strlit("https://");
    reveal_strlit("http://");
    let a = "https://"@ + rest;
    let b = "http://"@ + rest;
    assert(a.subrange(0, 8) =~= "https://"@);
    assert(a.skip(8) =~= rest);
    assert(b.subrange(0, 7) =~= "http://"@);
    assert(b.skip(7) =~= rest);
    assert(b[4] == ':');
    if b.len() >= 8 && b.subrange(0, 8) == "https://"@ {
        assert(b.subrange(0, 8)[4] == b[4]);
        assert("https://"@[4] == 's');
    }
}

/// Different lists have different addresses.
pub proof fn law_lists_have_their_own_addresses(
    base: Seq<char>,
    a: Seq<u8>,
    b: Seq<u8>,
    part: Seq<char>,
)
    requires
        a.len() == 16,
        b.len() == 16,
        list_url(base, hyphenated(a), part) == list_url(base, hyphenated(b), part),
    ensures
        a == b,
{
    let x = hyphenated(a);
    let y = hyphenated(b);
    lemma_hyphenated(a);
    lemma_hyphenated(b);
    let n = base.len() + "/v1/lists/"@.len();
    let u = list_url(base, x, part);
    assert(u.subrange(n as int, n as int + 36) =~= x);
    assert(list_url(base, y, part).subrange(n as int, n as int + 36) =~= y);
    assert(x == y);
    law_hex_tells_bytes_apart(a.subrange(0, 4), b.subrange(0, 4));
    law_hex_tells_bytes_apart(a.subrange(4, 6), b.subrange(4, 6));
    law_hex_tells_bytes_apart(a.subrange(6, 8), b.subrange(6, 8));
    law_hex_tells_bytes_apart(a.subrange(8, 10), b.subrange(8, 10));
    law_hex_tells_bytes_apart(a.subrange(10, 16), b.subrange(10, 16));
    assert forall|i: int| 0 <= i < 16 implies a[i] == b[i] by {
        if i < 4 {
            assert(a.subrange(0, 4)[i] == b.subrange(0, 4)[i]);
        } else if i < 6 {
            assert(a.subrange(4, 6)[i - 4] == b.subrange(4, 6)[i - 4]);
        } else if i < 8 {
            assert(a.subrange(6, 8)[i - 6] == b.subrange(6, 8)[i - 6]);
        } else if i < 10 {
            assert(a.subrange(8, 10)[i - 8] == b.subrange(8, 10)[i - 8]);
        } else {
            assert(a.subrange(10, 16)[i - 10] == b.subrange(10, 16)[i - 10]);
        }
    }
    assert(a =~= b);
}

proof fn lemma_hex_len(a: Seq<u8>)
    ensures
        hex_text(a).len() == 2 * a.len(),
    decreases a.len(),
{
    if a.len() > 0 {
        lemma_hex_len(a.drop_last());
    }
}

/// The hyphenated form has 36 characters, with the digits of each part at its place.
proof fn lemma_hyphenated(a: Seq<u8>)
    requires
        a.len() == 16,
    ensures
        hyphenated(a).len() == 36,
        hyphenated(a).subrange(0, 8) == hex_text(a.subrange(0, 4)),
        hyphenated(a).subrange(9, 13) == hex_text(a.subrange(4, 6)),
        hyphenated(a).subrange(14, 18) == hex_text(a.subrange(6, 8)),
        hyphenated(a).subrange(19, 23) == hex_text(a.subrange(8, 10)),
        hyphenated(a).subrange(24, 36) == hex_text(a.subrange(10, 16)),
{
    reveal_strlit("-");
    lemma_hex_len(a.subrange(0, 4));
    lemma_hex_len(a.subrange(4, 6));
    lemma_hex_len(a.subrange(6, 8));
    lemma_hex_len(a.subrange(8, 10));
    lemma_hex_len(a.subrange(10, 16));
    assert(hyphenated(a).subrange(0, 8) =~= hex_text(a.subrange(0, 4)));
    assert(hyphenated(a).subrange(9, 13) =~= hex_text(a.subrange(4, 6)));
    assert(hyphenated(a).subrange(14, 18) =~= hex_text(a.subrange(6, 8)));
    assert(hyphenated(a).subrange(19, 23) =~= hex_text(a.subrange(8, 10)));
    assert(hyphenated(a).subrange(24, 36) =~= hex_text(a.subrange(10, 16)));
}

/// A recovery key counts without its dashes and white space, and with everything else in its
/// order.
pub proof fn law_gaps_do_not_count(s: Seq<char>)
    ensures
        without_gaps(s) == s.filter(|c: char| c != '-' && !is_space(c)),
    decreases s.len(),
{
    reveal(Seq::filter);
    if s.len() > 0 {
        law_gaps_do_not_count(s.drop_last());
    }
}

} // verus!
