//! Where the server is, and what a reply of it decides.
use vstd::prelude::*;
use vstd::string::*;

use crate::components::members::hex_text;
use crate::auth::{offline_unlock, unlock_offline, AccountRow, UnlockedKeys};
use crate::keymap::opt_text;
use crate::model::ListId;
use crate::text::{begins_with, chars_of, joined, slice_chars, to_text};

verus! {

// ── Addresses ───────────────────────────────────────────────────────────────

/// A text without the slashes at its end.
pub open spec fn without_slashes(s: Seq<char>) -> Seq<char>
    decreases s.len(),
{
    if s.len() > 0 && s.last() == '/' {
        without_slashes(s.drop_last())
    } else {
        s
    }
}

/// An address without the slashes at its end.
pub fn base_of(url: &str) -> (r: String)
    ensures
        r@ == without_slashes(url@),
{
    let v = chars_of(url);
    let mut n: usize = v.len();
    proof {
        assert(v@.take(n as int) =~= v@);
    }
    while n > 0 && v[n - 1] == '/'
        invariant
            n <= v@.len(),
            without_slashes(v@.take(n as int)) == without_slashes(v@),
        decreases n,
    {
        proof {
            assert(v@.take(n as int).drop_last() =~= v@.take(n - 1));
        }
        n = n - 1;
    }
    proof {
        if n > 0 {
            assert(v@.take(n as int).last() == v@[n - 1]);
        }
        assert(v@.subrange(0, n as int) =~= v@.take(n as int));
    }
    let kept = slice_chars(&v, 0, n);
    to_text(&kept)
}

/// The address of a route of the server.
pub fn endpoint(url: &str, route: &str) -> (r: String)
    ensures
        r@ == without_slashes(url@) + route@,
{
    let base = base_of(url);
    joined(base.as_str(), route)
}

pub const REGISTER_START: &'static str = "/v1/auth/register/start";

pub const REGISTER_FINISH: &'static str = "/v1/auth/register/finish";

pub const LOGIN_START: &'static str = "/v1/auth/login/start";

pub const LOGIN_FINISH: &'static str = "/v1/auth/login/finish";

/// The text of a 16-byte number: its hexadecimal digits in five groups.
pub open spec fn hyphenated(b: Seq<u8>) -> Seq<char> {
    hex_text(b.subrange(0, 4)) + "-"@ + hex_text(b.subrange(4, 6)) + "-"@ + hex_text(
        b.subrange(6, 8),
    ) + "-"@ + hex_text(b.subrange(8, 10)) + "-"@ + hex_text(b.subrange(10, 16))
}

/// `uuid::Uuid::to_string`, through its `Display`: the hyphenated form in lower case.
#[verifier::external_body]
pub(crate) fn uuid_string(bytes: [u8; 16]) -> (r: String)
    ensures
        r@ == hyphenated(bytes@),
{
    uuid::Uuid::from_bytes(bytes).to_string()
}

/// The address of something that belongs to a list. `id` is the list's number in text.
pub open spec fn list_url(base: Seq<char>, id: Seq<char>, part: Seq<char>) -> Seq<char> {
    base + "/v1/lists/"@ + id + part
}

fn list_endpoint(base: &str, id: ListId, part: &str) -> (r: String)
    ensures
        r@ == list_url(base@, hyphenated(id.0@), part@),
{
    let number = uuid_string(id.0);
    let mut s = String::new();
    s.append(base);
    s.append("/v1/lists/");
    s.append(number.as_str());
    s.append(part);
    proof {
        assert(s@ =~= list_url(base@, hyphenated(id.0@), part@));
    }
    s
}

/// The address of a list's snapshot.
pub fn snapshot_url(url: &str, id: ListId) -> (r: String)
    ensures
        r@ == list_url(without_slashes(url@), hyphenated(id.0@), "/snapshot"@),
{
    let base = base_of(url);
    list_endpoint(base.as_str(), id, "/snapshot")
}

/// A server's address under the scheme of web sockets; one that is under neither scheme
/// of the web stays as it is.
pub open spec fn socket_base(base: Seq<char>) -> Seq<char> {
    if begins_with(base, "https://"@) {
        "wss://"@ + base.skip(8)
    } else if begins_with(base, "http://"@) {
        "ws://"@ + base.skip(7)
    } else {
        base
    }
}

/// The rest of a text behind a beginning; `None` where it begins otherwise.
fn strip_prefix(s: &str, p: &str) -> (r: Option<String>)
    ensures
        opt_text(r) == (if begins_with(s@, p@) {
            Some(s@.skip(p@.len() as int))
        } else {
            None
        }),
{
    let v = chars_of(s);
    let q = chars_of(p);
    if crate::text::stands_at(&v, &q, 0) {
        proof {
            assert(v@.subrange(q@.len() as int, v@.len() as int) =~= v@.skip(q@.len() as int));
        }
        let rest = slice_chars(&v, q.len(), v.len());
        Some(to_text(&rest))
    } else {
        None
    }
}

/// The address of a list's live updates.
pub fn socket_url(url: &str, id: ListId) -> (r: String)
    ensures
        r@ == list_url(socket_base(without_slashes(url@)), hyphenated(id.0@), "/ws"@),
{
    proof {
        reveal_strlit("https://");
        reveal_strlit("http://");
    }
    let base = base_of(url);
    let ws: String = match strip_prefix(base.as_str(), "https://") {
        Some(rest) => joined("wss://", rest.as_str()),
        None => match strip_prefix(base.as_str(), "http://") {
            Some(rest) => joined("ws://", rest.as_str()),
            None => base,
        },
    };
    list_endpoint(ws.as_str(), id, "/ws")
}

/// The status that the server gives for what it does not have.
pub const NOT_FOUND: u16 = 404;

/// What a reply to a request for a snapshot means.
#[derive(Clone, Copy, Debug, PartialEq, Eq, Structural)]
pub enum SnapshotReply {
    /// The list was never compacted.
    Missing,
    /// The server refused.
    Rejected,
    /// The body holds the snapshot.
    Present,
}

/// What a reply to a request for a snapshot means, by its status.
pub fn snapshot_reply(status: u16) -> (r: SnapshotReply)
    ensures
        r == (if status == NOT_FOUND {
            SnapshotReply::Missing
        } else if 400 <= status <= 599 {
            SnapshotReply::Rejected
        } else {
            SnapshotReply::Present
        }),
{
    if status == NOT_FOUND {
        SnapshotReply::Missing
    } else if status >= 400 && status <= 599 {
        SnapshotReply::Rejected
    } else {
        SnapshotReply::Present
    }
}

// ── Logging in ──────────────────────────────────────────────────────────────

/// Why nobody is logged in.
#[derive(Clone, Copy, Debug, PartialEq, Eq, Structural)]
pub enum LoginError {
    /// The server could not be used, and this device has no account.
    Online,
    /// The server could not be used, nor did the password open this device's account.
    Offline,
}

impl LoginError {
    /// What the error says.
    pub open spec fn text(self) -> Seq<char> {
        match self {
            LoginError::Online => "online login failed"@,
            LoginError::Offline => "failed to unlock secret keys offline"@,
        }
    }

    /// What the error says.
    pub fn message(self) -> (r: &'static str)
        ensures
            r@ == self.text(),
    {
        match self {
            LoginError::Online => "online login failed",
            LoginError::Offline => "failed to unlock secret keys offline",
        }
    }
}

/// Whether keys are those that a password opens in an account of this device.
pub open spec fn opened_locally(keys: UnlockedKeys, password: Seq<char>, a: AccountRow) -> bool {
    offline_unlock(password, a) matches Ok((id, seed)) && keys.member_id == a.member_id
        && keys.identity_secret@ == id && keys.identity_pub == a.identity_pub
        && keys.signing_seed@ == seed && keys.signing_pub == a.signing_pub && keys.token@
        == Seq::<char>::empty()
}

/// Falls back to the account of this device, once the server could not be used.
pub fn local_unlock(account: Option<&AccountRow>, password: &str) -> (r: Result<
    UnlockedKeys,
    LoginError,
>)
    ensures
        match account {
            None => r matches Err(e) && e == LoginError::Online,
            Some(a) => match offline_unlock(password@, *a) {
                Ok(_) => r matches Ok(k) && opened_locally(k, password@, *a),
                Err(_) => r matches Err(e) && e == LoginError::Offline,
            },
        },
{
    match account {
        None => Err(LoginError::Online),
        Some(a) => match unlock_offline(password, a) {
            Ok(k) => Ok(k),
            Err(_) => Err(LoginError::Offline),
        },
    }
}

/// What a login comes to: the keys that the server's escrow gave, else those of this
/// device's account. `online` is what the exchange with the server gave, if it went
/// through.
pub fn login(
    online: Option<UnlockedKeys>,
    account: Option<&AccountRow>,
    password: &str,
) -> (r: Result<UnlockedKeys, LoginError>)
    ensures
        match (online, account) {
            (Some(k), _) => r matches Ok(x) && x == k,
            (None, None) => r matches Err(e) && e == LoginError::Online,
            (None, Some(a)) => match offline_unlock(password@, *a) {
                Ok(_) => r matches Ok(k) && opened_locally(k, password@, *a),
                Err(_) => r matches Err(e) && e == LoginError::Offline,
            },
        },
{
    match online {
        Some(k) => Ok(k),
        None => local_unlock(account, password),
    }
}

} // verus!
