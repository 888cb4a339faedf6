//! What holds of the layout of updates and wrapped identities, and of when they are refused.
use vstd::prelude::*;
use vstd::string::*;

use crate::auth::{account_key, offline_unlock, parameter, AccountRow};
use crate::crypto::{
    aead_open, ed25519_verifies, escrow_domain, is_wrapping, payload_aad, read_update,
    members_without, signed_bytes, slots_without, unwrapped,
};
use crate::error::AppError;
use crate::model::{KeySlot, ListId, Member, MemberId, UpdatePayload};

verus! {

/// What is authenticated with an update: its version, the list, the epoch with its lowest byte
/// first, the author and the nonce, in this order; and what is signed is that and the
/// ciphertext.
pub proof fn law_layout_of_an_update(p: UpdatePayload)
    ensures
        ({
            let a = payload_aad(p);
            &&& a.len() == 61
            &&& a[0] == p.version
            &&& a.subrange(1, 17) == p.list_id.0@
            &&& a[17] + 256 * a[18] + 65536 * a[19] + 16777216 * a[20] == p.epoch
            &&& a.subrange(21, 37) == p.author.0@
            &&& a.subrange(37, 61) == p.nonce@
            &&& signed_bytes(p).take(61) == a
            &&& signed_bytes(p).skip(61) == p.ciphertext@
        }),
{
    let a = payload_aad(p);
    assert(a.subrange(1, 17) =~= p.list_id.0@);
    assert(a.subrange(21, 37) =~= p.author.0@);
    assert(a.subrange(37, 61) =~= p.nonce@);
    assert(signed_bytes(p).take(61) =~= a);
    assert(signed_bytes(p).skip(61) =~= p.ciphertext@);
    let e = p.epoch as int;
    assert(a[17] == (e % 256) as u8);
    assert(a[18] == (e / 256 % 256) as u8);
    assert(a[19] == (e / 65536 % 256) as u8);
    assert(a[20] == (e / 16777216 % 256) as u8);
    assert(e == e % 256 + 256 * (e / 256 % 256) + 65536 * (e / 65536 % 256) + 16777216 * (e
        / 16777216 % 256)) by {
        assert(e / 256 == e / 256 % 256 + 256 * (e / 65536));
        assert(e / 65536 == e / 65536 % 256 + 256 * (e / 16777216));
        assert(0 <= e / 16777216 < 256);
    }
}

/// An update is read only where it is of the list that is expected, its author's signature is
/// valid and it opens under the key; what is read is what it opens to. The list counts before
/// the signature, and the signature before the key.
pub proof fn law_only_valid_updates_are_read(
    p: UpdatePayload,
    list_id: ListId,
    author_pub: Seq<u8>,
    dek: Seq<u8>,
)
    ensures
        ({
            let r = read_update(p, list_id, author_pub, dek);
            let of_list = p.list_id == list_id;
            let signed = ed25519_verifies(author_pub, signed_bytes(p), p.signature@);
            let opened = aead_open(dek, p.nonce@, payload_aad(p), p.ciphertext@);
            &&& r is Ok == (of_list && signed && opened is Some)
            &&& r is Ok ==> Some(r->Ok_0) == opened
            &&& !of_list ==> r == Err::<Seq<u8>, AppError>(AppError::WrongList)
            &&& of_list && !signed ==> r == Err::<Seq<u8>, AppError>(AppError::BadSignature)
            &&& of_list && signed && opened is None ==> r == Err::<Seq<u8>, AppError>(
                AppError::Aead,
            )
        }),
{
}

/// A wrapped identity is a nonce and what opens under it, with nothing authenticated besides, to
/// the identity's secret and the seed behind it.
pub proof fn law_layout_of_a_wrapping(
    master: Seq<u8>,
    id: Seq<u8>,
    seed: Seq<u8>,
    blob: Seq<u8>,
)
    requires
        is_wrapping(master, id, seed, blob),
        id.len() == 32,
        seed.len() == 32,
    ensures
        aead_open(master, blob.take(24), Seq::empty(), blob.skip(24)) matches Some(m) && m.len()
            == 64 && m.take(32) == id && m.skip(32) == seed,
        unwrapped(master, blob) == Some((id, seed)),
{
    assert((id + seed).take(32) =~= id);
    assert((id + seed).skip(32) =~= seed);
}

/// What is too short for a nonce, or opens to anything but two secrets of 32 bytes, is no
/// wrapped identity.
pub proof fn law_other_wrappings_are_refused(master: Seq<u8>, blob: Seq<u8>)
    ensures
        blob.len() < 24 ==> unwrapped(master, blob) is None,
        unwrapped(master, blob) matches Some(p) ==> p.0.len() == 32 && p.1.len() == 32
            && aead_open(master, blob.take(24), Seq::empty(), blob.skip(24)) == Some(p.0 + p.1),
{
    if let Some(p) = unwrapped(master, blob) {
        let m = aead_open(master, blob.take(24), Seq::empty(), blob.skip(24))->0;
        assert(m.take(32) + m.skip(32) =~= m);
    }
}

/// The key for the escrowed identity is derived under a domain of its own.
pub proof fn law_escrow_domain()
    ensures
        escrow_domain().len() == "todoers:escrow-wrap:v1"@.len(),
        forall|i: int|
            0 <= i < escrow_domain().len() ==> #[trigger] escrow_domain()[i] as int
                == "todoers:escrow-wrap:v1"@[i] as int,
{
    reveal_strlit("todoers:escrow-wrap:v1");
}

/// A stored parameter counts as it is stored; one that is out of range counts as the standard.
pub proof fn law_stored_parameters(stored: i64, standard: u32)
    ensures
        0 <= stored <= 0xffff_ffff ==> parameter(stored, standard) as int == stored as int,
        stored < 0 || stored > 0xffff_ffff ==> parameter(stored, standard) == standard,
{
}

/// An account is unlocked offline if and only if a key can be derived from the password and what
/// the account keeps unwraps under it; each failure has its error.
pub proof fn law_offline_unlock(password: Seq<char>, a: AccountRow)
    ensures
        ({
            let r = offline_unlock(password, a);
            let key = account_key(vstd::utf8::encode_utf8(password), a);
            &&& key is None ==> r == Err::<(Seq<u8>, Seq<u8>), AppError>(AppError::Kdf)
            &&& key is Some && unwrapped(key->0, a.wrapped_secret_keys@) is None ==> r == Err::<
                (Seq<u8>, Seq<u8>),
                AppError,
            >(AppError::Aead)
            &&& r matches Ok(p) ==> key is Some && unwrapped(key->0, a.wrapped_secret_keys@)
                == Some(p)
        }),
{
}

/// To remove a member from a list's keys keeps every other member and every other member's
/// slots, in their order, and nothing of the one who is removed.
pub proof fn law_removal_keeps_the_others(
    members: Seq<Member>,
    slots: Seq<KeySlot>,
    remove: MemberId,
)
    ensures
        members_without(members, remove) == members.filter(|m: Member| m.id != remove),
        slots_without(slots, remove) == slots.filter(|k: KeySlot| k.member != remove),
    decreases members.len() + slots.len(),
{
    reveal(Seq::filter);
    if members.len() > 0 {
        law_removal_keeps_the_others(members.drop_last(), slots, remove);
    }
    if slots.len() > 0 {
        law_removal_keeps_the_others(members, slots.drop_last(), remove);
    }
}

} // verus!
