//! What a session holds in memory: the unlocked identity, and the data keys of the
//! lists. None of it is ever stored.
use vstd::prelude::*;
use vstd::string::*;

use crate::auth::UnlockedKeys;
use crate::crypto::{open_sealed, opened_dek};
use crate::db::KeySlotRow;
use crate::model::{Ed25519Pub, Epoch, ListId, MemberId, X25519Pub};
use crate::table::{find, found, law_upsert_keeps_others, law_upserted_is_found, upsert, upserted, Row};

verus! {

/// The data key of a list under an epoch.
#[derive(Clone, Copy)]
pub struct Dek {
    pub list_id: ListId,
    pub epoch: Epoch,
    pub dek: [u8; 32],
}

impl Row<(ListId, Epoch)> for Dek {
    open spec fn has_key(self, key: (ListId, Epoch)) -> bool {
        self.list_id == key.0 && self.epoch == key.1
    }

    fn is_key(&self, key: &(ListId, Epoch)) -> (r: bool) {
        self.list_id == key.0 && self.epoch == key.1
    }
}

/// The data key of a list under an epoch, if it is known.
pub open spec fn dek_in(deks: Seq<Dek>, list_id: ListId, epoch: Epoch) -> Option<[u8; 32]> {
    match found(deks, (list_id, epoch)) {
        Some(i) => Some(deks[i].dek),
        None => None,
    }
}

/// The array of 32 bytes.
pub open spec fn array_of(bytes: Seq<u8>) -> [u8; 32] {
    choose|a: [u8; 32]| (#[trigger] a@) == bytes
}

/// The data keys with those that sealed slots hold; a slot that cannot be opened is
/// skipped.
pub open spec fn rehydrated(
    deks: Seq<Dek>,
    slots: Seq<KeySlotRow>,
    public: Seq<u8>,
    secret: Seq<u8>,
) -> Seq<Dek>
    decreases slots.len(),
{
    if slots.len() == 0 {
        deks
    } else {
        let s = slots.last();
        let before = rehydrated(deks, slots.drop_last(), public, secret);
        match opened_dek(s.wrapped_dek@, public, secret) {
            None => before,
            Some(k) => upserted(
                before,
                (s.list_id, s.epoch),
                Dek { list_id: s.list_id, epoch: s.epoch, dek: array_of(k) },
            ),
        }
    }
}

/// A session.
pub struct Session {
    pub member_id: MemberId,
    pub identity_secret: [u8; 32],
    pub identity_pub: X25519Pub,
    pub signing_seed: [u8; 32],
    pub signing_pub: Ed25519Pub,
    pub token: String,
    pub deks: Vec<Dek>,
}

impl Session {
    /// Whether two sessions differ in their data keys alone.
    pub open spec fn same_identity(self, other: Session) -> bool {
        self.member_id == other.member_id && self.identity_secret == other.identity_secret
            && self.identity_pub == other.identity_pub && self.signing_seed == other.signing_seed
            && self.signing_pub == other.signing_pub && self.token == other.token
    }

    /// Whether a session knows one more data key than this one, and all else as before.
    pub open spec fn learns(
        self,
        after: Session,
        list_id: ListId,
        epoch: Epoch,
        dek: [u8; 32],
    ) -> bool {
        &&& self.same_identity(after)
        &&& after.key_of(list_id, epoch) == Some(dek)
        &&& forall|l: ListId, e: Epoch|
            (l, e) != (list_id, epoch) ==> after.key_of(l, e) == #[trigger] self.key_of(l, e)
    }

    /// The data key of a list under an epoch, if it is known.
    pub open spec fn key_of(self, list_id: ListId, epoch: Epoch) -> Option<[u8; 32]> {
        dek_in(self.deks@, list_id, epoch)
    }

    /// A session with an unlocked identity, and no data keys yet.
    pub fn new(keys: &UnlockedKeys) -> (r: Session)
        ensures
            r.member_id == keys.member_id,
            r.identity_secret == keys.identity_secret,
            r.identity_pub == keys.identity_pub,
            r.signing_seed == keys.signing_seed,
            r.signing_pub == keys.signing_pub,
            r.token@ == keys.token@,
            r.deks@ == Seq::<Dek>::empty(),
    {
        Session {
            member_id: keys.member_id,
            identity_secret: keys.identity_secret,
            identity_pub: keys.identity_pub,
            signing_seed: keys.signing_seed,
            signing_pub: keys.signing_pub,
            token: keys.token.clone(),
            deks: Vec::new(),
        }
    }

    /// Opens every sealed data key that was stored.
    pub fn rehydrate(&mut self, slots: &Vec<KeySlotRow>)
        ensures
            old(self).same_identity(*final(self)),
            final(self).deks@ == rehydrated(
                old(self).deks@,
                slots@,
                old(self).identity_pub.0@,
                old(self).identity_secret@,
            ),
    {
        let ghost start = self.deks@;
        let ghost public = self.identity_pub.0@;
        let ghost secret = self.identity_secret@;
        let n: usize = slots.len();
        let mut i: usize = 0;
        proof {
            assert(slots@.take(0) =~= Seq::empty());
        }
        while i < n
            invariant
                i <= n,
                n == slots@.len(),
                old(self).same_identity(*self),
                public == self.identity_pub.0@,
                secret == self.identity_secret@,
                self.deks@ == rehydrated(start, slots@.take(i as int), public, secret),
            decreases n - i,
        {
            proof {
                assert(slots@.take(i + 1).drop_last() =~= slots@.take(i as int));
                assert(slots@.take(i + 1).last() == slots@[i as int]);
            }
            let slot = &slots[i];
            match open_sealed(
                slot.wrapped_dek.as_slice(),
                &self.identity_pub,
                &self.identity_secret,
            ) {
                Ok(dek) => {
                    proof {
                        assert(dek@ =~= array_of(dek@)@);
                        assert(dek == array_of(dek@));
                    }
                    let row = Dek { list_id: slot.list_id, epoch: slot.epoch, dek };
                    upsert(&mut self.deks, &(slot.list_id, slot.epoch), row);
                },
                Err(_) => {},
            }
            i = i + 1;
        }
        proof {
            assert(slots@.take(n as int) =~= slots@);
        }
    }

    /// The data key of a list under an epoch, if it is known.
    pub fn dek(&self, list_id: ListId, epoch: Epoch) -> (r: Option<[u8; 32]>)
        ensures
            r == self.key_of(list_id, epoch),
    {
        match find(&self.deks, &(list_id, epoch)) {
            Some(i) => Some(self.deks[i].dek),
            None => None,
        }
    }

    /// Records a data key.
    pub fn insert_dek(&mut self, list_id: ListId, epoch: Epoch, dek: [u8; 32])
        ensures
            old(self).learns(*final(self), list_id, epoch, dek),
            final(self).deks@ == upserted(
                old(self).deks@,
                (list_id, epoch),
                Dek { list_id, epoch, dek },
            ),
    {
        let row = Dek { list_id, epoch, dek };
        let ghost before = self.deks@;
        upsert(&mut self.deks, &(list_id, epoch), row);
        proof {
            law_upserted_is_found(before, (list_id, epoch), row);
            assert forall|l: ListId, e: Epoch| (l, e) != (list_id, epoch) implies self.key_of(l, e)
                == #[trigger] old(self).key_of(l, e) by {
                law_upsert_keeps_others(before, (list_id, epoch), row, (l, e));
            }
        }
    }

    pub fn member_id(&self) -> (r: MemberId)
        ensures
            r == self.member_id,
    {
        self.member_id
    }

    pub fn identity_pub(&self) -> (r: X25519Pub)
        ensures
            r == self.identity_pub,
    {
        self.identity_pub
    }

    pub fn signing_pub(&self) -> (r: Ed25519Pub)
        ensures
            r == self.signing_pub,
    {
        self.signing_pub
    }

    pub fn token(&self) -> (r: &str)
        ensures
            r@ == self.token@,
    {
        self.token.as_str()
    }

    /// The seed of the key that updates are signed with.
    pub fn signing_key(&self) -> (r: &[u8; 32])
        ensures
            *r == self.signing_seed,
    {
        &self.signing_seed
    }
}

} // verus!
