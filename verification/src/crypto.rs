//! The cryptography of a shared list: encrypted and signed updates, data keys
//! sealed to the members, and the wrapping of a user's private identity.
use chacha20poly1305::aead::Aead;
use chacha20poly1305::{KeyInit, XChaCha20Poly1305, XNonce};
use dryoc::dryocbox::{DryocBox, KeyPair, PublicKey, VecBox};
use ed25519_dalek::{Signature, Signer, SigningKey, Verifier, VerifyingKey};
use rand_core::{OsRng, RngCore};
use sha2::{Digest, Sha256};
use vstd::prelude::*;
use zeroize::Zeroize;

use crate::error::{AppError, AppResult};
use crate::model::{
    Ed25519Pub, Epoch, KeySlot, ListId, ListMetadata, Member, MemberId, UpdatePayload, X25519Pub,
};

verus! {

broadcast use vstd::array::group_array_axioms;

// ── Trusted items ───────────────────────────────────────────────────────────

/// The XChaCha20-Poly1305 ciphertext, tag included, of a message.
pub uninterp spec fn aead_seal(
    key: Seq<u8>,
    nonce: Seq<u8>,
    aad: Seq<u8>,
    msg: Seq<u8>,
) -> Seq<u8>;

/// The message that an XChaCha20-Poly1305 ciphertext opens to; `None` where the tag
/// does not match.
pub uninterp spec fn aead_open(
    key: Seq<u8>,
    nonce: Seq<u8>,
    aad: Seq<u8>,
    ciphertext: Seq<u8>,
) -> Option<Seq<u8>>;

/// The length from which on a message is too long to encrypt.
pub open spec fn aead_limit() -> int {
    64int * 0xffff_ffffint
}

/// `XChaCha20Poly1305::encrypt`: the ciphertext of a message, which the same key,
/// nonce and associated data open again, and which is a tag of 16 bytes longer. Messages
/// beyond the cipher's limit are left out.
#[verifier::external_body]
fn encrypt(key: &[u8; 32], nonce: &[u8; 24], aad: &[u8], msg: &[u8]) -> (r: Vec<u8>)
    requires
        msg@.len() < aead_limit(),
    ensures
        r@ == aead_seal(key@, nonce@, aad@, msg@),
        aead_open(key@, nonce@, aad@, r@) == Some(msg@),
        r@.len() == msg@.len() + 16,
{
    let cipher = XChaCha20Poly1305::new(key.into());
    let payload = chacha20poly1305::aead::Payload { msg, aad };
    cipher.encrypt(XNonce::from_slice(nonce), payload).expect("message within the cipher's limit")
}

/// `XChaCha20Poly1305::decrypt`: the message of a ciphertext, if the tag matches. A
/// ciphertext that opens is the one that encrypting its message gives, tag included.
#[verifier::external_body]
fn decrypt(key: &[u8; 32], nonce: &[u8; 24], aad: &[u8], ciphertext: &[u8]) -> (r: Option<Vec<u8>>)
    ensures
        aead_open(key@, nonce@, aad@, ciphertext@) == (match r {
            Some(m) => Some(m@),
            None => None,
        }),
        r matches Some(m) ==> ciphertext@ == aead_seal(key@, nonce@, aad@, m@)
            && ciphertext@.len() == m@.len() + 16,
{
    let cipher = XChaCha20Poly1305::new(key.into());
    let payload = chacha20poly1305::aead::Payload { msg: ciphertext, aad };
    cipher.decrypt(XNonce::from_slice(nonce), payload).ok()
}

/// The Ed25519 public key of a seed.
pub uninterp spec fn ed25519_public(seed: Seq<u8>) -> Seq<u8>;

/// The Ed25519 signature of a message under a seed's key.
pub uninterp spec fn ed25519_sign(seed: Seq<u8>, msg: Seq<u8>) -> Seq<u8>;

/// Whether bytes are an Ed25519 public key under which a signature verifies.
pub uninterp spec fn ed25519_verifies(public: Seq<u8>, msg: Seq<u8>, signature: Seq<u8>) -> bool;

/// `SigningKey::verifying_key`: the public key of a seed.
#[verifier::external_body]
fn signing_public(seed: &[u8; 32]) -> (r: [u8; 32])
    ensures
        r@ == ed25519_public(seed@),
{
    SigningKey::from_bytes(seed).verifying_key().to_bytes()
}

/// `SigningKey::sign`: the signature of a message, which verifies under the
/// seed's public key.
#[verifier::external_body]
fn sign(seed: &[u8; 32], msg: &[u8]) -> (r: [u8; 64])
    ensures
        r@ == ed25519_sign(seed@, msg@),
        ed25519_verifies(ed25519_public(seed@), msg@, r@),
{
    SigningKey::from_bytes(seed).sign(msg).to_bytes()
}

/// `VerifyingKey::verify`, on a key read by `VerifyingKey::from_bytes`: whether the
/// bytes are a key and the signature verifies under it.
#[verifier::external_body]
fn verifies(public: &[u8; 32], msg: &[u8], signature: &[u8; 64]) -> (r: bool)
    ensures
        r == ed25519_verifies(public@, msg@, signature@),
{
    match VerifyingKey::from_bytes(public) {
        Ok(key) => key.verify(msg, &Signature::from_bytes(signature)).is_ok(),
        Err(_) => false,
    }
}

/// `SigningKey::generate`: the seed of a fresh key. Nothing is stated of the bytes.
#[verifier::external_body]
fn fresh_seed() -> (r: [u8; 32]) {
    SigningKey::generate(&mut OsRng).to_bytes()
}

/// The X25519 public key of a secret.
pub uninterp spec fn x25519_public(secret: Seq<u8>) -> Seq<u8>;

/// `x25519_dalek::PublicKey::from`: the public key of a secret.
#[verifier::external_body]
fn identity_public(secret: &[u8; 32]) -> (r: [u8; 32])
    ensures
        r@ == x25519_public(secret@),
{
    let s = x25519_dalek::StaticSecret::from(*secret);
    x25519_dalek::PublicKey::from(&s).to_bytes()
}

/// `StaticSecret::random_from_rng`: a fresh secret. Nothing is stated of the bytes.
#[verifier::external_body]
fn fresh_secret() -> (r: [u8; 32]) {
    x25519_dalek::StaticSecret::random_from_rng(OsRng).to_bytes()
}

/// The message that a sealed box opens to under a key pair, if it does.
pub uninterp spec fn box_open(
    wrapped: Seq<u8>,
    public: Seq<u8>,
    secret: Seq<u8>,
) -> Option<Seq<u8>>;

/// Whether a sealed box opens to `msg` for whoever holds the secret of `public`.
pub open spec fn sealed_for(wrapped: Seq<u8>, public: Seq<u8>, msg: Seq<u8>) -> bool {
    forall|secret: Seq<u8>|
        secret.len() == 32 && x25519_public(secret) == public ==> #[trigger] box_open(
            wrapped,
            public,
            secret,
        ) == Some(msg)
}

/// `DryocBox::seal_to_vecbox`: a sealed box for a public key. The box is made with
/// a fresh key each time; whoever holds the secret of the public key opens it.
#[verifier::external_body]
fn seal_box(msg: &[u8; 32], public: &[u8; 32]) -> (r: Vec<u8>)
    ensures
        sealed_for(r@, public@, msg@),
{
    DryocBox::seal_to_vecbox(msg, &PublicKey::from(*public)).expect("sealing a data key").to_vec()
}

/// `DryocBox::unseal_to_vec`, on a box read by `DryocBox::from_sealed_bytes`: the
/// message of a sealed box, if the key pair opens it.
#[verifier::external_body]
fn open_box(wrapped: &[u8], public: &[u8; 32], secret: &[u8; 32]) -> (r: Option<Vec<u8>>)
    ensures
        box_open(wrapped@, public@, secret@) == (match r {
            Some(m) => Some(m@),
            None => None,
        }),
{
    let keypair = KeyPair { public_key: PublicKey::from(*public), secret_key: secret.into() };
    let sealed: VecBox = DryocBox::from_sealed_bytes(wrapped).ok()?;
    sealed.unseal_to_vec(&keypair).ok()
}

/// The SHA-256 digest of bytes.
pub uninterp spec fn sha256(data: Seq<u8>) -> Seq<u8>;

/// `Sha256::finalize`, after two `chain_update` calls: the digest of the two parts
/// one after the other, 32 bytes long.
#[verifier::external_body]
fn digest(first: &[u8], second: &[u8]) -> (r: [u8; 32])
    ensures
        r@ == sha256(first@ + second@),
{
    Sha256::new().chain_update(first).chain_update(second).finalize().into()
}

/// The number of lanes from which on no key is derived.
pub const MAX_LANES: u32 = 0x2000_0000;

/// The 32-byte Argon2id (version 0x13) hash of a password, if the parameters and
/// the salt are valid.
pub uninterp spec fn argon2id(
    password: Seq<u8>,
    salt: Seq<u8>,
    mem_kib: u32,
    iters: u32,
    parallelism: u32,
) -> Option<Seq<u8>>;

/// `Argon2::hash_password_into`, with parameters made by `Params::new`: the hash,
/// or `None` where either refuses. `Params::new` multiplies the lanes by eight, which must
/// not overflow.
#[verifier::external_body]
fn argon2_hash(password: &[u8], salt: &[u8], mem_kib: u32, iters: u32, lanes: u32) -> (r: Option<
    [u8; 32],
>)
    requires
        lanes < MAX_LANES,
    ensures
        argon2id(password@, salt@, mem_kib, iters, lanes) == (match r {
            Some(k) => Some(k@),
            None => None,
        }),
{
    let params = argon2::Params::new(mem_kib, iters, lanes, Some(32)).ok()?;
    let argon = argon2::Argon2::new(argon2::Algorithm::Argon2id, argon2::Version::V0x13, params);
    let mut out = [0u8; 32];
    argon.hash_password_into(password, salt, &mut out).ok()?;
    Some(out)
}

/// `OsRng::fill_bytes`: random bytes. Nothing is stated of them.
#[verifier::external_body]
pub(crate) fn random_bytes<const N: usize>() -> (r: [u8; N]) {
    let mut out = [0u8; N];
    OsRng.fill_bytes(&mut out);
    out
}

/// `Zeroize::zeroize` on a vector: its bytes are overwritten and it is left empty.
#[verifier::external_body]
pub(crate) fn wipe(v: &mut Vec<u8>)
    ensures
        final(v)@.len() == 0,
{
    v.zeroize();
}

// ── Bytes ───────────────────────────────────────────────────────────────────

/// The four bytes of an epoch, lowest first.
pub open spec fn epoch_bytes(epoch: Epoch) -> Seq<u8> {
    let e = epoch as int;
    seq![(e % 256) as u8, (e / 256 % 256) as u8, (e / 65536 % 256) as u8, (e / 16777216 % 256) as u8]
}

/// Appends bytes.
fn extend(v: &mut Vec<u8>, more: &[u8])
    ensures
        final(v)@ == old(v)@ + more@,
{
    let ghost start = v@;
    let mut i: usize = 0;
    while i < more.len()
        invariant
            i <= more@.len(),
            v@ == start + more@.take(i as int),
        decreases more@.len() - i,
    {
        v.push(more[i]);
        proof {
            assert((start + more@.take(i as int)).push(more@[i as int]) =~= start + more@.take(
                i + 1,
            ));
        }
        i = i + 1;
    }
    proof {
        assert(more@.take(more@.len() as int) =~= more@);
    }
}

/// The 32 bytes of `v` from `at` on.
fn array32(v: &[u8], at: usize) -> (r: [u8; 32])
    requires
        at + 32 <= v@.len(),
    ensures
        r@ == v@.subrange(at as int, at + 32),
{
    let n: usize = v.len();
    let mut out = [0u8; 32];
    let mut i: usize = 0;
    while i < 32
        invariant
            i <= 32,
            n == v@.len(),
            at + 32 <= v@.len(),
            forall|j: int| 0 <= j < i ==> out@[j] == v@[at + j],
        decreases 32 - i,
    {
        out[i] = v[at + i];
        i = i + 1;
    }
    proof {
        assert(out@ =~= v@.subrange(at as int, at + 32));
    }
    out
}

/// The bytes as a 32-byte array, if there are exactly 32.
pub fn to_array32(v: &[u8]) -> (r: Option<[u8; 32]>)
    ensures
        match r {
            Some(a) => a@ == v@,
            None => v@.len() != 32,
        },
{
    if v.len() == 32 {
        let a = array32(v, 0);
        proof {
            assert(v@.subrange(0, 32) =~= v@);
        }
        Some(a)
    } else {
        None
    }
}

// ── Updates ─────────────────────────────────────────────────────────────────

/// The associated data of an update: its version, list, epoch, author and nonce,
/// each of fixed width, so that a ciphertext cannot be moved into another context.
pub open spec fn aad_of(
    version: u8,
    list_id: ListId,
    epoch: Epoch,
    author: MemberId,
    nonce: Seq<u8>,
) -> Seq<u8> {
    seq![version] + list_id.0@ + epoch_bytes(epoch) + author.0@ + nonce
}

/// The associated data of an update.
pub open spec fn payload_aad(p: UpdatePayload) -> Seq<u8> {
    aad_of(p.version, p.list_id, p.epoch, p.author, p.nonce@)
}

/// The bytes that an author signs: the associated data and the ciphertext.
pub open spec fn signed_bytes(p: UpdatePayload) -> Seq<u8> {
    payload_aad(p) + p.ciphertext@
}

/// The associated data of an update.
pub fn aead_aad(p: &UpdatePayload) -> (r: Vec<u8>)
    ensures
        r@ == payload_aad(*p),
{
    let mut v: Vec<u8> = Vec::new();
    v.push(p.version);
    proof {
        assert(v@ =~= seq![p.version]);
    }
    extend(&mut v, p.list_id.0.as_slice());
    let e: u32 = p.epoch;
    let ghost before = v@;
    v.push((e % 256) as u8);
    v.push((e / 256 % 256) as u8);
    v.push((e / 65536 % 256) as u8);
    v.push((e / 16777216 % 256) as u8);
    proof {
        assert(v@ =~= before + epoch_bytes(p.epoch));
    }
    extend(&mut v, p.author.0.as_slice());
    extend(&mut v, p.nonce.as_slice());
    v
}

/// The bytes that an author signs.
pub fn signing_view(p: &UpdatePayload) -> (r: Vec<u8>)
    ensures
        r@ == signed_bytes(*p),
{
    let mut v = aead_aad(p);
    extend(&mut v, p.ciphertext.as_slice());
    v
}

/// Whether `p` is the update `plain`, encrypted under `dek` and signed under
/// `seed`, in the context that it states.
pub open spec fn is_update_of(p: UpdatePayload, dek: Seq<u8>, seed: Seq<u8>, plain: Seq<u8>) -> bool {
    &&& p.ciphertext@ == aead_seal(dek, p.nonce@, payload_aad(p), plain)
    &&& aead_open(dek, p.nonce@, payload_aad(p), p.ciphertext@) == Some(plain)
    &&& p.signature@ == ed25519_sign(seed, signed_bytes(p))
    &&& ed25519_verifies(ed25519_public(seed), signed_bytes(p), p.signature@)
}

/// Encrypts an update and signs it, with a given nonce.
pub fn produce_update_with(
    version: u8,
    list_id: ListId,
    epoch: Epoch,
    author: MemberId,
    dek: &[u8; 32],
    signing_seed: &[u8; 32],
    update: &[u8],
    nonce: [u8; 24],
) -> (r: UpdatePayload)
    requires
        update@.len() < aead_limit(),
    ensures
        r.version == version,
        r.list_id == list_id,
        r.epoch == epoch,
        r.author == author,
        r.nonce == nonce,
        is_update_of(r, dek@, signing_seed@, update@),
{
    let mut payload = UpdatePayload {
        version,
        list_id,
        epoch,
        author,
        nonce,
        ciphertext: Vec::new(),
        signature: [0u8; 64],
    };
    let aad = aead_aad(&payload);
    payload.ciphertext = encrypt(dek, &nonce, aad.as_slice(), update);
    let view = signing_view(&payload);
    payload.signature = sign(signing_seed, view.as_slice());
    payload
}

/// Encrypts an update under a fresh nonce and signs it.
pub fn produce_update(
    version: u8,
    list_id: ListId,
    epoch: Epoch,
    author: MemberId,
    dek: &[u8; 32],
    signing_seed: &[u8; 32],
    update: &[u8],
) -> (r: AppResult<UpdatePayload>)
    requires
        update@.len() < aead_limit(),
    ensures
        r matches Ok(p) && p.version == version && p.list_id == list_id && p.epoch == epoch
            && p.author == author && is_update_of(p, dek@, signing_seed@, update@),
{
    let nonce: [u8; 24] = random_bytes();
    Ok(
        produce_update_with(version, list_id, epoch, author, dek, signing_seed, update, nonce),
    )
}

/// What reading an update yields: the list must be the expected one, the signature
/// must verify, and the data key must open the ciphertext, in this order.
pub open spec fn read_update(
    p: UpdatePayload,
    expect_list: ListId,
    author_pub: Seq<u8>,
    dek: Seq<u8>,
) -> Result<Seq<u8>, AppError> {
    if p.list_id != expect_list {
        Err(AppError::WrongList)
    } else if !ed25519_verifies(author_pub, signed_bytes(p), p.signature@) {
        Err(AppError::BadSignature)
    } else {
        match aead_open(dek, p.nonce@, payload_aad(p), p.ciphertext@) {
            Some(m) => Ok(m),
            None => Err(AppError::Aead),
        }
    }
}

/// The meaning of a result that holds bytes.
pub open spec fn bytes_result(r: AppResult<Vec<u8>>) -> Result<Seq<u8>, AppError> {
    match r {
        Ok(v) => Ok(v@),
        Err(e) => Err(e),
    }
}

/// Verifies the author's signature, then decrypts. What is read is what was encrypted under
/// this very key, in the context that the update states.
pub fn verify_and_decrypt(
    p: &UpdatePayload,
    expect_list: ListId,
    author_signing_pub: &Ed25519Pub,
    dek: &[u8; 32],
) -> (r: AppResult<Vec<u8>>)
    ensures
        bytes_result(r) == read_update(*p, expect_list, author_signing_pub.0@, dek@),
        r matches Ok(m) ==> p.ciphertext@ == aead_seal(dek@, p.nonce@, payload_aad(*p), m@),
{
    if p.list_id != expect_list {
        return Err(AppError::WrongList);
    }
    let view = signing_view(p);
    if !verifies(&author_signing_pub.0, view.as_slice(), &p.signature) {
        return Err(AppError::BadSignature);
    }
    let aad = aead_aad(p);
    match decrypt(dek, &p.nonce, aad.as_slice(), p.ciphertext.as_slice()) {
        Some(m) => Ok(m),
        None => Err(AppError::Aead),
    }
}

/// Whoever knows the author's public key and the data key reads back what the
/// author wrote.
pub proof fn law_update_round_trip(
    p: UpdatePayload,
    dek: Seq<u8>,
    seed: Seq<u8>,
    plain: Seq<u8>,
)
    requires
        is_update_of(p, dek, seed, plain),
    ensures
        read_update(p, p.list_id, ed25519_public(seed), dek) == Ok::<Seq<u8>, AppError>(plain),
{
}

/// An update of one list is refused wherever another list is expected.
pub proof fn law_update_stays_in_its_list(
    p: UpdatePayload,
    other: ListId,
    author_pub: Seq<u8>,
    dek: Seq<u8>,
)
    requires
        p.list_id != other,
    ensures
        read_update(p, other, author_pub, dek) == Err::<Seq<u8>, AppError>(AppError::WrongList),
{
}

/// An epoch is determined by its bytes.
proof fn lemma_epoch_bytes(a: Epoch, b: Epoch)
    ensures
        epoch_bytes(a) == epoch_bytes(b) ==> a == b,
{
    let x = epoch_bytes(a);
    let y = epoch_bytes(b);
    let m = a as int;
    let n = b as int;
    assert(x[0] == (m % 256) as u8 && x[1] == (m / 256 % 256) as u8 && x[2] == (m / 65536
        % 256) as u8 && x[3] == (m / 16777216 % 256) as u8);
    assert(y[0] == (n % 256) as u8 && y[1] == (n / 256 % 256) as u8 && y[2] == (n / 65536
        % 256) as u8 && y[3] == (n / 16777216 % 256) as u8);
    assert(m == m % 256 + 256 * (m / 256 % 256) + 65536 * (m / 65536 % 256) + 16777216 * (m
        / 16777216 % 256));
    assert(n == n % 256 + 256 * (n / 256 % 256) + 65536 * (n / 65536 % 256) + 16777216 * (n
        / 16777216 % 256));
}

/// Two updates with the same associated data agree in version, list, epoch, author
/// and nonce: the layout is unambiguous.
pub proof fn law_aad_is_unambiguous(p: UpdatePayload, q: UpdatePayload)
    requires
        payload_aad(p) == payload_aad(q),
    ensures
        p.version == q.version,
        p.list_id == q.list_id,
        p.epoch == q.epoch,
        p.author == q.author,
        p.nonce == q.nonce,
{
    let a = payload_aad(p);
    let b = payload_aad(q);
    assert(a[0] == p.version && b[0] == q.version);
    assert(a.subrange(1, 17) =~= p.list_id.0@);
    assert(b.subrange(1, 17) =~= q.list_id.0@);
    assert(a.subrange(17, 21) =~= epoch_bytes(p.epoch));
    assert(b.subrange(17, 21) =~= epoch_bytes(q.epoch));
    assert(a.subrange(21, 37) =~= p.author.0@);
    assert(b.subrange(21, 37) =~= q.author.0@);
    assert(a.subrange(37, 61) =~= p.nonce@);
    assert(b.subrange(37, 61) =~= q.nonce@);
    assert(p.list_id.0 == q.list_id.0);
    assert(p.author.0 == q.author.0);
    assert(p.nonce == q.nonce);
    lemma_epoch_bytes(p.epoch, q.epoch);
}

/// Two updates whose signed bytes are the same agree in everything but the signature.
pub proof fn law_signed_bytes_are_unambiguous(p: UpdatePayload, q: UpdatePayload)
    requires
        signed_bytes(p) == signed_bytes(q),
    ensures
        payload_aad(p) == payload_aad(q),
        p.version == q.version,
        p.list_id == q.list_id,
        p.epoch == q.epoch,
        p.author == q.author,
        p.nonce == q.nonce,
        p.ciphertext@ == q.ciphertext@,
{
    let a = signed_bytes(p);
    let b = signed_bytes(q);
    assert(payload_aad(p).len() == 61 && payload_aad(q).len() == 61);
    assert(a.take(61) =~= payload_aad(p));
    assert(b.take(61) =~= payload_aad(q));
    assert(a.skip(61) =~= p.ciphertext@);
    assert(b.skip(61) =~= q.ciphertext@);
    law_aad_is_unambiguous(p, q);
}

/// An update of which the version, the list, the epoch, the author, the nonce or the
/// ciphertext was changed is refused, unless its signature verifies for bytes that are not
/// those that the author signed. Whatever the change, a signature that does not verify for
/// the changed bytes, or under the given key, is an error.
pub proof fn law_changed_update_is_refused(
    p: UpdatePayload,
    changed: UpdatePayload,
    expect_list: ListId,
    author_pub: Seq<u8>,
    dek: Seq<u8>,
)
    requires
        changed.version != p.version || changed.list_id != p.list_id || changed.epoch != p.epoch
            || changed.author != p.author || changed.nonce != p.nonce || changed.ciphertext@
            != p.ciphertext@,
    ensures
        signed_bytes(changed) != signed_bytes(p),
        read_update(changed, expect_list, author_pub, dek) is Ok ==> ed25519_verifies(
            author_pub,
            signed_bytes(changed),
            changed.signature@,
        ),
{
    if signed_bytes(changed) == signed_bytes(p) {
        law_signed_bytes_are_unambiguous(changed, p);
    }
}

// ── Data keys ───────────────────────────────────────────────────────────────

/// A fresh data key.
pub fn generate_dek() -> (r: [u8; 32]) {
    random_bytes()
}

/// Seals a data key to a member's public key.
pub fn seal_to(dek: &[u8; 32], recipient: &X25519Pub) -> (r: Vec<u8>)
    ensures
        sealed_for(r@, recipient.0@, dek@),
{
    seal_box(dek, &recipient.0)
}

/// The data key that a sealed box holds for a key pair, if it holds one.
pub open spec fn opened_dek(wrapped: Seq<u8>, public: Seq<u8>, secret: Seq<u8>) -> Option<Seq<u8>> {
    match box_open(wrapped, public, secret) {
        Some(m) if m.len() == 32 => Some(m),
        _ => None,
    }
}

/// Opens a sealed data key with one's own key pair.
pub fn open_sealed(wrapped: &[u8], my_pub: &X25519Pub, my_secret: &[u8; 32]) -> (r: AppResult<
    [u8; 32],
>)
    ensures
        match r {
            Ok(k) => opened_dek(wrapped@, my_pub.0@, my_secret@) == Some(k@),
            Err(e) => e == AppError::Aead && opened_dek(wrapped@, my_pub.0@, my_secret@) is None,
        },
{
    match open_box(wrapped, &my_pub.0, my_secret) {
        Some(m) => match to_array32(m.as_slice()) {
            Some(k) => Ok(k),
            None => Err(AppError::Aead),
        },
        None => Err(AppError::Aead),
    }
}

/// Who holds the secret of the recipient's key opens what was sealed to it.
pub proof fn law_seal_then_open(wrapped: Seq<u8>, dek: Seq<u8>, secret: Seq<u8>)
    requires
        dek.len() == 32,
        secret.len() == 32,
        sealed_for(wrapped, x25519_public(secret), dek),
    ensures
        opened_dek(wrapped, x25519_public(secret), secret) == Some(dek),
{
    assert(box_open(wrapped, x25519_public(secret), secret) == Some(dek));
}

// ── Identities ──────────────────────────────────────────────────────────────

/// A fresh X25519 key pair: the secret and the public key.
pub fn generate_identity() -> (r: ([u8; 32], X25519Pub))
    ensures
        r.1.0@ == x25519_public(r.0@),
{
    let secret = fresh_secret();
    let public = identity_public(&secret);
    (secret, X25519Pub(public))
}

/// A fresh Ed25519 key pair: the seed and the public key.
pub fn generate_signing() -> (r: ([u8; 32], Ed25519Pub))
    ensures
        r.1.0@ == ed25519_public(r.0@),
{
    let seed = fresh_seed();
    let public = signing_public(&seed);
    (seed, Ed25519Pub(public))
}

/// The domain that separates escrow keys from other digests.
pub open spec fn escrow_domain() -> Seq<u8> {
    seq![
        116u8, 111, 100, 111, 101, 114, 115, 58, 101, 115, 99, 114, 111, 119, 45, 119, 114, 97, 112,
        58, 118, 49,
    ]
}

/// The key that wraps the escrowed identity, from a login's export key.
pub fn derive_escrow_key(export_key: &[u8]) -> (r: [u8; 32])
    ensures
        r@ == sha256(escrow_domain() + export_key@),
{
    let domain: [u8; 22] = [
        116, 111, 100, 111, 101, 114, 115, 58, 101, 115, 99, 114, 111, 119, 45, 119, 114, 97, 112,
        58, 118, 49,
    ];
    proof {
        assert(domain@ =~= escrow_domain());
    }
    digest(domain.as_slice(), export_key)
}

/// The key that wraps the identity on the device, if one can be derived under the stored
/// parameters.
pub open spec fn local_master(
    password: Seq<u8>,
    salt: Seq<u8>,
    mem_kib: u32,
    iters: u32,
    parallelism: u32,
) -> Option<Seq<u8>> {
    if parallelism >= MAX_LANES {
        None
    } else {
        argon2id(password, salt, mem_kib, iters, parallelism)
    }
}

/// The key that wraps the identity on the device, from the password and the stored
/// parameters.
pub fn derive_local_master(
    password: &[u8],
    salt: &[u8],
    mem_kib: u32,
    iters: u32,
    parallelism: u32,
) -> (r: AppResult<[u8; 32]>)
    ensures
        match r {
            Ok(k) => local_master(password@, salt@, mem_kib, iters, parallelism) == Some(k@),
            Err(e) => e == AppError::Kdf && local_master(
                password@,
                salt@,
                mem_kib,
                iters,
                parallelism,
            ) is None,
        },
{
    if parallelism >= MAX_LANES {
        return Err(AppError::Kdf);
    }
    match argon2_hash(password, salt, mem_kib, iters, parallelism) {
        Some(k) => Ok(k),
        None => Err(AppError::Kdf),
    }
}

/// The member that an identity key belongs to: the first half of its digest.
pub open spec fn member_of(identity: Seq<u8>) -> Seq<u8> {
    sha256(identity).take(16)
}

/// The member that an identity key belongs to.
pub fn member_id_of(identity_pub: &X25519Pub) -> (r: MemberId)
    ensures
        r.0@ == member_of(identity_pub.0@),
{
    let none: [u8; 0] = [];
    let d = digest(identity_pub.0.as_slice(), none.as_slice());
    let mut out = [0u8; 16];
    let mut i: usize = 0;
    while i < 16
        invariant
            i <= 16,
            forall|j: int| 0 <= j < i ==> out@[j] == d@[j],
        decreases 16 - i,
    {
        out[i] = d[i];
        i = i + 1;
    }
    proof {
        assert(identity_pub.0@ + none@ =~= identity_pub.0@);
        assert(out@ =~= d@.take(16));
    }
    MemberId(out)
}

// ── Wrapping the identity ───────────────────────────────────────────────────

/// Whether `blob` is the identity `(id, seed)` wrapped under `master`: a nonce of
/// 24 bytes, then the ciphertext of the two secrets.
pub open spec fn is_wrapping(master: Seq<u8>, id: Seq<u8>, seed: Seq<u8>, blob: Seq<u8>) -> bool {
    let none = Seq::<u8>::empty();
    &&& blob.len() >= 24
    &&& blob.skip(24) == aead_seal(master, blob.take(24), none, id + seed)
    &&& aead_open(master, blob.take(24), none, blob.skip(24)) == Some(id + seed)
}

/// The length of a wrapped identity: the nonce, the two secrets and the tag.
pub const WRAPPED_LEN: usize = 104;

/// Wraps the private identity under `master`.
pub fn wrap_secret_keys(
    master: &[u8; 32],
    identity_secret: &[u8; 32],
    signing_seed: &[u8; 32],
) -> (r: Vec<u8>)
    ensures
        is_wrapping(master@, identity_secret@, signing_seed@, r@),
        r@.len() == WRAPPED_LEN,
{
    let mut plaintext: Vec<u8> = Vec::new();
    extend(&mut plaintext, identity_secret.as_slice());
    extend(&mut plaintext, signing_seed.as_slice());
    let ghost plain = identity_secret@ + signing_seed@;
    proof {
        assert(plaintext@ =~= plain);
    }
    let nonce: [u8; 24] = random_bytes();
    let none: [u8; 0] = [];
    proof {
        assert(none@ =~= Seq::<u8>::empty());
    }
    let ciphertext = encrypt(master, &nonce, none.as_slice(), plaintext.as_slice());
    wipe(&mut plaintext);
    let mut out: Vec<u8> = Vec::new();
    extend(&mut out, nonce.as_slice());
    extend(&mut out, ciphertext.as_slice());
    proof {
        assert(out@.take(24) =~= nonce@);
        assert(out@.skip(24) =~= ciphertext@);
    }
    out
}

/// What unwrapping yields: the two secrets, if the blob opens to exactly 64 bytes.
pub open spec fn unwrapped(master: Seq<u8>, blob: Seq<u8>) -> Option<(Seq<u8>, Seq<u8>)> {
    if blob.len() < 24 {
        None
    } else {
        match aead_open(master, blob.take(24), Seq::empty(), blob.skip(24)) {
            Some(m) if m.len() == 64 => Some((m.take(32), m.skip(32))),
            _ => None,
        }
    }
}

/// Reverses `wrap_secret_keys`. Only what is a wrapping under this very key is unwrapped:
/// a nonce, the two secrets and a tag, as `wrap_secret_keys` lays them out.
pub fn unwrap_secret_keys(master: &[u8; 32], blob: &[u8]) -> (r: AppResult<
    ([u8; 32], [u8; 32]),
>)
    ensures
        match r {
            Ok(k) => unwrapped(master@, blob@) == Some((k.0@, k.1@)) && is_wrapping(
                master@,
                k.0@,
                k.1@,
                blob@,
            ) && blob@.len() == WRAPPED_LEN,
            Err(e) => e == AppError::Aead && unwrapped(master@, blob@) is None,
        },
{
    if blob.len() < 24 {
        return Err(AppError::Aead);
    }
    let mut nonce = [0u8; 24];
    let mut i: usize = 0;
    while i < 24
        invariant
            i <= 24,
            24 <= blob@.len(),
            forall|j: int| 0 <= j < i ==> nonce@[j] == blob@[j],
        decreases 24 - i,
    {
        nonce[i] = blob[i];
        i = i + 1;
    }
    let mut ciphertext: Vec<u8> = Vec::new();
    let mut k: usize = 24;
    while k < blob.len()
        invariant
            24 <= k <= blob@.len(),
            ciphertext@ == blob@.subrange(24, k as int),
        decreases blob@.len() - k,
    {
        ciphertext.push(blob[k]);
        proof {
            assert(blob@.subrange(24, k as int).push(blob@[k as int]) =~= blob@.subrange(
                24,
                k + 1,
            ));
        }
        k = k + 1;
    }
    let none: [u8; 0] = [];
    proof {
        assert(none@ =~= Seq::<u8>::empty());
        assert(nonce@ =~= blob@.take(24));
        assert(ciphertext@ =~= blob@.skip(24));
    }
    match decrypt(master, &nonce, none.as_slice(), ciphertext.as_slice()) {
        Some(m) => {
            if m.len() != 64 {
                return Err(AppError::Aead);
            }
            let a = array32(m.as_slice(), 0);
            let b = array32(m.as_slice(), 32);
            proof {
                assert(m@.subrange(0, 32) =~= m@.take(32));
                assert(m@.subrange(32, 64) =~= m@.skip(32));
                assert(a@ + b@ =~= m@);
            }
            Ok((a, b))
        },
        None => Err(AppError::Aead),
    }
}

/// What is no wrapping under a key is refused under that key: so a blob that was wrapped
/// under another, unless it happens to be a wrapping under both; a blob of which bytes were
/// changed, unless it is then a wrapping of something else; and every blob that was
/// shortened. `r` is what unwrapping comes to.
pub proof fn law_no_wrapping_is_refused(
    master: Seq<u8>,
    blob: Seq<u8>,
    r: AppResult<([u8; 32], [u8; 32])>,
)
    requires
        match r {
            Ok(k) => is_wrapping(master, k.0@, k.1@, blob) && blob.len() == WRAPPED_LEN,
            Err(e) => e == AppError::Aead,
        },
        blob.len() != WRAPPED_LEN || forall|id: Seq<u8>, seed: Seq<u8>|
            !#[trigger] is_wrapping(master, id, seed, blob),
    ensures
        r == Err::<([u8; 32], [u8; 32]), AppError>(AppError::Aead),
{
}

/// Of two wrappings under one key with one nonce, different blobs hold different secrets: a
/// changed byte never passes for what was wrapped.
pub proof fn law_changed_wrapping_is_another(
    master: Seq<u8>,
    id: Seq<u8>,
    seed: Seq<u8>,
    blob: Seq<u8>,
    changed: Seq<u8>,
)
    requires
        is_wrapping(master, id, seed, blob),
        changed.take(24) == blob.take(24),
        changed != blob,
    ensures
        !is_wrapping(master, id, seed, changed),
{
    if is_wrapping(master, id, seed, changed) {
        assert(blob =~= blob.take(24) + blob.skip(24));
        assert(changed =~= changed.take(24) + changed.skip(24));
    }
}

/// Unwrapping under the same key gives the wrapped identity back.
pub proof fn law_wrap_then_unwrap(master: Seq<u8>, id: Seq<u8>, seed: Seq<u8>, blob: Seq<u8>)
    requires
        id.len() == 32,
        seed.len() == 32,
        is_wrapping(master, id, seed, blob),
    ensures
        unwrapped(master, blob) == Some((id, seed)),
{
    assert((id + seed).take(32) =~= id);
    assert((id + seed).skip(32) =~= seed);
}

// ── Membership ──────────────────────────────────────────────────────────────

/// Whether a slot holds `dek` for a member, of one epoch.
pub open spec fn slot_for(s: KeySlot, epoch: Epoch, m: Member, dek: Seq<u8>) -> bool {
    s.epoch == epoch && s.member == m.id && sealed_for(s.wrapped_dek@, m.identity_pub.0@, dek)
}

/// Adds a member: the current data key is sealed to them.
pub fn add_member(meta: &mut ListMetadata, new: Member, current_dek: &[u8; 32])
    ensures
        final(meta).current_epoch == old(meta).current_epoch,
        final(meta).members@ == old(meta).members@.push(new),
        final(meta).key_slots@.len() == old(meta).key_slots@.len() + 1,
        final(meta).key_slots@.drop_last() == old(meta).key_slots@,
        slot_for(
            final(meta).key_slots@.last(),
            old(meta).current_epoch,
            new,
            current_dek@,
        ),
{
    let wrapped = seal_to(current_dek, &new.identity_pub);
    let ghost before = meta.key_slots@;
    meta.key_slots.push(
        KeySlot { epoch: meta.current_epoch, member: new.id, wrapped_dek: wrapped },
    );
    meta.members.push(new);
    proof {
        assert(meta.key_slots@.drop_last() =~= before);
    }
}

/// The members other than `remove`, in order.
pub open spec fn members_without(ms: Seq<Member>, remove: MemberId) -> Seq<Member>
    decreases ms.len(),
{
    if ms.len() == 0 {
        ms
    } else if ms.last().id == remove {
        members_without(ms.drop_last(), remove)
    } else {
        members_without(ms.drop_last(), remove).push(ms.last())
    }
}

/// The slots of members other than `remove`, in order.
pub open spec fn slots_without(ss: Seq<KeySlot>, remove: MemberId) -> Seq<KeySlot>
    decreases ss.len(),
{
    if ss.len() == 0 {
        ss
    } else if ss.last().member == remove {
        slots_without(ss.drop_last(), remove)
    } else {
        slots_without(ss.drop_last(), remove).push(ss.last())
    }
}

proof fn lemma_members_without(ms: Seq<Member>, remove: MemberId)
    ensures
        forall|i: int|
            0 <= i < members_without(ms, remove).len() ==> (#[trigger] members_without(
                ms,
                remove,
            )[i]).id != remove,
    decreases ms.len(),
{
    if ms.len() > 0 {
        lemma_members_without(ms.drop_last(), remove);
    }
}

proof fn lemma_slots_without(ss: Seq<KeySlot>, remove: MemberId)
    ensures
        forall|i: int|
            0 <= i < slots_without(ss, remove).len() ==> (#[trigger] slots_without(
                ss,
                remove,
            )[i]).member != remove,
    decreases ss.len(),
{
    if ss.len() > 0 {
        let init = slots_without(ss.drop_last(), remove);
        lemma_slots_without(ss.drop_last(), remove);
        assert forall|i: int| 0 <= i < slots_without(ss, remove).len() implies (
        #[trigger] slots_without(ss, remove)[i]).member != remove by {
            if i < init.len() {
                assert(slots_without(ss, remove)[i] == init[i]);
            }
        }
    }
}

/// Removes a member: a new data key under the next epoch is sealed to everyone who
/// remains, and no slot of the removed member is kept.
pub fn remove_member(meta: &mut ListMetadata, remove: MemberId, new_dek: &[u8; 32])
    requires
        old(meta).current_epoch < u32::MAX,
    ensures
        final(meta).current_epoch == old(meta).current_epoch + 1,
        final(meta).members@ == members_without(old(meta).members@, remove),
        final(meta).key_slots@.len() == slots_without(old(meta).key_slots@, remove).len() + final(meta).members@.len(),
        final(meta).key_slots@.take(slots_without(old(meta).key_slots@, remove).len() as int)
            == slots_without(old(meta).key_slots@, remove),
        forall|i: int|
            #![trigger final(meta).members@[i]]
            0 <= i < final(meta).members@.len() ==> slot_for(
                final(meta).key_slots@[slots_without(old(meta).key_slots@, remove).len() + i],
                final(meta).current_epoch,
                final(meta).members@[i],
                new_dek@,
            ),
        forall|i: int|
            0 <= i < final(meta).key_slots@.len() ==> (#[trigger] final(meta).key_slots@[i]).member != remove,
{
    let ghost old_members = meta.members@;
    let ghost old_slots = meta.key_slots@;
    let mut kept_members: Vec<Member> = Vec::new();
    let mut i: usize = 0;
    proof {
        assert(old_members.take(0) =~= Seq::<Member>::empty());
    }
    while i < meta.members.len()
        invariant
            i <= meta.members@.len(),
            meta.members@ == old_members,
            kept_members@ == members_without(old_members.take(i as int), remove),
        decreases meta.members@.len() - i,
    {
        proof {
            assert(old_members.take(i + 1).drop_last() =~= old_members.take(i as int));
            assert(old_members.take(i + 1).last() == old_members[i as int]);
        }
        let m = meta.members[i];
        if m.id != remove {
            kept_members.push(m);
        }
        i = i + 1;
    }
    proof {
        assert(old_members.take(old_members.len() as int) =~= old_members);
        lemma_members_without(old_members, remove);
        lemma_slots_without(old_slots, remove);
    }
    let epoch: u32 = meta.current_epoch + 1;
    let mut slots: Vec<KeySlot> = Vec::new();
    drop_slots(&mut meta.key_slots, remove, &mut slots);
    let ghost base = slots@;
    let mut k: usize = 0;
    while k < kept_members.len()
        invariant
            k <= kept_members@.len(),
            slots@.len() == base.len() + k,
            slots@.take(base.len() as int) == base,
            forall|j: int|
                #![trigger kept_members@[j]]
                0 <= j < k ==> slot_for(
                    slots@[base.len() + j],
                    epoch,
                    kept_members@[j],
                    new_dek@,
                ),
            forall|j: int|
                0 <= j < kept_members@.len() ==> (#[trigger] kept_members@[j]).id != remove,
            forall|j: int| 0 <= j < slots@.len() ==> (#[trigger] slots@[j]).member != remove,
        decreases kept_members@.len() - k,
    {
        let m = kept_members[k];
        let wrapped_dek = seal_to(new_dek, &m.identity_pub);
        let ghost before = slots@;
        slots.push(KeySlot { epoch, member: m.id, wrapped_dek });
        proof {
            assert(slots@.take(base.len() as int) =~= before.take(base.len() as int));
            assert forall|j: int|
                #![trigger kept_members@[j]]
                0 <= j < k + 1 implies slot_for(
                slots@[base.len() + j],
                epoch,
                kept_members@[j],
                new_dek@,
            ) by {
                if j < k {
                    assert(slots@[base.len() + j] == before[base.len() + j]);
                }
            }
        }
        k = k + 1;
    }
    meta.members = kept_members;
    meta.key_slots = slots;
    meta.current_epoch = epoch;
}

/// Moves the slots of members other than `remove` to the end of `kept`.
fn drop_slots(slots: &mut Vec<KeySlot>, remove: MemberId, kept: &mut Vec<KeySlot>)
    requires
        old(kept)@.len() == 0,
    ensures
        final(kept)@ == slots_without(old(slots)@, remove),
        final(slots)@.len() == 0,
{
    let ghost all = slots@;
    let ghost mut done: int = 0;
    proof {
        assert(all.take(0) =~= Seq::<KeySlot>::empty());
        assert(all.skip(0) =~= all);
        assert(kept@ =~= Seq::<KeySlot>::empty());
    }
    while slots.len() > 0
        invariant
            0 <= done <= all.len(),
            slots@ == all.skip(done),
            kept@ == slots_without(all.take(done), remove),
        decreases slots@.len(),
    {
        proof {
            assert(all.take(done + 1).drop_last() =~= all.take(done));
            assert(all.take(done + 1).last() == all[done]);
            assert(all.skip(done).remove(0) =~= all.skip(done + 1));
        }
        let s = slots.remove(0);
        if s.member != remove {
            kept.push(s);
        }
        proof {
            done = done + 1;
        }
    }
    proof {
        assert(all.take(all.len() as int) =~= all);
    }
}

/// A member with a slot opens the data key in it with the secret of their identity
/// key.
pub proof fn law_member_opens_own_slot(
    slot: KeySlot,
    member: Member,
    epoch: Epoch,
    dek: Seq<u8>,
    secret: Seq<u8>,
)
    requires
        dek.len() == 32,
        secret.len() == 32,
        slot_for(slot, epoch, member, dek),
        x25519_public(secret) == member.identity_pub.0@,
    ensures
        opened_dek(slot.wrapped_dek@, member.identity_pub.0@, secret) == Some(dek),
{
    assert(box_open(slot.wrapped_dek@, member.identity_pub.0@, secret) == Some(dek));
}

} // verus!
