//! Registration, login and unlock, without any I/O: each step takes what the
//! caller received and yields what the caller is to send.
//!
//! Registration wraps the same private identity twice: the escrow copy, which the
//! server keeps, under a key derived from the login's export key; and the local
//! copy, which the device keeps, under a key derived from the password.
use vstd::prelude::*;
use vstd::string::*;
use vstd::utf8::encode_utf8;

use crate::crypto::{
    derive_escrow_key, derive_local_master, local_master, ed25519_public, escrow_domain,
    generate_identity, generate_signing, is_wrapping, law_wrap_then_unwrap, member_id_of,
    member_of, random_bytes, sha256, to_array32, unwrap_secret_keys, unwrapped, wrap_secret_keys,
    x25519_public,
};
use crate::error::{AppError, AppResult};
use crate::model::{Ed25519Pub, MemberId, X25519Pub};

verus! {

broadcast use vstd::array::group_array_axioms;

/// Memory cost of the local key derivation, in KiB.
pub const KDF_MEM_KIB: u32 = 19456;

/// Passes of the local key derivation.
pub const KDF_ITERS: u32 = 2;

/// Lanes of the local key derivation.
pub const KDF_PARALLELISM: u32 = 1;

/// The salt of the local key derivation.
#[derive(Clone, Copy, Debug, PartialEq, Eq)]
pub struct KdfSalt(pub [u8; 16]);

impl KdfSalt {
    /// The salt of these bytes; there must be sixteen.
    pub fn from_vec(vec: &Vec<u8>) -> (r: KdfSalt)
        requires
            vec@.len() == 16,
        ensures
            r.0@ == vec@,
    {
        let mut bytes = [0u8; 16];
        let mut i: usize = 0;
        while i < 16
            invariant
                i <= 16,
                vec@.len() == 16,
                forall|j: int| 0 <= j < i ==> bytes@[j] == vec@[j],
            decreases 16 - i,
        {
            bytes[i] = vec[i];
            i = i + 1;
        }
        proof {
            assert(bytes@ =~= vec@);
        }
        KdfSalt(bytes)
    }
}

impl Default for KdfSalt {
    fn default() -> (r: KdfSalt)
        ensures
            r.0@ == Seq::new(16, |i: int| 0u8),
    {
        let r = KdfSalt([0u8; 16]);
        proof {
            assert(r.0@ =~= Seq::new(16, |i: int| 0u8));
        }
        r
    }
}

impl From<[u8; 16]> for KdfSalt {
    fn from(arr: [u8; 16]) -> (r: KdfSalt) {
        KdfSalt(arr)
    }
}

impl vstd::std_specs::convert::FromSpecImpl<[u8; 16]> for KdfSalt {
    open spec fn obeys_from_spec() -> bool {
        true
    }

    open spec fn from_spec(arr: [u8; 16]) -> KdfSalt {
        KdfSalt(arr)
    }
}

// ── What goes over the wire ─────────────────────────────────────────────────

/// The first request of a registration.
pub struct StartRegisterRequest {
    pub identity_pub: X25519Pub,
    pub registration_req: Vec<u8>,
}

/// The last request of a registration.
pub struct FinishRegisterRequest {
    pub username: String,
    pub identity_pub: X25519Pub,
    pub signing_pub: [u8; 32],
    pub wrapped_secret_keys: Vec<u8>,
    pub registration_up: Vec<u8>,
}

/// The first request of a login.
pub struct LoginStartRequest {
    pub username: String,
    pub credential_req: Vec<u8>,
}

/// The last request of a login.
pub struct LoginFinishRequest {
    pub login_id: [u8; 16],
    pub credential_finalization: Vec<u8>,
}

/// The server's answer to a login.
pub struct LoginFinishResponse {
    pub token: String,
    pub member_id: [u8; 16],
    pub identity_pub: Vec<u8>,
    pub signing_pub: Vec<u8>,
    pub wrapped_secret_keys: Vec<u8>,
}

/// What the password protocol yields when a client finishes it: the message for
/// the server, and the export key that only the password reproduces.
pub struct ProtocolFinish {
    pub message: Vec<u8>,
    pub export_key: Vec<u8>,
}

// ── What is kept ────────────────────────────────────────────────────────────

/// A registration between its two steps.
pub struct RegisterFlow {
    pub username: String,
    pub password: Vec<u8>,
    pub identity_secret: [u8; 32],
    pub identity_pub: X25519Pub,
    pub signing_seed: [u8; 32],
    pub signing_pub: Ed25519Pub,
}

impl RegisterFlow {
    /// The public keys belong to the secrets.
    pub open spec fn wf(&self) -> bool {
        &&& self.identity_pub.0@ == x25519_public(self.identity_secret@)
        &&& self.signing_pub.0@ == ed25519_public(self.signing_seed@)
    }
}

/// A local account to store.
pub struct NewAccount {
    pub member_id: MemberId,
    pub username: String,
    pub identity_pub: X25519Pub,
    pub signing_pub: Ed25519Pub,
    /// The local copy of the private identity.
    pub wrapped_secret_keys: Vec<u8>,
    pub kdf_salt: KdfSalt,
    pub kdf_mem_kib: i64,
    pub kdf_iters: i64,
    pub kdf_parallelism: i64,
}

/// A local account as it was stored.
#[derive(Debug, PartialEq, Eq)]
pub struct AccountRow {
    pub member_id: MemberId,
    pub username: String,
    pub identity_pub: X25519Pub,
    pub signing_pub: Ed25519Pub,
    pub wrapped_secret_keys: Vec<u8>,
    pub kdf_salt: KdfSalt,
    pub kdf_mem_kib: i64,
    pub kdf_iters: i64,
    pub kdf_parallelism: i64,
}

/// The row that stores an account.
pub open spec fn row_of(a: NewAccount) -> AccountRow {
    AccountRow {
        member_id: a.member_id,
        username: a.username,
        identity_pub: a.identity_pub,
        signing_pub: a.signing_pub,
        wrapped_secret_keys: a.wrapped_secret_keys,
        kdf_salt: a.kdf_salt,
        kdf_mem_kib: a.kdf_mem_kib,
        kdf_iters: a.kdf_iters,
        kdf_parallelism: a.kdf_parallelism,
    }
}

impl NewAccount {
    /// The row that stores the account.
    pub fn into_row(self) -> (r: AccountRow)
        ensures
            r == row_of(self),
    {
        AccountRow {
            member_id: self.member_id,
            username: self.username,
            identity_pub: self.identity_pub,
            signing_pub: self.signing_pub,
            wrapped_secret_keys: self.wrapped_secret_keys,
            kdf_salt: self.kdf_salt,
            kdf_mem_kib: self.kdf_mem_kib,
            kdf_iters: self.kdf_iters,
            kdf_parallelism: self.kdf_parallelism,
        }
    }
}

/// The unlocked identity, which lives in memory only.
#[derive(Debug, PartialEq, Eq)]
pub struct UnlockedKeys {
    pub member_id: MemberId,
    pub identity_secret: [u8; 32],
    pub identity_pub: X25519Pub,
    pub signing_seed: [u8; 32],
    pub signing_pub: Ed25519Pub,
    /// The session's bearer token; empty where no server was asked.
    pub token: String,
}

impl UnlockedKeys {
    /// A copy of the identity.
    pub fn copy(&self) -> (r: UnlockedKeys)
        ensures
            r == *self,
    {
        UnlockedKeys {
            member_id: self.member_id,
            identity_secret: self.identity_secret,
            identity_pub: self.identity_pub,
            signing_seed: self.signing_seed,
            signing_pub: self.signing_pub,
            token: self.token.clone(),
        }
    }
}

// ── Registration ────────────────────────────────────────────────────────────

/// Begins a registration: fresh key pairs, and the request that carries the
/// password protocol's first message.
pub fn register_begin(username: &str, password: &str, first_message: Vec<u8>) -> (r: (
    RegisterFlow,
    StartRegisterRequest,
))
    ensures
        r.0.wf(),
        r.0.username@ == username@,
        r.0.password@ == encode_utf8(password@),
        r.1.identity_pub == r.0.identity_pub,
        r.1.registration_req == first_message,
{
    let (identity_secret, identity_pub) = generate_identity();
    let (signing_seed, signing_pub) = generate_signing();
    let flow = RegisterFlow {
        username: username.to_owned(),
        password: password.as_bytes_vec(),
        identity_secret,
        identity_pub,
        signing_seed,
        signing_pub,
    };
    (flow, StartRegisterRequest { identity_pub, registration_req: first_message })
}

/// The escrow key of an export key.
pub open spec fn escrow_key(export_key: Seq<u8>) -> Seq<u8> {
    sha256(escrow_domain() + export_key)
}

/// The local key of a password and a salt, under the standard parameters.
pub open spec fn local_key(password: Seq<u8>, salt: Seq<u8>) -> Option<Seq<u8>> {
    local_master(password, salt, KDF_MEM_KIB, KDF_ITERS, KDF_PARALLELISM)
}

/// Whether an account keeps the identity `(id, seed)` under a password, with the
/// standard parameters.
pub open spec fn keeps_identity(
    a: NewAccount,
    password: Seq<u8>,
    id: Seq<u8>,
    seed: Seq<u8>,
) -> bool {
    &&& a.kdf_mem_kib == KDF_MEM_KIB
    &&& a.kdf_iters == KDF_ITERS
    &&& a.kdf_parallelism == KDF_PARALLELISM
    &&& local_key(password, a.kdf_salt.0@) matches Some(k) && is_wrapping(
        k,
        id,
        seed,
        a.wrapped_secret_keys@,
    )
}

/// Finishes a registration with a given salt.
pub fn register_finish_with(
    flow: RegisterFlow,
    finish: Option<ProtocolFinish>,
    kdf_salt: KdfSalt,
) -> (r: AppResult<(FinishRegisterRequest, NewAccount)>)
    ensures
        match (finish, local_key(flow.password@, kdf_salt.0@)) {
            (None, _) => (r matches Err(e) && e == AppError::Opaque),
            (Some(_), None) => (r matches Err(e) && e == AppError::Kdf),
            (Some(f), Some(_)) => r matches Ok(p) && p.0.username == flow.username
                && p.0.identity_pub == flow.identity_pub && p.0.signing_pub == flow.signing_pub.0
                && p.0.registration_up == f.message && is_wrapping(
                escrow_key(f.export_key@),
                flow.identity_secret@,
                flow.signing_seed@,
                p.0.wrapped_secret_keys@,
            ) && p.1.member_id.0@ == member_of(flow.identity_pub.0@) && p.1.username
                == flow.username && p.1.identity_pub == flow.identity_pub && p.1.signing_pub
                == flow.signing_pub && p.1.kdf_salt == kdf_salt && keeps_identity(
                p.1,
                flow.password@,
                flow.identity_secret@,
                flow.signing_seed@,
            ),
        },
{
    let finish = match finish {
        Some(f) => f,
        None => {
            return Err(AppError::Opaque);
        },
    };
    let escrow_master = derive_escrow_key(finish.export_key.as_slice());
    let escrow_wrapped = wrap_secret_keys(
        &escrow_master,
        &flow.identity_secret,
        &flow.signing_seed,
    );
    let local_master = match derive_local_master(
        flow.password.as_slice(),
        kdf_salt.0.as_slice(),
        KDF_MEM_KIB,
        KDF_ITERS,
        KDF_PARALLELISM,
    ) {
        Ok(k) => k,
        Err(e) => {
            return Err(e);
        },
    };
    let local_wrapped = wrap_secret_keys(&local_master, &flow.identity_secret, &flow.signing_seed);
    let member_id = member_id_of(&flow.identity_pub);
    let request = FinishRegisterRequest {
        username: flow.username.clone(),
        identity_pub: flow.identity_pub,
        signing_pub: flow.signing_pub.0,
        wrapped_secret_keys: escrow_wrapped,
        registration_up: finish.message,
    };
    let account = NewAccount {
        member_id,
        username: flow.username,
        identity_pub: flow.identity_pub,
        signing_pub: flow.signing_pub,
        wrapped_secret_keys: local_wrapped,
        kdf_salt,
        kdf_mem_kib: KDF_MEM_KIB as i64,
        kdf_iters: KDF_ITERS as i64,
        kdf_parallelism: KDF_PARALLELISM as i64,
    };
    Ok((request, account))
}

/// Finishes a registration: wraps the identity both ways under a fresh salt, and
/// yields the upload and the local account. `finish` is what the password protocol
/// yielded, `None` where it failed.
pub fn register_finish(flow: RegisterFlow, finish: Option<ProtocolFinish>) -> (r: AppResult<
    (FinishRegisterRequest, NewAccount),
>)
    ensures
        finish is None ==> (r matches Err(e) && e == AppError::Opaque),
        finish is Some ==> match r {
            Ok(p) => p.0.username == flow.username && p.0.identity_pub == flow.identity_pub
                && p.0.signing_pub == flow.signing_pub.0 && p.0.registration_up
                == finish->0.message && is_wrapping(
                escrow_key(finish->0.export_key@),
                flow.identity_secret@,
                flow.signing_seed@,
                p.0.wrapped_secret_keys@,
            ) && p.1.member_id.0@ == member_of(flow.identity_pub.0@) && p.1.username
                == flow.username && p.1.identity_pub == flow.identity_pub && p.1.signing_pub
                == flow.signing_pub && keeps_identity(
                p.1,
                flow.password@,
                flow.identity_secret@,
                flow.signing_seed@,
            ),
            Err(e) => e == AppError::Kdf && exists|salt: KdfSalt| #[trigger]
                local_key(flow.password@, salt.0@) is None,
        },
{
    let kdf_salt = KdfSalt(random_bytes());
    register_finish_with(flow, finish, kdf_salt)
}

// ── Login ───────────────────────────────────────────────────────────────────

/// Begins a login: the request that carries the password protocol's first message.
pub fn login_begin(username: &str, first_message: Vec<u8>) -> (r: LoginStartRequest)
    ensures
        r.username@ == username@,
        r.credential_req == first_message,
{
    LoginStartRequest { username: username.to_owned(), credential_req: first_message }
}

/// Finishes a login: the last request, and the export key. `finish` is what the
/// password protocol yielded, `None` where it failed, as on a wrong password.
pub fn login_finish(login_id: [u8; 16], finish: Option<ProtocolFinish>) -> (r: AppResult<
    (LoginFinishRequest, Vec<u8>),
>)
    ensures
        match finish {
            None => (r matches Err(e) && e == AppError::Opaque),
            Some(f) => r matches Ok(p) && p.0.login_id == login_id && p.0.credential_finalization
                == f.message && p.1 == f.export_key,
        },
{
    match finish {
        Some(f) => Ok(
            (LoginFinishRequest { login_id, credential_finalization: f.message }, f.export_key),
        ),
        None => Err(AppError::Opaque),
    }
}

/// Recovers the identity from the escrow copy, with the login's export key.
pub fn unlock_from_escrow(export_key: &[u8], response: LoginFinishResponse) -> (r: AppResult<
    UnlockedKeys,
>)
    ensures
        match unwrapped(escrow_key(export_key@), response.wrapped_secret_keys@) {
            Some((id, seed)) if response.identity_pub@.len() == 32
                && response.signing_pub@.len() == 32 => r matches Ok(k) && k.member_id.0
                == response.member_id && k.identity_secret@ == id && k.identity_pub.0@
                == response.identity_pub@ && k.signing_seed@ == seed && k.signing_pub.0@
                == response.signing_pub@ && k.token == response.token,
            _ => r == Err::<UnlockedKeys, AppError>(AppError::Aead),
        },
{
    let master = derive_escrow_key(export_key);
    let (identity_secret, signing_seed) = match unwrap_secret_keys(
        &master,
        response.wrapped_secret_keys.as_slice(),
    ) {
        Ok(k) => k,
        Err(e) => {
            return Err(e);
        },
    };
    let identity_pub = match to_array32(response.identity_pub.as_slice()) {
        Some(k) => X25519Pub(k),
        None => {
            return Err(AppError::Aead);
        },
    };
    let signing_pub = match to_array32(response.signing_pub.as_slice()) {
        Some(k) => Ed25519Pub(k),
        None => {
            return Err(AppError::Aead);
        },
    };
    Ok(
        UnlockedKeys {
            member_id: MemberId(response.member_id),
            identity_secret,
            identity_pub,
            signing_seed,
            signing_pub,
            token: response.token,
        },
    )
}

/// A stored parameter, or the standard one where it does not fit.
pub open spec fn parameter(stored: i64, standard: u32) -> u32 {
    if 0 <= stored <= u32::MAX {
        stored as u32
    } else {
        standard
    }
}

fn parameter_of(stored: i64, standard: u32) -> (r: u32)
    ensures
        r == parameter(stored, standard),
{
    if stored >= 0 && stored <= 0xffff_ffff {
        stored as u32
    } else {
        standard
    }
}

/// The local key of an account, from a password.
pub open spec fn account_key(password: Seq<u8>, a: AccountRow) -> Option<Seq<u8>> {
    local_master(
        password,
        a.kdf_salt.0@,
        parameter(a.kdf_mem_kib, KDF_MEM_KIB),
        parameter(a.kdf_iters, KDF_ITERS),
        parameter(a.kdf_parallelism, KDF_PARALLELISM),
    )
}

/// What unlocking an account offline yields: the identity with an empty token; a
/// wrong password fails to unwrap.
pub open spec fn offline_unlock(password: Seq<char>, a: AccountRow) -> Result<
    (Seq<u8>, Seq<u8>),
    AppError,
> {
    match account_key(encode_utf8(password), a) {
        None => Err(AppError::Kdf),
        Some(k) => match unwrapped(k, a.wrapped_secret_keys@) {
            None => Err(AppError::Aead),
            Some(p) => Ok(p),
        },
    }
}

/// Whether what an account keeps is the identity `(id, seed)`, wrapped under the key of this
/// password.
pub open spec fn opens_account(
    password: Seq<char>,
    a: AccountRow,
    id: Seq<u8>,
    seed: Seq<u8>,
) -> bool {
    account_key(encode_utf8(password), a) matches Some(k) && is_wrapping(
        k,
        id,
        seed,
        a.wrapped_secret_keys@,
    )
}

/// A password is refused under whose key the account keeps no identity: every other password
/// than the account's own, unless the account happens to be a wrapping under its key as well.
/// `r` is what unlocking comes to.
pub proof fn law_other_password_is_refused(
    password: Seq<char>,
    a: AccountRow,
    r: AppResult<UnlockedKeys>,
)
    requires
        r matches Ok(k) ==> opens_account(password, a, k.identity_secret@, k.signing_seed@),
        forall|id: Seq<u8>, seed: Seq<u8>| !#[trigger] opens_account(password, a, id, seed),
    ensures
        r is Err,
{
}

/// Recovers the identity from the device's own copy, with the password alone.
pub fn unlock_offline(password: &str, account: &AccountRow) -> (r: AppResult<UnlockedKeys>)
    ensures
        match offline_unlock(password@, *account) {
            Ok((id, seed)) => r matches Ok(k) && k.member_id == account.member_id
                && k.identity_secret@ == id && k.identity_pub == account.identity_pub
                && k.signing_seed@ == seed && k.signing_pub == account.signing_pub && k.token@
                == Seq::<char>::empty(),
            Err(e) => r == Err::<UnlockedKeys, AppError>(e),
        },
        r matches Ok(k) ==> opens_account(password@, *account, k.identity_secret@, k.signing_seed@),
{
    let master = match derive_local_master(
        password.as_bytes(),
        account.kdf_salt.0.as_slice(),
        parameter_of(account.kdf_mem_kib, KDF_MEM_KIB),
        parameter_of(account.kdf_iters, KDF_ITERS),
        parameter_of(account.kdf_parallelism, KDF_PARALLELISM),
    ) {
        Ok(k) => k,
        Err(e) => {
            return Err(e);
        },
    };
    let (identity_secret, signing_seed) = match unwrap_secret_keys(
        &master,
        account.wrapped_secret_keys.as_slice(),
    ) {
        Ok(k) => k,
        Err(e) => {
            return Err(e);
        },
    };
    let token = String::new();
    proof {
        assert(token@ =~= Seq::<char>::empty());
    }
    Ok(
        UnlockedKeys {
            member_id: account.member_id,
            identity_secret,
            identity_pub: account.identity_pub,
            signing_seed,
            signing_pub: account.signing_pub,
            token,
        },
    )
}

/// Keeps a recovered identity on this device, under a given salt.
pub fn build_local_account_with(
    username: &str,
    password: &str,
    keys: &UnlockedKeys,
    kdf_salt: KdfSalt,
) -> (r: AppResult<NewAccount>)
    ensures
        match local_key(encode_utf8(password@), kdf_salt.0@) {
            None => r == Err::<NewAccount, AppError>(AppError::Kdf),
            Some(_) => r matches Ok(a) && a.member_id == keys.member_id && a.username@ == username@
                && a.identity_pub == keys.identity_pub && a.signing_pub == keys.signing_pub
                && a.kdf_salt == kdf_salt && keeps_identity(
                a,
                encode_utf8(password@),
                keys.identity_secret@,
                keys.signing_seed@,
            ),
        },
{
    let local_master = match derive_local_master(
        password.as_bytes(),
        kdf_salt.0.as_slice(),
        KDF_MEM_KIB,
        KDF_ITERS,
        KDF_PARALLELISM,
    ) {
        Ok(k) => k,
        Err(e) => {
            return Err(e);
        },
    };
    let wrapped_secret_keys = wrap_secret_keys(
        &local_master,
        &keys.identity_secret,
        &keys.signing_seed,
    );
    Ok(
        NewAccount {
            member_id: keys.member_id,
            username: username.to_owned(),
            identity_pub: keys.identity_pub,
            signing_pub: keys.signing_pub,
            wrapped_secret_keys,
            kdf_salt,
            kdf_mem_kib: KDF_MEM_KIB as i64,
            kdf_iters: KDF_ITERS as i64,
            kdf_parallelism: KDF_PARALLELISM as i64,
        },
    )
}

/// Keeps a recovered identity on this device, so that it can be unlocked offline.
pub fn build_local_account(username: &str, password: &str, keys: &UnlockedKeys) -> (r: AppResult<
    NewAccount,
>)
    ensures
        match r {
            Ok(a) => a.member_id == keys.member_id && a.username@ == username@ && a.identity_pub
                == keys.identity_pub && a.signing_pub == keys.signing_pub && keeps_identity(
                a,
                encode_utf8(password@),
                keys.identity_secret@,
                keys.signing_seed@,
            ),
            Err(e) => e == AppError::Kdf && exists|salt: KdfSalt| #[trigger]
                local_key(encode_utf8(password@), salt.0@) is None,
        },
{
    let kdf_salt = KdfSalt(random_bytes());
    build_local_account_with(username, password, keys, kdf_salt)
}

/// A login with the export key of the registration recovers the registered
/// identity from what the registration uploaded.
pub proof fn law_escrow_round_trip(
    export_key: Seq<u8>,
    id: Seq<u8>,
    seed: Seq<u8>,
    uploaded: Seq<u8>,
)
    requires
        id.len() == 32,
        seed.len() == 32,
        is_wrapping(escrow_key(export_key), id, seed, uploaded),
    ensures
        unwrapped(escrow_key(export_key), uploaded) == Some((id, seed)),
{
    law_wrap_then_unwrap(escrow_key(export_key), id, seed, uploaded);
}

/// An account unlocks offline, with its password, to the identity that it keeps.
pub proof fn law_offline_round_trip(
    account: NewAccount,
    password: Seq<char>,
    id: Seq<u8>,
    seed: Seq<u8>,
)
    requires
        id.len() == 32,
        seed.len() == 32,
        keeps_identity(account, encode_utf8(password), id, seed),
    ensures
        offline_unlock(password, row_of(account)) == Ok::<(Seq<u8>, Seq<u8>), AppError>((id, seed)),
{
    let k = local_key(encode_utf8(password), account.kdf_salt.0@)->0;
    law_wrap_then_unwrap(k, id, seed, account.wrapped_secret_keys@);
}

// ── Password-less unlock of a device ────────────────────────────────────────

/// What the device's cache holds, sealed.
pub struct DeviceCachePayload {
    /// The unlocked identity, without a session token.
    pub keys: UnlockedKeys,
    pub device_id: [u8; 16],
    pub device_signing_seed: [u8; 32],
    pub device_signing_pub: [u8; 32],
}

/// A fresh device identifier and the key pair that signs its logins.
pub fn generate_device_identity() -> (r: ([u8; 16], [u8; 32], [u8; 32]))
    ensures
        r.2@ == ed25519_public(r.1@),
{
    let device_id: [u8; 16] = random_bytes();
    let (seed, public) = generate_signing();
    (device_id, seed, public.0)
}

/// What is sealed into the device's cache: the identity and the device's key pair,
/// never a live session token.
pub fn device_cache_payload(
    keys: &UnlockedKeys,
    device_id: [u8; 16],
    device_signing_seed: [u8; 32],
    device_signing_pub: [u8; 32],
) -> (r: DeviceCachePayload)
    ensures
        r.keys.token@ == Seq::<char>::empty(),
        r.keys.member_id == keys.member_id,
        r.keys.identity_secret == keys.identity_secret,
        r.keys.identity_pub == keys.identity_pub,
        r.keys.signing_seed == keys.signing_seed,
        r.keys.signing_pub == keys.signing_pub,
        r.device_id == device_id,
        r.device_signing_seed == device_signing_seed,
        r.device_signing_pub == device_signing_pub,
{
    let token = String::new();
    proof {
        assert(token@ =~= Seq::<char>::empty());
    }
    DeviceCachePayload {
        keys: UnlockedKeys {
            member_id: keys.member_id,
            identity_secret: keys.identity_secret,
            identity_pub: keys.identity_pub,
            signing_seed: keys.signing_seed,
            signing_pub: keys.signing_pub,
            token,
        },
        device_id,
        device_signing_seed,
        device_signing_pub,
    }
}

/// The unlocked identity of an opened cache, with the token of a fresh session.
pub fn keys_with_token(payload: DeviceCachePayload, token: String) -> (r: UnlockedKeys)
    ensures
        r == (UnlockedKeys { token, ..payload.keys }),
{
    let keys = payload.keys;
    UnlockedKeys {
        member_id: keys.member_id,
        identity_secret: keys.identity_secret,
        identity_pub: keys.identity_pub,
        signing_seed: keys.signing_seed,
        signing_pub: keys.signing_pub,
        token,
    }
}

} // verus!
