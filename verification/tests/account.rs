use opaque_ke::{
    ClientLogin, ClientLoginFinishParameters, ClientRegistration,
    ClientRegistrationFinishParameters, CredentialFinalization, CredentialRequest,
    CredentialResponse, RegistrationRequest, RegistrationResponse, RegistrationUpload, ServerLogin,
    ServerLoginParameters, ServerRegistration, ServerSetup,
};
use rand_core::OsRng;

use todoers::auth::{
    build_local_account, build_local_account_with, device_cache_payload, generate_device_identity,
    keys_with_token, login_begin, login_finish, register_begin, register_finish,
    register_finish_with, unlock_from_escrow, unlock_offline, AccountRow, KdfSalt,
    LoginFinishResponse, NewAccount, ProtocolFinish, RegisterFlow, StartRegisterRequest,
    UnlockedKeys, KDF_ITERS, KDF_MEM_KIB, KDF_PARALLELISM,
};
use todoers::crypto::{
    add_member, aead_aad, derive_escrow_key, derive_local_master, generate_dek, generate_identity,
    generate_signing, member_id_of, open_sealed, produce_update, produce_update_with, remove_member,
    seal_to, signing_view, to_array32, unwrap_secret_keys, verify_and_decrypt, wrap_secret_keys,
    MAX_LANES, WRAPPED_LEN,
};
use todoers::error::AppError;
use todoers::model::{
    Ed25519Pub, KeySlot, ListId, ListMetadata, Member, MemberId, Role, X25519Pub,
};
use todoers::net::{local_unlock, login, LoginError};

struct Suite;

impl opaque_ke::CipherSuite for Suite {
    type OprfCs = opaque_ke::Ristretto255;
    type KeyExchange = opaque_ke::TripleDh<opaque_ke::Ristretto255, sha2::Sha512>;
    type Ksf = opaque_ke::ksf::Identity;
}

fn begin(
    username: &str,
    password: &str,
) -> (RegisterFlow, StartRegisterRequest, ClientRegistration<Suite>) {
    let start = ClientRegistration::<Suite>::start(&mut OsRng, password.as_bytes()).unwrap();
    let (flow, request) =
        register_begin(username, password, start.message.serialize().to_vec());
    (flow, request, start.state)
}

fn registered(
    state: ClientRegistration<Suite>,
    password: &[u8],
    response: &[u8],
) -> Option<ProtocolFinish> {
    let response = RegistrationResponse::<Suite>::deserialize(response).ok()?;
    let end = state
        .finish(&mut OsRng, password, response, ClientRegistrationFinishParameters::default())
        .ok()?;
    Some(ProtocolFinish {
        message: end.message.serialize().to_vec(),
        export_key: end.export_key.to_vec(),
    })
}

fn proved(
    state: ClientLogin<Suite>,
    password: &[u8],
    response: &[u8],
) -> Option<ProtocolFinish> {
    let response = CredentialResponse::<Suite>::deserialize(response).ok()?;
    let end = state
        .finish(&mut OsRng, password, response, ClientLoginFinishParameters::default())
        .ok()?;
    Some(ProtocolFinish {
        message: end.message.serialize().to_vec(),
        export_key: end.export_key.to_vec(),
    })
}

fn row(account: &NewAccount) -> AccountRow {
    AccountRow {
        member_id: account.member_id,
        username: account.username.clone(),
        identity_pub: account.identity_pub,
        signing_pub: account.signing_pub,
        wrapped_secret_keys: account.wrapped_secret_keys.clone(),
        kdf_salt: account.kdf_salt,
        kdf_mem_kib: account.kdf_mem_kib,
        kdf_iters: account.kdf_iters,
        kdf_parallelism: account.kdf_parallelism,
    }
}

/// Drive the full register → login → unlock cycle, playing the server side of
/// OPAQUE in-process. The keys recovered from the escrow blob are the same ones
/// generated at registration.
#[test]
fn escrow_round_trip_recovers_identity() {
    let mut rng = OsRng;
    let setup = ServerSetup::<Suite>::new(&mut rng);
    let (username, password) = ("alice", "correct horse battery staple".to_string());

    // ── registration ──
    let (flow, start_req, reg_state) = begin(username, &password);
    let member_id = member_id_of(&start_req.identity_pub);

    let server_reg_start = ServerRegistration::start(
        &setup,
        RegistrationRequest::<Suite>::deserialize(&start_req.registration_req).unwrap(),
        &member_id.0,
    )
    .unwrap();
    let end = registered(
        reg_state,
        &flow.password,
        &server_reg_start.message.serialize(),
    );
    let (finish_req, account) = register_finish(flow, end).unwrap();

    // Server stores the password file.
    let upload = RegistrationUpload::<Suite>::deserialize(&finish_req.registration_up).unwrap();
    let password_file = ServerRegistration::finish(upload);

    // ── login ──
    let lstart = ClientLogin::<Suite>::start(&mut rng, password.as_bytes()).unwrap();
    let lstart_req = login_begin(username, lstart.message.serialize().to_vec());
    assert_eq!(lstart_req.username, username);
    let server_login_start = ServerLogin::start(
        &mut rng,
        &setup,
        Some(password_file),
        CredentialRequest::<Suite>::deserialize(&lstart_req.credential_req).unwrap(),
        &member_id.0,
        ServerLoginParameters::default(),
    )
    .unwrap();
    let lend = proved(
        lstart.state,
        password.as_bytes(),
        &server_login_start.message.serialize(),
    );
    let (lfinish_req, export_key) = login_finish([6u8; 16], lend).unwrap();
    assert_eq!(lfinish_req.login_id, [6u8; 16]);

    // Server confirms the AKE (proves the client knew the password).
    server_login_start
        .state
        .finish(
            CredentialFinalization::<Suite>::deserialize(&lfinish_req.credential_finalization)
                .unwrap(),
            ServerLoginParameters::default(),
        )
        .unwrap();

    // The server returns the escrow blob it stored at registration.
    let login_resp = LoginFinishResponse {
        token: "session-token".into(),
        member_id: member_id.0,
        identity_pub: finish_req.identity_pub.0.to_vec(),
        signing_pub: finish_req.signing_pub.to_vec(),
        wrapped_secret_keys: finish_req.wrapped_secret_keys.clone(),
    };
    let unlocked = unlock_from_escrow(&export_key, login_resp).unwrap();

    // The recovered secrets must reproduce the registered public keys.
    let recovered_id_pub = x25519_dalek::PublicKey::from(&x25519_dalek::StaticSecret::from(
        unlocked.identity_secret,
    ))
    .to_bytes();
    assert_eq!(X25519Pub(recovered_id_pub), account.identity_pub);
    let recovered_sign_pub = ed25519_dalek::SigningKey::from_bytes(&unlocked.signing_seed)
        .verifying_key()
        .to_bytes();
    assert_eq!(Ed25519Pub(recovered_sign_pub), account.signing_pub);
    assert_eq!(unlocked.member_id, member_id);
    assert_eq!(unlocked.token, "session-token");

    // ── a fresh device persists its own local copy from the escrow unlock ──
    let fresh = build_local_account(username, &password, &unlocked).unwrap();
    let fresh_unlock = unlock_offline(&password, &row(&fresh)).unwrap();
    assert_eq!(fresh_unlock.identity_secret, unlocked.identity_secret);
    assert_eq!(fresh_unlock.signing_seed, unlocked.signing_seed);
    assert_eq!(fresh_unlock.member_id, member_id);

    // ── offline unlock recovers the same secrets ──
    let offline = unlock_offline(&password, &row(&account)).unwrap();
    assert_eq!(offline.identity_secret, unlocked.identity_secret);
    assert_eq!(offline.signing_seed, unlocked.signing_seed);

    // Wrong password must fail to unlock offline.
    assert!(unlock_offline("wrong password", &row(&account)).is_err());
}

/// A login attempt with the wrong password must fail at client finish.
#[test]
fn wrong_password_fails_login() {
    let mut rng = OsRng;
    let setup = ServerSetup::<Suite>::new(&mut rng);
    let (username, password) = ("bob", "hunter2");

    let (flow, start_req, reg_state) = begin(username, password);
    let member_id = member_id_of(&start_req.identity_pub);
    let server_reg_start = ServerRegistration::start(
        &setup,
        RegistrationRequest::<Suite>::deserialize(&start_req.registration_req).unwrap(),
        &member_id.0,
    )
    .unwrap();
    let end = registered(
        reg_state,
        &flow.password,
        &server_reg_start.message.serialize(),
    );
    let (finish_req, _account) = register_finish(flow, end).unwrap();
    let password_file = ServerRegistration::finish(
        RegistrationUpload::<Suite>::deserialize(&finish_req.registration_up).unwrap(),
    );

    let lstart = ClientLogin::<Suite>::start(&mut rng, b"wrong password").unwrap();
    let lstart_req = login_begin(username, lstart.message.serialize().to_vec());
    let server_login_start = ServerLogin::start(
        &mut rng,
        &setup,
        Some(password_file),
        CredentialRequest::<Suite>::deserialize(&lstart_req.credential_req).unwrap(),
        &member_id.0,
        ServerLoginParameters::default(),
    )
    .unwrap();
    let lend = proved(
        lstart.state,
        b"wrong password",
        &server_login_start.message.serialize(),
    );
    assert!(matches!(login_finish([6u8; 16], lend), Err(AppError::Opaque)));
}

fn some_keys(token: &str) -> UnlockedKeys {
    let (identity_secret, identity_pub) = generate_identity();
    let (signing_seed, signing_pub) = generate_signing();
    UnlockedKeys {
        member_id: member_id_of(&identity_pub),
        identity_secret,
        identity_pub,
        signing_seed,
        signing_pub,
        token: token.to_string(),
    }
}

#[test]
fn a_registration_that_fails_says_so() {
    let (flow, _, _) = begin("carol", "pw");
    assert!(matches!(register_finish(flow, None), Err(AppError::Opaque)));
}

#[test]
fn registration_wraps_the_keys_twice() {
    let (flow, start, _) = begin("carol", "pw");
    let (secret, seed) = (flow.identity_secret, flow.signing_seed);
    let end = ProtocolFinish { message: vec![1, 2], export_key: vec![9; 64] };
    let salt = KdfSalt::from([3u8; 16]);
    let (finish, account) = register_finish_with(flow, Some(end), salt).unwrap();
    assert_eq!(finish.registration_up, vec![1, 2]);
    assert_eq!(finish.username, "carol");
    assert_eq!(account.member_id, member_id_of(&start.identity_pub));
    assert_eq!(account.kdf_salt, salt);
    assert_eq!(account.kdf_mem_kib, KDF_MEM_KIB as i64);
    assert_eq!(account.kdf_iters, KDF_ITERS as i64);
    assert_eq!(account.kdf_parallelism, KDF_PARALLELISM as i64);
    let escrow = derive_escrow_key(&[9; 64]);
    assert_eq!(unwrap_secret_keys(&escrow, &finish.wrapped_secret_keys).unwrap(), (secret, seed));
    let local =
        derive_local_master(b"pw", &[3u8; 16], KDF_MEM_KIB, KDF_ITERS, KDF_PARALLELISM).unwrap();
    assert_eq!(unwrap_secret_keys(&local, &account.wrapped_secret_keys).unwrap(), (secret, seed));
    assert!(unwrap_secret_keys(&local, &finish.wrapped_secret_keys).is_err());
}

#[test]
fn an_escrow_with_short_keys_is_refused() {
    let keys = some_keys("");
    let export = [4u8; 32];
    let wrapped =
        wrap_secret_keys(&derive_escrow_key(&export), &keys.identity_secret, &keys.signing_seed);
    let answer = |identity: usize, signing: usize| LoginFinishResponse {
        token: "t".to_string(),
        member_id: keys.member_id.0,
        identity_pub: vec![1; identity],
        signing_pub: vec![2; signing],
        wrapped_secret_keys: wrapped.clone(),
    };
    assert!(unlock_from_escrow(&export, answer(32, 32)).is_ok());
    assert!(matches!(unlock_from_escrow(&export, answer(31, 32)), Err(AppError::Aead)));
    assert!(matches!(unlock_from_escrow(&export, answer(32, 33)), Err(AppError::Aead)));
    assert!(matches!(unlock_from_escrow(&[5u8; 32], answer(32, 32)), Err(AppError::Aead)));
}

#[test]
fn parameters_that_cannot_be_used_are_refused() {
    assert!(matches!(derive_local_master(b"pw", &[3u8; 16], 0, 0, 0), Err(AppError::Kdf)));
    assert!(matches!(derive_local_master(b"pw", &[3u8; 2], 64, 1, 1), Err(AppError::Kdf)));
    for lanes in [MAX_LANES, u32::MAX] {
        assert!(matches!(
            derive_local_master(b"pw", &[3u8; 16], 64, 1, lanes),
            Err(AppError::Kdf)
        ));
    }
    let keys = some_keys("");
    let mut account = row(&build_local_account_with("d", "pw", &keys, KdfSalt([7; 16])).unwrap());
    // Numbers that do not fit fall back to the usual ones.
    account.kdf_mem_kib = -1;
    account.kdf_iters = -1;
    account.kdf_parallelism = i64::MAX;
    let unlocked = unlock_offline("pw", &account).unwrap();
    assert_eq!(unlocked.identity_secret, keys.identity_secret);
    assert_eq!(unlocked.token, "");
}

#[test]
fn a_device_keeps_no_token() {
    let keys = some_keys("live-token-should-not-be-cached");
    let (device_id, device_seed, device_pub) = generate_device_identity();
    let payload = device_cache_payload(&keys, device_id, device_seed, device_pub);
    assert!(payload.keys.token.is_empty(), "token must not be cached");
    assert_eq!(payload.keys.identity_secret, keys.identity_secret);
    assert_eq!(payload.keys.signing_seed, keys.signing_seed);
    assert_eq!(payload.keys.member_id, keys.member_id);
    assert_eq!(payload.device_id, device_id);
    let public = ed25519_dalek::SigningKey::from_bytes(&device_seed).verifying_key().to_bytes();
    assert_eq!(payload.device_signing_pub, public);
    let back = keys_with_token(payload, "fresh".to_string());
    assert_eq!(back.token, "fresh");
    assert_eq!(back.identity_secret, keys.identity_secret);
}

#[test]
fn an_online_failure_falls_back_to_the_local_account() {
    let keys = some_keys("");
    let account = row(&build_local_account("eve", "pw", &keys).unwrap());
    let online = login(Some(some_keys("tok")), Some(&account), "pw").unwrap();
    assert_eq!(online.token, "tok");
    let local = login(None, Some(&account), "pw").unwrap();
    assert_eq!(local.signing_seed, keys.signing_seed);
    assert!(login(None, Some(&account), "other").is_err());
    assert!(login(None, None, "pw").is_err());
    assert!(local_unlock(None, "pw").is_err());
    assert_ne!(LoginError::Online.message(), LoginError::Offline.message());
}

// ── updates ──

#[test]
fn an_update_reads_back() {
    let (seed, public) = generate_signing();
    let dek = generate_dek();
    let (list, author) = (ListId([1; 16]), MemberId([2; 16]));
    let p = produce_update(1, list, 3, author, &dek, &seed, b"hello").unwrap();
    assert_eq!(p.version, 1);
    assert_eq!(p.epoch, 3);
    assert_ne!(p.ciphertext, b"hello".to_vec());
    assert_eq!(verify_and_decrypt(&p, list, &public, &dek).unwrap(), b"hello".to_vec());
    assert!(matches!(
        verify_and_decrypt(&p, ListId([9; 16]), &public, &dek),
        Err(AppError::WrongList)
    ));
    let (_, stranger) = generate_signing();
    assert!(matches!(verify_and_decrypt(&p, list, &stranger, &dek), Err(AppError::BadSignature)));
    assert!(matches!(
        verify_and_decrypt(&p, list, &public, &generate_dek()),
        Err(AppError::Aead)
    ));
}

#[test]
fn a_changed_update_is_refused() {
    let (seed, public) = generate_signing();
    let dek = [8u8; 32];
    let list = ListId([1; 16]);
    let mut p =
        produce_update_with(1, list, 3, MemberId([2; 16]), &dek, &seed, b"hello", [5; 24]);
    assert_eq!(p.nonce, [5; 24]);
    p.epoch = 4;
    assert!(matches!(verify_and_decrypt(&p, list, &public, &dek), Err(AppError::BadSignature)));
    p.epoch = 3;
    p.ciphertext[0] ^= 1;
    assert!(matches!(verify_and_decrypt(&p, list, &public, &dek), Err(AppError::BadSignature)));
    p.ciphertext[0] ^= 1;
    assert!(verify_and_decrypt(&p, list, &public, &dek).is_ok());
    p.version = 2;
    assert!(verify_and_decrypt(&p, list, &public, &dek).is_err());
    p.version = 1;
    p.author = MemberId([7; 16]);
    assert!(verify_and_decrypt(&p, list, &public, &dek).is_err());
    p.author = MemberId([2; 16]);
    p.nonce[3] ^= 1;
    assert!(verify_and_decrypt(&p, list, &public, &dek).is_err());
    p.nonce[3] ^= 1;
    p.signature[0] ^= 1;
    assert!(verify_and_decrypt(&p, list, &public, &dek).is_err());
}

#[test]
fn the_header_is_laid_out_in_order() {
    let (seed, _) = generate_signing();
    let p = produce_update_with(
        1,
        ListId([0xaa; 16]),
        0x01020304,
        MemberId([0xbb; 16]),
        &[8u8; 32],
        &seed,
        b"x",
        [5; 24],
    );
    let aad = aead_aad(&p);
    assert_eq!(aad.len(), 61);
    assert_eq!(aad[0], 1);
    assert_eq!(&aad[1..17], &[0xaa; 16]);
    assert_eq!(&aad[17..21], &0x01020304u32.to_le_bytes());
    assert_eq!(&aad[21..37], &[0xbb; 16]);
    assert_eq!(&aad[37..61], &[5; 24]);
    let view = signing_view(&p);
    assert!(view.starts_with(&aad));
    assert!(view.ends_with(&p.ciphertext));
}

// ── keys for members ──

#[test]
fn a_sealed_key_opens_for_its_recipient_alone() {
    let (secret, public) = generate_identity();
    let dek = generate_dek();
    let wrapped = seal_to(&dek, &public);
    assert_ne!(wrapped, dek.to_vec());
    assert_eq!(open_sealed(&wrapped, &public, &secret).unwrap(), dek);
    let (other_secret, other_public) = generate_identity();
    assert!(matches!(open_sealed(&wrapped, &other_public, &other_secret), Err(AppError::Aead)));
    assert!(matches!(open_sealed(&wrapped[..40], &public, &secret), Err(AppError::Aead)));
}

#[test]
fn wrapped_keys_open_with_their_master_alone() {
    let master = [1u8; 32];
    let blob = wrap_secret_keys(&master, &[2; 32], &[3; 32]);
    assert_eq!(unwrap_secret_keys(&master, &blob).unwrap(), ([2; 32], [3; 32]));
    assert!(matches!(unwrap_secret_keys(&[9; 32], &blob), Err(AppError::Aead)));
    assert!(matches!(unwrap_secret_keys(&master, &blob[..20]), Err(AppError::Aead)));
    assert_eq!(blob.len(), WRAPPED_LEN);
    assert!(matches!(unwrap_secret_keys(&master, &blob[..WRAPPED_LEN - 1]), Err(AppError::Aead)));
    for i in 0..blob.len() {
        let mut changed = blob.clone();
        changed[i] ^= 1;
        assert!(matches!(unwrap_secret_keys(&master, &changed), Err(AppError::Aead)));
    }
}

#[test]
fn another_password_is_refused() {
    let keys = some_keys("");
    let account = row(&build_local_account("eve", "pw", &keys).unwrap());
    assert!(unlock_offline("pw", &account).is_ok());
    assert!(matches!(unlock_offline("wrong password", &account), Err(AppError::Aead)));
    assert!(matches!(unlock_offline("", &account), Err(AppError::Aead)));
}

#[test]
fn removing_a_member_makes_a_new_epoch() {
    let (secret, public) = generate_identity();
    let member = |n: u8, identity_pub: X25519Pub| Member {
        id: MemberId([n; 16]),
        identity_pub,
        signing_pub: Ed25519Pub([n; 32]),
        role: Role::Member,
    };
    let old_dek = generate_dek();
    let new_dek = generate_dek();
    let mut meta = ListMetadata { members: vec![], key_slots: vec![], current_epoch: 1 };
    add_member(&mut meta, member(1, public), &old_dek);
    add_member(&mut meta, member(2, generate_identity().1), &old_dek);
    assert_eq!(meta.members.len(), 2);
    assert_eq!(meta.key_slots.len(), 2);
    remove_member(&mut meta, MemberId([2; 16]), &new_dek);
    assert_eq!(meta.current_epoch, 2);
    assert_eq!(meta.members.len(), 1);
    assert!(meta.key_slots.iter().all(|s: &KeySlot| s.member != MemberId([2; 16])));
    let slot = meta.key_slots.iter().find(|s| s.epoch == 2).unwrap();
    assert_eq!(open_sealed(&slot.wrapped_dek, &public, &secret).unwrap(), new_dek);
}

#[test]
fn key_material_is_fresh() {
    assert_ne!(generate_dek(), generate_dek());
    assert_ne!(generate_identity().0, generate_identity().0);
    assert_ne!(generate_signing().0, generate_signing().0);
    assert_ne!(generate_device_identity().0, generate_device_identity().0);
    let (secret, public) = generate_identity();
    let expected = x25519_dalek::PublicKey::from(&x25519_dalek::StaticSecret::from(secret));
    assert_eq!(public.0, expected.to_bytes());
    assert_eq!(to_array32(&[7u8; 32]), Some([7u8; 32]));
    assert_eq!(to_array32(&[7u8; 31]), None);
}

#[test]
fn derived_keys_differ_from_what_they_come_from() {
    let key = derive_escrow_key(&[1u8; 32]);
    assert_ne!(key, [1u8; 32]);
    assert_eq!(key, derive_escrow_key(&[1u8; 32]));
    assert_ne!(key, derive_escrow_key(&[2u8; 32]));
    let master = derive_local_master(b"pw", &[3u8; 16], 64, 1, 1).unwrap();
    assert_eq!(master, derive_local_master(b"pw", &[3u8; 16], 64, 1, 1).unwrap());
    assert_ne!(master, derive_local_master(b"pw", &[4u8; 16], 64, 1, 1).unwrap());
}

#[test]
fn errors_have_messages() {
    let all = [
        AppError::Aead,
        AppError::BadSignature,
        AppError::UnknownAuthor,
        AppError::UnknownEpoch,
        AppError::WrongList,
        AppError::Opaque,
        AppError::Kdf,
        AppError::DeviceVault("gone".to_string()),
    ];
    for e in &all {
        assert!(!e.message().is_empty());
    }
    assert!(all[7].message().contains("gone"));
}
