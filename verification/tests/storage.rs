use todoers::auth::{KdfSalt, NewAccount, UnlockedKeys, KDF_ITERS, KDF_MEM_KIB, KDF_PARALLELISM};
use todoers::crypto::{
    generate_dek, generate_identity, generate_signing, member_id_of, open_sealed, seal_to,
    verify_and_decrypt,
};
use todoers::db::{
    device_cache, item_to_row, list_id_from, parse_role, role_text, row_to_item, to_16, to_32, Db,
    DbError, Signature,
};
use todoers::list_doc::{DocError, TodoDoc};
use todoers::listing::{sort_items, sort_summaries};
use todoers::model::{
    day_of, Ed25519Pub, ListId, ListSummary, Member, MemberId, MetaList, Priority, Role, SortMode,
    Subtask, TodoItem, TodoItemInput, ViewTarget, X25519Pub, DAY,
};
use todoers::session::Session;
use todoers::store::{Store, StoreError};
use todoers::store_worker::{StoreCommand, WorkerMsg};
use todoers::sync::{
    append_body, initial_sync, list_created, pull_step, subscription_ended, uploaded, InitialStep,
    PullStep, SyncCommand, BATCH,
};
use todoers::view::{PaneData, ViewModel};
use todoers::worker::Worker;

const NOW: i64 = 1_780_000_000;

fn some_session() -> Session {
    let (identity_secret, identity_pub) = generate_identity();
    let (signing_seed, signing_pub) = generate_signing();
    Session::new(&UnlockedKeys {
        member_id: member_id_of(&identity_pub),
        identity_secret,
        identity_pub,
        signing_seed,
        signing_pub,
        token: String::new(),
    })
}

/// A store over a database with a fresh random identity.
fn store_with(db: Db) -> Store {
    Store::new(db, some_session())
}

fn input(title: &str) -> TodoItemInput {
    TodoItemInput { title: title.into(), ..Default::default() }
}

fn titles(view: &[(ListId, TodoItem)]) -> Vec<&str> {
    view.iter().map(|(_, i)| i.title.as_str()).collect()
}

// ── the database ──

#[test]
fn account_round_trips() {
    let mut db = Db::new();

    let account = || NewAccount {
        member_id: MemberId([7u8; 16]),
        username: "dana".into(),
        identity_pub: X25519Pub([1u8; 32]),
        signing_pub: Ed25519Pub([2u8; 32]),
        wrapped_secret_keys: vec![9, 8, 7, 6, 5],
        kdf_salt: [3u8; 16].into(),
        kdf_mem_kib: KDF_MEM_KIB.into(),
        kdf_iters: KDF_ITERS.into(),
        kdf_parallelism: KDF_PARALLELISM.into(),
    };

    assert!(db.load_account().is_none());
    db.save_account(account());
    let loaded = db.load_account().unwrap();
    let account = account();

    assert_eq!(loaded.member_id, account.member_id);
    assert_eq!(loaded.username, account.username);
    assert_eq!(loaded.identity_pub, account.identity_pub);
    assert_eq!(loaded.signing_pub, account.signing_pub);
    assert_eq!(loaded.wrapped_secret_keys, account.wrapped_secret_keys);
    assert_eq!(loaded.kdf_salt, account.kdf_salt);
    assert_eq!(loaded.kdf_mem_kib, account.kdf_mem_kib);
}

#[test]
fn the_device_cache_needs_both_parts() {
    let mut db = Db::new();
    db.save_device_cache(&[4; 16], vec![1, 2, 3]);
    assert_eq!(db.load_device_cache(), None);
    db.save_account(NewAccount {
        member_id: MemberId([7u8; 16]),
        username: "dana".into(),
        identity_pub: X25519Pub([1u8; 32]),
        signing_pub: Ed25519Pub([2u8; 32]),
        wrapped_secret_keys: vec![],
        kdf_salt: KdfSalt([3; 16]),
        kdf_mem_kib: 1,
        kdf_iters: 1,
        kdf_parallelism: 1,
    });
    db.save_device_cache(&[4; 16], vec![1, 2, 3]);
    assert_eq!(db.load_device_cache(), Some(([4; 16], vec![1, 2, 3])));
    db.clear_device_cache();
    assert_eq!(db.load_device_cache(), None);
    assert_eq!(device_cache(&Some(vec![4; 16]), &None), None);
    assert_eq!(device_cache(&None, &Some(vec![1])), None);
}

#[test]
fn rows_are_read_as_written() {
    assert_eq!(parse_role("owner"), Role::Owner);
    assert_eq!(parse_role("member"), Role::Member);
    assert_eq!(parse_role("other"), Role::Member);
    assert_eq!(parse_role(role_text(Role::Owner)), Role::Owner);
    assert_eq!(parse_role(role_text(Role::Member)), Role::Member);
    assert_eq!(to_16(&vec![5; 16]), [5; 16]);
    assert_eq!(to_32(&vec![6; 32]), [6; 32]);
    assert_eq!(list_id_from(&vec![5; 16]), ListId([5; 16]));
    let item = TodoItem {
        id: "i1".to_string(),
        title: "Milk".to_string(),
        notes: "2%".to_string(),
        due: Some(NOW),
        priority: Priority::Med,
        done: true,
        tags: vec!["dairy".to_string()],
        subtasks: vec![Subtask { id: "s".to_string(), title: "x".to_string(), done: false }],
        order_key: "00000003".to_string(),
    };
    let back = row_to_item(&item_to_row(ListId([5; 16]), &item));
    assert!(back.subtasks.is_empty());
    assert_eq!(back, TodoItem { subtasks: vec![], ..item });
}

#[test]
fn lists_are_kept_by_number_and_read_by_name() {
    let mut db = Db::new();
    let (a, b) = (ListId([1; 16]), ListId([2; 16]));
    db.upsert_list(a, Role::Owner, 1, "Work".to_string());
    db.upsert_list(b, Role::Member, 4, "Home".to_string());
    let names = |db: &Db| db.list_lists().into_iter().map(|l| l.name).collect::<Vec<_>>();
    assert_eq!(names(&db), vec!["Home", "Work"]);
    db.upsert_list(a, Role::Owner, 2, "Work!".to_string());
    assert_eq!(names(&db), vec!["Home", "Work!"]);
    assert_eq!(db.list_epoch(a), Some(2));
    db.set_epoch(a, 3);
    assert_eq!(db.list_epoch(a), Some(3));
    assert_eq!(db.list_epoch(b), Some(4));
    db.rename_list(b, "Zuhause".to_string());
    assert_eq!(names(&db), vec!["Work!", "Zuhause"]);
    db.delete_list(a);
    assert_eq!(names(&db), vec!["Zuhause"]);
    assert_eq!(db.list_epoch(a), None);
}

#[test]
fn a_deleted_list_leaves_nothing() {
    let mut store = store_with(Db::new());
    let list = store.create_list("L").unwrap();
    store.add_todo(list, &input("a")).unwrap();
    store.delete_list(list);
    assert!(store.list_summaries().is_empty());
    assert!(store.db.load_document(list).is_none());
    assert!(store.db.load_todo_items(list).is_empty());
    assert!(store.members(list).is_empty());
    assert_eq!(store.add_todo(list, &input("b")), Err(StoreError::UnknownList));
}

#[test]
fn key_slots_open_in_a_new_session() {
    let mut store = store_with(Db::new());
    let list = store.create_list("L").unwrap();
    let dek = store.session().dek(list, 1).unwrap();
    let me = store.session().identity_pub();
    let mut session = Session::new(&UnlockedKeys {
        member_id: store.session().member_id(),
        identity_secret: store.session.identity_secret,
        identity_pub: me,
        signing_seed: *store.session().signing_key(),
        signing_pub: store.session().signing_pub(),
        token: "tok".to_string(),
    });
    assert_eq!(session.dek(list, 1), None);
    session.rehydrate(store.db.load_key_slots());
    assert_eq!(session.dek(list, 1), Some(dek));
    assert_eq!(session.token(), "tok");
    // A slot for someone else is passed over.
    let mut stranger = some_session();
    stranger.rehydrate(store.db.load_key_slots());
    assert_eq!(stranger.dek(list, 1), None);
    stranger.insert_dek(list, 2, [3; 32]);
    assert_eq!(stranger.dek(list, 2), Some([3; 32]));
}

// ── the store ──

#[test]
fn create_list_seeds_summary_and_outbound() {
    let mut store = store_with(Db::new());
    let id = store.create_list("Groceries").unwrap();

    let summaries = store.list_summaries();
    assert_eq!(summaries.len(), 1);
    assert_eq!(summaries[0].name, "Groceries");
    assert_eq!(summaries[0].role, Role::Owner);
    assert_eq!(summaries[0].open_count, 0);

    // The title edit produced one queued update.
    assert!(store.db.outbound_count(id) >= 1);
    // We are recorded as the sole (owner) member.
    assert_eq!(store.members(id).len(), 1);
}

#[test]
fn todo_crud_round_trips_through_read_model() {
    let mut store = store_with(Db::new());
    let list = store.create_list("L").unwrap();

    let a = store.add_todo(list, &input("buy milk")).unwrap();
    store.add_todo(list, &input("walk dog")).unwrap();

    let view = store.load_view(ViewTarget::List(list), SortMode::Alphabetical, NOW);
    assert_eq!(titles(&view), vec!["buy milk", "walk dog"]);

    store.toggle_done(list, &a).unwrap();
    let done = store.load_view(ViewTarget::List(list), SortMode::Alphabetical, NOW);
    assert!(done.iter().find(|(_, i)| i.id == a).unwrap().1.done);

    store
        .edit_todo(
            list,
            &a,
            &TodoItemInput {
                title: "buy oat milk".into(),
                priority: Priority::High,
                ..Default::default()
            },
        )
        .unwrap();
    let edited = store.load_view(ViewTarget::List(list), SortMode::Priority, NOW);
    assert_eq!(edited[0].1.title, "buy oat milk");
    assert_eq!(edited[0].1.priority, Priority::High);

    store.delete_todo(list, &a).unwrap();
    let after = store.load_view(ViewTarget::List(list), SortMode::Alphabetical, NOW);
    assert_eq!(after.len(), 1);
    assert_eq!(after[0].1.title, "walk dog");
}

#[test]
fn meta_list_due_today_aggregates_across_lists() {
    let mut store = store_with(Db::new());
    let a = store.create_list("A").unwrap();
    let b = store.create_list("B").unwrap();

    let today = time::OffsetDateTime::now_utc().unix_timestamp();
    let next_month = today + 40 * DAY;

    store
        .add_todo(
            a,
            &TodoItemInput { title: "due now".into(), due: Some(today), ..Default::default() },
        )
        .unwrap();
    store
        .add_todo(
            b,
            &TodoItemInput { title: "later".into(), due: Some(next_month), ..Default::default() },
        )
        .unwrap();

    let today_view =
        store.load_view(ViewTarget::Meta(MetaList::DueToday), SortMode::DueDate, today);
    assert_eq!(titles(&today_view), vec!["due now"]);

    let all = store.load_view(ViewTarget::Meta(MetaList::AllTasks), SortMode::DueDate, today);
    assert_eq!(all.len(), 2, "AllTasks spans both lists");
}

#[test]
fn data_survives_a_fresh_store() {
    // First store creates and populates.
    let id;
    let db = {
        let mut store = store_with(Db::new());
        id = store.create_list("Persistent").unwrap();
        store.add_todo(id, &input("remember me")).unwrap();
        store.db
    };
    // A brand-new store over the same DB still reads the read model.
    let store2 = store_with(db);
    let view = store2.load_view(ViewTarget::List(id), SortMode::Alphabetical, NOW);
    assert_eq!(view.len(), 1);
    assert_eq!(view[0].1.title, "remember me");
}

#[test]
fn remove_member_rotates_epoch() {
    let mut store = store_with(Db::new());
    let list = store.create_list("Shared").unwrap();
    assert_eq!(store.db.list_epoch(list), Some(1));

    // Add then remove a fabricated member; epoch should bump and a new DEK
    // for the new epoch must be available for subsequent writes.
    let other = Member {
        id: MemberId([42u8; 16]),
        identity_pub: generate_identity().1,
        signing_pub: generate_signing().1,
        role: Role::Member,
    };
    store.add_member_local(list, other).unwrap();
    assert_eq!(store.members(list).len(), 2);

    store.remove_member_local(list, other.id).unwrap();
    assert_eq!(store.db.list_epoch(list), Some(2));
    assert_eq!(store.members(list).len(), 1);

    // A write after rotation still succeeds (DEK for epoch 2 is present).
    store.add_todo(list, &input("post-rotation")).unwrap();
}

/// What was queued for upload, decrypted by someone who knows the key, is the list.
#[test]
fn queued_updates_rebuild_the_list_elsewhere() {
    let mut store = store_with(Db::new());
    let list = store.create_list("Shared").unwrap();
    let id = store.add_todo(list, &input("milk")).unwrap();
    store.set_priority(list, &id, Priority::High).unwrap();
    store.set_due(list, &id, Some(NOW)).unwrap();
    store.add_tag(list, &id, "dairy").unwrap();
    store.add_subtask(list, &id, "buy").unwrap();
    let dek = store.session().dek(list, 1).unwrap();
    let author = store.session().signing_pub();
    let mut copy = TodoDoc::new();
    for row in &store.db.outbound {
        let update = verify_and_decrypt(&row.payload, list, &author, &dek).unwrap();
        copy.import(&update).unwrap();
    }
    assert_eq!(copy.title(), "Shared");
    let full = store.full_item(list, &id).unwrap().unwrap();
    assert_eq!(copy.items(), vec![full]);
}

#[test]
fn every_edit_reaches_the_rows_for_reading() {
    let mut store = store_with(Db::new());
    let list = store.create_list("L").unwrap();
    let a = store.add_todo(list, &input("a")).unwrap();
    let b = store.add_todo(list, &input("b")).unwrap();
    store.move_todo(list, 0, 1).unwrap();
    let ids: Vec<String> = store.db.load_todo_items(list).into_iter().map(|i| i.id).collect();
    assert_eq!(ids, vec![b, a.clone()]);
    store.add_tag(list, &a, "x").unwrap();
    store.remove_tag(list, &a, "x").unwrap();
    let sub = store.add_subtask(list, &a, "step").unwrap();
    store.toggle_subtask(list, &a, &sub).unwrap();
    assert!(store.full_item(list, &a).unwrap().unwrap().subtasks[0].done);
    store.remove_subtask(list, &a, &sub).unwrap();
    assert!(store.full_item(list, &a).unwrap().unwrap().subtasks.is_empty());
    assert_eq!(store.full_item(list, "nobody"), Ok(None));
    store.rename_list(list, "M").unwrap();
    assert_eq!(store.list_summaries()[0].name, "M");
}

#[test]
fn an_edit_leaves_other_lists_alone() {
    let mut store = store_with(Db::new());
    let (here, there) = (store.create_list("here").unwrap(), store.create_list("there").unwrap());
    let kept = store.add_todo(there, &input("kept")).unwrap();
    let before = store.full_item(there, &kept);
    let gone = store.add_todo(here, &input("gone")).unwrap();
    store.delete_todo(here, &gone).unwrap();
    store.rename_list(here, "elsewhere").unwrap();
    assert_eq!(store.full_item(there, &kept), before);
    let names: Vec<String> = store.list_summaries().into_iter().map(|s| s.name).collect();
    assert_eq!(names, vec!["elsewhere", "there"]);
}

#[test]
fn each_failure_has_its_reason() {
    let mut store = store_with(Db::new());
    let list = store.create_list("L").unwrap();
    let nowhere = ListId([9; 16]);
    assert_eq!(store.toggle_done(list, "nobody"), Err(StoreError::Doc(DocError::UnknownId)));
    assert_eq!(store.move_todo(list, 3, 4), Err(StoreError::Doc(DocError::Refused)));
    assert!(store.add_todo(nowhere, &input("x")).is_err());
    assert!(store.remove_member_local(nowhere, MemberId([1; 16])).is_err());
    store.session_mut().deks.clear();
    assert_eq!(store.add_todo(list, &input("x")), Err(StoreError::NoKey));
    assert_eq!(StoreError::UnknownList.message(), "unknown list");
    assert_eq!(StoreError::NoKey.message(), "no DEK for list/epoch");
}

#[test]
fn a_list_made_with_a_given_key() {
    let mut store = store_with(Db::new());
    let list = ListId([8; 16]);
    store.create_list_with(list, [4; 32], "L").unwrap();
    assert_eq!(store.session().dek(list, 1), Some([4; 32]));
    let slot = &store.db.load_key_slots()[0];
    let me = store.session().identity_pub();
    assert_eq!(
        open_sealed(&slot.wrapped_dek, &me, &store.session.identity_secret).unwrap(),
        [4; 32]
    );
    store.remove_member_local_with(list, MemberId([1; 16]), [5; 32]).unwrap();
    assert_eq!(store.session().dek(list, 2), Some([5; 32]));
    assert_eq!(store.session().dek(list, 1), Some([4; 32]));
}

// ── reading ──

fn dated(title: &str, due: Option<i64>, priority: Priority) -> (ListId, TodoItem) {
    (
        ListId([1; 16]),
        TodoItem {
            id: title.to_string(),
            title: title.to_string(),
            notes: String::new(),
            due,
            priority,
            done: false,
            tags: vec![],
            subtasks: vec![],
            order_key: String::new(),
        },
    )
}

#[test]
fn todos_are_sorted() {
    let mut items = vec![
        dated("pear", None, Priority::Low),
        dated("Apple", Some(200), Priority::Unset),
        dated("fig", Some(100), Priority::High),
    ];
    sort_items(&mut items, SortMode::DueDate);
    assert_eq!(titles(&items), vec!["fig", "Apple", "pear"]);
    sort_items(&mut items, SortMode::Priority);
    assert_eq!(titles(&items), vec!["fig", "pear", "Apple"]);
    sort_items(&mut items, SortMode::Alphabetical);
    assert_eq!(titles(&items), vec!["Apple", "fig", "pear"]);
}

#[test]
fn summaries_are_sorted() {
    let list = |name: &str, next_due: Option<i64>, top_priority: Priority| ListSummary {
        id: ListId([1; 16]),
        name: name.to_string(),
        role: Role::Owner,
        open_count: 1,
        next_due,
        top_priority,
    };
    let names = |v: &Vec<ListSummary>| v.iter().map(|l| l.name.clone()).collect::<Vec<_>>();
    let mut lists = vec![
        list("b", None, Priority::High),
        list("a", Some(5), Priority::Low),
        list("c", Some(3), Priority::Unset),
    ];
    sort_summaries(&mut lists, SortMode::Alphabetical);
    assert_eq!(names(&lists), vec!["a", "b", "c"]);
    sort_summaries(&mut lists, SortMode::DueDate);
    assert_eq!(names(&lists), vec!["c", "a", "b"]);
    sort_summaries(&mut lists, SortMode::Priority);
    assert_eq!(names(&lists), vec!["b", "a", "c"]);
}

#[test]
fn a_summary_counts_what_is_open() {
    let mut store = store_with(Db::new());
    let list = store.create_list("L").unwrap();
    let with = |title: &str, due: Option<i64>, priority: Priority| TodoItemInput {
        title: title.to_string(),
        due,
        priority,
        ..Default::default()
    };
    let done = store.add_todo(list, &with("a", Some(50), Priority::High)).unwrap();
    store.add_todo(list, &with("b", Some(100), Priority::Low)).unwrap();
    store.add_todo(list, &with("c", Some(90), Priority::Med)).unwrap();
    store.toggle_done(list, &done).unwrap();
    let s = &store.list_summaries()[0];
    assert_eq!(s.open_count, 2);
    assert_eq!(s.next_due, Some(90));
    assert_eq!(s.top_priority, Priority::Med);
}

#[test]
fn a_pane_shows_what_it_is_pointed_at() {
    let mut store = store_with(Db::new());
    let list = store.create_list("L").unwrap();
    store.add_todo(list, &input("a")).unwrap();
    let mut view = ViewModel::default();
    view.panes.push(PaneData { target: None, items: vec![] });
    store.refresh_view(&mut view, NOW);
    assert_eq!(view.lists.len(), 1);
    assert!(view.panes[1].items.is_empty());
    store.open_view(&mut view, ViewTarget::List(list), 1, NOW);
    assert_eq!(view.panes[1].target, Some(ViewTarget::List(list)));
    assert_eq!(titles(&view.panes[1].items), vec!["a"]);
    store.open_view(&mut view, ViewTarget::List(list), 7, NOW);
    assert_eq!(view.panes.len(), 2);
}

#[test]
fn days_and_meta_lists() {
    assert_eq!(day_of(0), 0);
    assert_eq!(day_of(DAY - 1), 0);
    assert_eq!(day_of(-1), -1);
    assert!(MetaList::DueToday.contains(Some(NOW), NOW));
    assert!(!MetaList::DueToday.contains(Some(NOW + 2 * DAY), NOW));
    assert!(!MetaList::DueToday.contains(None, NOW));
    assert!(MetaList::AllTasks.contains(None, NOW));
    assert_eq!(MetaList::all().len(), 2);
    assert_eq!(SortMode::default(), SortMode::Alphabetical);
    assert_eq!(SortMode::Alphabetical.next().next().next(), SortMode::Alphabetical);
    for p in [Priority::Unset, Priority::Low, Priority::Med, Priority::High] {
        assert_eq!(Priority::from_rank(p.rank()), p);
        assert_eq!(p.next().prev(), p);
    }
    assert_eq!(Priority::High.rank(), 3);
    assert_eq!(Priority::from_rank(99), Priority::Unset);
}

// ── the worker ──

fn snapshot_titles(msg: &WorkerMsg) -> Vec<Vec<&str>> {
    match msg {
        WorkerMsg::Snapshot(s) => s.panes.iter().map(|p| titles(p)).collect(),
        other => panic!("expected a snapshot, got {other:?}"),
    }
}

/// What belongs to a list is only stored while the list is.
#[test]
fn rows_belong_to_a_stored_list() {
    let mut db = Db::new();
    let list = ListId([1; 16]);
    let session = some_session();
    let me = Member {
        id: session.member_id(),
        identity_pub: session.identity_pub(),
        signing_pub: session.signing_pub(),
        role: Role::Owner,
    };
    assert_eq!(db.save_document(list, vec![1]), Err(DbError::NoList));
    assert_eq!(db.add_member_row(list, me), Err(DbError::NoList));
    assert_eq!(db.save_key_slot(list, 1, vec![1]), Err(DbError::NoList));
    let (_, item) = dated("a", None, Priority::Low);
    assert_eq!(db.replace_todo_items(list, &vec![item]), Err(DbError::NoList));
    assert_eq!(db.replace_todo_items(list, &vec![]), Ok(()));
    assert!(db.list_members(list).is_empty());
    db.upsert_list(list, Role::Owner, 1, "L".to_string());
    assert_eq!(db.save_document(list, vec![1]), Ok(()));
    assert_eq!(db.add_member_row(list, me), Ok(()));
    assert_eq!(db.save_key_slot(list, 1, vec![1]), Ok(()));
    let mut store = store_with(Db::new());
    assert_eq!(store.add_member_local(list, me), Err(StoreError::UnknownList));
}

/// A deleted list is gone for the worker as well, and other lists stay.
#[test]
fn the_worker_deletes_a_list_with_everything() {
    let mut store = store_with(Db::new());
    let (gone, kept) = (store.create_list("gone").unwrap(), store.create_list("kept").unwrap());
    store.add_todo(gone, &input("a")).unwrap();
    let b = store.add_todo(kept, &input("b")).unwrap();
    let mut worker = Worker::new(store);
    let targets = vec![Some(ViewTarget::List(gone)), Some(ViewTarget::List(kept))];
    worker.serve(&StoreCommand::SetView { targets, sort: SortMode::Alphabetical }, NOW);
    let msg = worker.serve(&StoreCommand::DeleteList(gone), NOW);
    assert_eq!(snapshot_titles(&msg), vec![vec!["b"], vec!["b"]]);
    assert_eq!(worker.targets[0], Some(ViewTarget::Meta(MetaList::AllTasks)));
    assert_eq!(worker.store.db.load_document(gone), None);
    assert!(worker.store.members(gone).is_empty());
    assert_eq!(worker.store.db.outbound_count(gone), 0);
    assert!(worker.store.db.load_key_slots().iter().all(|k| k.list_id != gone));
    assert!(worker.store.db.outbound_count(kept) > 0);
    assert!(worker.store.session().dek(kept, 1).is_some());
    assert!(worker.store.full_item(kept, &b).unwrap().is_some());
}

#[test]
fn the_worker_answers_each_change_with_a_snapshot() {
    let mut w = Worker::new(store_with(Db::new()));
    let msg = w.serve(&StoreCommand::CreateList { name: "L".to_string() }, NOW);
    assert!(snapshot_titles(&msg).is_empty());
    let list = w.store.list_summaries()[0].id;
    let targets = vec![Some(ViewTarget::List(list)), None];
    let msg = w.serve(&StoreCommand::SetView { targets, sort: SortMode::Alphabetical }, NOW);
    assert_eq!(snapshot_titles(&msg), vec![Vec::<&str>::new(), vec![]]);
    let msg = w.serve(&StoreCommand::AddTodo { list_id: list, input: input("a") }, NOW);
    assert_eq!(snapshot_titles(&msg), vec![vec!["a"], vec![]]);
    let id = w.store.db.load_todo_items(list)[0].id.clone();
    let msg = w.serve(&StoreCommand::FetchFullItem { list_id: list, item_id: id.clone() }, NOW);
    match msg {
        WorkerMsg::FullItem(Some((l, item))) => {
            assert_eq!(l, list);
            assert_eq!(item.title, "a");
        }
        other => panic!("expected the todo, got {other:?}"),
    }
    match w.serve(&StoreCommand::FetchMembers(list), NOW) {
        WorkerMsg::Members(l, people) => {
            assert_eq!(l, list);
            assert_eq!(people.len(), 1);
        }
        other => panic!("expected members, got {other:?}"),
    }
    let msg = w.serve(&StoreCommand::DeleteTodo { list_id: list, item_id: id.clone() }, NOW);
    assert_eq!(snapshot_titles(&msg), vec![Vec::<&str>::new(), vec![]]);
    let msg = w.serve(&StoreCommand::ToggleDone { list_id: list, item_id: id }, NOW);
    assert!(matches!(msg, WorkerMsg::Error(_)));
    let msg = w.serve(&StoreCommand::DeleteList(list), NOW);
    assert_eq!(snapshot_titles(&msg).len(), 2);
    assert!(w.store.list_summaries().is_empty());
}

// ── uploads ──

#[test]
fn an_update_stays_until_the_server_has_it() {
    let mut store = store_with(Db::new());
    let list = store.create_list("L").unwrap();
    store.add_todo(list, &input("a")).unwrap();
    let waiting = store.db.outbound_count(list);
    let batch: Vec<Signature> = store.db.take_outbound(list, BATCH);
    assert_eq!(batch.len() as u64, waiting);
    assert!(store.db.take_outbound(list, BATCH).is_empty());
    let body = append_body(store.db.outbound_payload(batch[0]).unwrap());
    assert_eq!(body.epoch, 1);
    assert_eq!(body.nonce.len(), 24);
    assert_eq!(body.signature.len(), 64);
    assert!(!uploaded(&mut store.db, batch[0], false));
    assert_eq!(store.db.outbound_count(list), waiting);
    let again = store.db.take_outbound(list, 1);
    assert_eq!(again[0].0, batch[0].0);
    assert!(uploaded(&mut store.db, again[0], true));
    assert!(store.db.outbound_payload(again[0]).is_none());
    assert_eq!(store.db.outbound_count(list), waiting - 1);
}

#[test]
fn the_log_is_read_to_its_end() {
    assert_eq!(pull_step(7, &vec![]), PullStep { cursor: 7, forward: false, more: false });
    assert_eq!(pull_step(7, &vec![8, 9]), PullStep { cursor: 9, forward: true, more: false });
    let full: Vec<i64> = (8..8 + BATCH as i64).collect();
    assert_eq!(
        pull_step(7, &full),
        PullStep { cursor: 7 + BATCH as i64, forward: true, more: true }
    );
}

#[test]
fn lists_are_followed() {
    let (a, b) = (ListId([1; 16]), ListId([2; 16]));
    assert_eq!(
        initial_sync(&vec![a, b]),
        vec![
            InitialStep::Seed(a),
            InitialStep::Ask(SyncCommand::Pull(a)),
            InitialStep::Ask(SyncCommand::Subscribe(a)),
            InitialStep::Seed(b),
            InitialStep::Ask(SyncCommand::Pull(b)),
            InitialStep::Ask(SyncCommand::Subscribe(b))
        ]
    );
    assert_eq!(subscription_ended(a), (SyncCommand::Pull(a), SyncCommand::Subscribe(a)));
    assert_eq!(list_created(b), SyncCommand::Subscribe(b));
}

#[test]
fn a_key_sealed_to_a_member_opens_in_their_session() {
    let mut session = some_session();
    let dek = generate_dek();
    let wrapped = seal_to(&dek, &session.identity_pub());
    let mut db = Db::new();
    db.upsert_list(ListId([1; 16]), Role::Member, 3, "shared".to_string());
    db.save_key_slot(ListId([1; 16]), 3, wrapped).unwrap();
    session.rehydrate(db.load_key_slots());
    assert_eq!(session.dek(ListId([1; 16]), 3), Some(dek));
}
