use todoers::action::{Action, DeleteTarget};
use todoers::app::{drain, is_global_chord, App, Effect, Moment, ERROR_TIME};
use todoers::auth::{AccountRow, KdfSalt, UnlockedKeys};
use todoers::cli::{
    keygen_message, license, log_env, log_file, mismatch_message, recovery_step, recovery_text, version,
    version_message, wrong_key_message, Recovery, Typed,
};
use todoers::components::modal::Body;
use todoers::components::text_input::EditorMode;
use todoers::config::{
    read_bindings, AppConfig, Config, DeviceUnlockConfig, EditingMode, IconType, KeyBindings,
    KeyContext, Styles,
};
use todoers::cycle::{next_of, prev_of};
use todoers::dates::{date_of_time, pad, Date};
use todoers::keymap::CommandSpec;
use todoers::keys::{KeyCode, KeyEvent, KeyEventKind, KeyModifiers};
use todoers::mode::Mode;
use todoers::model::{
    Ed25519Pub, ListId, ListSummary, Member, MemberId, MetaList, Priority, Role, SortMode, TodoItem,
    ViewTarget, X25519Pub,
};
use todoers::net::{
    base_of, endpoint, snapshot_reply, snapshot_url, socket_url, SnapshotReply, LOGIN_FINISH,
};
use todoers::run::{mode_line, AfterTurn};
use todoers::store_worker::{StoreCommand, ViewSnapshot, WorkerMsg};
use todoers::tasks::{
    device_unlock_obstacle, device_unlock_result, register_result, resolved_member, share_result,
    LoginStage, LoginTask, PubkeyError, Registered, SealFailure, UserPubkeysDto,
};
use todoers::text::{
    char_lower, char_upper, join, number, parse_u8, split, strip_prefixes, trim,
};
use todoers::tui::{key_counts, stop_step, Event, StopStep};

fn key(code: KeyCode, modifiers: KeyModifiers) -> KeyEvent {
    KeyEvent::new(code, modifiers)
}

fn control() -> KeyModifiers {
    KeyModifiers { control: true, ..KeyModifiers::empty() }
}

fn alt() -> KeyModifiers {
    KeyModifiers { alt: true, ..KeyModifiers::empty() }
}

fn shift() -> KeyModifiers {
    KeyModifiers { shift: true, ..KeyModifiers::empty() }
}

fn config() -> Config {
    let bound = |of: &[(&str, &str)]| {
        let raw: Vec<(String, CommandSpec)> = of
            .iter()
            .map(|(k, c)| (k.to_string(), CommandSpec::Bare(c.to_string())))
            .collect();
        read_bindings(&raw).unwrap()
    };
    let mut keybindings = KeyBindings::new();
    keybindings.set(
        KeyContext::Global,
        bound(&[("q", "quit"), ("ctrl-c", "quit"), ("ctrl-z", "suspend"), ("?", "help_modal")]),
    );
    keybindings.set(
        KeyContext::Home,
        bound(&[("n", "new_list"), ("o", "cycle_sort"), ("|", "split_horizontal")]),
    );
    keybindings.set(KeyContext::Form, bound(&[("tab", "field_next"), ("enter", "submit")]));
    keybindings.set(KeyContext::Modal, bound(&[("enter", "activate"), ("tab", "focus_next")]));
    Config {
        config: AppConfig {
            data_dir: "/data".to_string(),
            config_dir: "/conf".to_string(),
            server_url: "http://localhost".to_string(),
            icon_type: IconType::Basic,
            device_unlock: DeviceUnlockConfig {
                enabled: true,
                recipient: None,
                identity: Some("/key".to_string()),
            },
            editing_mode: EditingMode::Emacs,
        },
        keybindings,
        styles: Styles::new(),
    }
}

fn keys() -> UnlockedKeys {
    UnlockedKeys {
        member_id: MemberId([5; 16]),
        identity_secret: [1; 32],
        identity_pub: X25519Pub([2; 32]),
        signing_seed: [3; 32],
        signing_pub: Ed25519Pub([4; 32]),
        token: "tok".to_string(),
    }
}

fn account() -> AccountRow {
    AccountRow {
        member_id: MemberId([5; 16]),
        username: "dana".to_string(),
        identity_pub: X25519Pub([2; 32]),
        signing_pub: Ed25519Pub([4; 32]),
        wrapped_secret_keys: vec![1],
        kdf_salt: KdfSalt([3; 16]),
        kdf_mem_kib: 8,
        kdf_iters: 1,
        kdf_parallelism: 1,
    }
}

fn moment() -> Moment {
    Moment { now: 1000, today: Date::from_calendar_date(2026, 6, 1).unwrap() }
}

/// An application that is logged in, its store open.
fn logged_in() -> App {
    let mut app = App::new(config(), Some(account()), Some(keys()), false, 0);
    turn(&mut app, Event::Tick);
    assert!(app.take_effects().contains(&Effect::StartSession));
    turn(&mut app, Event::Tick);
    app.take_effects();
    app
}

fn turn(app: &mut App, event: Event) {
    assert!(app.accepts_event(&event));
    app.on_event(&event, None);
    settle(app);
}

fn settle(app: &mut App) {
    for _ in 0..10 {
        app.handle_actions(moment());
    }
}

fn press(app: &mut App, code: KeyCode) {
    turn(app, Event::Key(key(code, KeyModifiers::empty())));
}

/// `drain` pulls the *entire* backlog in one pass.
#[test]
fn drain_collects_everything_queued() {
    let mut queue = Vec::new();
    queue.push(1);
    queue.push(2);
    queue.push(3);
    assert_eq!(drain(&mut queue), vec![1, 2, 3]);
    assert!(queue.is_empty());
}

/// Ctrl/Alt chords are global (dispatch over modals and capture); bare keys
/// the user could type into a field are not.
#[test]
fn global_chords_are_ctrl_or_alt() {
    assert!(is_global_chord(&key(KeyCode::Char('c'), control())));
    assert!(is_global_chord(&key(KeyCode::Char('z'), control())));
    assert!(is_global_chord(&key(KeyCode::Char('x'), alt())));

    assert!(!is_global_chord(&key(KeyCode::Char('?'), KeyModifiers::empty())));
    assert!(!is_global_chord(&key(KeyCode::Char('a'), KeyModifiers::empty())));
    assert!(!is_global_chord(&key(KeyCode::Tab, KeyModifiers::empty())));
    assert!(!is_global_chord(&key(KeyCode::Esc, KeyModifiers::empty())));
    // Shift alone (e.g. an uppercase letter) is still typeable, not global.
    assert!(!is_global_chord(&key(KeyCode::Char('A'), shift())));
}

// ── the way in ──

#[test]
fn without_an_account_the_chooser_opens() {
    let mut app = App::new(config(), None, None, false, 0);
    assert!(app.needs_account());
    turn(&mut app, Event::Tick);
    let modal = app.modal.as_ref().unwrap();
    assert_eq!(modal.title, "Welcome");
    assert_eq!(modal.buttons[0].action(), Action::LoginModal);
    assert_eq!(modal.esc_action, Action::Quit);
    assert!(!app.take_effects().contains(&Effect::StartSession));
}

/// The device's own key is tried once; then the password is asked for.
#[test]
fn an_account_is_unlocked_with_the_device_first() {
    let mut app = App::new(config(), None, None, false, 0);
    app.on_event(&Event::Tick, Some(account()));
    settle(&mut app);
    assert!(app.take_effects().contains(&Effect::DeviceUnlock));
    for a in device_unlock_result(&Err("no key".to_string())) {
        app.dispatch_action(&a, moment());
    }
    settle(&mut app);
    assert_eq!(app.modal.as_ref().unwrap().title, "Unlock");
    assert!(app.errorbar.show);
    turn(&mut app, Event::Tick);
    assert!(!app.take_effects().contains(&Effect::DeviceUnlock));
    app.dispatch_action(&Action::Unlock { password: "pw".to_string() }, moment());
    assert!(app
        .take_effects()
        .contains(&Effect::Login { username: "dana".to_string(), password: "pw".to_string() }));
}

#[test]
fn unlocking_without_an_account_is_an_error() {
    let mut app = App::new(config(), None, None, false, 0);
    app.dispatch_action(&Action::Unlock { password: "pw".to_string() }, moment());
    assert_eq!(app.errorbar.text, "No local account found; please register or log in.");
    assert!(app.take_effects().is_empty());
}

#[test]
fn registering_hands_the_credentials_on() {
    let mut app = App::new(config(), None, None, false, 0);
    app.dispatch_action(&Action::RegisterModal, moment());
    settle(&mut app);
    assert!(app.capturing);
    assert!(matches!(app.modal.as_ref().unwrap().body, Body::Register(_)));
    let sent = Action::Register { username: "a".to_string(), password: "b".to_string() };
    app.dispatch_action(&sent, moment());
    assert!(app
        .take_effects()
        .contains(&Effect::Register { username: "a".to_string(), password: "b".to_string() }));
    for a in register_result(&Registered::Saved) {
        app.dispatch_action(&a, moment());
    }
    assert!(app.modal.is_none());
    assert!(!app.capturing);
    assert_eq!(app.mode, Mode::Home);
}

// ── keys ──

/// What is typed into a field triggers no command; a chord does.
#[test]
fn typing_triggers_no_command() {
    let mut app = logged_in();
    press(&mut app, KeyCode::Char('n'));
    assert_eq!(app.modal.as_ref().unwrap().title, "New List");
    press(&mut app, KeyCode::Char('q'));
    assert!(!app.should_quit);
    match &app.modal.as_ref().unwrap().body {
        Body::List(f) => assert_eq!(f.field.value(), "q"),
        _ => panic!("expected the form for lists"),
    }
    turn(&mut app, Event::Key(key(KeyCode::Char('c'), control())));
    assert!(app.should_quit);
    assert_eq!(app.after_turn(), AfterTurn::Stop);
}

#[test]
fn the_workspace_rests_behind_a_dialog() {
    let mut app = logged_in();
    press(&mut app, KeyCode::Char('?'));
    assert_eq!(app.modal.as_ref().unwrap().title, "Help");
    press(&mut app, KeyCode::Char('|'));
    assert_eq!(app.view.panes.len(), 1);
    press(&mut app, KeyCode::Esc);
    assert!(app.modal.is_none());
    press(&mut app, KeyCode::Char('|'));
    assert_eq!(app.view.panes.len(), 2);
}

#[test]
fn pasting_and_submitting_makes_a_list() {
    let mut app = logged_in();
    press(&mut app, KeyCode::Char('n'));
    turn(&mut app, Event::Paste("Groceries".to_string()));
    press(&mut app, KeyCode::Enter);
    press(&mut app, KeyCode::Enter);
    let made = StoreCommand::CreateList { name: "Groceries".to_string() };
    assert!(app.take_effects().contains(&Effect::Store(made)));
    assert!(app.modal.is_none());
}

#[test]
fn suspending_happens_once() {
    let mut app = logged_in();
    turn(&mut app, Event::Key(key(KeyCode::Char('z'), control())));
    assert_eq!(app.after_turn(), AfterTurn::Suspend);
    settle(&mut app);
    assert_eq!(app.after_turn(), AfterTurn::Go);
}

/// However often drawing was asked for, a turn draws once.
#[test]
fn a_turn_draws_once() {
    let mut app = logged_in();
    app.on_event(&Event::Render, None);
    app.on_event(&Event::Render, None);
    app.handle_actions(moment());
    let drawn = app.take_effects().into_iter().filter(|e| *e == Effect::Render).count();
    assert_eq!(drawn, 1);
    app.handle_actions(moment());
    assert!(app.take_effects().is_empty());
    turn(&mut app, Event::Resize(80, 24));
    assert!(app.take_effects().contains(&Effect::Resize(80, 24)));
}

// ── the store ──

#[test]
fn nothing_is_stored_before_login() {
    let mut app = App::new(config(), None, None, false, 0);
    app.dispatch_action(&Action::CreateList { name: "L".to_string() }, moment());
    app.dispatch_action(&Action::CycleSort, moment());
    assert!(app.take_effects().is_empty());
}

#[test]
fn a_snapshot_keeps_the_layout() {
    let mut app = logged_in();
    let list = ListId([1; 16]);
    app.dispatch_action(
        &Action::OpenView { target: ViewTarget::List(list), pane: 0 },
        moment(),
    );
    assert_eq!(
        app.take_effects(),
        vec![Effect::Store(StoreCommand::SetView {
            targets: vec![Some(ViewTarget::List(list))],
            sort: SortMode::Alphabetical
        })]
    );
    let item = TodoItem {
        id: "t".to_string(),
        title: "milk".to_string(),
        notes: String::new(),
        due: None,
        priority: Priority::Unset,
        done: false,
        tags: vec![],
        subtasks: vec![],
        order_key: String::new(),
    };
    let summary = ListSummary {
        id: list,
        name: "L".to_string(),
        role: Role::Owner,
        open_count: 1,
        next_due: None,
        top_priority: Priority::Unset,
    };
    let snap = ViewSnapshot { lists: vec![summary], panes: vec![vec![(list, item)], vec![]] };
    app.handle_worker_msg(WorkerMsg::Snapshot(snap), 0);
    assert_eq!(app.view.panes.len(), 1);
    assert_eq!(app.view.panes[0].target, Some(ViewTarget::List(list)));
    assert_eq!(app.view.panes[0].items[0].1.title, "milk");
    assert_eq!(app.view.lists[0].name, "L");

    // Once deleted, the list is shown no more.
    app.dispatch_action(&Action::ConfirmDelete(DeleteTarget::List(list)), moment());
    assert_eq!(app.modal.as_ref().unwrap().title, "Confirm Delete");
    app.dispatch_action(&Action::DeleteList(list), moment());
    settle(&mut app);
    assert_eq!(app.view.panes[0].target, Some(ViewTarget::Meta(MetaList::AllTasks)));
    assert!(app.modal.is_none());
    assert!(app.take_effects().contains(&Effect::Store(StoreCommand::DeleteList(list))));
}

#[test]
fn replies_open_their_dialogs() {
    let mut app = logged_in();
    let list = ListId([1; 16]);
    let item = TodoItem {
        id: "t".to_string(),
        title: "milk".to_string(),
        notes: String::new(),
        due: Some(0),
        priority: Priority::High,
        done: false,
        tags: vec![],
        subtasks: vec![],
        order_key: String::new(),
    };
    app.handle_worker_msg(WorkerMsg::FullItem(Some((list, item))), 0);
    settle(&mut app);
    match &app.modal.as_ref().unwrap().body {
        Body::Todo(f) => {
            assert_eq!(f.item_id.as_deref(), Some("t"));
            assert_eq!(f.row.fields[0].value(), "milk");
            assert_eq!(f.due_cursor, Date::from_calendar_date(1970, 1, 1).unwrap());
        }
        _ => panic!("expected the form for todos"),
    }
    let other = Member {
        id: MemberId([9; 16]),
        identity_pub: X25519Pub([9; 32]),
        signing_pub: Ed25519Pub([9; 32]),
        role: Role::Member,
    };
    app.handle_worker_msg(WorkerMsg::Members(list, vec![other]), 0);
    settle(&mut app);
    match &app.modal.as_ref().unwrap().body {
        Body::Members(m) => {
            assert_eq!(m.me, MemberId([5; 16]));
            assert_eq!(m.members.len(), 1);
        }
        _ => panic!("expected the members"),
    }
    app.handle_worker_msg(WorkerMsg::Error("broken".to_string()), 7);
    assert_eq!(app.errorbar.text, "broken");
    assert_eq!(app.errorbar.duration, ERROR_TIME);
    assert_eq!(app.session_member_id(), MemberId([5; 16]));
}

#[test]
fn sharing_looks_the_user_up() {
    let mut app = logged_in();
    let list = ListId([1; 16]);
    app.dispatch_action(
        &Action::ShareList { list_id: list, username: "bob".to_string() },
        moment(),
    );
    assert_eq!(
        app.take_effects(),
        vec![Effect::Lookup {
            list_id: list,
            username: "bob".to_string(),
            token: "tok".to_string()
        }]
    );
}

#[test]
fn the_editing_mode_is_shown() {
    let mut cfg = config();
    cfg.config.editing_mode = EditingMode::Vim;
    let mut app = App::new(cfg, None, None, false, 0);
    assert_eq!(app.active_editor_mode(), None);
    app.dispatch_action(&Action::LoginModal, moment());
    settle(&mut app);
    assert_eq!(app.active_editor_mode(), Some(EditorMode::Normal));
    assert!(mode_line(EditorMode::Insert).contains(EditorMode::Insert.label()));
}

#[test]
fn secrets_are_not_logged() {
    assert!(!Action::Keys(keys()).is_loggable());
    assert!(!Action::Unlock { password: "pw".to_string() }.is_loggable());
    let login = Action::Login { username: "a".to_string(), password: "b".to_string() };
    assert!(!login.is_loggable());
    assert!(!Action::Tick.is_loggable());
    assert!(!Action::Render.is_loggable());
    assert!(Action::Quit.is_loggable());
    assert_eq!(Action::Quit.copy(), Action::Quit);
}

// ── background work ──

#[test]
fn a_login_on_a_fresh_device_saves_an_account() {
    let mut task = LoginTask::new(false, None);
    assert!(task.account_read(Ok(false)).is_empty());
    assert_eq!(task.stage, LoginStage::LoggingIn);
    assert!(task.logged_in(Ok(keys())).is_empty());
    assert_eq!(task.stage, LoginStage::Sealing);
    assert!(task.sealed(Ok(())).is_empty());
    assert_eq!(task.stage, LoginStage::Saving);
    let end = task.saved(None);
    assert_eq!(task.stage, LoginStage::Over);
    assert_eq!(
        end,
        vec![
            Action::Keys(keys()),
            Action::StopCapture,
            Action::CloseModal,
            Action::SetMode(Mode::Home)
        ]
    );
}

#[test]
fn a_login_enrolls_the_device_where_that_is_wanted() {
    let mut task = LoginTask::new(true, Some("age1".to_string()));
    task.account_read(Ok(true));
    assert!(task.logged_in(Ok(keys())).is_empty());
    assert_eq!(task.stage, LoginStage::CheckingDevice);
    assert!(task.device_checked(false).is_empty());
    assert_eq!(task.stage, LoginStage::Enrolling);
    assert!(task.enrolled(None).is_empty());
    assert_eq!(task.stage, LoginStage::SavingDevice);
    let end = task.device_saved(Some("full".to_string()));
    assert!(matches!(&end[0], Action::Error(e) if e.contains("full")));
    assert_eq!(end.last(), Some(&Action::SetMode(Mode::Home)));
}

#[test]
fn a_login_that_fails_says_why() {
    let mut task = LoginTask::new(false, None);
    let end = task.account_read(Err("locked".to_string()));
    assert_eq!(end, vec![Action::Error("Database error: locked".to_string())]);
    assert_eq!(task.stage, LoginStage::Over);
    let mut task = LoginTask::new(false, None);
    task.account_read(Ok(false));
    let end = task.logged_in(Err("refused".to_string()));
    assert!(matches!(&end[0], Action::Error(e) if e.contains("refused")));
    assert_eq!(task.stage, LoginStage::Over);
    let mut task = LoginTask::new(false, None);
    task.account_read(Ok(false));
    task.logged_in(Ok(keys()));
    let end = task.sealed(Err(SealFailure::Refused("kdf".to_string())));
    assert!(matches!(&end[0], Action::Error(e) if e.contains("kdf")));
    let mut task = LoginTask::new(false, None);
    task.account_read(Ok(false));
    task.logged_in(Ok(keys()));
    let end = task.sealed(Err(SealFailure::Panicked("task".to_string())));
    assert!(matches!(&end[0], Action::Error(e) if e.contains("task")));
}

#[test]
fn a_registration_that_was_not_saved_says_so() {
    assert_eq!(
        register_result(&Registered::Unsaved("full".to_string())),
        vec![Action::Error("Could not save account: full".to_string())]
    );
    assert_eq!(
        register_result(&Registered::Failed("taken".to_string())),
        vec![Action::Error("Registration failed: taken".to_string())]
    );
}

#[test]
fn keys_of_a_user_must_have_their_size() {
    let dto = |identity: usize, signing: usize| UserPubkeysDto {
        member_id: [7; 16],
        identity_pub: vec![1; identity],
        signing_pub: vec![2; signing],
    };
    let member = resolved_member(&dto(32, 32)).unwrap();
    assert_eq!(member.id, MemberId([7; 16]));
    assert_eq!(member.role, Role::Member);
    assert_eq!(resolved_member(&dto(31, 32)), Err(PubkeyError::Identity));
    assert_eq!(resolved_member(&dto(32, 31)), Err(PubkeyError::Signing));
    let list = ListId([1; 16]);
    assert_eq!(
        share_result(list, &Ok(dto(32, 32))),
        Action::AddResolvedMember { list_id: list, member }
    );
    assert!(matches!(share_result(list, &Ok(dto(1, 32))), Action::Error(_)));
    assert_eq!(
        share_result(list, &Err("404".to_string())),
        Action::Error("Share failed: 404".to_string())
    );
}

#[test]
fn what_stands_in_the_way_of_the_device_key() {
    let identity = Some("/key".to_string());
    assert_eq!(device_unlock_obstacle(true, &identity), None);
    assert_eq!(device_unlock_obstacle(false, &identity), Some("no device cache on this device"));
    assert_eq!(device_unlock_obstacle(true, &None), Some("no device-unlock identity configured"));
    assert_eq!(
        device_unlock_result(&Ok(keys())),
        vec![Action::Keys(keys()), Action::SetMode(Mode::Home)]
    );
}

// ── the server ──

#[test]
fn addresses_of_the_server() {
    let list = ListId([
        0x01, 0x23, 0x45, 0x67, 0x89, 0xab, 0xcd, 0xef, 0x01, 0x23, 0x45, 0x67, 0x89, 0xab, 0xcd,
        0xef,
    ]);
    let id = "01234567-89ab-cdef-0123-456789abcdef";
    assert_eq!(base_of("https://todo.example//"), "https://todo.example");
    assert_eq!(
        endpoint("https://todo.example/", LOGIN_FINISH),
        "https://todo.example/v1/auth/login/finish"
    );
    assert_eq!(
        snapshot_url("http://localhost:8080/", list),
        format!("http://localhost:8080/v1/lists/{id}/snapshot")
    );
    assert_eq!(socket_url("http://h", list), format!("ws://h/v1/lists/{id}/ws"));
    assert_eq!(socket_url("https://h/", list), format!("wss://h/v1/lists/{id}/ws"));
    assert_eq!(socket_url("h", list), format!("h/v1/lists/{id}/ws"));
}

#[test]
fn replies_to_a_request_for_a_snapshot() {
    assert_eq!(snapshot_reply(404), SnapshotReply::Missing);
    assert_eq!(snapshot_reply(200), SnapshotReply::Present);
    assert_eq!(snapshot_reply(500), SnapshotReply::Rejected);
    assert_eq!(snapshot_reply(401), SnapshotReply::Rejected);
}

// ── the terminal ──

#[test]
fn key_releases_do_not_count() {
    let pressed = key(KeyCode::Char('a'), KeyModifiers::empty());
    assert!(key_counts(pressed));
    assert!(key_counts(KeyEvent { kind: KeyEventKind::Repeat, ..pressed }));
    assert!(!key_counts(KeyEvent { kind: KeyEventKind::Release, ..pressed }));
    assert_eq!(stop_step(0), StopStep::Wait);
    assert_eq!(stop_step(50), StopStep::Wait);
    assert_eq!(stop_step(51), StopStep::Abort);
    assert_eq!(stop_step(101), StopStep::GiveUp);
}

// ── the command line ──

#[test]
fn what_the_command_line_says() {
    assert_eq!(version_message("1.0.0", "abc", "2026-01-01"), "1.0.0-abc (2026-01-01)");
    let text = version("1.0.0", "me", "/conf", "/data");
    assert!(text.starts_with("1.0.0\n\nAuthors: me\n\nConfig directory: /conf\n"));
    assert!(text.ends_with(license()));
    assert!(keygen_message("/key", "age1xyz").contains("age1xyz"));
    assert_eq!(log_env("TODOERS"), "TODOERS_LOG_LEVEL");
    assert_eq!(log_file("todoers"), "todoers.log");
}

#[test]
fn the_recovery_key_is_asked_for_five_times() {
    assert_eq!(recovery_step(1, Typed::Wrong), Recovery::Again(2));
    assert_eq!(recovery_step(5, Typed::Wrong), Recovery::GaveUp);
    assert_eq!(recovery_step(3, Typed::Right), Recovery::Open);
    assert_eq!(recovery_step(3, Typed::Nothing), Recovery::NothingTyped);
    assert_eq!(mismatch_message(4), "Keys don't match, try again.");
    assert_eq!(mismatch_message(5), "Out of attempts, giving up.");
    assert_eq!(recovery_text(" AB-cd 12-"), "abcd12");
    assert_eq!(
        wrong_key_message(2),
        "That recovery key did not work (attempt 2 of 5). Try again."
    );
}

// ── dates, texts, positions ──

#[test]
fn dates_count_from_the_epoch() {
    let day = Date::from_calendar_date(1970, 1, 2).unwrap();
    assert_eq!(day.midnight(), 86400);
    assert_eq!(day.to_text(), "1970-01-02");
    assert_eq!(Date::from_seconds(-1), Date::from_calendar_date(1969, 12, 31));
    assert_eq!(day.plus_days(365), Date::from_calendar_date(1971, 1, 2).unwrap());
    assert_eq!(day.plus_days(i64::MAX), Date::from_calendar_date(9999, 12, 31).unwrap());
    assert_eq!(day.plus_days(i64::MIN), Date::from_calendar_date(-9999, 1, 1).unwrap());
    assert_eq!(Date::from_calendar_date(2023, 2, 29), None);
    assert!(Date::from_calendar_date(2024, 2, 29).is_some());
    assert_eq!(Date::from_seconds(i64::MAX), None);
    assert_eq!(date_of_time(None), None);
    assert_eq!(pad(7, 8), "00000007");
    let june = Date::from_calendar_date(2026, 6, 20).unwrap();
    let expected = time::Date::from_calendar_date(2026, time::Month::June, 20).unwrap();
    assert_eq!(june.midnight(), expected.midnight().assume_utc().unix_timestamp());
}

#[test]
fn texts_are_cut_and_put_together() {
    assert_eq!(split("a,b,,c", ','), vec!["a", "b", "", "c"]);
    assert_eq!(join(&vec!["a".to_string(), "b".to_string()], "+"), "a+b");
    assert_eq!(trim(" \t x y \n"), "x y");
    assert_eq!(number(1204), "1204");
    assert_eq!(char_lower('A'), 'a');
    assert_eq!(char_upper('z'), 'Z');
    let chars = |s: &str| s.chars().collect::<Vec<char>>();
    assert_eq!(parse_u8(&chars("255")), Some(255));
    assert_eq!(parse_u8(&chars("256")), None);
    assert_eq!(parse_u8(&chars("")), None);
    assert_eq!(strip_prefixes(&chars("graygray5"), "gray"), chars("5"));
}

#[test]
fn positions_go_round() {
    assert_eq!(next_of(2, 3), 0);
    assert_eq!(prev_of(0, 3), 2);
    assert_eq!(prev_of(next_of(1, 3), 3), 1);
}
