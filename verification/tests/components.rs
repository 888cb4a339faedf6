use todoers::action::{Action, DeleteTarget, Outcome};
use todoers::components::button::{Button, MouseEvent, Rect};
use todoers::components::errorbar::ErrorBar;
use todoers::components::form_keys::{FormAction, FormKeys};
use todoers::components::home::{
    border_style, command_hint, highlight_style, layout_hint, priority_style, row_of_todo,
    rows_of_sidebar, text_of_due, title_of_pane, title_style, Focus, Home, HomeCmd, ListIcon, Look,
    Paint,
};
use todoers::components::legend::{key_label, Help, Keys};
use todoers::components::list_form::ListForm;
use todoers::components::members::Members;
use todoers::components::modal::{Body, Modal};
use todoers::components::register::{Login, Register};
use todoers::components::sidebar::{width_for, Sidebar};
use todoers::components::text_input::{EditorMode, TextInput, VimMode};
use todoers::components::todo_form::{read_tags, CursorMove, DueMark, TodoForm, DUE, PRIORITY};
use todoers::components::unlock::Unlock;
use todoers::config::{
    read_bindings, AppConfig, Config, DeviceUnlockConfig, EditingMode, IconType, Styles,
};
use todoers::dates::{shift_month, Date};
use todoers::defaults::default_bindings;
use todoers::keymap::{compile_keymap, CommandSpec};
use todoers::keys::{parse_key_sequence, KeyCode, KeyEvent, KeyModifiers};
use todoers::mode::{Captures, Mode};
use todoers::model::{
    Ed25519Pub, ListId, ListSummary, Member, MemberId, MetaList, Priority, Role, TodoItem,
    TodoItemInput, ViewTarget, X25519Pub,
};
use todoers::view::{Direction, PaneData, ViewModel};

const USERNAME: usize = 0;
const PASSWORD: usize = 1;
const CONFIRM: usize = 2;
const TITLE: usize = 0;

fn key(code: KeyCode) -> KeyEvent {
    KeyEvent::new(code, KeyModifiers::empty())
}

fn code(k: KeyCode) -> KeyEvent {
    key(k)
}

fn ch(c: char) -> KeyEvent {
    key(KeyCode::Char(c))
}

fn ctrl(c: char) -> KeyEvent {
    KeyEvent::new(KeyCode::Char(c), KeyModifiers { control: true, ..KeyModifiers::empty() })
}

/// The configuration with the bindings that the program comes with.
fn defaults() -> Config {
    let keybindings = default_bindings().unwrap();
    Config {
        config: AppConfig {
            data_dir: "/data".to_string(),
            config_dir: "/conf".to_string(),
            server_url: "http://localhost".to_string(),
            icon_type: IconType::Basic,
            device_unlock: DeviceUnlockConfig { enabled: false, recipient: None, identity: None },
            editing_mode: EditingMode::Emacs,
        },
        keybindings,
        styles: Styles::new(),
    }
}

/// The defaults with one more binding on the main screen.
fn rebound(keys: &str, command: &str) -> Config {
    let mut cfg = defaults();
    cfg.keybindings
        .home
        .as_mut()
        .unwrap()
        .insert(parse_key_sequence(keys).unwrap(), CommandSpec::Bare(command.to_string()));
    cfg
}

fn todo(id: &str, title: &str) -> TodoItem {
    TodoItem {
        id: id.to_string(),
        title: title.to_string(),
        notes: String::new(),
        due: None,
        priority: Priority::Unset,
        done: false,
        tags: vec![],
        subtasks: vec![],
        order_key: "00000000".to_string(),
    }
}

fn summary(n: u8, name: &str) -> ListSummary {
    ListSummary {
        id: ListId([n; 16]),
        name: name.to_string(),
        role: Role::Owner,
        open_count: 2,
        next_due: None,
        top_priority: Priority::Unset,
    }
}

// ── buttons ──

#[test]
fn focused_enter_emits_action() {
    let mut b = Button::new("Close", Action::CloseModal);
    b.set_focused(true);
    assert_eq!(b.handle_key_event(key(KeyCode::Enter)), Some(Action::CloseModal));
    assert_eq!(b.handle_key_event(key(KeyCode::Char(' '))), Some(Action::CloseModal));
}

#[test]
fn unfocused_button_ignores_keys() {
    let b = Button::new("Close", Action::CloseModal);
    assert_eq!(b.handle_key_event(key(KeyCode::Enter)), None);
}

#[test]
fn focused_button_ignores_unrelated_keys() {
    let mut b = Button::new("Close", Action::CloseModal);
    b.set_focused(true);
    assert_eq!(b.handle_key_event(key(KeyCode::Char('x'))), None);
}

#[test]
fn click_inside_emits_action() {
    let mut b = Button::new("Close", Action::CloseModal);
    b.last_area = Rect { x: 5, y: 5, width: 10, height: 3 };
    let mouse = MouseEvent { left_down: true, column: 7, row: 6 };
    assert_eq!(b.handle_mouse_event(mouse), Some(Action::CloseModal));
}

#[test]
fn click_outside_is_ignored() {
    let mut b = Button::new("Close", Action::CloseModal);
    b.last_area = Rect { x: 5, y: 5, width: 10, height: 3 };
    let mouse = MouseEvent { left_down: true, column: 100, row: 100 };
    assert_eq!(b.handle_mouse_event(mouse), None);
}

#[test]
fn the_edge_of_a_button_is_outside() {
    let mut b = Button::new("Close", Action::CloseModal);
    b.set_area(Rect { x: 5, y: 5, width: 10, height: 3 });
    assert!(b.handle_mouse_event(MouseEvent { left_down: true, column: 14, row: 7 }).is_some());
    assert!(b.handle_mouse_event(MouseEvent { left_down: true, column: 15, row: 7 }).is_none());
    assert!(b.handle_mouse_event(MouseEvent { left_down: true, column: 14, row: 8 }).is_none());
    assert!(b.handle_mouse_event(MouseEvent { left_down: false, column: 14, row: 7 }).is_none());
    assert_eq!(b.action(), Action::CloseModal);
}

// ── the main screen ──

#[test]
fn default_command_keys_emit_actions() {
    let mut view = ViewModel::default();
    let mut home = Home::new();
    home.configure(&defaults());

    assert_eq!(home.handle_key_event(&mut view, ch('n')).sent, Some(Action::NewListModal));
    assert_eq!(home.handle_key_event(&mut view, ch('o')).sent, Some(Action::CycleSort));
}

#[test]
fn default_focus_keys_mutate_local_state() {
    let mut view = ViewModel::default();
    let mut home = Home::new();
    home.configure(&defaults());

    home.handle_key_event(&mut view, ch('l'));
    assert_eq!(home.focus, Focus::Pane);
    home.handle_key_event(&mut view, ch('h'));
    assert_eq!(home.focus, Focus::Sidebar);
}

#[test]
fn home_hints_derive_from_default_bindings() {
    let mut home = Home::new();
    home.configure(&defaults());
    assert_eq!(layout_hint(&home.surface.keymap), " |:split -:stack w:pane X:close ");
    assert_eq!(
        command_hint(&home.surface.keymap),
        " n:new a:add e:edit x:done d:del o:sort s:share m:members "
    );
}

#[test]
fn rebinding_a_key_changes_the_command() {
    let mut view = ViewModel::default();
    let mut home = Home::new();
    home.configure(&rebound("a", "new_list"));

    assert_eq!(home.handle_key_event(&mut view, ch('a')).sent, Some(Action::NewListModal));
}

#[test]
fn sidebar_hints_derive_from_default_bindings() {
    let mut sidebar = Sidebar::new();
    sidebar.configure(&defaults());
    assert_eq!(sidebar.layout_hint, " |:split -:stack w:pane X:close ");
}

#[test]
fn rebinding_a_key_changes_the_hints() {
    let mut sidebar = Sidebar::new();
    sidebar.configure(&rebound("a", "split"));
    assert_eq!(sidebar.layout_hint, " a:split -:stack w:pane X:close ");
}

/// Steps down and as many up leave the selection; it goes round at both ends.
#[test]
fn the_selection_goes_round_by_any_number() {
    let mut view = ViewModel::default();
    view.lists.push(summary(1, "Groceries"));
    let mut home = Home::new();
    home.move_selection(&view, -1);
    assert_eq!(home.sidebar_idx, 2);
    home.move_selection(&view, 1);
    assert_eq!(home.sidebar_idx, 0);
    home.move_selection(&view, 7);
    assert_eq!(home.sidebar_idx, 1);
    home.move_selection(&view, -7);
    assert_eq!(home.sidebar_idx, 0);
    home.move_selection(&view, isize::MIN);
    assert!(home.sidebar_idx < 3);
    assert_eq!((home.focus, home.active_pane), (Focus::Sidebar, 0));
}

/// A pane that was split and closed leaves the workspace as it was.
#[test]
fn a_split_is_undone_by_closing() {
    let mut view = ViewModel::default();
    let mut home = Home::new();
    let before = view.panes.len();
    assert!(home.execute(&mut view, HomeCmd::SplitHorizontal).is_some());
    assert_eq!(view.panes.len(), before + 1);
    assert_eq!(view.split, Some(Direction::Horizontal));
    home.execute(&mut view, HomeCmd::ClosePane);
    assert_eq!(view.panes.len(), before);
    assert_eq!(view.split, None);
    home.execute(&mut view, HomeCmd::ClosePane);
    assert_eq!(view.panes.len(), before);
}

#[test]
fn the_selection_goes_there_and_back() {
    let mut view = ViewModel::default();
    view.lists.push(summary(1, "Groceries"));
    let mut home = Home::new();
    assert_eq!(home.sidebar_selection(&view), 0);
    home.execute(&mut view, HomeCmd::SelectNext);
    home.execute(&mut view, HomeCmd::SelectNext);
    assert_eq!(home.sidebar_selection(&view), 2);
    home.execute(&mut view, HomeCmd::SelectNext);
    assert_eq!(home.sidebar_selection(&view), 0);
    home.execute(&mut view, HomeCmd::SelectPrev);
    assert_eq!(home.sidebar_selection(&view), 2);
    home.execute(&mut view, HomeCmd::SelectPrev);
    assert_eq!(home.sidebar_selection(&view), 1);
}

#[test]
fn opening_shows_what_is_selected() {
    let mut view = ViewModel::default();
    view.lists.push(summary(1, "Groceries"));
    let mut home = Home::new();
    assert_eq!(
        home.execute(&mut view, HomeCmd::OpenSelected),
        Some(Action::OpenView { target: ViewTarget::Meta(MetaList::AllTasks), pane: 0 })
    );
    home.focus = Focus::Sidebar;
    home.sidebar_idx = 2;
    assert_eq!(
        home.execute(&mut view, HomeCmd::OpenSelected),
        Some(Action::OpenView { target: ViewTarget::List(ListId([1; 16])), pane: 0 })
    );
}

#[test]
fn the_selected_todo_is_the_one_that_commands_mean() {
    let list = ListId([1; 16]);
    let mut view = ViewModel::default();
    view.lists.push(summary(1, "Groceries"));
    view.panes[0].target = Some(ViewTarget::List(list));
    view.panes[0].items.push((list, todo("t1", "milk")));
    view.panes[0].items.push((list, todo("t2", "bread")));
    let mut home = Home::new();
    home.focus = Focus::Pane;
    home.execute(&mut view, HomeCmd::SelectNext);
    assert_eq!(home.selected_item(&view), Some((list, "t2".to_string())));
    assert_eq!(home.pane_selection(&view, 0), Some(1));
    assert_eq!(
        home.execute(&mut view, HomeCmd::ToggleDone),
        Some(Action::ToggleDone { list_id: list, item_id: "t2".to_string() })
    );
    assert_eq!(
        home.execute(&mut view, HomeCmd::Delete),
        Some(Action::ConfirmDelete(DeleteTarget::Todo {
            list_id: list,
            item_id: "t2".to_string()
        }))
    );
    assert_eq!(home.execute(&mut view, HomeCmd::AddTodo), Some(Action::AddTodoModal(list)));
    home.focus = Focus::Sidebar;
    home.sidebar_idx = 2;
    assert_eq!(
        home.execute(&mut view, HomeCmd::Delete),
        Some(Action::ConfirmDelete(DeleteTarget::List(list)))
    );
    assert_eq!(
        home.execute(&mut view, HomeCmd::Rename),
        Some(Action::RenameListModal { list_id: list, name: "Groceries".to_string() })
    );
}

#[test]
fn hiding_the_sidebar_moves_the_focus() {
    let mut home = Home::new();
    assert_eq!(home.focus, Focus::Sidebar);
    home.update(&Action::ToggleSidebar);
    assert!(!home.sidebar_visible);
    assert_eq!(home.focus, Focus::Pane);
    assert!(home.pane_focused(0));
    assert!(!home.captures_input());
}

#[test]
fn rows_and_titles() {
    let mut view = ViewModel::default();
    view.lists.push(summary(1, "Groceries"));
    let rows = rows_of_sidebar(ListIcon::basic(), &view);
    assert_eq!(rows.len(), 3);
    assert!(rows[2].contains("Groceries"));
    assert!(rows[2].contains('L'));
    let mut pane = PaneData { target: Some(ViewTarget::List(ListId([1; 16]))), items: vec![] };
    assert!(title_of_pane(&view, &pane).contains("Groceries"));
    pane.target = None;
    assert!(!title_of_pane(&view, &pane).contains("Groceries"));
    let mut t = todo("t1", "milk");
    t.due = Some(86400);
    assert_eq!(text_of_due(t.due), row_of_todo(&t).due);
    assert!(text_of_due(Some(86400)).contains("1970-01-02"));
    assert_eq!(text_of_due(None), "");
    assert_eq!(row_of_todo(&t).title, "milk");
}

#[test]
fn looks() {
    assert_ne!(border_style(true), border_style(false));
    assert_ne!(highlight_style(true), highlight_style(false));
    assert_eq!(priority_style(Priority::High).fg, Some(Paint::Red));
    assert_eq!(priority_style(Priority::Unset).fg, Some(Paint::DarkGray));
    assert_eq!(title_style(false), Look::default());
    assert!(title_style(true).crossed_out);
    assert!(!title_style(false).crossed_out);
}

#[test]
fn the_sidebar_is_as_wide_as_its_text_within_limits() {
    let mut sidebar = Sidebar::new();
    sidebar.configure(&defaults());
    let mut view = ViewModel::default();
    let narrow = sidebar.placement(&view);
    view.lists.push(summary(1, "买一些牛奶买一些牛奶买一些牛奶买一些牛奶"));
    let wide = sidebar.placement(&view);
    assert!(wide > narrow);
    assert_eq!(wide, width_for(32, Some(40)));
    view.lists.push(summary(2, &"x".repeat(200)));
    assert_eq!(sidebar.placement(&view), 50);
    sidebar.update(&Action::ToggleSidebar);
    assert_eq!(sidebar.placement(&view), 0);
    assert!(!sidebar.captures_input());
}

// ── dialogs ──

fn type_str(modal: &mut Modal, s: &str) {
    for c in s.chars() {
        modal.handle_key_event(ch(c));
    }
}

#[test]
fn enter_highlights_submit_then_submits() {
    let mut modal = Modal::form("Register", Body::Register(Register::new()), Action::AuthChooser);
    modal.configure(&defaults());
    // The application sends StartCapture when the form opens.
    modal.update(&Action::StartCapture);

    type_str(&mut modal, "alice");
    modal.handle_key_event(code(KeyCode::Tab));
    type_str(&mut modal, "hunter2");
    modal.handle_key_event(code(KeyCode::Tab));
    type_str(&mut modal, "hunter2");

    // Enter on the last field highlights Submit instead of submitting.
    let out = modal.handle_key_event(code(KeyCode::Enter));
    assert_eq!(out.reply, None);
    assert!(out.sent.is_none(), "must not submit yet");

    // Activating Submit emits SubmitForm; the application forwards it into the body.
    assert_eq!(modal.handle_key_event(code(KeyCode::Enter)).reply, Some(Action::SubmitForm));
    match modal.update(&Action::SubmitForm).sent {
        Some(Action::Register { username, password }) => {
            assert_eq!(username, "alice");
            assert_eq!(password, "hunter2".to_string());
        }
        other => panic!("expected Register, got {other:?}"),
    }
}

#[test]
fn paste_routes_through_modal_into_form() {
    let mut modal = Modal::form("Register", Body::Register(Register::new()), Action::AuthChooser);
    modal.configure(&defaults());
    modal.update(&Action::StartCapture);

    // Paste the username, then type the two password fields and submit.
    modal.paste("alice");
    modal.handle_key_event(code(KeyCode::Tab));
    type_str(&mut modal, "hunter2");
    modal.handle_key_event(code(KeyCode::Tab));
    type_str(&mut modal, "hunter2");

    match modal.update(&Action::SubmitForm).sent {
        Some(Action::Register { username, password }) => {
            assert_eq!(username, "alice");
            assert_eq!(password, "hunter2".to_string());
        }
        other => panic!("expected Register, got {other:?}"),
    }
}

#[test]
fn esc_emits_the_esc_action() {
    let mut form = Modal::form("Register", Body::Register(Register::new()), Action::AuthChooser);
    assert_eq!(form.handle_key_event(code(KeyCode::Esc)).reply, Some(Action::AuthChooser));

    let mut info = Modal::message("Help", Body::Register(Register::new()));
    assert_eq!(info.handle_key_event(code(KeyCode::Esc)).reply, Some(Action::CloseModal));
}

/// At most one button is highlighted, and the focus goes round.
#[test]
fn one_button_is_highlighted() {
    let mut modal = Modal::confirm(
        "Delete?",
        Body::Prompt("Really?".to_string()),
        Action::DeleteList(ListId([1; 16])),
    );
    modal.configure(&defaults());
    for _ in 0..3 {
        assert_eq!(modal.buttons.iter().filter(|b| b.focused).count(), 1);
        modal.handle_key_event(code(KeyCode::Tab));
    }
    assert_eq!(modal.buttons.len(), 2);
    let area = Rect { x: 0, y: 0, width: 4, height: 1 };
    modal.buttons[0].set_area(area);
    let clicked = modal.handle_mouse_event(MouseEvent { left_down: true, column: 1, row: 0 });
    assert_eq!(clicked, Some(modal.buttons[0].action()));
    assert!(modal.height() > 0);
    assert_eq!(modal.editor_mode(), None);
}

#[test]
fn vim_escape_stays_in_the_form() {
    let mut cfg = defaults();
    cfg.config.editing_mode = EditingMode::Vim;
    let mut modal = Modal::form("Register", Body::Register(Register::new()), Action::CloseModal);
    modal.configure(&cfg);
    modal.update(&Action::StartCapture);
    assert_eq!(modal.editor_mode(), Some(EditorMode::Normal));
    modal.handle_key_event(ch('i'));
    assert_eq!(modal.editor_mode(), Some(EditorMode::Insert));
    assert_eq!(modal.handle_key_event(code(KeyCode::Esc)).reply, None);
    assert_eq!(modal.handle_key_event(code(KeyCode::Esc)).reply, Some(Action::CloseModal));
}

#[test]
fn vim_escape_stays_in_the_unlock_form() {
    let mut cfg = defaults();
    cfg.config.editing_mode = EditingMode::Vim;
    let mut unlock = Unlock::new();
    unlock.configure(&cfg);
    unlock.update(&Action::StartCapture);
    assert!(!unlock.consumes_escape());
    unlock.handle_key_event(ch('i'));
    assert!(unlock.consumes_escape());
    assert_eq!(unlock.editor_mode(), Some(EditorMode::Insert));
    unlock_typed(&mut unlock, "pw");
    unlock.error = Some("no".to_string());
    unlock.handle_key_event(code(KeyCode::Esc));
    assert_eq!(unlock.editor_mode(), Some(EditorMode::Normal));
    assert_eq!(unlock.error.as_deref(), Some("no"));
    unlock.handle_key_event(code(KeyCode::Esc));
    assert_eq!(unlock.error, None);

    let mut modal = Modal::form("Unlock", Body::Unlock(Unlock::new()), Action::CloseModal);
    modal.configure(&cfg);
    modal.update(&Action::StartCapture);
    modal.handle_key_event(ch('i'));
    assert_eq!(modal.editor_mode(), Some(EditorMode::Insert));
    assert_eq!(modal.handle_key_event(code(KeyCode::Esc)).reply, None);
    assert_eq!(modal.handle_key_event(code(KeyCode::Esc)).reply, Some(Action::CloseModal));
}

// ── registration, login, unlock ──

fn typed(screen: &mut Register, s: &str) {
    for c in s.chars() {
        screen.form.handle_key_event(ch(c));
    }
}

#[test]
fn register_typing_only_affects_focused_field() {
    let mut screen = Register::new();
    screen.form.configure(&defaults());
    screen.update(&Action::StartCapture);

    typed(&mut screen, "alice");
    assert_eq!(screen.form.row.fields[USERNAME].value(), "alice");
    assert_eq!(screen.form.row.fields[PASSWORD].value(), "");
    assert_eq!(screen.form.row.fields[CONFIRM].value(), "");

    screen.form.handle_key_event(code(KeyCode::Tab));
    typed(&mut screen, "hunter2");
    assert_eq!(screen.form.row.fields[USERNAME].value(), "alice");
    assert_eq!(screen.form.row.fields[PASSWORD].value(), "hunter2");
}

#[test]
fn valid_submit_emits_register() {
    let mut screen = Register::new();
    screen.form.configure(&defaults());
    screen.update(&Action::StartCapture);

    typed(&mut screen, "alice");
    screen.form.handle_key_event(code(KeyCode::Tab));
    typed(&mut screen, "hunter2");
    screen.form.handle_key_event(code(KeyCode::Tab));
    typed(&mut screen, "hunter2");
    // Enter on the last field highlights Submit; it must not submit yet.
    let out = screen.form.handle_key_event(code(KeyCode::Enter));
    assert_eq!(out.reply, Some(Action::FocusButtons));
    assert!(out.sent.is_none());

    // Activating Submit drives the actual submission.
    match screen.update(&Action::SubmitForm).sent {
        Some(Action::Register { username, password }) => {
            assert_eq!(username, "alice");
            assert_eq!(password, "hunter2".to_string());
        }
        other => panic!("expected Register, got {other:?}"),
    }
    assert!(screen.form.busy);
    assert!(screen.form.error.is_none());
}

#[test]
fn mismatched_passwords_block_submit() {
    let mut screen = Register::new();
    screen.form.configure(&defaults());
    screen.update(&Action::StartCapture);

    typed(&mut screen, "alice");
    screen.form.handle_key_event(code(KeyCode::Tab));
    typed(&mut screen, "hunter2");
    screen.form.handle_key_event(code(KeyCode::Tab));
    typed(&mut screen, "different");

    assert!(screen.update(&Action::SubmitForm).sent.is_none());
    assert_eq!(screen.form.error.as_deref(), Some("Passwords do not match"));
    assert!(!screen.form.busy);
}

#[test]
fn an_error_ends_the_wait() {
    let mut screen = Register::new();
    screen.update(&Action::StartCapture);
    screen.form.busy = true;
    screen.update(&Action::Error("taken".to_string()));
    assert!(!screen.form.busy);
    assert_eq!(screen.form.error.as_deref(), Some("taken"));
}

#[test]
fn login_carries_the_credentials() {
    let mut screen = Login::new();
    screen.form.configure(&defaults());
    screen.update(&Action::StartCapture);
    screen.form.paste("alice");
    screen.form.handle_key_event(code(KeyCode::Tab));
    screen.form.paste("hunter2");
    assert_eq!(
        screen.update(&Action::SubmitForm).sent,
        Some(Action::Login { username: "alice".to_string(), password: "hunter2".to_string() })
    );
    assert!(screen.form.busy);
}

#[test]
fn login_needs_both_fields() {
    let mut screen = Login::new();
    screen.update(&Action::StartCapture);
    screen.form.paste("alice");
    assert!(screen.update(&Action::SubmitForm).sent.is_none());
    assert!(screen.form.error.is_some());
    assert!(!screen.form.busy);
}

fn unlock_typed(screen: &mut Unlock, s: &str) {
    for c in s.chars() {
        screen.handle_key_event(ch(c));
    }
}

#[test]
fn unlock_typing_only_affects_focused_field() {
    let mut screen = Unlock::new();
    screen.update(&Action::StartCapture);

    screen.handle_key_event(code(KeyCode::Tab));
    unlock_typed(&mut screen, "hunter2");
    assert_eq!(screen.password.value(), "hunter2");
}

#[test]
fn valid_submit_emits_unlock() {
    let mut screen = Unlock::new();
    screen.update(&Action::StartCapture);

    unlock_typed(&mut screen, "hunter2");

    // Enter on the last field highlights Submit; it must not submit yet.
    let out = screen.handle_key_event(code(KeyCode::Enter));
    assert_eq!(out.reply, Some(Action::FocusButtons));
    assert!(out.sent.is_none());

    // Activating Submit drives the actual submission.
    match screen.update(&Action::SubmitForm).sent {
        Some(Action::Unlock { password }) => {
            assert_eq!(password, "hunter2".to_string());
        }
        other => panic!("expected Register, got {other:?}"),
    }
    assert!(screen.busy);
    assert!(screen.error.is_none());
}

// ── text fields ──

/// An Emacs-mode input, focused and ready to type.
fn emacs() -> TextInput {
    let mut ti = TextInput::new();
    ti.capturing = true;
    ti
}

/// A Vim-mode input, focused and starting in Normal mode.
fn vim() -> TextInput {
    let mut ti = TextInput::new();
    ti.editing_mode = EditingMode::Vim;
    ti.capturing = true;
    ti
}

fn into_field(ti: &mut TextInput, s: &str) {
    for c in s.chars() {
        ti.handle_key_event(ch(c));
    }
}

#[test]
fn emacs_typing_inserts_text() {
    let mut ti = emacs();
    into_field(&mut ti, "hello");
    assert_eq!(ti.value(), "hello");
}

#[test]
fn emacs_backspace_deletes_before_cursor() {
    let mut ti = emacs();
    into_field(&mut ti, "abc");
    ti.handle_key_event(key(KeyCode::Backspace));
    assert_eq!(ti.value(), "ab");
}

#[test]
fn emacs_ctrl_a_moves_to_head() {
    let mut ti = emacs();
    into_field(&mut ti, "abc");
    ti.handle_key_event(ctrl('a'));
    into_field(&mut ti, "X");
    assert_eq!(ti.value(), "Xabc");
}

#[test]
fn emacs_ctrl_k_kills_to_end() {
    let mut ti = emacs();
    into_field(&mut ti, "abcdef");
    ti.handle_key_event(ctrl('a'));
    ti.handle_key_event(key(KeyCode::Right));
    ti.handle_key_event(key(KeyCode::Right));
    ti.handle_key_event(ctrl('k'));
    assert_eq!(ti.value(), "ab");
}

#[test]
fn emacs_editing_is_unicode_safe() {
    let mut ti = emacs();
    into_field(&mut ti, "café");
    ti.handle_key_event(key(KeyCode::Backspace));
    assert_eq!(ti.value(), "caf");
}

#[test]
fn vim_normal_does_not_insert() {
    let mut ti = vim();
    into_field(&mut ti, "hello");
    assert_eq!(ti.value(), "");
}

#[test]
fn vim_insert_then_escape() {
    let mut ti = vim();
    assert!(!ti.consumes_escape());
    ti.handle_key_event(ch('i'));
    assert!(ti.consumes_escape(), "Insert mode must swallow Esc");
    into_field(&mut ti, "hi");
    assert_eq!(ti.value(), "hi");
    ti.handle_key_event(key(KeyCode::Esc));
    assert!(!ti.consumes_escape(), "back in Normal mode, Esc bubbles up");
    assert_eq!(ti.vim.mode, VimMode::Normal);
}

#[test]
fn vim_x_deletes_char() {
    let mut ti = vim();
    ti.handle_key_event(ch('i'));
    into_field(&mut ti, "abc");
    ti.handle_key_event(key(KeyCode::Esc)); // cursor parks on 'c'
    ti.handle_key_event(ch('0')); // back to head ('a')
    ti.handle_key_event(ch('x'));
    assert_eq!(ti.value(), "bc");
}

#[test]
fn vim_dd_clears_line() {
    let mut ti = vim();
    ti.handle_key_event(ch('i'));
    into_field(&mut ti, "delete me");
    ti.handle_key_event(key(KeyCode::Esc));
    ti.handle_key_event(ch('d'));
    ti.handle_key_event(ch('d'));
    assert_eq!(ti.value(), "");
}

#[test]
fn vim_append_at_end() {
    let mut ti = vim();
    ti.handle_key_event(ch('i'));
    into_field(&mut ti, "ab");
    ti.handle_key_event(key(KeyCode::Esc));
    ti.handle_key_event(ch('0'));
    ti.handle_key_event(ch('A'));
    into_field(&mut ti, "cd");
    assert_eq!(ti.value(), "abcd");
}

#[test]
fn vim_visual_cut_yank_and_paste() {
    let mut ti = vim();
    ti.set_value("abcd");
    into_field(&mut ti, "0v");
    assert!(ti.consumes_escape());
    ti.handle_key_event(ch('l'));
    assert!(ti.selection().is_some());
    ti.handle_key_event(ch('y'));
    assert!(ti.selection().is_none());
    assert_eq!(ti.value(), "abcd");
    assert_eq!(ti.editor_mode(), Some(EditorMode::Normal));
    into_field(&mut ti, "0vld");
    assert_eq!(ti.value(), "bcd");
    ti.handle_key_event(ch('u'));
    assert_eq!(ti.value(), "abcd");
}

#[test]
fn vim_counts_repeat() {
    let mut ti = vim();
    ti.set_value("abcdef");
    into_field(&mut ti, "03x");
    assert_eq!(ti.value(), "def");
    into_field(&mut ti, "d$");
    assert_eq!(ti.value(), "");
}

/// A count before an operator counts its motion.
#[test]
fn vim_counts_reach_the_motion() {
    let mut ti = vim();
    ti.set_value("one two three");
    into_field(&mut ti, "02d");
    assert_eq!(ti.vim.count, Some(2));
    assert_eq!(ti.editor_mode(), Some(EditorMode::OperatorPending));
    ti.handle_key_event(ch('w'));
    assert_eq!(ti.value(), "three");
    assert_eq!(ti.vim.mode, VimMode::Normal);
    assert_eq!(ti.vim.count, None);
    ti.set_value("one two three");
    into_field(&mut ti, "0dw");
    assert_eq!(ti.value(), "two three");
    ti.set_value("abcdef");
    into_field(&mut ti, "03cl");
    assert_eq!(ti.value(), "def");
    assert_eq!(ti.vim.mode, VimMode::Insert);
}

/// A key that scrolls leaves the cursor of a one-line field where it is.
#[test]
fn a_page_is_one_line() {
    let ctrl_v = KeyEvent::new(
        KeyCode::Char('v'),
        KeyModifiers { control: true, ..KeyModifiers::empty() },
    );
    let mut ti = emacs();
    into_field(&mut ti, "hello");
    for k in [code(KeyCode::PageDown), code(KeyCode::PageUp), ctrl_v] {
        ti.handle_key_event(k);
        assert_eq!(ti.cursor(), (0, 5));
    }
    into_field(&mut ti, "!");
    assert_eq!(ti.value(), "hello!");
}

#[test]
fn pasted_text_stays_on_one_line() {
    let mut ti = emacs();
    ti.paste("one\ntwo\r\n");
    assert!(!ti.value().contains('\n'));
    assert!(ti.value().starts_with("one"));
    ti.reset();
    assert_eq!(ti.value(), "");
}

#[test]
fn a_field_without_focus_takes_no_keys() {
    let mut ti = TextInput::new();
    into_field(&mut ti, "hello");
    ti.paste("world");
    assert_eq!(ti.value(), "");
    ti.focus();
    into_field(&mut ti, "hello");
    ti.blur();
    into_field(&mut ti, "!");
    assert_eq!(ti.value(), "hello");
    ti.set_value("x");
    assert_eq!(ti.value(), "x");
    ti.start_capture();
    assert_eq!(ti.value(), "");
    assert!(ti.capturing);
}

#[test]
fn a_masked_field_keeps_its_text() {
    let mut ti = TextInput::labelled("Password", true);
    ti.focus();
    into_field(&mut ti, "secret");
    assert_eq!(ti.value(), "secret");
    assert!(ti.mask);
    assert_eq!(ti.cursor(), (0, 6));
}

// ── the todo form ──

fn june(day: u8) -> Date {
    Date::from_calendar_date(2026, 6, day).unwrap()
}

/// A form wired up exactly as the dialog does.
fn form() -> TodoForm {
    let mut form = TodoForm::add(ListId([0u8; 16]), june(1));
    form.configure(&defaults());
    form
}

fn submitted(out: Outcome) -> TodoItemInput {
    match out.sent {
        Some(Action::SaveTodo { input, .. }) => input,
        other => panic!("expected SaveTodo, got {other:?}"),
    }
}

#[test]
fn disabled_due_submits_none() {
    let mut form = form();
    form.row.fields[TITLE].set_value("Buy milk");
    let input = submitted(form.update(&Action::SubmitForm));
    assert_eq!(input.title, "Buy milk");
    assert_eq!(input.due, None);
}

#[test]
fn space_toggle_submits_cursor_at_midnight_utc() {
    let mut form = form();
    form.row.fields[TITLE].set_value("Pay rent");
    form.row.focused = DUE;
    form.handle_key_event(key(KeyCode::Char(' ')));
    assert!(form.due_enabled);
    let expected = form.due_cursor.midnight();
    assert_eq!(submitted(form.update(&Action::SubmitForm)).due, Some(expected));
}

#[test]
fn arrows_move_the_cursor_by_day_and_week() {
    let mut form = form();
    form.row.focused = DUE;
    form.due_cursor = june(15);
    form.handle_key_event(key(KeyCode::Right));
    assert_eq!(form.due_cursor.day, 16);
    form.handle_key_event(key(KeyCode::Down));
    assert_eq!(form.due_cursor, june(23));
    form.handle_key_event(key(KeyCode::Left));
    assert_eq!(form.due_cursor.day, 22);
}

#[test]
fn month_step_clamps_short_months() {
    // Jan 31 → Feb: 2024 is a leap year (29), 2023 is not (28).
    let leap = Date::from_calendar_date(2024, 1, 31).unwrap();
    assert_eq!(shift_month(leap, 1), Date::from_calendar_date(2024, 2, 29).unwrap());
    let non_leap = Date::from_calendar_date(2023, 1, 31).unwrap();
    assert_eq!(shift_month(non_leap, 1), Date::from_calendar_date(2023, 2, 28).unwrap());
    // Stepping back across a year boundary.
    let jan = Date::from_calendar_date(2026, 1, 10).unwrap();
    assert_eq!(shift_month(jan, -1), Date::from_calendar_date(2025, 12, 10).unwrap());
    // Beyond the calendar the date stays.
    assert_eq!(shift_month(jan, i32::MAX), jan);
    assert_eq!(shift_month(jan, i32::MIN), jan);
    assert_eq!(shift_month(jan, 12 * 7000), Date::from_calendar_date(9026, 1, 10).unwrap());
}

#[test]
fn priority_cycles_through_the_list() {
    let mut form = form();
    form.row.fields[TITLE].set_value("t");
    form.row.focused = PRIORITY;
    // `space` is bound to cycle_priority_next in the default form keymap.
    for expected in [Priority::Low, Priority::Med, Priority::High, Priority::Unset] {
        form.handle_key_event(key(KeyCode::Char(' ')));
        assert_eq!(form.priority, expected);
    }
    form.handle_key_event(key(KeyCode::Char(' '))); // → Low
    assert_eq!(submitted(form.update(&Action::SubmitForm)).priority, Priority::Low);
}

#[test]
fn edit_prepopulates_due_and_priority() {
    let date = Date::from_calendar_date(2026, 3, 9).unwrap();
    let due = date.midnight();
    let item = TodoItem {
        id: "abc".to_string(),
        title: "Ship it".to_string(),
        notes: "soon".to_string(),
        due: Some(due),
        priority: Priority::High,
        done: false,
        tags: vec!["work".to_string()],
        subtasks: vec![],
        order_key: "a0".to_string(),
    };
    let form = TodoForm::edit(ListId([0u8; 16]), &item, june(1));
    assert!(form.due_enabled);
    assert_eq!(form.due_cursor, date);
    assert_eq!(form.priority, Priority::High);
}

#[test]
fn a_todo_needs_a_title() {
    let mut form = form();
    assert!(form.update(&Action::SubmitForm).sent.is_none());
    assert!(form.error.is_some());
}

#[test]
fn the_due_field_says_what_it_holds() {
    let mut form = form();
    assert_eq!(form.due_mark(), DueMark::Unmarked);
    form.row.focused = DUE;
    assert_eq!(form.due_mark(), DueMark::Cursor);
    let off = form.due_title();
    form.due_enabled = true;
    assert_eq!(form.due_mark(), DueMark::Chosen);
    assert_ne!(form.due_title(), off);
    assert_eq!(form.status(), form.help_text());
    form.move_cursor(CursorMove::NextMonth);
    assert_eq!(form.due_cursor, Date::from_calendar_date(2026, 7, 1).unwrap());
    form.move_cursor(CursorMove::PrevWeek);
    assert_eq!(form.due_cursor, june(24));
}

#[test]
fn tags_are_split_at_commas() {
    assert_eq!(read_tags("work, home ,,x"), vec!["work", "home", "x"]);
    assert!(read_tags(" , ").is_empty());
}

// ── list names ──

#[test]
fn a_list_form_says_what_it_is_for() {
    let list = ListId([3; 16]);
    let mut create = ListForm::create();
    create.update(&Action::StartCapture);
    create.paste("  Groceries ");
    assert_eq!(
        create.update(&Action::SubmitForm).sent,
        Some(Action::CreateList { name: "Groceries".to_string() })
    );
    let mut rename = ListForm::rename(list, "Old");
    assert_eq!(rename.field.value(), "Old");
    assert_eq!(
        rename.update(&Action::SubmitForm).sent,
        Some(Action::RenameList { list_id: list, name: "Old".to_string() })
    );
    let mut share = ListForm::share(list);
    assert!(share.update(&Action::SubmitForm).sent.is_none());
    assert!(share.error.is_some());
    share.field.set_value("bob");
    assert_eq!(
        share.update(&Action::SubmitForm).sent,
        Some(Action::ShareList { list_id: list, username: "bob".to_string() })
    );
}

// ── members ──

fn member(n: u8, role: Role) -> Member {
    Member {
        id: MemberId([n; 16]),
        identity_pub: X25519Pub([n; 32]),
        signing_pub: Ed25519Pub([n; 32]),
        role,
    }
}

#[test]
fn members_are_shown_by_number_and_role() {
    let list = ListId([3; 16]);
    let people = vec![member(1, Role::Owner), member(0xab, Role::Member)];
    let mut members = Members::new(list, people, MemberId([1; 16]));
    members.configure(&defaults());
    assert!(members.line(0).contains("01010101"));
    assert!(members.line(1).contains("abababab"));
    assert_ne!(members.line(0).contains("you"), members.line(1).contains("you"));
    members.handle_key_event(ch('j'));
    assert_eq!(members.selected, 1);
    assert_eq!(
        members.handle_key_event(ch('u')).sent,
        Some(Action::Unshare { list_id: list, member_id: MemberId([0xab; 16]) })
    );
    assert!(members.hint().contains('u'));
}

#[test]
fn the_own_membership_is_not_revoked() {
    let mut members =
        Members::new(ListId([3; 16]), vec![member(1, Role::Owner)], MemberId([1; 16]));
    members.configure(&defaults());
    assert_eq!(members.handle_key_event(ch('u')).sent, None);
}

// ── key tables ──

#[test]
fn the_footer_shows_the_bindings_that_are_marked() {
    let keys = Keys::new(Mode::Home, &defaults());
    let labels: Vec<&str> = keys.rows.iter().map(|r| r.label.as_str()).collect();
    assert_eq!(labels, vec!["quit", "help modal", "toggle sidebar"]);
    assert_eq!(keys.rows[0].keys, "q");
}

#[test]
fn help_shows_every_command_once_in_order() {
    let help = Help::new(Mode::Home, &defaults(), false);
    let labels: Vec<String> = help.rows.iter().map(|r| r.label.clone()).collect();
    let mut sorted = labels.clone();
    sorted.sort();
    sorted.dedup();
    assert_eq!(labels, sorted);
    let row = help.rows.iter().find(|r| r.label == "new list").unwrap();
    assert_eq!(row.keys, "n");
    assert!(help.height() >= help.rows.len() as u64);
}

#[test]
fn keys_have_short_labels() {
    assert_eq!(key_label(&ch('q'), false), "q");
    assert_ne!(key_label(&ctrl('c'), false), key_label(&ch('c'), false));
}

// ── form keys ──

#[test]
fn form_keys_are_classified() {
    let mut keys = FormKeys::new();
    keys.configure(&defaults());
    assert_eq!(keys.classify(code(KeyCode::Tab)), FormAction::Next);
    let back = KeyModifiers { shift: true, ..KeyModifiers::empty() };
    assert_eq!(keys.classify(KeyEvent::new(KeyCode::BackTab, back)), FormAction::Prev);
    assert_eq!(keys.classify(code(KeyCode::Enter)), FormAction::Submit);
    assert_eq!(keys.classify(ch('z')), FormAction::PassToField);
    assert_eq!(keys.classify(ch(' ')), FormAction::PassToField);
}

#[test]
fn home_commands_have_the_alias_for_split() {
    let raw = read_bindings(&vec![("a".to_string(), CommandSpec::Bare("split".to_string()))]).unwrap();
    let map = compile_keymap::<HomeCmd>(Some(&raw));
    assert_eq!(map.get(&parse_key_sequence("a").unwrap()), Some(&HomeCmd::SplitHorizontal));
}

// ── the error bar ──

#[test]
fn an_error_is_shown_for_a_while() {
    let mut bar = ErrorBar::new(0);
    assert_eq!(bar.height(), 0);
    bar.show_error("broken".to_string(), 5000, 100);
    assert!(bar.show);
    assert_eq!(bar.height(), 2);
    bar.update(&Action::Tick, 5000);
    assert!(bar.show);
    bar.update(&Action::Tick, 5101);
    assert!(!bar.show);
    bar.show_error("again".to_string(), 5000, 6000);
    bar.update(&Action::ClearScreen, 6001);
    assert!(!bar.show);
}
