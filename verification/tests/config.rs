use todoers::action::Action;
use todoers::components::home::ListIcon;
use todoers::config::{
    choose_config_dir, default_server_url, expand_home, fill_bindings, merge_bindings,
    read_bindings, AppConfig, Candidate, Config, DeviceUnlockConfig, EditingMode, IconType,
    KeyBindings, KeyContext, StyleMap, Styles,
};
use todoers::defaults::{default_bindings, default_entries};
use todoers::keymap::{
    all_keys_for, command_label, compile_keymap, first_key_for, parse_command, resolve, CommandSpec,
    KeyMap,
};
use todoers::keys::{
    key_event_to_string, key_sequence_to_string, normalize_case, normalize_key, parse_key_event,
    parse_key_sequence, KeyCode, KeyEvent, KeyModifiers,
};
use todoers::mode::Mode;
use todoers::style::{
    parse_color, parse_style, process_color_string, try_parse_color, try_parse_style, Color, Style,
};

fn mods(control: bool, alt: bool, shift: bool) -> KeyModifiers {
    KeyModifiers { control, alt, shift, ..KeyModifiers::empty() }
}

fn bare(command: &str) -> CommandSpec {
    CommandSpec::Bare(command.to_string())
}

fn shown(command: &str) -> CommandSpec {
    CommandSpec::Full { command: command.to_string(), show: true }
}

fn app_config() -> AppConfig {
    AppConfig {
        data_dir: "/data".to_string(),
        config_dir: "/conf".to_string(),
        server_url: default_server_url(),
        icon_type: IconType::Basic,
        device_unlock: DeviceUnlockConfig { enabled: false, recipient: None, identity: None },
        editing_mode: EditingMode::Emacs,
    }
}

fn config(keybindings: KeyBindings) -> Config {
    Config { config: app_config(), keybindings, styles: Styles::new() }
}

#[test]
fn test_parse_style_default() {
    let style = parse_style("");
    assert_eq!(style, Style::default());
}

#[test]
fn test_parse_style_foreground() {
    let style = parse_style("red");
    assert_eq!(style.fg, Some(Color::Indexed(1)));
}

#[test]
fn test_parse_style_background() {
    let style = parse_style("on blue");
    assert_eq!(style.bg, Some(Color::Indexed(4)));
}

#[test]
fn test_parse_style_modifiers() {
    let style = parse_style("underline red on blue");
    assert_eq!(style.fg, Some(Color::Indexed(1)));
    assert_eq!(style.bg, Some(Color::Indexed(4)));
}

#[test]
fn test_process_color_string() {
    let (color, modifiers) = process_color_string("underline bold inverse gray");
    assert_eq!(color, "gray");
    assert!(modifiers.underlined);
    assert!(modifiers.bold);
    assert!(modifiers.reversed);
}

#[test]
fn test_parse_color_rgb() {
    let color = parse_color("rgb123");
    let expected = 16 + 36 + 2 * 6 + 3;
    assert_eq!(color, Some(Color::Indexed(expected)));
}

#[test]
fn test_parse_color_unknown() {
    let color = parse_color("unknown");
    assert_eq!(color, None);
}

#[test]
fn colors_have_their_numbers() {
    assert_eq!(parse_color("black"), Some(Color::Indexed(0)));
    assert_eq!(parse_color("white"), Some(Color::Indexed(7)));
    assert_eq!(parse_color("bold red"), Some(Color::Indexed(9)));
    assert_eq!(parse_color("color77"), Some(Color::Indexed(77)));
    assert_eq!(parse_color("gray5"), Some(Color::Indexed(237)));
}

#[test]
fn a_color_that_does_not_fit_is_refused() {
    assert_eq!(try_parse_color("rgb999"), Err(()));
    assert_eq!(try_parse_color("gray200"), Err(()));
    assert_eq!(try_parse_color("gray"), Ok(parse_color("gray")));
    assert_eq!(try_parse_style("underline red on blue"), Some(parse_style("underline red on blue")));
}

#[test]
fn test_config() {
    let defaults = default_bindings().unwrap();
    let c = Config::merged(config(KeyBindings::new()), &config(defaults), None);
    let spec = c
        .keybindings
        .context(KeyContext::Global)
        .unwrap()
        .get(&parse_key_sequence("q").unwrap())
        .unwrap();
    assert_eq!(spec.command(), "quit");
    assert!(spec.show());
}

#[test]
fn the_program_comes_with_bindings() {
    let all = default_bindings().unwrap();
    assert_eq!(all.context(KeyContext::Home).unwrap().len(), default_entries(KeyContext::Home).len());
    assert!(all.context(KeyContext::Login).is_none());
    let first = &default_entries(KeyContext::Global)[0];
    assert_eq!((first.0.as_str(), first.1.command(), first.1.show()), ("q", "quit", true));
    let close = all
        .context(KeyContext::Home)
        .unwrap()
        .get(&parse_key_sequence("shift-x").unwrap())
        .unwrap();
    assert_eq!((close.command(), close.show()), ("close_pane", false));
}

/// The cube and the grays fill the palette behind the named colours.
#[test]
fn every_palette_entry_has_its_text() {
    let mut index = 16;
    for r in 0..=5 {
        for g in 0..=5 {
            for b in 0..=5 {
                assert_eq!(parse_color(&format!("rgb{r}{g}{b}")), Some(Color::Indexed(index)));
                index += 1;
            }
        }
    }
    for n in 0..=23 {
        assert_eq!(parse_color(&format!("gray{n}")), Some(Color::Indexed(232 + n)));
    }
    assert_eq!(parse_color("gray"), Some(Color::Indexed(232)));
}

#[test]
fn resolve_single_and_multi_key() {
    let mut km: KeyMap<&'static str> = KeyMap::new();
    km.insert(parse_key_sequence("q").unwrap(), "quit");
    km.insert(parse_key_sequence("space+e").unwrap(), "toggle");

    let mut pending = Vec::new();
    // Single key fires immediately and leaves no pending state.
    assert_eq!(resolve(&km, &mut pending, parse_key_event("q").unwrap()), Some(&"quit"));
    assert!(pending.is_empty());

    // A multi-key sequence buffers the prefix, then fires on completion.
    assert_eq!(resolve(&km, &mut pending, parse_key_event("space").unwrap()), None);
    assert_eq!(pending.len(), 1);
    assert_eq!(resolve(&km, &mut pending, parse_key_event("e").unwrap()), Some(&"toggle"));
    assert!(pending.is_empty());

    // A dead prefix self-clears so a stray key can't wedge the buffer.
    assert_eq!(resolve(&km, &mut pending, parse_key_event("space").unwrap()), None);
    assert_eq!(resolve(&km, &mut pending, parse_key_event("x").unwrap()), None);
    assert!(pending.is_empty());
}

#[test]
fn compile_keymap_skips_unknown_commands() {
    let mut raw: KeyMap<CommandSpec> = KeyMap::new();
    raw.insert(parse_key_sequence("q").unwrap(), bare("quit"));
    raw.insert(parse_key_sequence("z").unwrap(), bare("not_a_command"));
    let compiled = compile_keymap::<Action>(Some(&raw));
    assert_eq!(compiled.get(&parse_key_sequence("q").unwrap()), Some(&Action::Quit));
    assert!(compiled.get(&parse_key_sequence("z").unwrap()).is_none());
}

#[test]
fn test_simple_keys() {
    assert_eq!(
        parse_key_event("a").unwrap(),
        KeyEvent::new(KeyCode::Char('a'), KeyModifiers::empty())
    );

    assert_eq!(
        parse_key_event("enter").unwrap(),
        KeyEvent::new(KeyCode::Enter, KeyModifiers::empty())
    );

    assert_eq!(
        parse_key_event("esc").unwrap(),
        KeyEvent::new(KeyCode::Esc, KeyModifiers::empty())
    );
}

#[test]
fn test_with_modifiers() {
    assert_eq!(
        parse_key_event("ctrl-a").unwrap(),
        KeyEvent::new(KeyCode::Char('a'), mods(true, false, false))
    );

    assert_eq!(
        parse_key_event("alt-enter").unwrap(),
        KeyEvent::new(KeyCode::Enter, mods(false, true, false))
    );

    assert_eq!(
        parse_key_event("shift-esc").unwrap(),
        KeyEvent::new(KeyCode::Esc, mods(false, false, true))
    );
}

#[test]
fn test_multiple_modifiers() {
    assert_eq!(
        parse_key_event("ctrl-alt-a").unwrap(),
        KeyEvent::new(KeyCode::Char('a'), mods(true, true, false))
    );

    assert_eq!(
        parse_key_event("ctrl-shift-enter").unwrap(),
        KeyEvent::new(KeyCode::Enter, mods(true, false, true))
    );
}

#[test]
fn test_reverse_multiple_modifiers() {
    assert_eq!(
        key_event_to_string(&KeyEvent::new(KeyCode::Char('a'), mods(true, true, false))),
        "ctrl-alt-a".to_string()
    );
}

#[test]
fn test_invalid_keys() {
    assert!(parse_key_event("invalid-key").is_err());
    assert!(parse_key_event("ctrl-invalid-key").is_err());
}

#[test]
fn test_case_insensitivity() {
    assert_eq!(
        parse_key_event("CTRL-a").unwrap(),
        KeyEvent::new(KeyCode::Char('a'), mods(true, false, false))
    );

    assert_eq!(
        parse_key_event("AlT-eNtEr").unwrap(),
        KeyEvent::new(KeyCode::Enter, mods(false, true, false))
    );
}

/// A key that is written down and read again is the same key.
#[test]
fn a_key_reads_back() {
    for text in ["a", "ctrl-alt-a", "enter", "shift-esc", "pagedown", "space"] {
        let key = parse_key_event(text).unwrap();
        assert_eq!(parse_key_event(&key_event_to_string(&key)).unwrap(), key);
    }
    let seq = parse_key_sequence("space+e").unwrap();
    assert_eq!(key_sequence_to_string(&seq), "space+e");
    assert_eq!(parse_key_sequence(&key_sequence_to_string(&seq)).unwrap(), seq);
}

#[test]
fn a_function_key_reads_back() {
    let f1 = vec![KeyEvent::new(KeyCode::F(1), KeyModifiers::empty())];
    assert_eq!(key_sequence_to_string(&f1), "f1");
    for n in 1..=12 {
        let seq = vec![KeyEvent::new(KeyCode::F(n), mods(true, false, false))];
        let text = key_sequence_to_string(&seq);
        assert_eq!(text, format!("ctrl-f{n}"));
        assert_eq!(parse_key_sequence(&text).unwrap(), seq);
    }
    let seq = parse_key_sequence("f10+shift-f2").unwrap();
    assert_eq!(parse_key_sequence(&key_sequence_to_string(&seq)).unwrap(), seq);
}

/// A capital is shown as it is, and read in lowercase.
#[test]
fn a_capital_is_shown_as_it_is() {
    let seq = parse_key_sequence("shift-x").unwrap();
    assert_eq!(key_sequence_to_string(&seq), "X");
    assert_eq!(parse_key_event("X").unwrap().code, KeyCode::Char('x'));
}

#[test]
fn every_name_has_its_key() {
    let named = [
        ("left", KeyCode::Left),
        ("right", KeyCode::Right),
        ("up", KeyCode::Up),
        ("down", KeyCode::Down),
        ("home", KeyCode::Home),
        ("end", KeyCode::End),
        ("pageup", KeyCode::PageUp),
        ("pagedown", KeyCode::PageDown),
        ("delete", KeyCode::Delete),
        ("insert", KeyCode::Insert),
        ("backspace", KeyCode::Backspace),
        ("tab", KeyCode::Tab),
        ("f5", KeyCode::F(5)),
        ("f12", KeyCode::F(12)),
        ("space", KeyCode::Char(' ')),
        ("hyphen", KeyCode::Char('-')),
    ];
    for (name, code) in named {
        assert_eq!(parse_key_event(name).unwrap().code, code);
    }
}

#[test]
fn a_shifted_letter_is_its_capital() {
    let key = normalize_case(KeyEvent::new(KeyCode::Char('x'), mods(false, false, true)));
    assert_eq!(key.code, KeyCode::Char('X'));
    let capital = normalize_case(KeyEvent::new(KeyCode::Char('X'), KeyModifiers::empty()));
    assert_eq!(capital.modifiers, mods(false, false, true));
}

/// Terminals differ in whether they report Shift with a shifted character; the binding is
/// found either way.
#[test]
fn shift_does_not_count_with_a_character() {
    let bare = KeyEvent::new(KeyCode::Char('X'), KeyModifiers::empty());
    let shifted = KeyEvent::new(KeyCode::Char('X'), mods(false, false, true));
    assert_eq!(normalize_key(shifted), normalize_key(bare));
    let mut km: KeyMap<u8> = KeyMap::new();
    km.insert(parse_key_sequence("shift-x").unwrap(), 7);
    assert_eq!(resolve(&km, &mut Vec::new(), bare), Some(&7));
    assert_eq!(resolve(&km, &mut Vec::new(), shifted), Some(&7));
    let tab = KeyEvent::new(KeyCode::Tab, mods(false, false, true));
    assert_eq!(normalize_key(tab), tab);
}

/// A key that is bound again keeps its place and takes the new command.
#[test]
fn a_binding_is_replaced_in_place() {
    let mut km: KeyMap<u8> = KeyMap::new();
    km.insert(parse_key_sequence("a").unwrap(), 1);
    km.insert(parse_key_sequence("b").unwrap(), 2);
    km.insert(parse_key_sequence("a").unwrap(), 3);
    assert_eq!(km.len(), 2);
    assert_eq!(*km.value_at(0), 3);
    assert_eq!(*km.value_at(1), 2);
    assert_eq!(km.get(&parse_key_sequence("a").unwrap()), Some(&3));
    assert!(km.get(&parse_key_sequence("c").unwrap()).is_none());
    assert_eq!(km.position_of(&parse_key_sequence("b").unwrap()), Some(1));
    assert!(km.has_prefix(&parse_key_sequence("b").unwrap()));
    assert!(!km.has_prefix(&parse_key_sequence("c").unwrap()));
}

#[test]
fn the_keys_of_a_command_are_listed() {
    let raw = read_bindings(&vec![
        ("ctrl-c".to_string(), bare("quit")),
        ("x".to_string(), bare("suspend")),
        ("q".to_string(), shown("quit")),
    ])
    .unwrap();
    let map = compile_keymap::<todoers::components::home::HomeCmd>(Some(&raw));
    assert_eq!(map.len(), 0);
    let form = read_bindings(&vec![
        ("tab".to_string(), bare("field_next")),
        ("down".to_string(), bare("field_next")),
    ])
    .unwrap();
    let map = compile_keymap::<todoers::components::form_keys::FormCmd>(Some(&form));
    let next = todoers::components::form_keys::FormCmd::FieldNext;
    assert_eq!(first_key_for(&map, &next).as_deref(), Some("tab"));
    assert_eq!(all_keys_for(&map, &next).as_deref(), Some("tab/down"));
    let prev = todoers::components::form_keys::FormCmd::FieldPrev;
    assert_eq!(first_key_for(&map, &prev), None);
    assert_eq!(all_keys_for(&map, &prev), None);
}

#[test]
fn commands_are_read_by_their_names() {
    assert_eq!(parse_command::<Action>("toggle_sidebar"), Some(Action::ToggleSidebar));
    assert_eq!(parse_command::<Action>("help_modal"), Some(Action::HelpModal));
    assert_eq!(parse_command::<Action>("nonsense"), None);
    assert_eq!(command_label("toggle_sidebar"), "toggle sidebar");
}

#[test]
fn a_binding_that_cannot_be_read_is_an_error() {
    assert!(read_bindings(&vec![("nokey-".to_string(), bare("quit"))]).is_err());
    assert!(parse_key_sequence("ctrl-nokey").is_err());
}

/// What the user binds stands; defaults fill in the keys that are free.
#[test]
fn bindings_of_the_user_win() {
    let mut user = read_bindings(&vec![("q".to_string(), bare("suspend"))]).unwrap();
    let defaults = read_bindings(&vec![
        ("q".to_string(), bare("quit")),
        ("r".to_string(), bare("resume")),
    ])
    .unwrap();
    fill_bindings(&mut user, &defaults);
    assert_eq!(user.get(&parse_key_sequence("q").unwrap()).unwrap().command(), "suspend");
    assert_eq!(user.get(&parse_key_sequence("r").unwrap()).unwrap().command(), "resume");
    assert_eq!(user.len(), 2);

    let mut all = KeyBindings::new();
    all.set(KeyContext::Home, read_bindings(&vec![("n".to_string(), bare("new_list"))]).unwrap());
    let merged = merge_bindings(KeyBindings::new(), &all);
    assert_eq!(
        merged
            .context(KeyContext::Home)
            .unwrap()
            .get(&parse_key_sequence("n").unwrap())
            .unwrap()
            .command(),
        "new_list"
    );
    assert!(merged.context(KeyContext::Modal).is_none());
}

#[test]
fn styles_of_the_user_win() {
    let red = parse_style("red");
    let blue = parse_style("blue");
    let mut user = StyleMap { entries: vec![("title".to_string(), red)] };
    let defaults =
        StyleMap { entries: vec![("title".to_string(), blue), ("text".to_string(), blue)] };
    user.fill(&defaults);
    assert_eq!(user.get("title"), Some(red));
    assert_eq!(user.get("text"), Some(blue));
    assert_eq!(user.get("other"), None);
    user.set("title".to_string(), blue);
    assert_eq!(user.get("title"), Some(blue));
    assert_eq!(user.entries.len(), 2);
    user.set("other".to_string(), red);
    assert_eq!(user.get("other"), Some(red));
    assert_eq!(user.entries.len(), 3);
}

#[test]
fn paths_of_the_configuration() {
    assert_eq!(expand_home("~/todo", Some("/home/me")), "/home/me/todo");
    assert_eq!(expand_home("~/todo", None), "~/todo");
    assert_eq!(expand_home("/var/todo", Some("/home/me")), "/var/todo");
    let there = |p: &str| Some(Candidate { path: p.to_string(), exists: true });
    let missing = |p: &str| Some(Candidate { path: p.to_string(), exists: false });
    assert_eq!(choose_config_dir(Some("/n".to_string()), there("/h"), there("/b"), None), "/n");
    assert_eq!(choose_config_dir(None, there("/h"), there("/b"), None), "/h");
    assert_eq!(choose_config_dir(None, missing("/h"), there("/b"), None), "/b");
}

#[test]
fn contexts_follow_the_screens() {
    assert_eq!(KeyContext::from(Mode::Home), KeyContext::Home);
    assert_eq!(KeyContext::from(Mode::Login), KeyContext::Login);
    assert_eq!(KeyContext::from(Mode::Register), KeyContext::Register);
    assert_eq!(Mode::Home.name(), "Home");
    assert_eq!(IconType::for_platform(true), IconType::Emojis);
    assert_eq!(IconType::for_platform(false), IconType::NerdFonts);
    assert_eq!(ListIcon::of(IconType::Basic), ListIcon::basic());
    assert_eq!(ListIcon::from('L'), ListIcon::basic());
}
