//! Key events and their textual form: `ctrl-a`, `shift-tab`, `space+e`.
use vstd::prelude::*;
use vstd::string::*;

use crate::text::{
    ascii_lowercase, begins_with, char_upper, chars_of, decimal, digit_char, joined_with, lower_ascii,
    lower_char, number, pieces, same, split, stands_at, texts, to_text, upper_char,
};

verus! {

/// A key of the keyboard, or the character that it typed.
#[derive(Clone, Copy, Debug, PartialEq, Eq, Structural)]
pub enum KeyCode {
    Backspace,
    Enter,
    Left,
    Right,
    Up,
    Down,
    Home,
    End,
    PageUp,
    PageDown,
    Tab,
    BackTab,
    Delete,
    Insert,
    /// A function key, by its number.
    F(u8),
    Char(char),
    Null,
    Esc,
    CapsLock,
    ScrollLock,
    NumLock,
    PrintScreen,
    Pause,
    Menu,
    KeypadBegin,
    /// A media key, by its position among the media keys.
    Media(u8),
    /// A modifier key pressed alone, by its position among the modifier keys.
    Modifier(u8),
}

/// The modifier keys held while a key was pressed.
#[derive(Clone, Copy, Debug, PartialEq, Eq, Structural)]
pub struct KeyModifiers {
    pub shift: bool,
    pub control: bool,
    pub alt: bool,
    pub super_key: bool,
    pub hyper: bool,
    pub meta: bool,
}

/// Whether the key went down, repeats, or went up.
#[derive(Clone, Copy, Debug, PartialEq, Eq, Structural)]
pub enum KeyEventKind {
    Press,
    Repeat,
    Release,
}

/// One key event.
#[derive(Clone, Copy, Debug, PartialEq, Eq, Structural)]
pub struct KeyEvent {
    pub code: KeyCode,
    pub modifiers: KeyModifiers,
    pub kind: KeyEventKind,
    /// Keypad, caps-lock and num-lock bits.
    pub state: u8,
}

/// No modifier held.
pub open spec fn no_modifiers() -> KeyModifiers {
    KeyModifiers {
        shift: false,
        control: false,
        alt: false,
        super_key: false,
        hyper: false,
        meta: false,
    }
}

impl KeyModifiers {
    /// No modifier held.
    pub fn empty() -> (r: KeyModifiers)
        ensures
            r == no_modifiers(),
    {
        KeyModifiers {
            shift: false,
            control: false,
            alt: false,
            super_key: false,
            hyper: false,
            meta: false,
        }
    }

    /// Whether no modifier is held.
    pub fn is_empty(&self) -> (r: bool)
        ensures
            r == (*self == no_modifiers()),
    {
        !self.shift && !self.control && !self.alt && !self.super_key && !self.hyper && !self.meta
    }
}

/// A plain press of `code` with `modifiers`.
pub open spec fn pressed(code: KeyCode, modifiers: KeyModifiers) -> KeyEvent {
    KeyEvent { code, modifiers, kind: KeyEventKind::Press, state: 0 }
}

impl KeyEvent {
    /// A plain press of `code` with `modifiers`.
    pub fn new(code: KeyCode, modifiers: KeyModifiers) -> (r: KeyEvent)
        ensures
            r == pressed(code, modifiers),
    {
        KeyEvent { code, modifiers, kind: KeyEventKind::Press, state: 0 }
    }
}

/// The key without `SHIFT` where it is a character: a character already is its
/// shifted form, and terminals differ in whether they report the modifier too.
pub open spec fn normalized(key: KeyEvent) -> KeyEvent {
    if key.code is Char {
        KeyEvent { modifiers: KeyModifiers { shift: false, ..key.modifiers }, ..key }
    } else {
        key
    }
}

/// Drops `SHIFT` from character keys; other keys stay as they are.
pub fn normalize_key(key: KeyEvent) -> (r: KeyEvent)
    ensures
        r == normalized(key),
{
    match key.code {
        KeyCode::Char(_) => KeyEvent {
            code: key.code,
            modifiers: KeyModifiers {
                shift: false,
                control: key.modifiers.control,
                alt: key.modifiers.alt,
                super_key: key.modifiers.super_key,
                hyper: key.modifiers.hyper,
                meta: key.modifiers.meta,
            },
            kind: key.kind,
            state: key.state,
        },
        _ => key,
    }
}

/// A binding for a character matches whether or not the terminal reported
/// `SHIFT`, and normalizing twice changes nothing more.
pub proof fn law_normalized(key: KeyEvent, shift: bool)
    ensures
        normalized(normalized(key)) == normalized(key),
        key.code is Char ==> normalized(
            KeyEvent { modifiers: KeyModifiers { shift, ..key.modifiers }, ..key },
        ) == normalized(key),
        key.code !is Char ==> normalized(key) == key,
{
}

/// The form by which two events are compared: `SHIFT` is set if and only if a
/// letter stands in uppercase.
pub open spec fn case_normal(key: KeyEvent) -> KeyEvent {
    match key.code {
        KeyCode::Char(c) => if 'A' <= c && c <= 'Z' {
            KeyEvent { modifiers: KeyModifiers { shift: true, ..key.modifiers }, ..key }
        } else if key.modifiers.shift {
            KeyEvent { code: KeyCode::Char(upper_char(c)), ..key }
        } else {
            key
        },
        _ => key,
    }
}

/// Brings an event into the form by which events are compared.
pub fn normalize_case(key: KeyEvent) -> (r: KeyEvent)
    ensures
        r == case_normal(key),
{
    match key.code {
        KeyCode::Char(c) => {
            if 'A' <= c && c <= 'Z' {
                KeyEvent {
                    code: key.code,
                    modifiers: KeyModifiers {
                        shift: true,
                        control: key.modifiers.control,
                        alt: key.modifiers.alt,
                        super_key: key.modifiers.super_key,
                        hyper: key.modifiers.hyper,
                        meta: key.modifiers.meta,
                    },
                    kind: key.kind,
                    state: key.state,
                }
            } else if key.modifiers.shift {
                KeyEvent {
                    code: KeyCode::Char(char_upper(c)),
                    modifiers: key.modifiers,
                    kind: key.kind,
                    state: key.state,
                }
            } else {
                key
            }
        },
        _ => key,
    }
}

/// Two events are the same key.
pub open spec fn same_key(a: KeyEvent, b: KeyEvent) -> bool {
    case_normal(a) == case_normal(b)
}

// ── Parsing ─────────────────────────────────────────────────────────────────

/// The text and the modifiers left once the modifier prefixes of `s` are read.
pub open spec fn strip_modifiers(s: Seq<char>, m: KeyModifiers) -> (Seq<char>, KeyModifiers)
    decreases s.len(),
{
    if s.len() >= 5 && begins_with(s, "ctrl-"@) {
        strip_modifiers(s.skip(5), KeyModifiers { control: true, ..m })
    } else if s.len() >= 4 && (begins_with(s, "alt-"@) || begins_with(s, "opt-"@)) {
        strip_modifiers(s.skip(4), KeyModifiers { alt: true, ..m })
    } else if s.len() >= 6 && begins_with(s, "shift-"@) {
        strip_modifiers(s.skip(6), KeyModifiers { shift: true, ..m })
    } else {
        (s, m)
    }
}

/// Reads the modifier prefixes: what is left, and the modifiers.
pub fn extract_modifiers(raw: &Vec<char>) -> (r: (Vec<char>, KeyModifiers))
    ensures
        (r.0@, r.1) == strip_modifiers(raw@, no_modifiers()),
{
    let ctrl = chars_of("ctrl-");
    let alt = chars_of("alt-");
    let opt = chars_of("opt-");
    let shift = chars_of("shift-");
    proof {
        reveal_strlit("ctrl-");
        reveal_strlit("alt-");
        reveal_strlit("opt-");
        reveal_strlit("shift-");
    }
    let mut m = KeyModifiers::empty();
    let mut cur = crate::text::copy_chars(raw);
    loop
        invariant
            ctrl@ == "ctrl-"@,
            alt@ == "alt-"@,
            opt@ == "opt-"@,
            shift@ == "shift-"@,
            "ctrl-"@.len() == 5,
            "alt-"@.len() == 4,
            "opt-"@.len() == 4,
            "shift-"@.len() == 6,
            strip_modifiers(cur@, m) == strip_modifiers(raw@, no_modifiers()),
        decreases cur@.len(),
    {
        if stands_at(&cur, &ctrl, 0) {
            m.control = true;
            proof {
                assert(cur@.skip(5) =~= cur@.subrange(5, cur@.len() as int));
            }
            cur = crate::text::slice_chars(&cur, 5, cur.len());
        } else if stands_at(&cur, &alt, 0) || stands_at(&cur, &opt, 0) {
            m.alt = true;
            proof {
                assert(cur@.skip(4) =~= cur@.subrange(4, cur@.len() as int));
            }
            cur = crate::text::slice_chars(&cur, 4, cur.len());
        } else if stands_at(&cur, &shift, 0) {
            m.shift = true;
            proof {
                assert(cur@.skip(6) =~= cur@.subrange(6, cur@.len() as int));
            }
            cur = crate::text::slice_chars(&cur, 6, cur.len());
        } else {
            return (cur, m);
        }
    }
}

/// The key that a name stands for.
pub open spec fn named_code(s: Seq<char>) -> Option<KeyCode> {
    if s == "esc"@ {
        Some(KeyCode::Esc)
    } else if s == "enter"@ {
        Some(KeyCode::Enter)
    } else if s == "left"@ {
        Some(KeyCode::Left)
    } else if s == "right"@ {
        Some(KeyCode::Right)
    } else if s == "up"@ {
        Some(KeyCode::Up)
    } else if s == "down"@ {
        Some(KeyCode::Down)
    } else if s == "home"@ {
        Some(KeyCode::Home)
    } else if s == "end"@ {
        Some(KeyCode::End)
    } else if s == "pageup"@ {
        Some(KeyCode::PageUp)
    } else if s == "pagedown"@ {
        Some(KeyCode::PageDown)
    } else if s == "backtab"@ {
        Some(KeyCode::BackTab)
    } else if s == "backspace"@ {
        Some(KeyCode::Backspace)
    } else if s == "delete"@ {
        Some(KeyCode::Delete)
    } else if s == "insert"@ {
        Some(KeyCode::Insert)
    } else if s == "f1"@ {
        Some(KeyCode::F(1))
    } else if s == "f2"@ {
        Some(KeyCode::F(2))
    } else if s == "f3"@ {
        Some(KeyCode::F(3))
    } else if s == "f4"@ {
        Some(KeyCode::F(4))
    } else if s == "f5"@ {
        Some(KeyCode::F(5))
    } else if s == "f6"@ {
        Some(KeyCode::F(6))
    } else if s == "f7"@ {
        Some(KeyCode::F(7))
    } else if s == "f8"@ {
        Some(KeyCode::F(8))
    } else if s == "f9"@ {
        Some(KeyCode::F(9))
    } else if s == "f10"@ {
        Some(KeyCode::F(10))
    } else if s == "f11"@ {
        Some(KeyCode::F(11))
    } else if s == "f12"@ {
        Some(KeyCode::F(12))
    } else if s == "space"@ {
        Some(KeyCode::Char(' '))
    } else if s == "hyphen"@ || s == "minus"@ {
        Some(KeyCode::Char('-'))
    } else if s == "tab"@ {
        Some(KeyCode::Tab)
    } else {
        None
    }
}

/// The key named `s`, if any.
pub fn code_of_name(s: &str) -> (r: Option<KeyCode>)
    ensures
        r == named_code(s@),
{
    if same(s, "esc") {
        Some(KeyCode::Esc)
    } else if same(s, "enter") {
        Some(KeyCode::Enter)
    } else if same(s, "left") {
        Some(KeyCode::Left)
    } else if same(s, "right") {
        Some(KeyCode::Right)
    } else if same(s, "up") {
        Some(KeyCode::Up)
    } else if same(s, "down") {
        Some(KeyCode::Down)
    } else if same(s, "home") {
        Some(KeyCode::Home)
    } else if same(s, "end") {
        Some(KeyCode::End)
    } else if same(s, "pageup") {
        Some(KeyCode::PageUp)
    } else if same(s, "pagedown") {
        Some(KeyCode::PageDown)
    } else if same(s, "backtab") {
        Some(KeyCode::BackTab)
    } else if same(s, "backspace") {
        Some(KeyCode::Backspace)
    } else if same(s, "delete") {
        Some(KeyCode::Delete)
    } else if same(s, "insert") {
        Some(KeyCode::Insert)
    } else if same(s, "f1") {
        Some(KeyCode::F(1))
    } else if same(s, "f2") {
        Some(KeyCode::F(2))
    } else if same(s, "f3") {
        Some(KeyCode::F(3))
    } else if same(s, "f4") {
        Some(KeyCode::F(4))
    } else if same(s, "f5") {
        Some(KeyCode::F(5))
    } else if same(s, "f6") {
        Some(KeyCode::F(6))
    } else if same(s, "f7") {
        Some(KeyCode::F(7))
    } else if same(s, "f8") {
        Some(KeyCode::F(8))
    } else if same(s, "f9") {
        Some(KeyCode::F(9))
    } else if same(s, "f10") {
        Some(KeyCode::F(10))
    } else if same(s, "f11") {
        Some(KeyCode::F(11))
    } else if same(s, "f12") {
        Some(KeyCode::F(12))
    } else if same(s, "space") {
        Some(KeyCode::Char(' '))
    } else if same(s, "hyphen") || same(s, "minus") {
        Some(KeyCode::Char('-'))
    } else if same(s, "tab") {
        Some(KeyCode::Tab)
    } else {
        None
    }
}

/// The message for a key that cannot be read.
pub open spec fn unparsed(s: Seq<char>) -> Seq<char> {
    "Unable to parse "@ + s
}

/// The key event of a name or of one ASCII character, under `m`.
pub open spec fn event_of(s: Seq<char>, m: KeyModifiers) -> Result<KeyEvent, Seq<char>> {
    match named_code(s) {
        Some(KeyCode::BackTab) => Ok(
            pressed(KeyCode::BackTab, KeyModifiers { shift: true, ..m }),
        ),
        Some(code) => Ok(pressed(code, m)),
        None => if s.len() == 1 && (s[0] as u32) < 128 {
            let c = if m.shift {
                upper_char(s[0])
            } else {
                s[0]
            };
            Ok(pressed(KeyCode::Char(c), m))
        } else {
            Err(unparsed(s))
        },
    }
}

/// The meaning of a result that carries its error as a text.
pub open spec fn key_result(r: Result<KeyEvent, String>) -> Result<KeyEvent, Seq<char>> {
    match r {
        Ok(k) => Ok(k),
        Err(e) => Err(e@),
    }
}

/// Reads a key name, or one ASCII character, under `modifiers`.
pub fn parse_key_code_with_modifiers(raw: &str, modifiers: KeyModifiers) -> (r: Result<
    KeyEvent,
    String,
>)
    ensures
        key_result(r) == event_of(raw@, modifiers),
{
    let mut m = modifiers;
    match code_of_name(raw) {
        Some(code) => {
            match code {
                KeyCode::BackTab => {
                    m.shift = true;
                },
                _ => {},
            }
            Ok(KeyEvent::new(code, m))
        },
        None => {
            let v = chars_of(raw);
            if v.len() == 1 && (v[0] as u32) < 128 {
                let c: char = if m.shift {
                    char_upper(v[0])
                } else {
                    v[0]
                };
                Ok(KeyEvent::new(KeyCode::Char(c), m))
            } else {
                Err(crate::text::joined("Unable to parse ", raw))
            }
        },
    }
}

/// The key event that a text such as `ctrl-a` describes.
pub open spec fn parsed_key(raw: Seq<char>) -> Result<KeyEvent, Seq<char>> {
    let (rest, m) = strip_modifiers(lower_ascii(raw), no_modifiers());
    match event_of(rest, m) {
        Ok(k) => Ok(normalized(k)),
        Err(e) => Err(e),
    }
}

/// Reads one key, without regard to ASCII case.
pub fn parse_key_event(raw: &str) -> (r: Result<KeyEvent, String>)
    ensures
        key_result(r) == parsed_key(raw@),
{
    let low = ascii_lowercase(raw);
    let (rest, m) = extract_modifiers(&low);
    let text = to_text(&rest);
    match parse_key_code_with_modifiers(text.as_str(), m) {
        Ok(k) => Ok(normalize_key(k)),
        Err(e) => Err(e),
    }
}

/// The keys of a list of texts; the first text that cannot be read decides the error.
pub open spec fn parsed_keys(parts: Seq<Seq<char>>) -> Result<Seq<KeyEvent>, Seq<char>>
    decreases parts.len(),
{
    if parts.len() == 0 {
        Ok(Seq::empty())
    } else {
        match parsed_keys(parts.drop_last()) {
            Err(e) => Err(e),
            Ok(v) => match parsed_key(parts.last()) {
                Ok(k) => Ok(v.push(k)),
                Err(e) => Err(e),
            },
        }
    }
}

/// The key sequence that a text such as `space+e` describes.
pub open spec fn parsed_sequence(raw: Seq<char>) -> Result<Seq<KeyEvent>, Seq<char>> {
    parsed_keys(pieces(raw, '+'))
}

/// The meaning of the result of reading a key sequence.
pub open spec fn keys_result(r: Result<Vec<KeyEvent>, String>) -> Result<
    Seq<KeyEvent>,
    Seq<char>,
> {
    match r {
        Ok(v) => Ok(v@),
        Err(e) => Err(e@),
    }
}

/// An error in a prefix of the list is the error of the list.
proof fn lemma_first_error(parts: Seq<Seq<char>>, n: int)
    requires
        0 <= n <= parts.len(),
        parsed_keys(parts.take(n)) is Err,
    ensures
        parsed_keys(parts) == parsed_keys(parts.take(n)),
    decreases parts.len() - n,
{
    if n == parts.len() {
        assert(parts.take(n) =~= parts);
    } else {
        assert(parts.take(n + 1).drop_last() =~= parts.take(n));
        lemma_first_error(parts, n + 1);
    }
}

/// Reads a sequence of keys joined by `+`.
pub fn parse_key_sequence(raw: &str) -> (r: Result<Vec<KeyEvent>, String>)
    ensures
        keys_result(r) == parsed_sequence(raw@),
{
    let parts = split(raw, '+');
    let mut out: Vec<KeyEvent> = Vec::new();
    let mut i: usize = 0;
    let ghost ps = texts(parts@);
    proof {
        assert(ps.take(0) =~= Seq::<Seq<char>>::empty());
    }
    while i < parts.len()
        invariant
            i <= parts@.len(),
            ps == texts(parts@),
            ps == pieces(raw@, '+'),
            parsed_keys(ps.take(i as int)) == Ok::<Seq<KeyEvent>, Seq<char>>(out@),
        decreases parts@.len() - i,
    {
        proof {
            assert(ps.take(i + 1).drop_last() =~= ps.take(i as int));
            assert(ps.take(i + 1).last() == parts@[i as int]@);
        }
        match parse_key_event(parts[i].as_str()) {
            Ok(k) => {
                out.push(k);
            },
            Err(e) => {
                proof {
                    lemma_first_error(ps, i + 1);
                }
                return Err(e);
            },
        }
        i = i + 1;
    }
    proof {
        assert(ps.take(ps.len() as int) =~= ps);
    }
    Ok(out)
}

// ── Printing ────────────────────────────────────────────────────────────────

/// Whether a key is an uppercase letter. It is printed as it is, as hints show it; keys are
/// read without regard to case, so that its text reads as the lowercase letter.
pub open spec fn is_capital(code: KeyCode) -> bool {
    code matches KeyCode::Char(c) && 'A' <= c && c <= 'Z'
}

/// The text of a key alone.
pub open spec fn code_text(code: KeyCode) -> Seq<char> {
    match code {
        KeyCode::Backspace => "backspace"@,
        KeyCode::Enter => "enter"@,
        KeyCode::Left => "left"@,
        KeyCode::Right => "right"@,
        KeyCode::Up => "up"@,
        KeyCode::Down => "down"@,
        KeyCode::Home => "home"@,
        KeyCode::End => "end"@,
        KeyCode::PageUp => "pageup"@,
        KeyCode::PageDown => "pagedown"@,
        KeyCode::Tab => "tab"@,
        KeyCode::BackTab => "backtab"@,
        KeyCode::Delete => "delete"@,
        KeyCode::Insert => "insert"@,
        KeyCode::F(n) => "f"@ + decimal(n as nat),
        KeyCode::Char(c) => if c == ' ' {
            "space"@
        } else {
            seq![c]
        },
        KeyCode::Esc => "esc"@,
        _ => Seq::empty(),
    }
}

/// The text of a key with its modifiers.
pub open spec fn key_text(key: KeyEvent) -> Seq<char> {
    let ctrl = if key.modifiers.control {
        "ctrl-"@
    } else {
        Seq::empty()
    };
    let shift = if key.modifiers.shift {
        "shift-"@
    } else {
        Seq::empty()
    };
    let alt = if key.modifiers.alt {
        "alt-"@
    } else {
        Seq::empty()
    };
    ctrl + shift + alt + code_text(key.code)
}

/// The text of a key: its modifiers in the order ctrl, shift, alt, then its name.
pub fn key_event_to_string(key_event: &KeyEvent) -> (r: String)
    ensures
        r@ == key_text(*key_event),
{
    let name: String = match key_event.code {
        KeyCode::Backspace => "backspace".to_owned(),
        KeyCode::Enter => "enter".to_owned(),
        KeyCode::Left => "left".to_owned(),
        KeyCode::Right => "right".to_owned(),
        KeyCode::Up => "up".to_owned(),
        KeyCode::Down => "down".to_owned(),
        KeyCode::Home => "home".to_owned(),
        KeyCode::End => "end".to_owned(),
        KeyCode::PageUp => "pageup".to_owned(),
        KeyCode::PageDown => "pagedown".to_owned(),
        KeyCode::Tab => "tab".to_owned(),
        KeyCode::BackTab => "backtab".to_owned(),
        KeyCode::Delete => "delete".to_owned(),
        KeyCode::Insert => "insert".to_owned(),
        KeyCode::F(n) => {
            let d = number(n as u64);
            crate::text::joined("f", d.as_str())
        },
        KeyCode::Char(c) => {
            if c == ' ' {
                "space".to_owned()
            } else {
                let mut s = String::new();
                s.push(c);
                proof {
                    assert(s@ =~= seq![c]);
                }
                s
            }
        },
        KeyCode::Esc => "esc".to_owned(),
        _ => String::new(),
    };
    proof {
        assert(name@ =~= code_text(key_event.code));
    }
    let mut key = String::new();
    if key_event.modifiers.control {
        key.append("ctrl-");
    }
    if key_event.modifiers.shift {
        key.append("shift-");
    }
    if key_event.modifiers.alt {
        key.append("alt-");
    }
    key.append(name.as_str());
    proof {
        assert(key@ =~= key_text(*key_event));
    }
    key
}

/// The text of a key sequence.
pub open spec fn sequence_text(seq: Seq<KeyEvent>) -> Seq<char> {
    joined_with(seq.map_values(|k: KeyEvent| key_text(k)), "+"@)
}

/// The text of a key sequence: its keys joined by `+`.
pub fn key_sequence_to_string(seq: &Vec<KeyEvent>) -> (r: String)
    ensures
        r@ == sequence_text(seq@),
{
    let mut parts: Vec<String> = Vec::new();
    let mut i: usize = 0;
    while i < seq.len()
        invariant
            i <= seq@.len(),
            texts(parts@) == seq@.take(i as int).map_values(|k: KeyEvent| key_text(k)),
        decreases seq@.len() - i,
    {
        let ghost before = parts@;
        let t = key_event_to_string(&seq[i]);
        parts.push(t);
        proof {
            assert(texts(parts@) =~= texts(before).push(t@));
            assert(seq@.take(i + 1).map_values(|k: KeyEvent| key_text(k)) =~= seq@.take(
                i as int,
            ).map_values(|k: KeyEvent| key_text(k)).push(key_text(seq@[i as int])));
        }
        i = i + 1;
    }
    proof {
        assert(seq@.take(seq@.len() as int) =~= seq@);
    }
    crate::text::join(&parts, "+")
}

// ── Reading back what was printed ───────────────────────────────────────────

/// The keys that their own text names: no function key beyond the twelfth, no uppercase
/// letter (read in lowercase), no key without a name, and no modifier but ctrl, shift and
/// alt. A character carries no `SHIFT`; a back-tab always does.
pub open spec fn readable(key: KeyEvent) -> bool {
    &&& key.kind == KeyEventKind::Press
    &&& key.state == 0
    &&& !key.modifiers.super_key
    &&& !key.modifiers.hyper
    &&& !key.modifiers.meta
    &&& match key.code {
        KeyCode::Char(c) => !key.modifiers.shift && (c as u32) < 128 && !is_capital(key.code),
        KeyCode::F(n) => 1 <= n <= 12,
        KeyCode::BackTab => key.modifiers.shift,
        KeyCode::Backspace
        | KeyCode::Enter
        | KeyCode::Left
        | KeyCode::Right
        | KeyCode::Up
        | KeyCode::Down
        | KeyCode::Home
        | KeyCode::End
        | KeyCode::PageUp
        | KeyCode::PageDown
        | KeyCode::Tab
        | KeyCode::Delete
        | KeyCode::Insert
        | KeyCode::Esc => true,
        _ => false,
    }
}

/// A text that no modifier prefix starts and that lowercase leaves alone.
spec fn bare(s: Seq<char>) -> bool {
    &&& s.len() > 5 ==> s[5] != '-'
    &&& s.len() > 4 ==> s[4] != '-'
    &&& s.len() > 3 ==> s[3] != '-'
    &&& forall|i: int| 0 <= i < s.len() ==> !('A' <= #[trigger] s[i] && s[i] <= 'Z')
}

/// Each key name names its key, and reads as it is.
#[verifier::rlimit(40)]
proof fn lemma_names(key: KeyEvent)
    requires
        readable(key),
    ensures
        bare(code_text(key.code)),
        key.code is Char && key.code != KeyCode::Char(' ') ==> named_code(code_text(key.code)) is None,
        !(key.code is Char) || key.code == KeyCode::Char(' ') ==> named_code(code_text(key.code))
            == Some(key.code),
{
    reveal_strlit("esc");
    reveal_strlit("enter");
    reveal_strlit("left");
    reveal_strlit("right");
    reveal_strlit("up");
    reveal_strlit("down");
    reveal_strlit("home");
    reveal_strlit("end");
    reveal_strlit("pageup");
    reveal_strlit("pagedown");
    reveal_strlit("backtab");
    reveal_strlit("backspace");
    reveal_strlit("delete");
    reveal_strlit("insert");
    reveal_strlit("f1");
    reveal_strlit("f2");
    reveal_strlit("f3");
    reveal_strlit("f4");
    reveal_strlit("f5");
    reveal_strlit("f6");
    reveal_strlit("f7");
    reveal_strlit("f8");
    reveal_strlit("f9");
    reveal_strlit("f10");
    reveal_strlit("f11");
    reveal_strlit("f12");
    reveal_strlit("space");
    reveal_strlit("hyphen");
    reveal_strlit("minus");
    reveal_strlit("tab");
    assert("esc"@.len() == 3 && "esc"@[0] == 'e' && "esc"@[1] == 's' && "esc"@[2] == 'c');
    assert("enter"@.len() == 5 && "enter"@[0] == 'e' && "enter"@[1] == 'n' && "enter"@[2] == 't');
    assert("left"@.len() == 4 && "left"@[0] == 'l' && "left"@[1] == 'e' && "left"@[2] == 'f');
    assert("right"@.len() == 5 && "right"@[0] == 'r' && "right"@[1] == 'i' && "right"@[2] == 'g');
    assert("up"@.len() == 2 && "up"@[0] == 'u' && "up"@[1] == 'p');
    assert("down"@.len() == 4 && "down"@[0] == 'd' && "down"@[1] == 'o' && "down"@[2] == 'w');
    assert("home"@.len() == 4 && "home"@[0] == 'h' && "home"@[1] == 'o' && "home"@[2] == 'm');
    assert("end"@.len() == 3 && "end"@[0] == 'e' && "end"@[1] == 'n' && "end"@[2] == 'd');
    assert("pageup"@.len() == 6 && "pageup"@[0] == 'p' && "pageup"@[1] == 'a' && "pageup"@[2] == 'g');
    assert("pagedown"@.len() == 8 && "pagedown"@[0] == 'p' && "pagedown"@[1] == 'a' && "pagedown"@[2] == 'g');
    assert("backtab"@.len() == 7 && "backtab"@[0] == 'b' && "backtab"@[1] == 'a' && "backtab"@[2] == 'c');
    assert("backspace"@.len() == 9 && "backspace"@[0] == 'b' && "backspace"@[1] == 'a' && "backspace"@[2] == 'c');
    assert("delete"@.len() == 6 && "delete"@[0] == 'd' && "delete"@[1] == 'e' && "delete"@[2] == 'l');
    assert("insert"@.len() == 6 && "insert"@[0] == 'i' && "insert"@[1] == 'n' && "insert"@[2] == 's');
    assert("f1"@.len() == 2 && "f1"@[0] == 'f' && "f1"@[1] == '1');
    assert("f2"@.len() == 2 && "f2"@[0] == 'f' && "f2"@[1] == '2');
    assert("f3"@.len() == 2 && "f3"@[0] == 'f' && "f3"@[1] == '3');
    assert("f4"@.len() == 2 && "f4"@[0] == 'f' && "f4"@[1] == '4');
    assert("f5"@.len() == 2 && "f5"@[0] == 'f' && "f5"@[1] == '5');
    assert("f6"@.len() == 2 && "f6"@[0] == 'f' && "f6"@[1] == '6');
    assert("f7"@.len() == 2 && "f7"@[0] == 'f' && "f7"@[1] == '7');
    assert("f8"@.len() == 2 && "f8"@[0] == 'f' && "f8"@[1] == '8');
    assert("f9"@.len() == 2 && "f9"@[0] == 'f' && "f9"@[1] == '9');
    assert("f10"@.len() == 3 && "f10"@[0] == 'f' && "f10"@[1] == '1' && "f10"@[2] == '0');
    assert("f11"@.len() == 3 && "f11"@[0] == 'f' && "f11"@[1] == '1' && "f11"@[2] == '1');
    assert("f12"@.len() == 3 && "f12"@[0] == 'f' && "f12"@[1] == '1' && "f12"@[2] == '2');
    assert("space"@.len() == 5 && "space"@[0] == 's' && "space"@[1] == 'p' && "space"@[2] == 'a');
    assert("hyphen"@.len() == 6 && "hyphen"@[0] == 'h' && "hyphen"@[1] == 'y' && "hyphen"@[2] == 'p');
    assert("minus"@.len() == 5 && "minus"@[0] == 'm' && "minus"@[1] == 'i' && "minus"@[2] == 'n');
    assert("tab"@.len() == 3 && "tab"@[0] == 't' && "tab"@[1] == 'a' && "tab"@[2] == 'b');
    let s = code_text(key.code);
    if key.code is Char && key.code != KeyCode::Char(' ') {
        assert(s.len() == 1);
    }
    if let KeyCode::F(n) = key.code {
        reveal_strlit("f");
        reveal_with_fuel(decimal, 3);
        assert(s[0] == 'f');
        if n < 10 {
            assert(s =~= seq!['f', digit_char(n as int)]);
        } else {
            assert(s =~= seq!['f', '1', digit_char(n - 10)]);
        }
        assert(n == 1 ==> s =~= "f1"@);
        assert(n == 2 ==> s =~= "f2"@);
        assert(n == 3 ==> s =~= "f3"@);
        assert(n == 4 ==> s =~= "f4"@);
        assert(n == 5 ==> s =~= "f5"@);
        assert(n == 6 ==> s =~= "f6"@);
        assert(n == 7 ==> s =~= "f7"@);
        assert(n == 8 ==> s =~= "f8"@);
        assert(n == 9 ==> s =~= "f9"@);
        assert(n == 10 ==> s =~= "f10"@);
        assert(n == 11 ==> s =~= "f11"@);
        assert(n == 12 ==> s =~= "f12"@);
    }
}

/// A prefix in front of a text is read off it.
proof fn lemma_strip_one(t: Seq<char>, m: KeyModifiers)
    ensures
        strip_modifiers("ctrl-"@ + t, m) == strip_modifiers(t, KeyModifiers { control: true, ..m }),
        strip_modifiers("alt-"@ + t, m) == strip_modifiers(t, KeyModifiers { alt: true, ..m }),
        strip_modifiers("shift-"@ + t, m) == strip_modifiers(t, KeyModifiers { shift: true, ..m }),
{
    reveal_strlit("ctrl-");
    reveal_strlit("alt-");
    reveal_strlit("opt-");
    reveal_strlit("shift-");
    let c = "ctrl-"@ + t;
    assert(c.subrange(0, 5) =~= "ctrl-"@);
    assert(c.skip(5) =~= t);
    let a = "alt-"@ + t;
    assert(a.subrange(0, 4) =~= "alt-"@);
    assert(a.skip(4) =~= t);
    if begins_with(a, "ctrl-"@) {
        assert(a.subrange(0, 5)[0] == 'c');
        assert(a[0] == 'a');
    }
    let h = "shift-"@ + t;
    assert(h.subrange(0, 6) =~= "shift-"@);
    assert(h.skip(6) =~= t);
    assert(h[0] == 's');
    if begins_with(h, "ctrl-"@) {
        assert(h.subrange(0, 5)[0] == 'c');
    }
    if begins_with(h, "alt-"@) {
        assert(h.subrange(0, 4)[0] == 'a');
    }
    if begins_with(h, "opt-"@) {
        assert(h.subrange(0, 4)[0] == 'o');
    }
}

/// A bare text has no prefix to read.
proof fn lemma_strip_none(s: Seq<char>, m: KeyModifiers)
    requires
        bare(s),
    ensures
        strip_modifiers(s, m) == (s, m),
{
    reveal_strlit("ctrl-");
    reveal_strlit("alt-");
    reveal_strlit("opt-");
    reveal_strlit("shift-");
    if s.len() >= 5 && begins_with(s, "ctrl-"@) {
        assert(s.subrange(0, 5)[4] == '-');
    }
    if s.len() >= 4 && begins_with(s, "alt-"@) {
        assert(s.subrange(0, 4)[3] == '-');
    }
    if s.len() >= 4 && begins_with(s, "opt-"@) {
        assert(s.subrange(0, 4)[3] == '-');
    }
    if s.len() >= 6 && begins_with(s, "shift-"@) {
        assert(s.subrange(0, 6)[5] == '-');
    }
}

/// Reading what was printed gives the key back.
pub proof fn law_key_text_reads_back(key: KeyEvent)
    requires
        readable(key),
    ensures
        parsed_key(key_text(key)) == Ok::<KeyEvent, Seq<char>>(key),
{
    lemma_names(key);
    let name = code_text(key.code);
    let ctrl = if key.modifiers.control { "ctrl-"@ } else { Seq::empty() };
    let shift = if key.modifiers.shift { "shift-"@ } else { Seq::empty() };
    let alt = if key.modifiers.alt { "alt-"@ } else { Seq::empty() };
    let m0 = no_modifiers();
    let m1 = KeyModifiers { control: key.modifiers.control, ..m0 };
    let m2 = KeyModifiers { shift: key.modifiers.shift, ..m1 };
    let m3 = KeyModifiers { alt: key.modifiers.alt, ..m2 };
    let t = key_text(key);
    assert(lower_ascii(t) =~= t) by {
        reveal_strlit("ctrl-");
        reveal_strlit("alt-");
        reveal_strlit("shift-");
        assert forall|i: int| 0 <= i < t.len() implies lower_ascii(t)[i] == t[i] by {
            assert(!('A' <= t[i] && t[i] <= 'Z'));
        }
    }
    let t2 = alt + name;
    let t1 = shift + t2;
    assert(t =~= ctrl + t1);
    assert(strip_modifiers(t, m0) == strip_modifiers(t1, m1)) by {
        lemma_strip_one(t1, m0);
        assert(Seq::<char>::empty() + t1 =~= t1);
    }
    assert(strip_modifiers(t1, m1) == strip_modifiers(t2, m2)) by {
        lemma_strip_one(t2, m1);
        assert(Seq::<char>::empty() + t2 =~= t2);
    }
    assert(strip_modifiers(t2, m2) == strip_modifiers(name, m3)) by {
        lemma_strip_one(name, m2);
        assert(Seq::<char>::empty() + name =~= name);
    }
    lemma_strip_none(name, m3);
    assert(m3 == key.modifiers);
}

/// A separator cuts off the last piece, where none stands after it.
proof fn lemma_pieces_cut(a: Seq<char>, b: Seq<char>, sep: char)
    requires
        !b.contains(sep),
    ensures
        pieces(a.push(sep) + b, sep) == pieces(a, sep).push(b),
    decreases b.len(),
{
    let whole = a.push(sep) + b;
    if b.len() == 0 {
        assert(whole =~= a.push(sep));
        assert(whole.drop_last() =~= a);
        assert(b =~= Seq::<char>::empty());
    } else {
        assert(b.drop_last().len() < b.len());
        assert(!b.drop_last().contains(sep)) by {
            if b.drop_last().contains(sep) {
                let i = b.drop_last().index_of(sep);
                assert(b[i] == sep);
            }
        }
        lemma_pieces_cut(a, b.drop_last(), sep);
        assert(whole.drop_last() =~= a.push(sep) + b.drop_last());
        assert(whole.last() == b.last());
        assert(b.contains(b.last()));
        let head = pieces(whole.drop_last(), sep);
        assert(head.drop_last() =~= pieces(a, sep));
        assert(head.last() == b.drop_last());
        assert(b.drop_last().push(b.last()) =~= b);
    }
}

/// A text without the separator is its own only piece.
proof fn lemma_one_piece(b: Seq<char>, sep: char)
    requires
        !b.contains(sep),
    ensures
        pieces(b, sep) == seq![b],
    decreases b.len(),
{
    if b.len() > 0 {
        assert(!b.drop_last().contains(sep)) by {
            if b.drop_last().contains(sep) {
                let i = b.drop_last().index_of(sep);
                assert(b[i] == sep);
            }
        }
        lemma_one_piece(b.drop_last(), sep);
        assert(b.contains(b.last()));
        assert(b.drop_last().push(b.last()) =~= b);
        assert(seq![b.drop_last()].drop_last().push(b) =~= seq![b]);
    }
}

/// The printed form of a key other than `+` holds no `+`.
proof fn lemma_no_plus(key: KeyEvent)
    requires
        readable(key),
        key.code != KeyCode::Char('+'),
    ensures
        !key_text(key).contains('+'),
{
    let name = code_text(key.code);
    let t = key_text(key);
    reveal_strlit("ctrl-");
    reveal_strlit("alt-");
    reveal_strlit("shift-");
    reveal_strlit("esc");
    reveal_strlit("enter");
    reveal_strlit("left");
    reveal_strlit("right");
    reveal_strlit("up");
    reveal_strlit("down");
    reveal_strlit("home");
    reveal_strlit("end");
    reveal_strlit("pageup");
    reveal_strlit("pagedown");
    reveal_strlit("backtab");
    reveal_strlit("backspace");
    reveal_strlit("delete");
    reveal_strlit("insert");
    reveal_strlit("space");
    reveal_strlit("tab");
    reveal_strlit("f");
    reveal_with_fuel(decimal, 3);
    assert forall|i: int| 0 <= i < name.len() implies name[i] != '+' by {}
    assert forall|i: int| 0 <= i < t.len() implies t[i] != '+' by {
        let ctrl = if key.modifiers.control { "ctrl-"@ } else { Seq::<char>::empty() };
        let shift = if key.modifiers.shift { "shift-"@ } else { Seq::<char>::empty() };
        let alt = if key.modifiers.alt { "alt-"@ } else { Seq::<char>::empty() };
        let n = (ctrl + shift + alt).len();
        if i >= n {
            assert(t[i] == name[i - n]);
        } else {
            assert(t[i] == (ctrl + shift + alt)[i]);
        }
    }
}

/// Printing a sequence of readable keys and reading it gives the sequence back;
/// the key `+` is left out, since `+` stands between the keys.
pub proof fn law_sequence_text_reads_back(keys: Seq<KeyEvent>)
    requires
        keys.len() > 0,
        forall|i: int|
            0 <= i < keys.len() ==> readable(#[trigger] keys[i]) && keys[i].code != KeyCode::Char(
                '+',
            ),
    ensures
        parsed_sequence(sequence_text(keys)) == Ok::<Seq<KeyEvent>, Seq<char>>(keys),
    decreases keys.len(),
{
    let f = |k: KeyEvent| key_text(k);
    let ts = keys.map_values(f);
    let last = keys.last();
    law_key_text_reads_back(last);
    lemma_no_plus(last);
    reveal_strlit("+");
    assert("+"@ =~= seq!['+']);
    if keys.len() == 1 {
        assert(sequence_text(keys) == key_text(last));
        lemma_one_piece(key_text(last), '+');
        assert(seq![key_text(last)].drop_last() =~= Seq::<Seq<char>>::empty());
        reveal_with_fuel(parsed_keys, 2);
        assert(Seq::<KeyEvent>::empty().push(last) =~= keys);
    } else {
        let init = keys.drop_last();
        assert forall|i: int| 0 <= i < init.len() implies readable(#[trigger] init[i])
            && init[i].code != KeyCode::Char('+') by {
            assert(init[i] == keys[i]);
        }
        law_sequence_text_reads_back(init);
        assert(ts.drop_last() =~= init.map_values(f));
        let a = sequence_text(init);
        assert(sequence_text(keys) =~= a.push('+') + key_text(last));
        lemma_pieces_cut(a, key_text(last), '+');
        let ps = pieces(sequence_text(keys), '+');
        assert(ps.drop_last() =~= pieces(a, '+'));
        assert(init.push(last) =~= keys);
    }
}

/// What is left behind the modifiers is the end of the text, and only ctrl, shift and alt are
/// read off it.
proof fn lemma_stripped(s: Seq<char>, m: KeyModifiers)
    ensures
        ({
            let (rest, n) = strip_modifiers(s, m);
            &&& n.super_key == m.super_key && n.hyper == m.hyper && n.meta == m.meta
            &&& forall|i: int| 0 <= i < rest.len() ==> s.contains(#[trigger] rest[i])
        }),
    decreases s.len(),
{
    let (rest, n) = strip_modifiers(s, m);
    if s.len() >= 5 && begins_with(s, "ctrl-"@) {
        lemma_stripped(s.skip(5), KeyModifiers { control: true, ..m });
    } else if s.len() >= 4 && (begins_with(s, "alt-"@) || begins_with(s, "opt-"@)) {
        lemma_stripped(s.skip(4), KeyModifiers { alt: true, ..m });
    } else if s.len() >= 6 && begins_with(s, "shift-"@) {
        lemma_stripped(s.skip(6), KeyModifiers { shift: true, ..m });
    }
    assert forall|i: int| 0 <= i < rest.len() implies s.contains(#[trigger] rest[i]) by {
        let k = s.len() - rest.len();
        if s.len() >= 5 && begins_with(s, "ctrl-"@) {
            let j = s.skip(5).index_of(rest[i]);
            assert(s.skip(5).contains(rest[i]));
            assert(s[j + 5] == rest[i]);
        } else if s.len() >= 4 && (begins_with(s, "alt-"@) || begins_with(s, "opt-"@)) {
            let j = s.skip(4).index_of(rest[i]);
            assert(s.skip(4).contains(rest[i]));
            assert(s[j + 4] == rest[i]);
        } else if s.len() >= 6 && begins_with(s, "shift-"@) {
            let j = s.skip(6).index_of(rest[i]);
            assert(s.skip(6).contains(rest[i]));
            assert(s[j + 6] == rest[i]);
        } else {
            assert(s.contains(s[i]));
        }
    }
}

/// A key that a text without `+` names can be printed and read.
proof fn lemma_parsed_is_readable(raw: Seq<char>)
    requires
        !raw.contains('+'),
    ensures
        parsed_key(raw) matches Ok(k) ==> (is_capital(k.code) || readable(k)) && k.code
            != KeyCode::Char('+'),
{
    let low = lower_ascii(raw);
    let (rest, m) = strip_modifiers(low, no_modifiers());
    lemma_stripped(low, no_modifiers());
    assert(!low.contains('+')) by {
        if low.contains('+') {
            let i = low.index_of('+');
            assert(lower_char(raw[i]) == '+');
            assert(raw[i] == '+');
        }
    }
    if rest.len() == 1 {
        assert(low.contains(rest[0]));
        assert(upper_char(rest[0]) != '+');
    }
}

proof fn lemma_parsed_are_readable(parts: Seq<Seq<char>>)
    requires
        forall|i: int| 0 <= i < parts.len() ==> !(#[trigger] parts[i]).contains('+'),
    ensures
        parsed_keys(parts) matches Ok(v) ==> v.len() == parts.len() && forall|i: int|
            0 <= i < v.len() ==> (is_capital((#[trigger] v[i]).code) || readable(v[i]))
                && v[i].code != KeyCode::Char('+'),
    decreases parts.len(),
{
    if parts.len() > 0 {
        assert forall|i: int| 0 <= i < parts.drop_last().len() implies !(
        #[trigger] parts.drop_last()[i]).contains('+') by {
            assert(parts.drop_last()[i] == parts[i]);
        }
        lemma_parsed_are_readable(parts.drop_last());
        assert(parts.last() == parts[parts.len() - 1]);
        lemma_parsed_is_readable(parts.last());
    }
}

/// A text is cut into at least one piece, and no piece holds the separator.
proof fn lemma_pieces_are_clean(s: Seq<char>, sep: char)
    ensures
        pieces(s, sep).len() > 0,
        forall|i: int| 0 <= i < pieces(s, sep).len() ==> !(#[trigger] pieces(s, sep)[i]).contains(sep),
    decreases s.len(),
{
    if s.len() > 0 {
        lemma_pieces_are_clean(s.drop_last(), sep);
        let head = pieces(s.drop_last(), sep);
        let last = head.last();
        assert(last == head[head.len() - 1]);
        if s.last() != sep && last.push(s.last()).contains(sep) {
            let i = last.push(s.last()).index_of(sep);
            assert(last[i] == sep);
            assert(last.contains(sep));
        }
    }
}

/// What a text names is named by its printed form as well: printing undoes reading. Only an
/// uppercase letter, as in `shift-x`, is printed as it is and then reads in lowercase.
pub proof fn law_printing_undoes_reading(raw: Seq<char>, keys: Seq<KeyEvent>)
    requires
        parsed_sequence(raw) == Ok::<Seq<KeyEvent>, Seq<char>>(keys),
        forall|i: int| 0 <= i < keys.len() ==> !is_capital(#[trigger] keys[i].code),
    ensures
        parsed_sequence(sequence_text(keys)) == Ok::<Seq<KeyEvent>, Seq<char>>(keys),
{
    lemma_pieces_are_clean(raw, '+');
    lemma_parsed_are_readable(pieces(raw, '+'));
    law_sequence_text_reads_back(keys);
}

} // verus!
