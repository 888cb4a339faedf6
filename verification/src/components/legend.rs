//! The key hints: the footer of a screen, and the cheatsheet of the help dialog.
use vstd::prelude::*;
use vstd::string::*;

use crate::config::{context_of, Config, KeyContext, RawBindings};
use crate::keymap::{command_label, label_of, text_position, CommandSpec, KeyMap, TextIndex};
use crate::keys::{key_event_to_string, key_text, KeyCode, KeyEvent};
use crate::mode::Mode;
use crate::order::{is_text_before, lemma_text_order, sort, shown, sorted, text_before, Ordered};
use crate::text::{decimal, join, joined_with, number, same, texts};

verus! {

// ── Key labels ──────────────────────────────────────────────────────────────

/// The label of a key in the cheatsheet; `mac` is whether the keyboard is Apple's.
/// Keys that no binding can name have no label.
pub open spec fn code_label(code: KeyCode, mac: bool) -> Seq<char> {
    match code {
        KeyCode::Backspace => if mac {
            "Delete"@
        } else {
            "Backspace"@
        },
        KeyCode::Delete => if mac {
            "Fwd Del"@
        } else {
            "Del"@
        },
        KeyCode::Enter => if mac {
            "Return"@
        } else {
            "Enter"@
        },
        KeyCode::Left => "Left"@,
        KeyCode::Right => "Right"@,
        KeyCode::Up => "Up"@,
        KeyCode::Down => "Down"@,
        KeyCode::Home => "Home"@,
        KeyCode::End => "End"@,
        KeyCode::PageUp => "Page Up"@,
        KeyCode::PageDown => "Page Down"@,
        KeyCode::Tab => "Tab"@,
        KeyCode::BackTab => "Back Tab"@,
        KeyCode::Insert => "Insert"@,
        KeyCode::F(n) => "F"@ + decimal(n as nat),
        KeyCode::Char(c) => if c == ' ' {
            "Space"@
        } else {
            seq![c]
        },
        KeyCode::Esc => "Esc"@,
        _ => Seq::empty(),
    }
}

/// A text where a condition holds, else nothing.
pub open spec fn where_set(b: bool, s: Seq<char>) -> Seq<char> {
    if b {
        s
    } else {
        Seq::empty()
    }
}

/// The label of a key with its modifiers.
pub open spec fn label_text(key: KeyEvent, mac: bool) -> Seq<char> {
    let m = key.modifiers;
    where_set(m.control, "Ctrl+"@) + where_set(m.alt, "Alt+"@) + where_set(m.shift, "Shift+"@)
        + where_set(m.super_key, "Super+"@) + where_set(m.meta, "Meta+"@) + where_set(
        m.hyper,
        "Hyper+"@,
    ) + code_label(key.code, mac)
}

fn label_of_code(code: KeyCode, mac: bool) -> (r: String)
    ensures
        r@ == code_label(code, mac),
{
    match code {
        KeyCode::Backspace => {
            if mac {
                "Delete".to_owned()
            } else {
                "Backspace".to_owned()
            }
        },
        KeyCode::Delete => {
            if mac {
                "Fwd Del".to_owned()
            } else {
                "Del".to_owned()
            }
        },
        KeyCode::Enter => {
            if mac {
                "Return".to_owned()
            } else {
                "Enter".to_owned()
            }
        },
        KeyCode::Left => "Left".to_owned(),
        KeyCode::Right => "Right".to_owned(),
        KeyCode::Up => "Up".to_owned(),
        KeyCode::Down => "Down".to_owned(),
        KeyCode::Home => "Home".to_owned(),
        KeyCode::End => "End".to_owned(),
        KeyCode::PageUp => "Page Up".to_owned(),
        KeyCode::PageDown => "Page Down".to_owned(),
        KeyCode::Tab => "Tab".to_owned(),
        KeyCode::BackTab => "Back Tab".to_owned(),
        KeyCode::Insert => "Insert".to_owned(),
        KeyCode::F(n) => {
            let d = number(n as u64);
            crate::text::joined("F", d.as_str())
        },
        KeyCode::Char(c) => {
            if c == ' ' {
                "Space".to_owned()
            } else {
                let mut s = String::new();
                s.push(c);
                proof {
                    assert(s@ =~= seq![c]);
                }
                s
            }
        },
        KeyCode::Esc => "Esc".to_owned(),
        _ => {
            let s = String::new();
            proof {
                assert(s@ =~= Seq::<char>::empty());
            }
            s
        },
    }
}

/// The label of a key with its modifiers: `Ctrl+c`.
pub fn key_label(key: &KeyEvent, mac: bool) -> (r: String)
    ensures
        r@ == label_text(*key, mac),
{
    let m = key.modifiers;
    let mut s = String::new();
    if m.control {
        s.append("Ctrl+");
    }
    if m.alt {
        s.append("Alt+");
    }
    if m.shift {
        s.append("Shift+");
    }
    if m.super_key {
        s.append("Super+");
    }
    if m.meta {
        s.append("Meta+");
    }
    if m.hyper {
        s.append("Hyper+");
    }
    let c = label_of_code(key.code, mac);
    s.append(c.as_str());
    proof {
        assert(s@ =~= label_text(*key, mac));
    }
    s
}

// ── Grouping keys by command ────────────────────────────────────────────────

/// The key texts of each command, in the order in which the commands come up.
pub ghost struct Groups {
    pub labels: Seq<Seq<char>>,
    pub keys: Seq<Seq<Seq<char>>>,
}

/// No groups.
pub open spec fn no_groups() -> Groups {
    Groups { labels: Seq::empty(), keys: Seq::empty() }
}

impl Groups {
    /// The groups with one more key text for a command; where `once` is set, a text
    /// that the command has already is not added again.
    pub open spec fn with(self, label: Seq<char>, key: Seq<char>, once: bool) -> Groups {
        match text_position(self.labels, label) {
            Some(i) => if once && self.keys[i].contains(key) {
                self
            } else {
                Groups { keys: self.keys.update(i, self.keys[i].push(key)), ..self }
            },
            None => Groups { labels: self.labels.push(label), keys: self.keys.push(seq![key]) },
        }
    }

    /// The groups with the key texts of a whole sequence.
    pub open spec fn with_all(self, label: Seq<char>, keys: Seq<Seq<char>>, once: bool) -> Groups
        decreases keys.len(),
    {
        if keys.len() == 0 {
            self
        } else {
            self.with_all(label, keys.drop_last(), once).with(label, keys.last(), once)
        }
    }
}

/// The key texts of a sequence: as hints where `mac` is `None`, else as labels.
pub open spec fn sequence_labels(keys: Seq<KeyEvent>, mac: Option<bool>) -> Seq<Seq<char>> {
    keys.map_values(
        |k: KeyEvent|
            match mac {
                None => key_text(k),
                Some(m) => label_text(k, m),
            },
    )
}

/// The groups of a surface's bindings. `shown` leaves out what the footer does not
/// list.
pub open spec fn grouped(
    start: Groups,
    raw: RawBindings,
    shown: bool,
    once: bool,
    mac: Option<bool>,
) -> Groups
    decreases raw.len(),
{
    if raw.len() == 0 {
        start
    } else {
        let init = grouped(start, raw.drop_last(), shown, once, mac);
        let (keys, spec) = raw.last();
        if shown && !spec.shown() {
            init
        } else {
            init.with_all(label_of(spec.name()), sequence_labels(keys, mac), once)
        }
    }
}

/// A builder of groups.
struct Grouping {
    labels: TextIndex,
    keys: Vec<Vec<String>>,
}

spec fn key_lists(v: Seq<Vec<String>>) -> Seq<Seq<Seq<char>>> {
    v.map_values(|k: Vec<String>| texts(k@))
}

impl Grouping {
    spec fn groups(&self) -> Groups {
        Groups { labels: self.labels@, keys: key_lists(self.keys@) }
    }

    spec fn wf(&self) -> bool {
        self.labels.wf() && self.labels@.len() == self.keys@.len()
    }

    fn new() -> (r: Grouping)
        ensures
            r.wf(),
            r.groups() == no_groups(),
    {
        let r = Grouping { labels: TextIndex::new(), keys: Vec::new() };
        proof {
            assert(key_lists(r.keys@) =~= Seq::<Seq<Seq<char>>>::empty());
        }
        r
    }

    fn push(&mut self, label: &String, key: String, once: bool)
        requires
            old(self).wf(),
        ensures
            final(self).wf(),
            final(self).groups() == old(self).groups().with(label@, key@, once),
    {
        let ghost before = self.groups();
        let ghost old_keys = self.keys@;
        match self.labels.find(label.as_str()) {
            Some(i) => {
                proof {
                    assert(before.keys[i as int] == texts(self.keys@[i as int]@));
                }
                if once && holds(&self.keys[i], key.as_str()) {
                    return;
                }
                let ghost k = key@;
                let ghost row = self.keys@[i as int]@;
                self.keys[i].push(key);
                proof {
                    assert(texts(self.keys@[i as int]@) =~= texts(row).push(k));
                    assert(key_lists(self.keys@) =~= before.keys.update(
                        i as int,
                        before.keys[i as int].push(k),
                    ));
                }
            },
            None => {
                let ghost k = key@;
                let mut row: Vec<String> = Vec::new();
                row.push(key);
                proof {
                    assert(texts(row@) =~= seq![k]);
                }
                self.labels.add_new(label.clone());
                self.keys.push(row);
                proof {
                    assert(key_lists(self.keys@) =~= before.keys.push(seq![k]));
                }
            },
        }
    }

    fn push_all(&mut self, label: &String, keys: &Vec<KeyEvent>, once: bool, mac: Option<bool>)
        requires
            old(self).wf(),
        ensures
            final(self).wf(),
            final(self).groups() == old(self).groups().with_all(
                label@,
                sequence_labels(keys@, mac),
                once,
            ),
    {
        let ghost start = self.groups();
        let ghost ls = sequence_labels(keys@, mac);
        let mut i: usize = 0;
        proof {
            assert(ls.take(0) =~= Seq::<Seq<char>>::empty());
        }
        while i < keys.len()
            invariant
                i <= keys@.len(),
                ls == sequence_labels(keys@, mac),
                self.wf(),
                self.groups() == start.with_all(label@, ls.take(i as int), once),
            decreases keys@.len() - i,
        {
            let t: String = match mac {
                None => key_event_to_string(&keys[i]),
                Some(m) => key_label(&keys[i], m),
            };
            proof {
                assert(ls.take(i + 1).drop_last() =~= ls.take(i as int));
                assert(ls.take(i + 1).last() == t@);
            }
            self.push(label, t, once);
            i = i + 1;
        }
        proof {
            assert(ls.take(ls.len() as int) =~= ls);
        }
    }

    fn add_bindings(
        &mut self,
        m: &KeyMap<CommandSpec>,
        shown: bool,
        once: bool,
        mac: Option<bool>,
    )
        requires
            old(self).wf(),
        ensures
            final(self).wf(),
            final(self).groups() == grouped(old(self).groups(), m@, shown, once, mac),
    {
        let ghost start = self.groups();
        let mut i: usize = 0;
        proof {
            assert(m@.take(0) =~= Seq::<(Seq<KeyEvent>, CommandSpec)>::empty());
        }
        while i < m.len()
            invariant
                i <= m@.len(),
                self.wf(),
                self.groups() == grouped(start, m@.take(i as int), shown, once, mac),
            decreases m@.len() - i,
        {
            proof {
                assert(m@.take(i + 1).drop_last() =~= m@.take(i as int));
                assert(m@.take(i + 1).last() == m@[i as int]);
            }
            if !shown || m.value_at(i).show() {
                let label = command_label(m.value_at(i).command());
                self.push_all(&label, m.keys_at(i), once, mac);
            }
            i = i + 1;
        }
        proof {
            assert(m@.take(m@.len() as int) =~= m@);
        }
    }
}

/// Whether a list of texts holds one.
fn holds(v: &Vec<String>, s: &str) -> (r: bool)
    ensures
        r == texts(v@).contains(s@),
{
    let mut i: usize = 0;
    while i < v.len()
        invariant
            i <= v@.len(),
            forall|j: int| 0 <= j < i ==> texts(v@)[j] != s@,
        decreases v@.len() - i,
    {
        if same(v[i].as_str(), s) {
            proof {
                assert(texts(v@)[i as int] == s@);
            }
            return true;
        }
        i = i + 1;
    }
    false
}

// ── Rows ────────────────────────────────────────────────────────────────────

/// A row of the legend: the keys, and the command that they trigger.
#[derive(Debug, PartialEq, Eq)]
pub struct LegendRow {
    pub keys: String,
    pub label: String,
}

/// What a row says.
#[verifier::ext_equal]
pub ghost struct RowText {
    pub keys: Seq<char>,
    pub label: Seq<char>,
}

impl View for LegendRow {
    type V = RowText;

    open spec fn view(&self) -> RowText {
        RowText { keys: self.keys@, label: self.label@ }
    }
}

/// What rows say.
pub open spec fn row_texts(v: Seq<LegendRow>) -> Seq<RowText> {
    v.map_values(|r: LegendRow| r@)
}

/// The rows with one more: where the same keys have a row already, its command is
/// replaced.
pub open spec fn with_row(rows: Seq<RowText>, row: RowText) -> Seq<RowText> {
    let keys = rows.map_values(|r: RowText| r.keys);
    match text_position(keys, row.keys) {
        Some(i) => rows.update(i, row),
        None => rows.push(row),
    }
}

/// The rows of the first `n` groups, each with its keys joined by `/`.
pub open spec fn rows_of(g: Groups, n: nat) -> Seq<RowText>
    decreases n,
{
    if n == 0 {
        Seq::empty()
    } else {
        with_row(
            rows_of(g, (n - 1) as nat),
            RowText { keys: joined_with(g.keys[n - 1], "/"@), label: g.labels[n - 1] },
        )
    }
}

fn build_rows(g: &Grouping, labels: &Vec<String>) -> (r: Vec<LegendRow>)
    requires
        g.wf(),
        texts(labels@) == g.labels@,
    ensures
        row_texts(r@) == rows_of(g.groups(), g.labels@.len()),
{
    let mut out: Vec<LegendRow> = Vec::new();
    let mut seen = TextIndex::new();
    let mut i: usize = 0;
    proof {
        assert(row_texts(out@) =~= Seq::<RowText>::empty());
        assert(row_texts(out@).map_values(|r: RowText| r.keys) =~= seen@);
    }
    while i < labels.len()
        invariant
            i <= labels@.len(),
            g.wf(),
            texts(labels@) == g.labels@,
            labels@.len() == g.keys@.len(),
            seen.wf(),
            seen@ == row_texts(out@).map_values(|r: RowText| r.keys),
            row_texts(out@) == rows_of(g.groups(), i as nat),
        decreases labels@.len() - i,
    {
        let keys = join(&g.keys[i], "/");
        let label = labels[i].clone();
        let ghost rows = row_texts(out@);
        let ghost row = RowText { keys: keys@, label: label@ };
        proof {
            assert(g.groups().keys[i as int] == texts(g.keys@[i as int]@));
            assert(g.groups().labels[i as int] == texts(labels@)[i as int]);
            assert(rows_of(g.groups(), (i + 1) as nat) == with_row(rows, row));
        }
        match seen.find(keys.as_str()) {
            Some(at) => {
                let ghost before = out@;
                out.set(at, LegendRow { keys, label });
                proof {
                    assert(row_texts(out@) =~= rows.update(at as int, row));
                    assert(rows.map_values(|r: RowText| r.keys)[at as int] == row.keys) by {
                        assert(seen@.contains(row.keys));
                        assert(seen@[seen@.index_of(row.keys)] == row.keys);
                    }
                    assert(row_texts(out@).map_values(|r: RowText| r.keys) =~= seen@);
                }
            },
            None => {
                seen.add_new(keys.clone());
                out.push(LegendRow { keys, label });
                proof {
                    assert(row_texts(out@) =~= rows.push(row));
                    assert(row_texts(out@).map_values(|r: RowText| r.keys) =~= seen@);
                }
            },
        }
        i = i + 1;
    }
    out
}

// ── The footer ──────────────────────────────────────────────────────────────

/// The footer of a screen: the listed bindings that work everywhere, then those of
/// the screen itself.
pub struct Keys {
    pub mode: Mode,
    pub rows: Vec<LegendRow>,
}

/// The bindings of a surface, or none.
pub open spec fn bindings_or_none(raw: Option<RawBindings>) -> RawBindings {
    match raw {
        Some(m) => m,
        None => Seq::empty(),
    }
}

/// The rows of a screen's footer. A key that a command has twice is listed once.
pub open spec fn footer_rows(config: Config, mode: Mode) -> Seq<RowText> {
    let g = grouped(
        grouped(
            no_groups(),
            bindings_or_none(config.keybindings.at(KeyContext::Global)),
            true,
            true,
            None,
        ),
        bindings_or_none(config.keybindings.at(context_of(mode))),
        true,
        true,
        None,
    );
    rows_of(g, g.labels.len())
}

impl Keys {
    /// The footer of a screen.
    pub fn new(mode: Mode, config: &Config) -> (r: Keys)
        requires
            config.wf(),
        ensures
            r.mode == mode,
            row_texts(r.rows@) == footer_rows(*config, mode),
    {
        let mut g = Grouping::new();
        if let Some(m) = config.keybindings.context(KeyContext::Global) {
            g.add_bindings(m, true, true, None);
        }
        if let Some(m) = config.keybindings.context(KeyContext::from(mode)) {
            g.add_bindings(m, true, true, None);
        }
        let labels = g.labels.to_vec();
        Keys { mode, rows: build_rows(&g, &labels) }
    }
}

// ── The cheatsheet ──────────────────────────────────────────────────────────

/// The cheatsheet of a screen's bindings.
pub struct Help {
    pub mode: Mode,
    pub rows: Vec<LegendRow>,
}

/// What a cheatsheet says.
#[verifier::ext_equal]
pub ghost struct HelpView {
    pub mode: Mode,
    pub rows: Seq<RowText>,
}

impl View for Help {
    type V = HelpView;

    open spec fn view(&self) -> HelpView {
        HelpView { mode: self.mode, rows: row_texts(self.rows@) }
    }
}

impl Ordered<()> for LegendRow {
    type Shown = RowText;

    open spec fn shown(self) -> RowText {
        self@
    }

    /// Rows are ordered by their command.
    open spec fn before(a: RowText, b: RowText, order: ()) -> bool {
        text_before(a.label, b.label)
    }

    proof fn weak_order(a: RowText, b: RowText, c: RowText, order: ()) {
        lemma_text_order(a.label, b.label, c.label);
    }

    fn is_before(&self, other: &LegendRow, order: &()) -> (r: bool) {
        is_text_before(self.label.as_str(), other.label.as_str())
    }
}

/// The rows of a screen's cheatsheet, before they are sorted.
pub open spec fn help_rows(config: Config, mode: Mode, mac: bool) -> Seq<RowText> {
    let g = grouped(
        no_groups(),
        bindings_or_none(config.keybindings.at(context_of(mode))),
        false,
        false,
        Some(mac),
    );
    rows_of(g, g.labels.len())
}

/// A screen's cheatsheet: its rows are sorted by command.
pub open spec fn help_sheet(config: Config, mode: Mode, mac: bool) -> HelpView {
    HelpView { mode, rows: sorted::<(), LegendRow>(help_rows(config, mode, mac), ()) }
}

impl Help {
    /// The cheatsheet of a screen, its rows sorted by command.
    pub fn new(mode: Mode, config: &Config, mac: bool) -> (r: Help)
        requires
            config.wf(),
        ensures
            r@ == help_sheet(*config, mode, mac),
    {
        let mut g = Grouping::new();
        if let Some(m) = config.keybindings.context(KeyContext::from(mode)) {
            g.add_bindings(m, false, false, Some(mac));
        }
        let labels = g.labels.to_vec();
        let mut rows = build_rows(&g, &labels);
        proof {
            assert(shown::<(), LegendRow>(rows@) =~= row_texts(rows@));
        }
        sort(&mut rows, &());
        proof {
            assert(shown::<(), LegendRow>(rows@) =~= row_texts(rows@));
        }
        Help { mode, rows }
    }

    /// The height of the cheatsheet: a line for each row, and two more.
    pub fn height(&self) -> (r: u64)
        requires
            self.rows@.len() < 0xffff_ffff,
        ensures
            r == self.rows@.len() + 2,
    {
        self.rows.len() as u64 + 2
    }
}

} // verus!
