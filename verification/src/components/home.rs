//! The workspace: a sidebar of lists beside one or two panes of todos.
use vstd::prelude::*;
use vstd::string::*;

use crate::action::{sends, Action, ActionView, DeleteTarget, DeleteView, Outcome, OutcomeView};
use crate::components::surface::{compiled_from, unbound, Surface, SurfaceView};
use crate::config::{Config, IconType, KeyContext};
use crate::cycle::{step, stepped};
use crate::dates::{date_at, date_of_time};
use crate::keymap::{first_key_for, key_texts, KeyMap, SameVerb, Verb};
use crate::keys::KeyEvent;
use crate::mode::Captures;
use crate::model::{
    metas, ListId, ListSummary, MetaList, Priority, SummaryView, TodoItem, TodoView, ViewTarget,
};
use crate::text::{decimal, join, joined_with, number, same, texts};
use crate::view::{Direction, ModelView, PaneData, PaneView, ViewModel};

verus! {

/// What a key can do in the workspace.
#[derive(Clone, Copy, Debug, PartialEq, Eq, Structural)]
pub enum HomeCmd {
    FocusSidebar,
    FocusPane,
    CycleFocus,
    SelectNext,
    SelectPrev,
    OpenSelected,
    SplitHorizontal,
    SplitVertical,
    CyclePane,
    ClosePane,
    GrowPane,
    ShrinkPane,
    NewList,
    CycleSort,
    Share,
    Members,
    AddTodo,
    EditTodo,
    ToggleDone,
    Rename,
    Delete,
}

impl Verb for HomeCmd {
    open spec fn named(name: Seq<char>) -> Option<HomeCmd> {
        if name == "focus_sidebar"@ {
            Some(HomeCmd::FocusSidebar)
        } else if name == "focus_pane"@ {
            Some(HomeCmd::FocusPane)
        } else if name == "cycle_focus"@ {
            Some(HomeCmd::CycleFocus)
        } else if name == "select_next"@ {
            Some(HomeCmd::SelectNext)
        } else if name == "select_prev"@ {
            Some(HomeCmd::SelectPrev)
        } else if name == "open_selected"@ {
            Some(HomeCmd::OpenSelected)
        } else if name == "split_horizontal"@ || name == "split"@ {
            Some(HomeCmd::SplitHorizontal)
        } else if name == "split_vertical"@ {
            Some(HomeCmd::SplitVertical)
        } else if name == "cycle_pane"@ {
            Some(HomeCmd::CyclePane)
        } else if name == "close_pane"@ {
            Some(HomeCmd::ClosePane)
        } else if name == "grow_pane"@ {
            Some(HomeCmd::GrowPane)
        } else if name == "shrink_pane"@ {
            Some(HomeCmd::ShrinkPane)
        } else if name == "new_list"@ {
            Some(HomeCmd::NewList)
        } else if name == "cycle_sort"@ {
            Some(HomeCmd::CycleSort)
        } else if name == "share"@ {
            Some(HomeCmd::Share)
        } else if name == "members"@ {
            Some(HomeCmd::Members)
        } else if name == "add_todo"@ {
            Some(HomeCmd::AddTodo)
        } else if name == "edit_todo"@ {
            Some(HomeCmd::EditTodo)
        } else if name == "toggle_done"@ {
            Some(HomeCmd::ToggleDone)
        } else if name == "rename"@ {
            Some(HomeCmd::Rename)
        } else if name == "delete"@ {
            Some(HomeCmd::Delete)
        } else {
            None
        }
    }

    fn parse(name: &str) -> (r: Option<HomeCmd>) {
        if same(name, "focus_sidebar") {
            Some(HomeCmd::FocusSidebar)
        } else if same(name, "focus_pane") {
            Some(HomeCmd::FocusPane)
        } else if same(name, "cycle_focus") {
            Some(HomeCmd::CycleFocus)
        } else if same(name, "select_next") {
            Some(HomeCmd::SelectNext)
        } else if same(name, "select_prev") {
            Some(HomeCmd::SelectPrev)
        } else if same(name, "open_selected") {
            Some(HomeCmd::OpenSelected)
        } else if same(name, "split_horizontal") || same(name, "split") {
            Some(HomeCmd::SplitHorizontal)
        } else if same(name, "split_vertical") {
            Some(HomeCmd::SplitVertical)
        } else if same(name, "cycle_pane") {
            Some(HomeCmd::CyclePane)
        } else if same(name, "close_pane") {
            Some(HomeCmd::ClosePane)
        } else if same(name, "grow_pane") {
            Some(HomeCmd::GrowPane)
        } else if same(name, "shrink_pane") {
            Some(HomeCmd::ShrinkPane)
        } else if same(name, "new_list") {
            Some(HomeCmd::NewList)
        } else if same(name, "cycle_sort") {
            Some(HomeCmd::CycleSort)
        } else if same(name, "share") {
            Some(HomeCmd::Share)
        } else if same(name, "members") {
            Some(HomeCmd::Members)
        } else if same(name, "add_todo") {
            Some(HomeCmd::AddTodo)
        } else if same(name, "edit_todo") {
            Some(HomeCmd::EditTodo)
        } else if same(name, "toggle_done") {
            Some(HomeCmd::ToggleDone)
        } else if same(name, "rename") {
            Some(HomeCmd::Rename)
        } else if same(name, "delete") {
            Some(HomeCmd::Delete)
        } else {
            None
        }
    }
}

impl SameVerb for HomeCmd {
    fn is(&self, other: &HomeCmd) -> (r: bool) {
        *self == *other
    }
}

/// Which part of the workspace has the keys.
#[derive(Clone, Copy, Debug, PartialEq, Eq, Structural)]
pub enum Focus {
    Sidebar,
    Pane,
}

impl Default for Focus {
    fn default() -> (r: Focus)
        ensures
            r == Focus::Sidebar,
    {
        Focus::Sidebar
    }
}

// ── The icon ────────────────────────────────────────────────────────────────

pub const LIST_ICON_NF: char = '\u{f0ca}';

pub const LIST_ICON_UTF: char = '📋';

pub const LIST_ICON_BASIC: char = 'L';

/// The sign in front of a list's name.
#[derive(Clone, Copy, Debug, PartialEq, Eq, Structural)]
pub struct ListIcon(pub char);

impl From<char> for ListIcon {
    fn from(c: char) -> (r: ListIcon) {
        ListIcon(c)
    }
}

impl vstd::std_specs::convert::FromSpecImpl<char> for ListIcon {
    open spec fn obeys_from_spec() -> bool {
        true
    }

    open spec fn from_spec(c: char) -> ListIcon {
        ListIcon(c)
    }
}

/// The icon of an icon set.
pub open spec fn icon_for(t: IconType) -> ListIcon {
    match t {
        IconType::NerdFonts => ListIcon(LIST_ICON_NF),
        IconType::Emojis => ListIcon(LIST_ICON_UTF),
        IconType::Basic => ListIcon(LIST_ICON_BASIC),
    }
}

impl ListIcon {
    /// The icon of the nerd fonts.
    pub fn nf() -> (r: ListIcon)
        ensures
            r == icon_for(IconType::NerdFonts),
    {
        ListIcon(LIST_ICON_NF)
    }

    /// The icon out of the emojis.
    pub fn utf() -> (r: ListIcon)
        ensures
            r == icon_for(IconType::Emojis),
    {
        ListIcon(LIST_ICON_UTF)
    }

    /// The icon that every font has.
    pub fn basic() -> (r: ListIcon)
        ensures
            r == icon_for(IconType::Basic),
    {
        ListIcon(LIST_ICON_BASIC)
    }

    /// The icon of an icon set.
    pub fn of(t: IconType) -> (r: ListIcon)
        ensures
            r == icon_for(t),
    {
        match t {
            IconType::NerdFonts => ListIcon::nf(),
            IconType::Emojis => ListIcon::utf(),
            IconType::Basic => ListIcon::basic(),
        }
    }
}

// ── The sidebar's rows ──────────────────────────────────────────────────────

/// What a row of the sidebar stands for: the meta-lists come first, then the lists.
pub open spec fn row_target(lists: Seq<SummaryView>, row: int) -> Option<ViewTarget> {
    if 0 <= row < metas().len() {
        Some(ViewTarget::Meta(metas()[row]))
    } else if metas().len() <= row < metas().len() + lists.len() {
        Some(ViewTarget::List(lists[row - metas().len()].id))
    } else {
        None
    }
}

/// The list that a row of the sidebar stands for; a meta-list is none.
pub open spec fn row_list(lists: Seq<SummaryView>, row: int) -> Option<(ListId, Seq<char>)> {
    if metas().len() <= row < metas().len() + lists.len() {
        Some((lists[row - metas().len()].id, lists[row - metas().len()].name))
    } else {
        None
    }
}

/// The selection after a step among `n` rows. One beyond the last row counts as on
/// the last.
pub open spec fn row_step(row: int, delta: int, n: int) -> int {
    if n == 0 {
        row
    } else {
        step(
            if row < n {
                row
            } else {
                n - 1
            },
            delta,
            n,
        )
    }
}

/// Moves a selection some rows down, or up where the number is negative.
pub fn step_row(row: usize, delta: isize, n: usize) -> (r: usize)
    ensures
        r == row_step(row as int, delta as int, n as int),
{
    if n == 0 {
        return row;
    }
    let cur: usize = if row < n {
        row
    } else {
        n - 1
    };
    stepped(cur, delta, n)
}

/// The number of rows of the sidebar.
pub fn sidebar_len(view: &ViewModel) -> (r: usize)
    requires
        view@.valid(),
    ensures
        r == metas().len() + view@.lists.len(),
{
    2 + view.lists.len()
}

/// What a row of the sidebar stands for.
pub fn target_at(view: &ViewModel, idx: usize) -> (r: Option<ViewTarget>)
    ensures
        r == row_target(view@.lists, idx as int),
{
    if idx == 0 {
        Some(ViewTarget::Meta(MetaList::AllTasks))
    } else if idx == 1 {
        Some(ViewTarget::Meta(MetaList::DueToday))
    } else if idx - 2 < view.lists.len() {
        Some(ViewTarget::List(view.lists[idx - 2].id))
    } else {
        None
    }
}

/// The contents of a list's number and name.
pub open spec fn named_list(l: Option<(ListId, String)>) -> Option<(ListId, Seq<char>)> {
    match l {
        Some(p) => Some((p.0, p.1@)),
        None => None,
    }
}

/// The list that a row of the sidebar stands for.
pub fn user_list_at(view: &ViewModel, idx: usize) -> (r: Option<(ListId, String)>)
    ensures
        named_list(r) == row_list(view@.lists, idx as int),
{
    if idx < 2 {
        return None;
    }
    if idx - 2 < view.lists.len() {
        Some((view.lists[idx - 2].id, view.lists[idx - 2].name.clone()))
    } else {
        None
    }
}

/// The text of a list's row: the icon, the name, and how many todos are open.
pub open spec fn list_row(icon: ListIcon, l: SummaryView) -> Seq<char> {
    let badge = if l.open_count > 0 {
        " ("@ + decimal(l.open_count as nat) + ")"@
    } else {
        Seq::empty()
    };
    seq![' ', icon.0, ' '] + l.name + badge
}

/// The text of a meta-list's row.
pub open spec fn meta_row(m: MetaList) -> Seq<char> {
    " ★ "@ + m.text()
}

/// The text of every row of the sidebar.
pub open spec fn sidebar_rows(icon: ListIcon, lists: Seq<SummaryView>) -> Seq<Seq<char>> {
    metas().map_values(|m: MetaList| meta_row(m)) + lists.map_values(
        |l: SummaryView| list_row(icon, l),
    )
}

fn text_of_list(icon: ListIcon, l: &ListSummary) -> (r: String)
    ensures
        r@ == list_row(icon, l@),
{
    let mut s = String::new();
    s.push(' ');
    s.push(icon.0);
    s.push(' ');
    proof {
        assert(s@ =~= seq![' ', icon.0, ' ']);
    }
    s.append(l.name.as_str());
    if l.open_count > 0 {
        s.append(" (");
        let n = number(l.open_count as u64);
        s.append(n.as_str());
        s.append(")");
    }
    proof {
        assert(s@ =~= list_row(icon, l@));
    }
    s
}

/// The text of every row of the sidebar.
pub fn rows_of_sidebar(icon: ListIcon, view: &ViewModel) -> (r: Vec<String>)
    ensures
        texts(r@) == sidebar_rows(icon, view@.lists),
{
    let mut rows: Vec<String> = Vec::new();
    let mut first = String::new();
    first.append(" ★ ");
    first.append(MetaList::AllTasks.label());
    let mut second = String::new();
    second.append(" ★ ");
    second.append(MetaList::DueToday.label());
    rows.push(first);
    rows.push(second);
    let n: usize = view.lists.len();
    let mut i: usize = 0;
    while i < n
        invariant
            i <= n,
            n == view.lists@.len(),
            rows@.len() == 2 + i,
            rows@[0]@ == meta_row(MetaList::AllTasks),
            rows@[1]@ == meta_row(MetaList::DueToday),
            forall|j: int|
                2 <= j < 2 + i ==> (#[trigger] rows@[j])@ == list_row(icon, view.lists@[j - 2]@),
        decreases n - i,
    {
        let t = text_of_list(icon, &view.lists[i]);
        rows.push(t);
        i = i + 1;
    }
    proof {
        assert(texts(rows@) =~= sidebar_rows(icon, view@.lists));
    }
    rows
}

// ── The hints ───────────────────────────────────────────────────────────────

/// The parts of a hint line: `key:label` for every command that is bound.
pub open spec fn hint_parts(
    map: Seq<(Seq<KeyEvent>, HomeCmd)>,
    items: Seq<(HomeCmd, &'static str)>,
) -> Seq<Seq<char>>
    decreases items.len(),
{
    if items.len() == 0 {
        Seq::empty()
    } else {
        let before = hint_parts(map, items.drop_last());
        let keys = key_texts(map, items.last().0);
        if keys.len() > 0 {
            before.push(keys[0] + ":"@ + items.last().1@)
        } else {
            before
        }
    }
}

/// A hint line.
pub open spec fn hint_text(
    map: Seq<(Seq<KeyEvent>, HomeCmd)>,
    items: Seq<(HomeCmd, &'static str)>,
) -> Seq<char> {
    " "@ + joined_with(hint_parts(map, items), " "@) + " "@
}

/// A hint line from the bindings; a command without a key is left out.
pub fn hint(map: &KeyMap<HomeCmd>, items: &Vec<(HomeCmd, &'static str)>) -> (r: String)
    ensures
        r@ == hint_text(map@, items@),
{
    let mut parts: Vec<String> = Vec::new();
    let n: usize = items.len();
    let mut i: usize = 0;
    proof {
        assert(items@.take(0) =~= Seq::empty());
        assert(texts(parts@) =~= Seq::empty());
    }
    while i < n
        invariant
            i <= n,
            n == items@.len(),
            texts(parts@) == hint_parts(map@, items@.take(i as int)),
        decreases n - i,
    {
        proof {
            assert(items@.take(i + 1).drop_last() =~= items@.take(i as int));
            assert(items@.take(i + 1).last() == items@[i as int]);
        }
        let verb: HomeCmd = items[i].0;
        let label: &'static str = items[i].1;
        let ghost before = parts@;
        match first_key_for(map, &verb) {
            Some(k) => {
                let mut t = k;
                t.append(":");
                t.append(label);
                parts.push(t);
                proof {
                    assert(texts(parts@) =~= texts(before).push(t@));
                }
            },
            None => {},
        }
        i = i + 1;
    }
    proof {
        assert(items@.take(n as int) =~= items@);
    }
    let line = join(&parts, " ");
    let mut s = String::new();
    s.append(" ");
    s.append(line.as_str());
    s.append(" ");
    proof {
        assert(s@ =~= hint_text(map@, items@));
    }
    s
}

/// The commands that the sidebar hints at.
pub open spec fn layout_items() -> Seq<(HomeCmd, &'static str)> {
    seq![
        (HomeCmd::SplitHorizontal, "split"),
        (HomeCmd::SplitVertical, "stack"),
        (HomeCmd::CyclePane, "pane"),
        (HomeCmd::ClosePane, "close"),
    ]
}

/// The commands that a pane hints at.
pub open spec fn command_items() -> Seq<(HomeCmd, &'static str)> {
    seq![
        (HomeCmd::NewList, "new"),
        (HomeCmd::AddTodo, "add"),
        (HomeCmd::EditTodo, "edit"),
        (HomeCmd::ToggleDone, "done"),
        (HomeCmd::Delete, "del"),
        (HomeCmd::CycleSort, "sort"),
        (HomeCmd::Share, "share"),
        (HomeCmd::Members, "members"),
    ]
}

/// The sidebar's hint line.
pub fn layout_hint(map: &KeyMap<HomeCmd>) -> (r: String)
    ensures
        r@ == hint_text(map@, layout_items()),
{
    let mut v: Vec<(HomeCmd, &'static str)> = Vec::new();
    v.push((HomeCmd::SplitHorizontal, "split"));
    v.push((HomeCmd::SplitVertical, "stack"));
    v.push((HomeCmd::CyclePane, "pane"));
    v.push((HomeCmd::ClosePane, "close"));
    proof {
        assert(v@ =~= layout_items());
    }
    hint(map, &v)
}

/// A pane's hint line.
pub fn command_hint(map: &KeyMap<HomeCmd>) -> (r: String)
    ensures
        r@ == hint_text(map@, command_items()),
{
    let mut v: Vec<(HomeCmd, &'static str)> = Vec::new();
    v.push((HomeCmd::NewList, "new"));
    v.push((HomeCmd::AddTodo, "add"));
    v.push((HomeCmd::EditTodo, "edit"));
    v.push((HomeCmd::ToggleDone, "done"));
    v.push((HomeCmd::Delete, "del"));
    v.push((HomeCmd::CycleSort, "sort"));
    v.push((HomeCmd::Share, "share"));
    v.push((HomeCmd::Members, "members"));
    proof {
        assert(v@ =~= command_items());
    }
    hint(map, &v)
}

// ── The panes' rows ─────────────────────────────────────────────────────────

/// The text of a due time: its date, and nothing where there is none.
pub open spec fn due_text(due: Option<i64>) -> Seq<char> {
    match date_at(due) {
        Some(d) => d.text(),
        None => Seq::empty(),
    }
}

/// The text of a due time.
pub fn text_of_due(due: Option<i64>) -> (r: String)
    ensures
        r@ == due_text(due),
{
    match date_of_time(due) {
        Some(d) => d.to_text(),
        None => String::new(),
    }
}

/// A todo as a row of a pane.
#[derive(Debug, PartialEq, Eq)]
pub struct PaneRow {
    pub check: String,
    pub priority: Priority,
    pub title: String,
    pub due: String,
    pub done: bool,
}

/// The contents of a row.
pub ghost struct PaneRowView {
    pub check: Seq<char>,
    pub priority: Priority,
    pub title: Seq<char>,
    pub due: Seq<char>,
    pub done: bool,
}

impl View for PaneRow {
    type V = PaneRowView;

    open spec fn view(&self) -> PaneRowView {
        PaneRowView {
            check: self.check@,
            priority: self.priority,
            title: self.title@,
            due: self.due@,
            done: self.done,
        }
    }
}

/// The row of a todo.
pub open spec fn todo_row(t: TodoView) -> PaneRowView {
    PaneRowView {
        check: if t.done {
            "✓"@
        } else {
            " "@
        },
        priority: t.priority,
        title: t.title,
        due: due_text(t.due),
        done: t.done,
    }
}

/// The row of a todo.
pub fn row_of_todo(t: &TodoItem) -> (r: PaneRow)
    ensures
        r@ == todo_row(t@),
{
    let check: &'static str = if t.done {
        "✓"
    } else {
        " "
    };
    PaneRow {
        check: check.to_owned(),
        priority: t.priority,
        title: t.title.clone(),
        due: text_of_due(t.due),
        done: t.done,
    }
}

/// The position of a list among the summaries.
pub open spec fn list_position(lists: Seq<SummaryView>, id: ListId) -> Option<int>
    decreases lists.len(),
{
    if lists.len() == 0 {
        None
    } else {
        match list_position(lists.drop_last(), id) {
            Some(i) => Some(i),
            None => if lists.last().id == id {
                Some(lists.len() - 1)
            } else {
                None
            },
        }
    }
}

/// The position of a list among the summaries.
pub fn position_of_list(lists: &Vec<ListSummary>, id: ListId) -> (r: Option<usize>)
    ensures
        match r {
            Some(i) => i < lists@.len() && list_position(
                crate::view::summary_views(lists@),
                id,
            ) == Some(i as int),
            None => list_position(crate::view::summary_views(lists@), id) is None,
        },
{
    let ghost all = crate::view::summary_views(lists@);
    let n: usize = lists.len();
    let mut i: usize = 0;
    let mut found: Option<usize> = None;
    proof {
        assert(all.take(0) =~= Seq::empty());
    }
    while i < n
        invariant
            i <= n,
            n == lists@.len(),
            all == crate::view::summary_views(lists@),
            match found {
                Some(k) => k < i && list_position(all.take(i as int), id) == Some(k as int),
                None => list_position(all.take(i as int), id) is None,
            },
        decreases n - i,
    {
        proof {
            assert(all.take(i + 1).drop_last() =~= all.take(i as int));
        }
        if found.is_none() && lists[i].id == id {
            found = Some(i);
        }
        i = i + 1;
    }
    proof {
        assert(all.take(n as int) =~= all);
    }
    found
}

/// The title of a pane: what it shows, and the order.
pub open spec fn pane_title(v: ModelView, pane: PaneView) -> Seq<char> {
    let base = match pane.target {
        Some(ViewTarget::Meta(m)) => m.text(),
        Some(ViewTarget::List(id)) => match list_position(v.lists, id) {
            Some(i) => v.lists[i].name,
            None => "List"@,
        },
        None => "Todoers"@,
    };
    base + "  ·  sort: "@ + v.sort.text()
}

/// The title of a pane.
pub fn title_of_pane(view: &ViewModel, pane: &PaneData) -> (r: String)
    ensures
        r@ == pane_title(view@, pane@),
{
    let mut s: String = match pane.target {
        Some(ViewTarget::Meta(m)) => m.label().to_owned(),
        Some(ViewTarget::List(id)) => match position_of_list(&view.lists, id) {
            Some(i) => view.lists[i].name.clone(),
            None => "List".to_owned(),
        },
        None => "Todoers".to_owned(),
    };
    s.append("  ·  sort: ");
    s.append(view.sort.label());
    s
}

// ── The workspace ───────────────────────────────────────────────────────────

/// The workspace.
pub struct Home {
    pub icon: ListIcon,
    pub focus: Focus,
    pub sidebar_visible: bool,
    /// The selected row of the sidebar.
    pub sidebar_idx: usize,
    /// The pane that has the keys, the first or the second.
    pub active_pane: usize,
    /// The selected todo of the first pane.
    pub first_sel: usize,
    /// The selected todo of the second pane.
    pub second_sel: usize,
    pub surface: Surface<HomeCmd>,
}

/// What the workspace holds.
#[verifier::ext_equal]
pub ghost struct HomeView {
    pub icon: ListIcon,
    pub focus: Focus,
    pub sidebar_visible: bool,
    pub sidebar_idx: int,
    pub active_pane: int,
    pub first_sel: int,
    pub second_sel: int,
    pub keys: SurfaceView<HomeCmd>,
}

impl View for Home {
    type V = HomeView;

    open spec fn view(&self) -> HomeView {
        HomeView {
            icon: self.icon,
            focus: self.focus,
            sidebar_visible: self.sidebar_visible,
            sidebar_idx: self.sidebar_idx as int,
            active_pane: self.active_pane as int,
            first_sel: self.first_sel as int,
            second_sel: self.second_sel as int,
            keys: self.surface@,
        }
    }
}

/// The workspace at the start.
pub open spec fn home_start() -> HomeView {
    HomeView {
        icon: icon_for(IconType::NerdFonts),
        focus: Focus::Sidebar,
        sidebar_visible: true,
        sidebar_idx: 0,
        active_pane: 0,
        first_sel: 0,
        second_sel: 0,
        keys: unbound::<HomeCmd>(),
    }
}

/// What a command leaves: the workspace, what it shows, and the action that is sent.
pub ghost struct Ran {
    pub home: HomeView,
    pub model: ModelView,
    pub sent: Option<ActionView>,
}

impl HomeView {
    /// One of the two panes has the keys.
    pub open spec fn valid(self) -> bool {
        0 <= self.active_pane <= 1
    }

    /// The pane that has the keys is one of the open panes.
    pub open spec fn fits(self, v: ModelView) -> bool {
        0 <= self.active_pane < v.panes.len()
    }

    /// The selected todo of a pane.
    pub open spec fn sel(self, pane: int) -> int {
        if pane == 0 {
            self.first_sel
        } else {
            self.second_sel
        }
    }

    /// The workspace with another todo selected in a pane.
    pub open spec fn with_sel(self, pane: int, sel: int) -> HomeView {
        if pane == 0 {
            HomeView { first_sel: sel, ..self }
        } else {
            HomeView { second_sel: sel, ..self }
        }
    }

    /// The number of todos in the active pane.
    pub open spec fn pane_len(self, v: ModelView) -> int {
        if self.active_pane < v.panes.len() {
            v.panes[self.active_pane].items.len() as int
        } else {
            0
        }
    }

    /// The workspace with the selection some rows down, or up.
    pub open spec fn moved(self, v: ModelView, delta: int) -> HomeView {
        match self.focus {
            Focus::Sidebar => HomeView {
                sidebar_idx: row_step(
                    self.sidebar_idx,
                    delta,
                    metas().len() + v.lists.len() as int,
                ),
                ..self
            },
            Focus::Pane => self.with_sel(
                self.active_pane,
                row_step(self.sel(self.active_pane), delta, self.pane_len(v)),
            ),
        }
    }

    /// The todo that is selected in the active pane, and its list.
    pub open spec fn selected(self, v: ModelView) -> Option<(ListId, Seq<char>)> {
        if self.sel(self.active_pane) < self.pane_len(v) {
            let item = v.panes[self.active_pane].items[self.sel(self.active_pane)];
            Some((item.0, item.1.id))
        } else {
            None
        }
    }

    /// The list in the active pane; a meta-list is none.
    pub open spec fn shown_list(self, v: ModelView) -> Option<ListId> {
        if self.active_pane < v.panes.len() {
            match v.panes[self.active_pane].target {
                Some(ViewTarget::List(id)) => Some(id),
                _ => None,
            }
        } else {
            None
        }
    }

    /// The list that a command on lists is about: the sidebar's selection while the
    /// sidebar has the keys, else the active pane's list.
    pub open spec fn meant_list(self, v: ModelView) -> Option<ListId> {
        match self.focus {
            Focus::Sidebar => match row_list(v.lists, self.sidebar_idx) {
                Some(p) => Some(p.0),
                None => None,
            },
            Focus::Pane => self.shown_list(v),
        }
    }

    /// The workspace as it is, with an action or none.
    pub open spec fn stays(self, v: ModelView, sent: Option<ActionView>) -> Ran {
        Ran { home: self, model: v, sent }
    }

    /// Opens what the sidebar has selected in the active pane.
    pub open spec fn opened(self, v: ModelView) -> Ran {
        match row_target(v.lists, self.sidebar_idx) {
            Some(target) => Ran {
                home: HomeView { focus: Focus::Pane, ..self.with_sel(self.active_pane, 0) },
                model: v,
                sent: Some(ActionView::OpenView { target, pane: self.active_pane as usize }),
            },
            None => self.stays(v, None),
        }
    }

    /// Splits the screen. A second pane opens on what the first shows, and has the
    /// keys.
    pub open spec fn split(self, v: ModelView, dir: Direction) -> Ran {
        let single = v.panes.len() == 1;
        Ran {
            home: HomeView {
                second_sel: if single {
                    self.first_sel
                } else {
                    self.second_sel
                },
                active_pane: 1,
                focus: Focus::Pane,
                ..self
            },
            model: ModelView {
                panes: if single {
                    v.panes.push(v.panes[0])
                } else {
                    v.panes
                },
                split: Some(dir),
                ..v
            },
            sent: Some(ActionView::RefreshLists),
        }
    }

    /// Closes the pane that is not active, where there are two.
    pub open spec fn closed(self, v: ModelView) -> Ran {
        if v.panes.len() <= 1 {
            self.stays(v, None)
        } else {
            Ran {
                home: HomeView {
                    first_sel: self.sel(self.active_pane),
                    second_sel: 0,
                    active_pane: 0,
                    ..self
                },
                model: ModelView { panes: seq![v.panes[self.active_pane]], split: None, ..v },
                sent: Some(ActionView::RefreshLists),
            }
        }
    }

    /// Hands the keys to the other pane.
    pub open spec fn pane_cycled(self, v: ModelView) -> HomeView {
        if v.panes.len() > 1 {
            HomeView { focus: Focus::Pane, active_pane: 1 - self.active_pane, ..self }
        } else {
            self
        }
    }

    /// Gives the first pane more or less of a split screen, within its range.
    pub open spec fn resized(v: ModelView, delta: int) -> ModelView {
        if v.split is None {
            v
        } else if v.ratio + delta < 10 {
            ModelView { ratio: 10, ..v }
        } else if v.ratio + delta > 90 {
            ModelView { ratio: 90, ..v }
        } else {
            ModelView { ratio: v.ratio + delta, ..v }
        }
    }

    /// Hands the keys on: from the sidebar to the first pane, from there to the second
    /// where the screen is split, and back to the sidebar.
    pub open spec fn focus_cycled(self, v: ModelView) -> HomeView {
        if self.focus == Focus::Sidebar {
            HomeView { focus: Focus::Pane, active_pane: 0, ..self }
        } else if self.active_pane == 0 && v.split is Some {
            HomeView { active_pane: 1, ..self }
        } else {
            HomeView { focus: Focus::Sidebar, ..self }
        }
    }

    /// What a command sends, of those that only send.
    pub open spec fn command_sends(self, v: ModelView, cmd: HomeCmd) -> Option<ActionView> {
        match cmd {
            HomeCmd::NewList => Some(ActionView::NewListModal),
            HomeCmd::CycleSort => Some(ActionView::CycleSort),
            HomeCmd::Share => match self.meant_list(v) {
                Some(id) => Some(ActionView::ShareModal(id)),
                None => None,
            },
            HomeCmd::Members => match self.meant_list(v) {
                Some(id) => Some(ActionView::MembersModal(id)),
                None => None,
            },
            HomeCmd::AddTodo => match self.shown_list(v) {
                Some(id) => Some(ActionView::AddTodoModal(id)),
                None => None,
            },
            HomeCmd::EditTodo => match self.selected(v) {
                Some((list_id, item_id)) if self.focus == Focus::Pane => Some(
                    ActionView::EditTodoModal { list_id, item_id },
                ),
                _ => None,
            },
            HomeCmd::ToggleDone => match self.selected(v) {
                Some((list_id, item_id)) if self.focus == Focus::Pane => Some(
                    ActionView::ToggleDone { list_id, item_id },
                ),
                _ => None,
            },
            HomeCmd::Rename => match row_list(v.lists, self.sidebar_idx) {
                Some((list_id, name)) => Some(ActionView::RenameListModal { list_id, name }),
                None => None,
            },
            HomeCmd::Delete => match self.focus {
                Focus::Sidebar => match row_list(v.lists, self.sidebar_idx) {
                    Some((id, _)) => Some(ActionView::ConfirmDelete(DeleteView::List(id))),
                    None => None,
                },
                Focus::Pane => match self.selected(v) {
                    Some((list_id, item_id)) => Some(
                        ActionView::ConfirmDelete(DeleteView::Todo { list_id, item_id }),
                    ),
                    None => None,
                },
            },
            _ => None,
        }
    }

    /// What a command does.
    pub open spec fn ran(self, v: ModelView, cmd: HomeCmd) -> Ran {
        match cmd {
            HomeCmd::FocusSidebar => (HomeView { focus: Focus::Sidebar, ..self }).stays(v, None),
            HomeCmd::FocusPane => (HomeView { focus: Focus::Pane, ..self }).stays(v, None),
            HomeCmd::CycleFocus => self.focus_cycled(v).stays(v, None),
            HomeCmd::SelectNext => self.moved(v, 1).stays(v, None),
            HomeCmd::SelectPrev => self.moved(v, -1).stays(v, None),
            HomeCmd::OpenSelected => if self.focus == Focus::Sidebar {
                self.opened(v)
            } else {
                self.stays(v, None)
            },
            HomeCmd::SplitHorizontal => self.split(v, Direction::Horizontal),
            HomeCmd::SplitVertical => self.split(v, Direction::Vertical),
            HomeCmd::CyclePane => self.pane_cycled(v).stays(v, None),
            HomeCmd::ClosePane => self.closed(v),
            HomeCmd::GrowPane => self.stays(HomeView::resized(v, 5), None),
            HomeCmd::ShrinkPane => self.stays(HomeView::resized(v, -5), None),
            _ => self.stays(v, self.command_sends(v, cmd)),
        }
    }

    /// What a key does.
    pub open spec fn after_key(self, v: ModelView, key: KeyEvent) -> Ran {
        let p = HomeView { keys: self.keys.after(key), ..self };
        match self.keys.command(key) {
            Some(cmd) => p.ran(v, cmd),
            None => p.stays(v, None),
        }
    }

    /// The workspace after an action: the sidebar hides and shows, and a tick drops a
    /// half-typed key sequence.
    pub open spec fn updated(self, a: ActionView) -> HomeView {
        if a == ActionView::ToggleSidebar {
            HomeView {
                sidebar_visible: !self.sidebar_visible,
                focus: if self.sidebar_visible {
                    Focus::Pane
                } else {
                    self.focus
                },
                ..self
            }
        } else if a == ActionView::Tick {
            HomeView { keys: SurfaceView { pending: Seq::empty(), ..self.keys }, ..self }
        } else {
            self
        }
    }

    /// The workspace under a configuration.
    pub open spec fn configured(self, config: Config) -> HomeView {
        HomeView {
            icon: icon_for(config.config.icon_type),
            keys: SurfaceView {
                map: compiled_from::<HomeCmd>(config.keybindings.at(KeyContext::Home)),
                ..self.keys
            },
            ..self
        }
    }
}

impl Captures for Home {
    open spec fn captures(&self) -> bool {
        false
    }

    fn captures_input(&self) -> (r: bool) {
        false
    }
}

impl Default for Home {
    fn default() -> (r: Home)
        ensures
            r.wf(),
            r@ == home_start(),
    {
        Home::new()
    }
}

impl Home {
    /// One of the two panes has the keys, and the keymap is valid.
    pub open spec fn wf(&self) -> bool {
        self@.valid() && self.surface.wf()
    }

    /// The workspace at the start.
    pub fn new() -> (r: Home)
        ensures
            r.wf(),
            r@ == home_start(),
    {
        Home {
            icon: ListIcon::nf(),
            focus: Focus::default(),
            sidebar_visible: true,
            sidebar_idx: 0,
            active_pane: 0,
            first_sel: 0,
            second_sel: 0,
            surface: Surface::new(),
        }
    }

    /// Applies the configuration.
    pub fn configure(&mut self, config: &Config)
        requires
            old(self).wf(),
            config.wf(),
        ensures
            final(self).wf(),
            final(self)@ == old(self)@.configured(*config),
    {
        self.icon = ListIcon::of(config.config.icon_type);
        self.surface.configure(config.keybindings.context(KeyContext::Home));
    }

    fn sel(&self) -> (r: usize)
        ensures
            r == self@.sel(self@.active_pane),
    {
        if self.active_pane == 0 {
            self.first_sel
        } else {
            self.second_sel
        }
    }

    fn set_sel(&mut self, sel: usize)
        requires
            old(self).wf(),
        ensures
            final(self).wf(),
            final(self)@ == old(self)@.with_sel(old(self)@.active_pane, sel as int),
    {
        if self.active_pane == 0 {
            self.first_sel = sel;
        } else {
            self.second_sel = sel;
        }
    }

    fn pane_len(&self, view: &ViewModel) -> (r: usize)
        ensures
            r == self@.pane_len(view@),
    {
        if self.active_pane < view.panes.len() {
            proof {
                assert(view@.panes[self.active_pane as int]
                    == view.panes@[self.active_pane as int]@);
            }
            view.panes[self.active_pane].items.len()
        } else {
            0
        }
    }

    /// Moves the selection of what has the keys some rows down, or up where the number is
    /// negative.
    pub fn move_selection(&mut self, view: &ViewModel, delta: isize)
        requires
            old(self).wf(),
            view@.valid(),
        ensures
            final(self).wf(),
            final(self)@ == old(self)@.moved(view@, delta as int),
    {
        match self.focus {
            Focus::Sidebar => {
                let n: usize = sidebar_len(view);
                self.sidebar_idx = step_row(self.sidebar_idx, delta, n);
            },
            Focus::Pane => {
                let n: usize = self.pane_len(view);
                let to: usize = step_row(self.sel(), delta, n);
                self.set_sel(to);
            },
        }
    }

    fn open_selected(&mut self, view: &ViewModel) -> (r: Option<Action>)
        requires
            old(self).wf(),
        ensures
            final(self).wf(),
            final(self)@ == old(self)@.opened(view@).home,
            view@ == old(self)@.opened(view@).model,
            crate::action::opt_action(r) == old(self)@.opened(view@).sent,
    {
        match target_at(view, self.sidebar_idx) {
            Some(target) => {
                self.set_sel(0);
                self.focus = Focus::Pane;
                Some(Action::OpenView { target, pane: self.active_pane })
            },
            None => None,
        }
    }

    /// The todo that is selected in the active pane, and its list.
    pub fn selected_item(&self, view: &ViewModel) -> (r: Option<(ListId, String)>)
        requires
            self.wf(),
        ensures
            named_list(r) == self@.selected(view@),
    {
        let i: usize = self.sel();
        if i < self.pane_len(view) {
            let pane = &view.panes[self.active_pane];
            proof {
                assert(view@.panes[self.active_pane as int] == pane@);
                assert(pane@.items[i as int] == (pane.items@[i as int].0, pane.items@[i as int].1@));
            }
            Some((pane.items[i].0, pane.items[i].1.id.clone()))
        } else {
            None
        }
    }

    /// The list in the active pane.
    pub fn current_list(&self, view: &ViewModel) -> (r: Option<ListId>)
        requires
            self.wf(),
        ensures
            r == self@.shown_list(view@),
    {
        if self.active_pane < view.panes.len() {
            proof {
                assert(view@.panes[self.active_pane as int]
                    == view.panes@[self.active_pane as int]@);
            }
            match view.panes[self.active_pane].target {
                Some(ViewTarget::List(id)) => Some(id),
                _ => None,
            }
        } else {
            None
        }
    }

    /// The list that a command on lists is about.
    pub fn command_list(&self, view: &ViewModel) -> (r: Option<ListId>)
        requires
            self.wf(),
        ensures
            r == self@.meant_list(view@),
    {
        match self.focus {
            Focus::Sidebar => match user_list_at(view, self.sidebar_idx) {
                Some(p) => Some(p.0),
                None => None,
            },
            Focus::Pane => self.current_list(view),
        }
    }

    fn sends(&self, view: &ViewModel, cmd: HomeCmd) -> (r: Option<Action>)
        requires
            self.wf(),
        ensures
            crate::action::opt_action(r) == self@.command_sends(view@, cmd),
    {
        match cmd {
            HomeCmd::NewList => Some(Action::NewListModal),
            HomeCmd::CycleSort => Some(Action::CycleSort),
            HomeCmd::Share => match self.command_list(view) {
                Some(id) => Some(Action::ShareModal(id)),
                None => None,
            },
            HomeCmd::Members => match self.command_list(view) {
                Some(id) => Some(Action::MembersModal(id)),
                None => None,
            },
            HomeCmd::AddTodo => match self.current_list(view) {
                Some(id) => Some(Action::AddTodoModal(id)),
                None => None,
            },
            HomeCmd::EditTodo => {
                if self.focus == Focus::Pane {
                    match self.selected_item(view) {
                        Some((list_id, item_id)) => Some(
                            Action::EditTodoModal { list_id, item_id },
                        ),
                        None => None,
                    }
                } else {
                    None
                }
            },
            HomeCmd::ToggleDone => {
                if self.focus == Focus::Pane {
                    match self.selected_item(view) {
                        Some((list_id, item_id)) => Some(Action::ToggleDone { list_id, item_id }),
                        None => None,
                    }
                } else {
                    None
                }
            },
            HomeCmd::Rename => match user_list_at(view, self.sidebar_idx) {
                Some((list_id, name)) => Some(Action::RenameListModal { list_id, name }),
                None => None,
            },
            HomeCmd::Delete => match self.focus {
                Focus::Sidebar => match user_list_at(view, self.sidebar_idx) {
                    Some((id, _)) => Some(Action::ConfirmDelete(DeleteTarget::List(id))),
                    None => None,
                },
                Focus::Pane => match self.selected_item(view) {
                    Some((list_id, item_id)) => Some(
                        Action::ConfirmDelete(DeleteTarget::Todo { list_id, item_id }),
                    ),
                    None => None,
                },
            },
            _ => None,
        }
    }

    fn split(&mut self, view: &mut ViewModel, dir: Direction)
        requires
            old(self).wf(),
            old(view)@.valid(),
        ensures
            final(self).wf(),
            final(view)@.valid(),
            final(self)@ == old(self)@.split(old(view)@, dir).home,
            final(view)@ == old(self)@.split(old(view)@, dir).model,
    {
        let ghost v0 = view@;
        if view.panes.len() == 1 {
            let pane = view.panes[0].copy();
            proof {
                assert(v0.panes[0] == view.panes@[0]@);
            }
            view.panes.push(pane);
            self.second_sel = self.first_sel;
        }
        view.split = Some(dir);
        self.active_pane = 1;
        self.focus = Focus::Pane;
        proof {
            assert(view@.panes =~= old(self)@.split(v0, dir).model.panes);
        }
    }

    fn close_pane(&mut self, view: &mut ViewModel) -> (r: bool)
        requires
            old(self).wf(),
            old(view)@.valid(),
        ensures
            final(self).wf(),
            final(view)@.valid(),
            final(self)@ == old(self)@.closed(old(view)@).home,
            final(view)@ == old(self)@.closed(old(view)@).model,
            r == (old(self)@.closed(old(view)@).sent is Some),
    {
        if view.panes.len() <= 1 {
            return false;
        }
        let ghost v0 = view@;
        proof {
            assert(v0.panes[self.active_pane as int] == view.panes@[self.active_pane as int]@);
        }
        let pane = view.panes[self.active_pane].copy();
        let mut panes: Vec<PaneData> = Vec::new();
        panes.push(pane);
        view.panes = panes;
        view.split = None;
        self.first_sel = self.sel();
        self.second_sel = 0;
        self.active_pane = 0;
        proof {
            assert(view@.panes =~= old(self)@.closed(v0).model.panes);
        }
        true
    }

    fn cycle_pane(&mut self, view: &ViewModel)
        requires
            old(self).wf(),
            view@.valid(),
        ensures
            final(self).wf(),
            final(self)@ == old(self)@.pane_cycled(view@),
    {
        if view.panes.len() > 1 {
            self.focus = Focus::Pane;
            self.active_pane = 1 - self.active_pane;
        }
    }

    fn resize(view: &mut ViewModel, grow: bool)
        requires
            old(view)@.valid(),
        ensures
            final(view)@.valid(),
            final(view)@ == HomeView::resized(
                old(view)@,
                if grow {
                    5
                } else {
                    -5
                },
            ),
    {
        if view.split.is_some() {
            view.ratio = if grow {
                if view.ratio > 85 {
                    90
                } else {
                    view.ratio + 5
                }
            } else {
                if view.ratio < 15 {
                    10
                } else {
                    view.ratio - 5
                }
            };
        }
    }

    fn cycle_focus(&mut self, view: &ViewModel)
        requires
            old(self).wf(),
        ensures
            final(self).wf(),
            final(self)@ == old(self)@.focus_cycled(view@),
    {
        if self.focus == Focus::Sidebar {
            self.focus = Focus::Pane;
            self.active_pane = 0;
        } else if self.active_pane == 0 && view.split.is_some() {
            self.active_pane = 1;
        } else {
            self.focus = Focus::Sidebar;
        }
    }

    /// Runs a command; gives the action that it sends.
    pub fn execute(&mut self, view: &mut ViewModel, cmd: HomeCmd) -> (r: Option<Action>)
        requires
            old(self).wf(),
            old(view)@.valid(),
        ensures
            final(self).wf(),
            final(view)@.valid(),
            old(self)@.fits(old(view)@) ==> final(self)@.fits(final(view)@),
            final(self)@ == old(self)@.ran(old(view)@, cmd).home,
            final(view)@ == old(self)@.ran(old(view)@, cmd).model,
            crate::action::opt_action(r) == old(self)@.ran(old(view)@, cmd).sent,
    {
        match cmd {
            HomeCmd::FocusSidebar => {
                self.focus = Focus::Sidebar;
                None
            },
            HomeCmd::FocusPane => {
                self.focus = Focus::Pane;
                None
            },
            HomeCmd::CycleFocus => {
                self.cycle_focus(view);
                None
            },
            HomeCmd::SelectNext => {
                self.move_selection(view, 1);
                None
            },
            HomeCmd::SelectPrev => {
                self.move_selection(view, -1);
                None
            },
            HomeCmd::OpenSelected => {
                if self.focus == Focus::Sidebar {
                    self.open_selected(view)
                } else {
                    None
                }
            },
            HomeCmd::SplitHorizontal => {
                self.split(view, Direction::Horizontal);
                Some(Action::RefreshLists)
            },
            HomeCmd::SplitVertical => {
                self.split(view, Direction::Vertical);
                Some(Action::RefreshLists)
            },
            HomeCmd::CyclePane => {
                self.cycle_pane(view);
                None
            },
            HomeCmd::ClosePane => {
                if self.close_pane(view) {
                    Some(Action::RefreshLists)
                } else {
                    None
                }
            },
            HomeCmd::GrowPane => {
                Home::resize(view, true);
                None
            },
            HomeCmd::ShrinkPane => {
                Home::resize(view, false);
                None
            },
            _ => self.sends(view, cmd),
        }
    }

    /// Takes a key.
    pub fn handle_key_event(&mut self, view: &mut ViewModel, key: KeyEvent) -> (r: Outcome)
        requires
            old(self).wf(),
            old(view)@.valid(),
        ensures
            final(self).wf(),
            final(view)@.valid(),
            old(self)@.fits(old(view)@) ==> final(self)@.fits(final(view)@),
            final(self)@ == old(self)@.after_key(old(view)@, key).home,
            final(view)@ == old(self)@.after_key(old(view)@, key).model,
            r@ == (OutcomeView {
                reply: None,
                sent: old(self)@.after_key(old(view)@, key).sent,
            }),
    {
        match self.surface.press(key) {
            Some(cmd) => {
                let sent = self.execute(view, cmd);
                Outcome { reply: None, sent }
            },
            None => Outcome::none(),
        }
    }

    /// Reacts to an action.
    pub fn update(&mut self, action: &Action)
        requires
            old(self).wf(),
        ensures
            final(self).wf(),
            final(self)@ == old(self)@.updated(action@),
    {
        match action {
            Action::ToggleSidebar => {
                self.sidebar_visible = !self.sidebar_visible;
                if !self.sidebar_visible {
                    self.focus = Focus::Pane;
                }
            },
            Action::Tick => self.surface.forget(),
            _ => {},
        }
    }

    /// The row of the sidebar to highlight.
    pub fn sidebar_selection(&self, view: &ViewModel) -> (r: usize)
        requires
            view@.valid(),
        ensures
            r == (if self@.sidebar_idx < metas().len() + view@.lists.len() {
                self@.sidebar_idx
            } else {
                metas().len() + view@.lists.len() - 1
            }),
    {
        let n: usize = sidebar_len(view);
        if self.sidebar_idx < n {
            self.sidebar_idx
        } else {
            n - 1
        }
    }

    /// The row of a pane to highlight; none in an empty pane.
    pub fn pane_selection(&self, view: &ViewModel, pane: usize) -> (r: Option<usize>)
        requires
            pane < view@.panes.len(),
        ensures
            r == (if view@.panes[pane as int].items.len() == 0 {
                None
            } else if self@.sel(pane as int) < view@.panes[pane as int].items.len() {
                Some(self@.sel(pane as int) as usize)
            } else {
                Some((view@.panes[pane as int].items.len() - 1) as usize)
            }),
    {
        proof {
            assert(view@.panes[pane as int] == view.panes@[pane as int]@);
        }
        let n: usize = view.panes[pane].items.len();
        let sel: usize = if pane == 0 {
            self.first_sel
        } else {
            self.second_sel
        };
        if n == 0 {
            None
        } else if sel < n {
            Some(sel)
        } else {
            Some(n - 1)
        }
    }

    /// Whether a pane is drawn as the one that has the keys.
    pub fn pane_focused(&self, pane: usize) -> (r: bool)
        ensures
            r == (self@.focus == Focus::Pane && self@.active_pane == pane),
    {
        self.focus == Focus::Pane && self.active_pane == pane
    }
}

// ── Colours ─────────────────────────────────────────────────────────────────

/// The colours that the workspace is drawn in.
#[derive(Clone, Copy, Debug, PartialEq, Eq, Structural)]
pub enum Paint {
    Black,
    Blue,
    Cyan,
    DarkGray,
    Red,
    Yellow,
}

/// How a part of the workspace is drawn.
#[derive(Clone, Copy, Debug, PartialEq, Eq, Structural)]
pub struct Look {
    pub fg: Option<Paint>,
    pub bg: Option<Paint>,
    pub bold: bool,
    pub dim: bool,
    pub italic: bool,
    pub reversed: bool,
    pub crossed_out: bool,
}

/// The look that changes nothing.
pub open spec fn plain() -> Look {
    Look {
        fg: None,
        bg: None,
        bold: false,
        dim: false,
        italic: false,
        reversed: false,
        crossed_out: false,
    }
}

impl Default for Look {
    fn default() -> (r: Look)
        ensures
            r == plain(),
    {
        Look {
            fg: None,
            bg: None,
            bold: false,
            dim: false,
            italic: false,
            reversed: false,
            crossed_out: false,
        }
    }
}

/// The look of a border.
pub fn border_style(focused: bool) -> (r: Look)
    ensures
        r == (Look {
            fg: Some(
                if focused {
                    Paint::Yellow
                } else {
                    Paint::DarkGray
                },
            ),
            ..plain()
        }),
{
    let fg: Paint = if focused {
        Paint::Yellow
    } else {
        Paint::DarkGray
    };
    Look { fg: Some(fg), ..Look::default() }
}

/// The look of a selected row.
pub fn highlight_style(focused: bool) -> (r: Look)
    ensures
        r == (if focused {
            Look { fg: Some(Paint::Black), bg: Some(Paint::Yellow), bold: true, ..plain() }
        } else {
            Look { reversed: true, dim: true, ..plain() }
        }),
{
    if focused {
        Look { fg: Some(Paint::Black), bg: Some(Paint::Yellow), bold: true, ..Look::default() }
    } else {
        Look { reversed: true, dim: true, ..Look::default() }
    }
}

/// The look of a priority.
pub fn priority_style(p: Priority) -> (r: Look)
    ensures
        r == (match p {
            Priority::High => Look { fg: Some(Paint::Red), bold: true, ..plain() },
            Priority::Med => Look { fg: Some(Paint::Yellow), ..plain() },
            Priority::Low => Look { fg: Some(Paint::Blue), ..plain() },
            Priority::Unset => Look { fg: Some(Paint::DarkGray), ..plain() },
        }),
{
    match p {
        Priority::High => Look { fg: Some(Paint::Red), bold: true, ..Look::default() },
        Priority::Med => Look { fg: Some(Paint::Yellow), ..Look::default() },
        Priority::Low => Look { fg: Some(Paint::Blue), ..Look::default() },
        Priority::Unset => Look { fg: Some(Paint::DarkGray), ..Look::default() },
    }
}

/// The look of a todo's title.
pub fn title_style(done: bool) -> (r: Look)
    ensures
        r == (if done {
            Look { fg: Some(Paint::DarkGray), crossed_out: true, ..plain() }
        } else {
            plain()
        }),
{
    if done {
        Look { fg: Some(Paint::DarkGray), crossed_out: true, ..Look::default() }
    } else {
        Look::default()
    }
}

// ── Laws ────────────────────────────────────────────────────────────────────

/// Every command keeps the workspace and what it shows valid.
pub proof fn law_commands_keep_the_workspace_valid(h: HomeView, v: ModelView, cmd: HomeCmd)
    requires
        h.valid(),
        v.valid(),
        h.fits(v),
    ensures
        h.ran(v, cmd).home.valid(),
        h.ran(v, cmd).model.valid(),
        h.ran(v, cmd).home.fits(h.ran(v, cmd).model),
{
}

/// To split the screen and close the other pane leaves the first pane's contents as
/// they were, in a single pane that has the keys.
pub proof fn law_split_then_close(h: HomeView, v: ModelView, dir: Direction)
    requires
        h.valid(),
        v.valid(),
        v.panes.len() == 1,
    ensures
        ({
            let s = h.split(v, dir);
            let c = s.home.closed(s.model);
            &&& c.model.panes == v.panes
            &&& c.model.split is None
            &&& c.home.first_sel == h.first_sel
            &&& c.home.active_pane == 0
        }),
{
    let s = h.split(v, dir);
    let c = s.home.closed(s.model);
    assert(c.model.panes =~= v.panes);
}

/// A selection goes round: some rows down and as many up leave the workspace as it was, a step
/// up from the first row lands on the last and one down from the last on the first; where the
/// sidebar has the keys, nothing but its row changes.
pub proof fn law_selection_goes_round(h: HomeView, v: ModelView, delta: int)
    requires
        h.focus == Focus::Sidebar,
        0 <= h.sidebar_idx < metas().len() + v.lists.len(),
    ensures
        ({
            let n = metas().len() + v.lists.len() as int;
            let to = h.moved(v, delta);
            &&& to == (HomeView { sidebar_idx: (h.sidebar_idx + delta) % n, ..h })
            &&& 0 <= to.sidebar_idx < n
            &&& to.moved(v, -delta) == h
            &&& h.sidebar_idx == 0 ==> h.moved(v, -1).sidebar_idx == n - 1
            &&& h.sidebar_idx == n - 1 ==> h.moved(v, 1).sidebar_idx == 0
        }),
{
    crate::cycle::law_steps_and_back(h.sidebar_idx, delta, metas().len() + v.lists.len() as int);
}

/// A step down and a step up, in either order, keep a selection that is on a row.
pub proof fn law_selection_there_and_back(row: int, n: int)
    requires
        0 <= row < n,
    ensures
        row_step(row_step(row, 1, n), -1, n) == row,
        row_step(row_step(row, -1, n), 1, n) == row,
        0 <= row_step(row, 1, n) < n,
        0 <= row_step(row, -1, n) < n,
{
    crate::cycle::law_step_and_back(row, n);
    vstd::arithmetic::div_mod::lemma_mod_bound(row + 1, n);
    vstd::arithmetic::div_mod::lemma_mod_bound(row - 1, n);
}

/// The keys go round: from the sidebar through every pane and back.
pub proof fn law_focus_goes_round(h: HomeView, v: ModelView)
    requires
        h.focus == Focus::Sidebar,
    ensures
        v.split is None ==> h.focus_cycled(v).focus_cycled(v).focus == Focus::Sidebar,
        v.split is Some ==> ({
            let second = h.focus_cycled(v).focus_cycled(v);
            &&& second.focus == Focus::Pane
            &&& second.active_pane == 1
            &&& second.focus_cycled(v).focus == Focus::Sidebar
        }),
{
}

} // verus!
