//! What holds of the screen: what events come to, what the panes are filled with, and what the
//! legends list.
use vstd::prelude::*;
use vstd::string::*;

use crate::action::{Action, ActionView, DeleteView};
use crate::app::{global_chord, AppView};
use crate::auth::AccountRow;
use crate::components::home::{
    hint_parts, list_row, sidebar_rows, Focus, HomeCmd, ListIcon,
};
use crate::components::legend::{
    bindings_or_none, footer_rows, grouped, help_rows, help_sheet, label_text, no_groups, rows_of,
    sequence_labels, with_row, Groups, LegendRow, RowText,
};
use crate::components::members::{hex_text, member_line};
use crate::components::sidebar::{columns, sidebar_width, widest, SidebarView};
use crate::components::surface::compiled_from;
use crate::config::{context_of, Config, KeyContext, RawBindings};
use crate::db::Db;
use crate::keymap::{key_texts, label_of, lookup, text_position};
use crate::keys::{key_text, normalized, KeyEvent};
use crate::listing::{refreshed, retargeted, summaries};
use crate::listing_laws::{is_stored, law_meta_view};
use crate::mode::Mode;
use crate::model::{
    ListId, ListSummary, Member, MemberId, Role, SortMode, SummaryView, TodoView, ViewTarget,
};
use crate::order::{law_sorted, text_before, Ordered};
use crate::style::{color_of, style_halves, style_of, without_attributes};
use crate::text::{contains, joined_with};
use crate::tui::Event;
use crate::view::ModelView;

verus! {

// ── Panes ───────────────────────────────────────────────────────────────────

/// To read everything anew fills each pane with what its own target says, and keeps the layout:
/// the targets, the order and the split.
pub proof fn law_refresh_fills_the_panes(v: ModelView, db: Db, now: i64, i: int)
    requires
        0 <= i < v.panes.len(),
    ensures
        ({
            let r = refreshed(v, db, now);
            &&& r.panes.len() == v.panes.len()
            &&& r.panes[i].target == v.panes[i].target
            &&& v.panes[i].target is None ==> r.panes[i].items.len() == 0
            &&& v.panes[i].target matches Some(ViewTarget::Meta(m)) ==> forall|
                p: (ListId, TodoView),
            | #[trigger]
                r.panes[i].items.contains(p) ==> !p.1.done && is_stored(db, p)
            &&& r.sort == v.sort && r.split == v.split && r.ratio == v.ratio
            &&& r.lists.to_multiset() == summaries(db).to_multiset()
        }),
{
    law_sorted::<SortMode, ListSummary>(summaries(db), v.sort);
    let r = refreshed(v, db, now);
    if let Some(ViewTarget::Meta(m)) = v.panes[i].target {
        assert forall|p: (ListId, TodoView)| #[trigger] r.panes[i].items.contains(p) implies !p.1.done
            && is_stored(db, p) by {
            law_meta_view(db, m, v.sort, now, p);
        }
    }
}

/// To point a pane at something else changes the target of that pane, and nothing else; a pane
/// that is not there changes nothing.
pub proof fn law_retarget_changes_one_pane(v: ModelView, target: ViewTarget, pane: int, i: int)
    requires
        0 <= i < v.panes.len(),
        0 <= pane,
    ensures
        ({
            let r = retargeted(v, target, pane);
            &&& r.panes.len() == v.panes.len()
            &&& i == pane ==> r.panes[i].target == Some(target)
            &&& i != pane ==> r.panes[i] == v.panes[i]
            &&& r.panes[i].items == v.panes[i].items
            &&& r.sort == v.sort && r.lists == v.lists && r.split == v.split
            &&& pane >= v.panes.len() ==> r == v
        }),
{
}

// ── Events ──────────────────────────────────────────────────────────────────

/// To quit, to draw and to resize queue the action for it, behind what is queued, and do nothing
/// else by themselves.
pub proof fn law_events_queue_their_action(
    app: AppView,
    w: u16,
    h: u16,
    disk: Option<AccountRow>,
)
    ensures
        app.happened(Event::Quit, disk) == app.queued(ActionView::Quit),
        app.happened(Event::Render, disk) == app.queued(ActionView::Render),
        app.happened(Event::Resize(w, h), disk) == app.queued(ActionView::Resize(w, h)),
        app.happened(Event::Tick, disk).queue.len() > 0,
        app.happened(Event::Tick, disk).queue.last() == ActionView::Tick,
{
}

/// Without a dialog a key is the workspace's: it does there what the workspace makes of it, and
/// what that sends is queued last.
pub proof fn law_key_reaches_the_workspace(app: AppView, key: KeyEvent, disk: Option<AccountRow>)
    requires
        app.modal is None,
    ensures
        ({
            let after = app.happened(Event::Key(key), disk);
            let ran = app.home.after_key(app.model, key);
            &&& after.home == ran.home && after.model == ran.model
            &&& ran.sent matches Some(a) ==> after.queue.len() > app.queue.len()
                && after.queue.last() == a
            &&& after.effects == app.effects && after.modal is None
        }),
{
}

/// While a dialog is open a key that can be typed is the dialog's: what the dialog sends is
/// queued, and behind it what it answers.
pub proof fn law_key_reaches_the_dialog(app: AppView, key: KeyEvent, disk: Option<AccountRow>)
    requires
        app.modal is Some,
        !global_chord(key),
    ensures
        ({
            let after = app.happened(Event::Key(key), disk);
            let (m, out) = (app.modal->0).after_key(key);
            &&& after.modal == Some(m)
            &&& out.reply matches Some(a) ==> after.queue.len() > app.queue.len()
                && after.queue.last() == a
            &&& out.reply is None && out.sent is Some ==> after.queue == app.queue.push(
                out.sent->0,
            )
            &&& out.reply is None && out.sent is None ==> after.queue == app.queue
        }),
{
}

/// A key that is bound everywhere queues its command, unless a field takes the keys; a chord
/// with Ctrl or Alt is a command even then.
pub proof fn law_bound_key_queues_its_command(app: AppView, key: KeyEvent, a: Action)
    requires
        !app.capturing || key.modifiers.control || key.modifiers.alt,
        lookup(
            compiled_from::<Action>(app.config.keybindings.at(KeyContext::Global)),
            seq![normalized(key)],
        ) == Some(a),
    ensures
        app.commanded(key).queue == app.queue.push(a@),
        app.commanded(key).pending.len() == 0,
        app.commanded(key).effects == app.effects,
{
}

// ── The sidebar ─────────────────────────────────────────────────────────────

/// A command of the sidebar is about the list in the selected row, behind two meta-lists; but for
/// renaming, only while the sidebar has the keys.
pub proof fn law_sidebar_means_the_selected_list(s: SidebarView, v: ModelView, i: int)
    requires
        0 <= i < v.lists.len(),
        s.sidebar_idx == i + 2,
    ensures
        ({
            let id = v.lists[i].id;
            &&& s.ran(v, HomeCmd::Rename) == (
                s,
                Some(ActionView::RenameListModal { list_id: id, name: v.lists[i].name }),
            )
            &&& s.focus == Focus::Sidebar ==> s.ran(v, HomeCmd::Share) == (
                s,
                Some(ActionView::ShareModal(id)),
            ) && s.ran(v, HomeCmd::Members) == (s, Some(ActionView::MembersModal(id))) && s.ran(
                v,
                HomeCmd::Delete,
            ) == (s, Some(ActionView::ConfirmDelete(DeleteView::List(id))))
            &&& s.focus == Focus::Pane ==> s.ran(v, HomeCmd::Share).1 is None && s.ran(
                v,
                HomeCmd::Members,
            ).1 is None && s.ran(v, HomeCmd::Delete).1 is None
        }),
{
}

/// A step in the sidebar selects the next or the previous row, round the ends; while a pane has
/// the keys it stays. The rows of the meta-lists have no list to rename, share or delete.
pub proof fn law_sidebar_steps(s: SidebarView, v: ModelView)
    requires
        0 <= s.sidebar_idx < v.lists.len() + 2,
    ensures
        ({
            let n = v.lists.len() as int + 2;
            let i = s.sidebar_idx;
            let down = s.ran(v, HomeCmd::SelectNext);
            let up = s.ran(v, HomeCmd::SelectPrev);
            &&& down.1 is None && up.1 is None
            &&& s.focus == Focus::Pane ==> down.0 == s && up.0 == s
            &&& s.focus == Focus::Sidebar ==> down.0.sidebar_idx == (if i + 1 < n {
                i + 1
            } else {
                0
            }) && up.0.sidebar_idx == (if i > 0 {
                i - 1
            } else {
                n - 1
            })
            &&& i < 2 ==> s.ran(v, HomeCmd::Rename).1 is None && s.ran(v, HomeCmd::Share).1 is None
                && s.ran(v, HomeCmd::Delete).1 is None
        }),
{
    let n = v.lists.len() as int + 2;
    let i = s.sidebar_idx;
    if i + 1 < n {
        vstd::arithmetic::div_mod::lemma_small_mod((i + 1) as nat, n as nat);
    } else {
        vstd::arithmetic::div_mod::lemma_mod_self_0(n);
    }
    if i > 0 {
        vstd::arithmetic::div_mod::lemma_small_mod((i - 1) as nat, n as nat);
    } else {
        vstd::arithmetic::div_mod::lemma_mod_add_multiples_vanish(-1, n);
        vstd::arithmetic::div_mod::lemma_small_mod((n - 1) as nat, n as nat);
    }
}

/// The widest name is as wide as some name, and no name is wider.
pub proof fn law_no_name_is_wider(lists: Seq<SummaryView>)
    ensures
        forall|i: int| 0 <= i < lists.len() ==> columns((#[trigger] lists[i]).name) <= widest(lists),
        lists.len() > 0 ==> exists|i: int|
            0 <= i < lists.len() && columns((#[trigger] lists[i]).name) == widest(lists),
        lists.len() == 0 ==> widest(lists) == 0,
    decreases lists.len(),
{
    if lists.len() > 0 {
        let init = lists.drop_last();
        law_no_name_is_wider(init);
        assert forall|i: int| 0 <= i < lists.len() implies columns((#[trigger] lists[i]).name)
            <= widest(lists) by {
            if i < init.len() {
                assert(init[i] == lists[i]);
            }
        }
        if widest(lists) == columns(lists.last().name) {
            assert(columns(lists[lists.len() - 1].name) == widest(lists));
        } else {
            assert(init.len() > 0);
            let i = choose|i: int|
                0 <= i < init.len() && columns((#[trigger] init[i]).name) == widest(init);
            assert(lists[i] == init[i]);
        }
    }
}

/// The sidebar has room for its hint and for its widest name, up to fifty columns, and is no
/// wider than that needs.
pub proof fn law_sidebar_has_room(hint: int, lists: int, name: int)
    requires
        hint >= 0,
        lists >= 0,
        name >= 0,
    ensures
        ({
            let w = sidebar_width(hint, lists, name);
            &&& w <= 50
            &&& hint + 2 <= 50 ==> w >= hint + 2
            &&& lists > 0 && name + 4 <= 50 ==> w >= name + 4
            &&& w == 50 || w == hint + 2 || (lists > 0 && w == name + 4)
        }),
{
}

// ── Legends ─────────────────────────────────────────────────────────────────

/// Whether some group has a label and, among its keys, a text.
pub open spec fn lists_key(g: Groups, label: Seq<char>, key: Seq<char>) -> bool {
    exists|i: int| 0 <= i < g.labels.len() && #[trigger] g.labels[i] == label && g.keys[i].contains(
        key,
    )
}

/// Whether the groups are well made: each label has its keys, and stands once.
pub open spec fn well_made(g: Groups) -> bool {
    g.labels.len() == g.keys.len() && g.labels.no_duplicates()
}

proof fn lemma_with(
    g: Groups,
    label: Seq<char>,
    key: Seq<char>,
    once: bool,
    l: Seq<char>,
    k: Seq<char>,
)
    requires
        well_made(g),
    ensures
        well_made(g.with(label, key, once)),
        lists_key(g.with(label, key, once), l, k) == (lists_key(g, l, k) || (l == label && k
            == key)),
{
    let h = g.with(label, key, once);
    match text_position(g.labels, label) {
        Some(i) => {
            assert(0 <= i < g.labels.len() && g.labels[i] == label);
            if h != g {
                let old = g.keys[i];
                let new = old.push(key);
                assert(h.keys[i] == new);
                assert(new[old.len() as int] == key);
                assert(new.contains(key));
                if lists_key(g, l, k) {
                    let j = choose|j: int|
                        0 <= j < g.labels.len() && #[trigger] g.labels[j] == l
                            && g.keys[j].contains(k);
                    assert(h.labels[j] == l);
                    if j == i {
                        let p = choose|p: int| 0 <= p < old.len() && old[p] == k;
                        assert(new[p] == k);
                        assert(h.keys[j].contains(k));
                    } else {
                        assert(h.keys[j] == g.keys[j]);
                    }
                }
                if l == label && k == key {
                    assert(h.labels[i] == l && h.keys[i].contains(k));
                }
                if lists_key(h, l, k) {
                    let j = choose|j: int|
                        0 <= j < h.labels.len() && #[trigger] h.labels[j] == l
                            && h.keys[j].contains(k);
                    assert(g.labels[j] == l);
                    if j == i {
                        let p = choose|p: int| 0 <= p < new.len() && new[p] == k;
                        if p < old.len() {
                            assert(old[p] == k);
                            assert(g.keys[j].contains(k));
                        }
                    } else {
                        assert(h.keys[j] == g.keys[j]);
                    }
                }
            } else if once && g.keys[i].contains(key) {
                if l == label && k == key {
                    assert(g.labels[i] == l);
                }
            }
        },
        None => {
            let n = g.labels.len() as int;
            assert(h.labels[n] == label);
            assert(h.keys[n] == seq![key]);
            assert(seq![key][0] == key);
            assert(h.keys[n].contains(key));
            assert(h.labels.no_duplicates()) by {
                assert forall|a: int, b: int|
                    0 <= a < h.labels.len() && 0 <= b < h.labels.len() && a
                        != b implies h.labels[a] != h.labels[b] by {
                    if a == n {
                        assert(g.labels.contains(g.labels[b]));
                    } else if b == n {
                        assert(g.labels.contains(g.labels[a]));
                    }
                }
            }
            if lists_key(g, l, k) {
                let j = choose|j: int|
                    0 <= j < g.labels.len() && #[trigger] g.labels[j] == l && g.keys[j].contains(k);
                assert(h.labels[j] == l && h.keys[j] == g.keys[j]);
            }
            if lists_key(h, l, k) {
                let j = choose|j: int|
                    0 <= j < h.labels.len() && #[trigger] h.labels[j] == l && h.keys[j].contains(k);
                if j < n {
                    assert(g.labels[j] == l && h.keys[j] == g.keys[j]);
                } else {
                    let p = choose|p: int| 0 <= p < 1 && seq![key][p] == k;
                    assert(k == key);
                }
            }
        },
    }
}

proof fn lemma_with_all(
    g: Groups,
    label: Seq<char>,
    keys: Seq<Seq<char>>,
    once: bool,
    l: Seq<char>,
    k: Seq<char>,
)
    requires
        well_made(g),
    ensures
        well_made(g.with_all(label, keys, once)),
        lists_key(g.with_all(label, keys, once), l, k) == (lists_key(g, l, k) || (l == label
            && keys.contains(k))),
    decreases keys.len(),
{
    if keys.len() > 0 {
        let init = keys.drop_last();
        lemma_with_all(g, label, init, once, l, k);
        lemma_with(g.with_all(label, init, once), label, keys.last(), once, l, k);
        if keys.contains(k) {
            let i = choose|i: int| 0 <= i < keys.len() && keys[i] == k;
            if i < init.len() {
                assert(init[i] == k);
            }
        }
        if init.contains(k) {
            let i = choose|i: int| 0 <= i < init.len() && init[i] == k;
            assert(keys[i] == k);
        }
        if k == keys.last() {
            assert(keys[keys.len() - 1] == k);
        }
    }
}

/// A legend lists a key under a command's label if and only if one of its bindings has that key
/// and that command; a footer lists only those that are to be shown.
pub proof fn law_legend_lists_the_bindings(
    start: Groups,
    raw: RawBindings,
    shown: bool,
    once: bool,
    mac: Option<bool>,
    l: Seq<char>,
    k: Seq<char>,
)
    requires
        well_made(start),
    ensures
        well_made(grouped(start, raw, shown, once, mac)),
        lists_key(grouped(start, raw, shown, once, mac), l, k) == (lists_key(start, l, k)
            || exists|i: int|
            0 <= i < raw.len() && (shown ==> (#[trigger] raw[i]).1.shown()) && l == label_of(
                raw[i].1.name(),
            ) && sequence_labels(raw[i].0, mac).contains(k)),
    decreases raw.len(),
{
    if raw.len() > 0 {
        let init = raw.drop_last();
        let (keys, spec) = raw.last();
        law_legend_lists_the_bindings(start, init, shown, once, mac, l, k);
        let g = grouped(start, init, shown, once, mac);
        lemma_with_all(g, label_of(spec.name()), sequence_labels(keys, mac), once, l, k);
        let n = raw.len() - 1;
        assert(raw[n] == raw.last());
        assert forall|i: int| 0 <= i < init.len() implies #[trigger] raw[i] == init[i] by {}
        if exists|i: int|
            0 <= i < init.len() && (shown ==> (#[trigger] init[i]).1.shown()) && l == label_of(
                init[i].1.name(),
            ) && sequence_labels(init[i].0, mac).contains(k) {
            let i = choose|i: int|
                0 <= i < init.len() && (shown ==> (#[trigger] init[i]).1.shown()) && l == label_of(
                    init[i].1.name(),
                ) && sequence_labels(init[i].0, mac).contains(k);
            assert(raw[i] == init[i]);
        }
        if exists|i: int|
            0 <= i < raw.len() && (shown ==> (#[trigger] raw[i]).1.shown()) && l == label_of(
                raw[i].1.name(),
            ) && sequence_labels(raw[i].0, mac).contains(k) {
            let i = choose|i: int|
                0 <= i < raw.len() && (shown ==> (#[trigger] raw[i]).1.shown()) && l == label_of(
                    raw[i].1.name(),
                ) && sequence_labels(raw[i].0, mac).contains(k);
            if i < n {
                assert(init[i] == raw[i]);
            }
        }
    }
}

/// A cheatsheet has the rows of its screen, all of them, in the order of their labels.
pub proof fn law_cheatsheet_is_sorted(config: Config, mode: Mode, mac: bool, i: int, j: int)
    requires
        0 <= i < j < help_sheet(config, mode, mac).rows.len(),
    ensures
        !text_before(
            help_sheet(config, mode, mac).rows[j].label,
            help_sheet(config, mode, mac).rows[i].label,
        ),
        help_sheet(config, mode, mac).rows.to_multiset() == help_rows(
            config,
            mode,
            mac,
        ).to_multiset(),
        help_sheet(config, mode, mac).mode == mode,
{
    law_sorted::<(), LegendRow>(help_rows(config, mode, mac), ());
    let t = help_sheet(config, mode, mac).rows;
    assert(!<LegendRow as Ordered<()>>::before(t[j], t[i], ()));
}

// ── Texts ───────────────────────────────────────────────────────────────────

/// A hint names every command that a key is bound to, with the first of its keys, in the order of
/// the commands; one without a key is left out.
pub proof fn law_hints_name_bound_commands(
    map: Seq<(Seq<KeyEvent>, HomeCmd)>,
    items: Seq<(HomeCmd, &'static str)>,
)
    ensures
        hint_parts(map, items) == items.filter(
            |x: (HomeCmd, &'static str)| key_texts(map, x.0).len() > 0,
        ).map_values(|x: (HomeCmd, &'static str)| key_texts(map, x.0)[0] + ":"@ + x.1@),
    decreases items.len(),
{
    reveal(Seq::filter);
    let f = |x: (HomeCmd, &'static str)| key_texts(map, x.0).len() > 0;
    let g = |x: (HomeCmd, &'static str)| key_texts(map, x.0)[0] + ":"@ + x.1@;
    if items.len() > 0 {
        law_hints_name_bound_commands(map, items.drop_last());
        assert(hint_parts(map, items.drop_last()) == items.drop_last().filter(f).map_values(g));
    }
    assert(hint_parts(map, items) =~= items.filter(f).map_values(g));
}

/// The rows of the sidebar are the two meta-lists and then every list, in their order.
pub proof fn law_rows_of_the_sidebar(icon: ListIcon, lists: Seq<SummaryView>, i: int)
    requires
        0 <= i < lists.len(),
    ensures
        sidebar_rows(icon, lists).len() == lists.len() + 2,
        sidebar_rows(icon, lists)[0] == " ★ "@ + "All Tasks"@,
        sidebar_rows(icon, lists)[1] == " ★ "@ + "Due Today"@,
        sidebar_rows(icon, lists)[i + 2] == list_row(icon, lists[i]),
{
}

/// The line of a member tells the role, the first eight digits of the number, and whether it is
/// oneself.
pub proof fn law_line_of_a_member(m: Member, me: MemberId)
    ensures
        ({
            let t = member_line(m, me);
            let digits = hex_text(m.id.0@).take(8);
            let start = " "@ + (if m.role == Role::Owner {
                "owner "@
            } else {
                "member"@
            }) + "  "@ + digits + "\u{2026}"@;
            &&& t.take(start.len() as int) == start
            &&& m.id == me ==> t.skip(start.len() as int) == "  (you)"@
            &&& m.id != me ==> t.len() == start.len()
        }),
{
    reveal_strlit("");
    let t = member_line(m, me);
    let digits = hex_text(m.id.0@).take(8);
    let start = " "@ + (if m.role == Role::Owner {
        "owner "@
    } else {
        "member"@
    }) + "  "@ + digits + "\u{2026}"@;
    assert(t.take(start.len() as int) =~= start);
    if m.id == me {
        assert(t.skip(start.len() as int) =~= "  (you)"@);
    }
}

/// A style has the colours of its two halves, and the attributes that either names.
pub proof fn law_style_of_two_halves(line: Seq<char>, lowered: Seq<char>)
    ensures
        ({
            let (fg, bg) = style_halves(line, lowered);
            let s = style_of(line, lowered);
            &&& s.fg == color_of(without_attributes(fg))
            &&& s.bg == color_of(without_attributes(bg))
            &&& s.modifier.bold == (contains(fg, "bold"@) || contains(bg, "bold"@))
            &&& s.modifier.underlined == (contains(fg, "underline"@) || contains(
                bg,
                "underline"@,
            ))
            &&& s.modifier.reversed == (contains(fg, "inverse"@) || contains(bg, "inverse"@))
        }),
{
}

// ── Rows of a legend ────────────────────────────────────────────────────────

/// Whether some row lists a key: its text is that of some keys, with slashes between them, and
/// this is one of them.
pub open spec fn has_row_for(rows: Seq<RowText>, key: Seq<char>) -> bool {
    exists|i: int, ks: Seq<Seq<char>>|
        0 <= i < rows.len() && (#[trigger] rows[i]).keys == #[trigger] joined_with(ks, "/"@)
            && ks.contains(key)
}

proof fn lemma_rows_cover(g: Groups, n: nat, k: int) -> (i: int)
    requires
        n <= g.labels.len(),
        g.labels.len() == g.keys.len(),
        0 <= k < n,
    ensures
        0 <= i < rows_of(g, n).len(),
        rows_of(g, n)[i].keys == joined_with(g.keys[k], "/"@),
    decreases n,
{
    let before = rows_of(g, (n - 1) as nat);
    let row = RowText { keys: joined_with(g.keys[n - 1], "/"@), label: g.labels[n - 1] };
    let texts = before.map_values(|r: RowText| r.keys);
    let after = rows_of(g, n);
    assert(after == with_row(before, row));
    match text_position(texts, row.keys) {
        Some(p) => {
            assert(texts[p] == row.keys);
            if k == n - 1 {
                p
            } else {
                let i = lemma_rows_cover(g, (n - 1) as nat, k);
                i
            }
        },
        None => {
            if k == n - 1 {
                before.len() as int
            } else {
                let i = lemma_rows_cover(g, (n - 1) as nat, k);
                i
            }
        },
    }
}

proof fn lemma_rows_come_from_groups(g: Groups, n: nat, i: int) -> (k: int)
    requires
        n <= g.labels.len(),
        g.labels.len() == g.keys.len(),
        0 <= i < rows_of(g, n).len(),
    ensures
        0 <= k < n,
        rows_of(g, n)[i].keys == joined_with(g.keys[k], "/"@),
        rows_of(g, n)[i].label == g.labels[k],
    decreases n,
{
    let before = rows_of(g, (n - 1) as nat);
    let row = RowText { keys: joined_with(g.keys[n - 1], "/"@), label: g.labels[n - 1] };
    let after = rows_of(g, n);
    assert(after == with_row(before, row));
    if after[i] == row {
        n - 1
    } else {
        assert(i < before.len() && after[i] == before[i]);
        lemma_rows_come_from_groups(g, (n - 1) as nat, i)
    }
}

/// A cheatsheet lists every key of every binding of its screen, also of those that a footer
/// leaves out.
pub proof fn law_cheatsheet_lists_every_binding(
    config: Config,
    mode: Mode,
    mac: bool,
    raw: RawBindings,
    i: int,
    j: int,
)
    requires
        config.keybindings.at(context_of(mode)) == Some(raw),
        0 <= i < raw.len(),
        0 <= j < raw[i].0.len(),
    ensures
        has_row_for(help_rows(config, mode, mac), label_text(raw[i].0[j], mac)),
{
    let k = label_text(raw[i].0[j], mac);
    let l = label_of(raw[i].1.name());
    let texts = sequence_labels(raw[i].0, Some(mac));
    assert(texts[j] == k);
    assert(texts.contains(k));
    law_legend_lists_the_bindings(no_groups(), raw, false, false, Some(mac), l, k);
    let g = grouped(no_groups(), raw, false, false, Some(mac));
    assert(lists_key(g, l, k));
    let n = choose|n: int|
        0 <= n < g.labels.len() && #[trigger] g.labels[n] == l && g.keys[n].contains(k);
    let p = lemma_rows_cover(g, g.labels.len(), n);
    let rows = help_rows(config, mode, mac);
    assert(rows[p].keys == joined_with(g.keys[n], "/"@));
}

/// A footer lists every key of the bindings that are to be shown, of those that hold everywhere
/// and of those of its screen.
pub proof fn law_footer_lists_what_is_to_be_shown(
    config: Config,
    mode: Mode,
    ctx: KeyContext,
    raw: RawBindings,
    i: int,
    j: int,
)
    requires
        ctx == KeyContext::Global || ctx == context_of(mode),
        config.keybindings.at(ctx) == Some(raw),
        0 <= i < raw.len(),
        raw[i].1.shown(),
        0 <= j < raw[i].0.len(),
    ensures
        has_row_for(footer_rows(config, mode), key_text(raw[i].0[j])),
{
    let k = key_text(raw[i].0[j]);
    let l = label_of(raw[i].1.name());
    let texts = sequence_labels(raw[i].0, None);
    assert(texts[j] == k);
    assert(texts.contains(k));
    let a = bindings_or_none(config.keybindings.at(KeyContext::Global));
    let b = bindings_or_none(config.keybindings.at(context_of(mode)));
    law_legend_lists_the_bindings(no_groups(), a, true, true, None, l, k);
    let first = grouped(no_groups(), a, true, true, None);
    law_legend_lists_the_bindings(first, b, true, true, None, l, k);
    let g = grouped(first, b, true, true, None);
    assert(lists_key(g, l, k));
    let n = choose|n: int|
        0 <= n < g.labels.len() && #[trigger] g.labels[n] == l && g.keys[n].contains(k);
    let p = lemma_rows_cover(g, g.labels.len(), n);
    let rows = footer_rows(config, mode);
    assert(rows[p].keys == joined_with(g.keys[n], "/"@));
}

/// Every row of a footer is of a binding that is to be shown: its label is that of such a
/// binding's command.
pub proof fn law_footer_hides_the_rest(config: Config, mode: Mode, i: int)
    requires
        0 <= i < footer_rows(config, mode).len(),
    ensures
        exists|ctx: KeyContext, k: int|
            (ctx == KeyContext::Global || ctx == context_of(mode)) && config.keybindings.at(ctx)
                is Some && 0 <= k < (config.keybindings.at(ctx)->0).len()
                && (#[trigger] (config.keybindings.at(ctx)->0)[k]).1.shown() && footer_rows(
                config,
                mode,
            )[i].label == label_of((config.keybindings.at(ctx)->0)[k].1.name()),
{
    let a = bindings_or_none(config.keybindings.at(KeyContext::Global));
    let b = bindings_or_none(config.keybindings.at(context_of(mode)));
    let first = grouped(no_groups(), a, true, true, None);
    let g = grouped(first, b, true, true, None);
    lemma_groups_have_keys(no_groups(), a);
    lemma_groups_have_keys(first, b);
    let n = lemma_rows_come_from_groups(g, g.labels.len(), i);
    let l = g.labels[n];
    let k = g.keys[n][0];
    assert(g.keys[n].contains(k));
    assert(lists_key(g, l, k));
    law_legend_lists_the_bindings(no_groups(), a, true, true, None, l, k);
    law_legend_lists_the_bindings(first, b, true, true, None, l, k);
    if exists|q: int|
        0 <= q < b.len() && (true ==> (#[trigger] b[q]).1.shown()) && l == label_of(b[q].1.name())
            && sequence_labels(b[q].0, None).contains(k) {
        let q = choose|q: int|
            0 <= q < b.len() && (true ==> (#[trigger] b[q]).1.shown()) && l == label_of(
                b[q].1.name(),
            ) && sequence_labels(b[q].0, None).contains(k);
        let ctx = context_of(mode);
        assert((config.keybindings.at(ctx)->0)[q].1.shown());
    } else {
        assert(lists_key(first, l, k));
        assert(!lists_key(no_groups(), l, k));
        let q = choose|q: int|
            0 <= q < a.len() && (true ==> (#[trigger] a[q]).1.shown()) && l == label_of(
                a[q].1.name(),
            ) && sequence_labels(a[q].0, None).contains(k);
        let ctx = KeyContext::Global;
        assert((config.keybindings.at(ctx)->0)[q].1.shown());
    }
}

/// Every group has a key.
proof fn lemma_groups_have_keys(start: Groups, raw: RawBindings)
    requires
        well_made(start),
        forall|i: int| 0 <= i < start.keys.len() ==> (#[trigger] start.keys[i]).len() > 0,
    ensures
        ({
            let g = grouped(start, raw, true, true, None);
            well_made(g) && forall|i: int|
                0 <= i < g.keys.len() ==> (#[trigger] g.keys[i]).len() > 0
        }),
    decreases raw.len(),
{
    if raw.len() > 0 {
        let init = raw.drop_last();
        lemma_groups_have_keys(start, init);
        let g = grouped(start, init, true, true, None);
        let (keys, spec) = raw.last();
        lemma_with_all_has_keys(g, label_of(spec.name()), sequence_labels(keys, None));
    }
}

proof fn lemma_with_all_has_keys(g: Groups, label: Seq<char>, keys: Seq<Seq<char>>)
    requires
        well_made(g),
        forall|i: int| 0 <= i < g.keys.len() ==> (#[trigger] g.keys[i]).len() > 0,
    ensures
        ({
            let h = g.with_all(label, keys, true);
            well_made(h) && forall|i: int|
                0 <= i < h.keys.len() ==> (#[trigger] h.keys[i]).len() > 0
        }),
    decreases keys.len(),
{
    if keys.len() > 0 {
        lemma_with_all_has_keys(g, label, keys.drop_last());
        let h = g.with_all(label, keys.drop_last(), true);
        lemma_with(h, label, keys.last(), true, label, keys.last());
        let r = h.with(label, keys.last(), true);
        assert forall|i: int| 0 <= i < r.keys.len() implies (#[trigger] r.keys[i]).len() > 0 by {
            if i < h.keys.len() {
                assert(h.keys[i].len() > 0);
            }
        }
    }
}

} // verus!
