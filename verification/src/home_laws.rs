//! What the commands of the workspace come to: which list or todo each is about, and what it
//! leaves on the screen.
use vstd::prelude::*;
use vstd::string::*;

use crate::action::{ActionView, DeleteView};
use crate::components::home::{
    home_start, list_position, list_row, pane_title, todo_row, Focus, HomeCmd, HomeView, ListIcon,
};
use crate::model::{ListId, MetaList, SortMode, SummaryView, TodoView, ViewTarget};
use crate::text::decimal;
use crate::view::{blank_model, Direction, ModelView, PaneView};

verus! {

/// A command on a todo is about the one that is selected in the pane that has the keys, and
/// about its own list; the screen stays as it is.
pub proof fn law_commands_mean_the_selected_todo(h: HomeView, v: ModelView, i: int)
    requires
        h.focus == Focus::Pane,
        0 <= h.active_pane < v.panes.len(),
        0 <= i < v.panes[h.active_pane].items.len(),
        h.active_pane == 0 ==> h.first_sel == i,
        h.active_pane != 0 ==> h.second_sel == i,
    ensures
        ({
            let list_id = v.panes[h.active_pane].items[i].0;
            let item_id = v.panes[h.active_pane].items[i].1.id;
            &&& h.ran(v, HomeCmd::ToggleDone).sent == Some(
                ActionView::ToggleDone { list_id, item_id },
            )
            &&& h.ran(v, HomeCmd::EditTodo).sent == Some(
                ActionView::EditTodoModal { list_id, item_id },
            )
            &&& h.ran(v, HomeCmd::Delete).sent == Some(
                ActionView::ConfirmDelete(DeleteView::Todo { list_id, item_id }),
            )
            &&& h.ran(v, HomeCmd::ToggleDone).home == h && h.ran(v, HomeCmd::ToggleDone).model == v
            &&& h.ran(v, HomeCmd::EditTodo).home == h && h.ran(v, HomeCmd::EditTodo).model == v
            &&& h.ran(v, HomeCmd::Delete).home == h && h.ran(v, HomeCmd::Delete).model == v
        }),
{
}

/// Where no todo is selected, or the sidebar has the keys, no todo is toggled or changed.
pub proof fn law_no_todo_no_command(h: HomeView, v: ModelView)
    requires
        0 <= h.active_pane < v.panes.len(),
        h.focus == Focus::Sidebar || (if h.active_pane == 0 {
            h.first_sel
        } else {
            h.second_sel
        }) >= v.panes[h.active_pane].items.len(),
    ensures
        h.ran(v, HomeCmd::ToggleDone).sent is None,
        h.ran(v, HomeCmd::EditTodo).sent is None,
        h.focus == Focus::Pane ==> h.ran(v, HomeCmd::Delete).sent is None,
{
}

/// While the sidebar has the keys, a command on a list is about the one in the selected row: the
/// lists come behind two meta-lists, in their order.
pub proof fn law_commands_mean_the_selected_list(h: HomeView, v: ModelView, i: int)
    requires
        h.focus == Focus::Sidebar,
        0 <= i < v.lists.len(),
        h.sidebar_idx == i + 2,
        0 <= h.active_pane <= 1,
    ensures
        ({
            let id = v.lists[i].id;
            &&& h.ran(v, HomeCmd::Share).sent == Some(ActionView::ShareModal(id))
            &&& h.ran(v, HomeCmd::Members).sent == Some(ActionView::MembersModal(id))
            &&& h.ran(v, HomeCmd::Rename).sent == Some(
                ActionView::RenameListModal { list_id: id, name: v.lists[i].name },
            )
            &&& h.ran(v, HomeCmd::Delete).sent == Some(
                ActionView::ConfirmDelete(DeleteView::List(id)),
            )
            &&& h.ran(v, HomeCmd::OpenSelected).sent == Some(
                ActionView::OpenView {
                    target: ViewTarget::List(id),
                    pane: h.active_pane as usize,
                },
            )
            &&& h.ran(v, HomeCmd::OpenSelected).home.focus == Focus::Pane
        }),
{
}

/// The first two rows of the sidebar open all tasks and what is due today; there is no list to
/// rename, delete or share there.
pub proof fn law_first_rows_are_meta_lists(h: HomeView, v: ModelView)
    requires
        h.focus == Focus::Sidebar,
        0 <= h.sidebar_idx < 2,
        0 <= h.active_pane <= 1,
    ensures
        h.ran(v, HomeCmd::OpenSelected).sent == Some(
            ActionView::OpenView {
                target: ViewTarget::Meta(
                    if h.sidebar_idx == 0 {
                        MetaList::AllTasks
                    } else {
                        MetaList::DueToday
                    },
                ),
                pane: h.active_pane as usize,
            },
        ),
        h.ran(v, HomeCmd::Share).sent is None,
        h.ran(v, HomeCmd::Members).sent is None,
        h.ran(v, HomeCmd::Rename).sent is None,
        h.ran(v, HomeCmd::Delete).sent is None,
{
}

/// What is opened starts at its first todo, in the pane that has the keys next; the other pane
/// keeps its selection. While a pane has the keys nothing is opened.
pub proof fn law_opened_starts_at_the_top(h: HomeView, v: ModelView)
    requires
        0 <= h.active_pane <= 1,
        0 <= h.sidebar_idx < v.lists.len() + 2,
    ensures
        ({
            let r = h.ran(v, HomeCmd::OpenSelected);
            &&& r.model == v
            &&& h.focus == Focus::Pane ==> r.home == h && r.sent is None
            &&& h.focus == Focus::Sidebar ==> r.home.active_pane == h.active_pane
                && r.home.first_sel == (if h.active_pane == 0 {
                0
            } else {
                h.first_sel
            }) && r.home.second_sel == (if h.active_pane == 0 {
                h.second_sel
            } else {
                0
            }) && r.home.focus == Focus::Pane && r.home.sidebar_idx == h.sidebar_idx
        }),
{
}

/// While a pane has the keys, a command on a list is about the list that the pane shows; a
/// meta-list is none. A todo is added to the list of that pane whatever has the keys.
pub proof fn law_commands_mean_the_shown_list(h: HomeView, v: ModelView)
    requires
        0 <= h.active_pane < v.panes.len(),
    ensures
        match v.panes[h.active_pane].target {
            Some(ViewTarget::List(id)) => {
                &&& h.ran(v, HomeCmd::AddTodo).sent == Some(ActionView::AddTodoModal(id))
                &&& h.focus == Focus::Pane ==> h.ran(v, HomeCmd::Share).sent == Some(
                    ActionView::ShareModal(id),
                )
                &&& h.focus == Focus::Pane ==> h.ran(v, HomeCmd::Members).sent == Some(
                    ActionView::MembersModal(id),
                )
            },
            _ => {
                &&& h.ran(v, HomeCmd::AddTodo).sent is None
                &&& h.focus == Focus::Pane ==> h.ran(v, HomeCmd::Share).sent is None
                &&& h.focus == Focus::Pane ==> h.ran(v, HomeCmd::Members).sent is None
            },
        },
{
}

/// To ask for a new list, or for another order, sends that and changes nothing by itself.
pub proof fn law_plain_commands(h: HomeView, v: ModelView)
    ensures
        h.ran(v, HomeCmd::NewList).sent == Some(ActionView::NewListModal),
        h.ran(v, HomeCmd::CycleSort).sent == Some(ActionView::CycleSort),
        h.ran(v, HomeCmd::NewList).home == h && h.ran(v, HomeCmd::NewList).model == v,
        h.ran(v, HomeCmd::CycleSort).home == h && h.ran(v, HomeCmd::CycleSort).model == v,
{
}

/// To split a single pane opens a second on what the first shows, with the same selection; it
/// has the keys. To split two panes only turns the split. The todos are asked for anew.
pub proof fn law_split_opens_a_second_pane(h: HomeView, v: ModelView)
    requires
        v.panes.len() == 1 || v.panes.len() == 2,
    ensures
        ({
            let a = h.ran(v, HomeCmd::SplitHorizontal);
            let b = h.ran(v, HomeCmd::SplitVertical);
            &&& a.model.split == Some(Direction::Horizontal)
            &&& b.model.split == Some(Direction::Vertical)
            &&& a.model.panes.len() == 2
            &&& a.model.panes[0] == v.panes[0]
            &&& a.model.panes[1] == v.panes[v.panes.len() - 1]
            &&& a.home.active_pane == 1 && a.home.focus == Focus::Pane
            &&& a.home.first_sel == h.first_sel
            &&& v.panes.len() == 1 ==> a.home.second_sel == h.first_sel
            &&& v.panes.len() == 2 ==> a.home.second_sel == h.second_sel
            &&& a.sent == Some(ActionView::RefreshLists) && b.sent == Some(
                ActionView::RefreshLists,
            )
            &&& b.model.panes == a.model.panes && b.home == a.home
            &&& a.model.ratio == v.ratio && a.model.sort == v.sort && a.model.lists == v.lists
        }),
{
}

/// To close the other pane leaves the active one alone on the screen, with its own selection; a
/// single pane stays.
pub proof fn law_close_leaves_the_active_pane(h: HomeView, v: ModelView)
    requires
        v.panes.len() == 1 || v.panes.len() == 2,
        0 <= h.active_pane < v.panes.len(),
    ensures
        ({
            let r = h.ran(v, HomeCmd::ClosePane);
            &&& v.panes.len() == 1 ==> r.home == h && r.model == v && r.sent is None
            &&& v.panes.len() == 2 ==> r.model.panes.len() == 1 && r.model.panes[0]
                == v.panes[h.active_pane] && r.model.split is None && r.home.active_pane == 0
                && r.home.first_sel == (if h.active_pane == 0 {
                h.first_sel
            } else {
                h.second_sel
            }) && r.sent == Some(ActionView::RefreshLists) && r.home.focus == h.focus
        }),
{
}

/// To grow the first pane gives it five more of a hundred parts, to shrink it five less, between
/// ten and ninety; without a split nothing changes. Between the bounds the two undo each other.
pub proof fn law_resizing_stays_in_range(h: HomeView, v: ModelView)
    requires
        10 <= v.ratio <= 90,
    ensures
        ({
            let g = h.ran(v, HomeCmd::GrowPane);
            let s = h.ran(v, HomeCmd::ShrinkPane);
            &&& g.home == h && s.home == h && g.sent is None && s.sent is None
            &&& v.split is None ==> g.model == v && s.model == v
            &&& v.split is Some && v.ratio <= 85 ==> g.model.ratio == v.ratio + 5 && h.ran(
                g.model,
                HomeCmd::ShrinkPane,
            ).model == v
            &&& v.split is Some && v.ratio > 85 ==> g.model.ratio == 90
            &&& v.split is Some && v.ratio >= 15 ==> s.model.ratio == v.ratio - 5
            &&& v.split is Some && v.ratio < 15 ==> s.model.ratio == 10
            &&& g.model.panes == v.panes && s.model.panes == v.panes
        }),
{
}

/// While a pane has the keys, a step selects the next or the previous of its todos, round the
/// ends; nothing else moves. An empty pane has nothing to select.
pub proof fn law_steps_in_a_pane(h: HomeView, v: ModelView, i: int)
    requires
        h.focus == Focus::Pane,
        0 <= h.active_pane < v.panes.len() <= 2,
        0 <= i < v.panes[h.active_pane].items.len(),
        h.active_pane == 0 ==> h.first_sel == i,
        h.active_pane != 0 ==> h.second_sel == i,
    ensures
        ({
            let n = v.panes[h.active_pane].items.len() as int;
            let down = h.ran(v, HomeCmd::SelectNext);
            let up = h.ran(v, HomeCmd::SelectPrev);
            let below = if i + 1 < n {
                i + 1
            } else {
                0
            };
            let above = if i > 0 {
                i - 1
            } else {
                n - 1
            };
            &&& down.model == v && up.model == v && down.sent is None && up.sent is None
            &&& h.active_pane == 0 ==> down.home == (HomeView { first_sel: below, ..h }) && up.home
                == (HomeView { first_sel: above, ..h })
            &&& h.active_pane != 0 ==> down.home == (HomeView { second_sel: below, ..h })
                && up.home == (HomeView { second_sel: above, ..h })
        }),
{
    let n = v.panes[h.active_pane].items.len() as int;
    lemma_ring(i, n);
}

proof fn lemma_ring(i: int, n: int)
    requires
        0 <= i < n,
    ensures
        (i + 1) % n == (if i + 1 < n {
            i + 1
        } else {
            0
        }),
        (i - 1) % n == (if i > 0 {
            i - 1
        } else {
            n - 1
        }),
{
    if i + 1 < n {
        vstd::arithmetic::div_mod::lemma_small_mod((i + 1) as nat, n as nat);
    } else {
        vstd::arithmetic::div_mod::lemma_mod_self_0(n);
    }
    if i > 0 {
        vstd::arithmetic::div_mod::lemma_small_mod((i - 1) as nat, n as nat);
    } else {
        vstd::arithmetic::div_mod::lemma_mod_add_multiples_vanish(-1, n);
        vstd::arithmetic::div_mod::lemma_small_mod((n - 1) as nat, n as nat);
    }
}

/// While the sidebar has the keys, a step selects the next or the previous of its rows, round
/// the ends.
pub proof fn law_steps_in_the_sidebar(h: HomeView, v: ModelView)
    requires
        h.focus == Focus::Sidebar,
        0 <= h.sidebar_idx < v.lists.len() + 2,
    ensures
        ({
            let n = v.lists.len() as int + 2;
            let i = h.sidebar_idx;
            &&& h.ran(v, HomeCmd::SelectNext).home == (HomeView {
                sidebar_idx: if i + 1 < n {
                    i + 1
                } else {
                    0
                },
                ..h
            })
            &&& h.ran(v, HomeCmd::SelectPrev).home == (HomeView {
                sidebar_idx: if i > 0 {
                    i - 1
                } else {
                    n - 1
                },
                ..h
            })
        }),
{
    lemma_ring(h.sidebar_idx, v.lists.len() as int + 2);
}

/// To hand the keys to the other pane, twice, gives them back; with one pane nothing happens.
pub proof fn law_panes_take_turns(h: HomeView, v: ModelView)
    requires
        0 <= h.active_pane <= 1,
    ensures
        ({
            let a = h.ran(v, HomeCmd::CyclePane);
            let b = a.home.ran(v, HomeCmd::CyclePane);
            &&& a.model == v && a.sent is None
            &&& v.panes.len() <= 1 ==> a.home == h
            &&& v.panes.len() > 1 ==> a.home.active_pane != h.active_pane && a.home.focus
                == Focus::Pane && b.home.active_pane == h.active_pane && 0 <= a.home.active_pane
                <= 1 && a.home.first_sel == h.first_sel && a.home.second_sel == h.second_sel
        }),
{
}

/// The keys go where they are sent, and nothing else changes.
pub proof fn law_keys_go_where_they_are_sent(h: HomeView, v: ModelView)
    ensures
        h.ran(v, HomeCmd::FocusSidebar).home == (HomeView { focus: Focus::Sidebar, ..h }),
        h.ran(v, HomeCmd::FocusPane).home == (HomeView { focus: Focus::Pane, ..h }),
        h.ran(v, HomeCmd::FocusSidebar).model == v && h.ran(v, HomeCmd::FocusPane).model == v,
        h.ran(v, HomeCmd::FocusSidebar).sent is None && h.ran(v, HomeCmd::FocusPane).sent is None,
{
}

/// To hide the sidebar hands the keys to the panes; to show it again leaves them there. No other
/// action but a tick touches the workspace, and a tick only drops half-typed keys.
pub proof fn law_sidebar_hides_and_shows(h: HomeView, a: ActionView)
    ensures
        ({
            let once = h.updated(ActionView::ToggleSidebar);
            let twice = once.updated(ActionView::ToggleSidebar);
            &&& once.sidebar_visible != h.sidebar_visible
            &&& h.sidebar_visible ==> once.focus == Focus::Pane
            &&& !h.sidebar_visible ==> once.focus == h.focus
            &&& twice.sidebar_visible == h.sidebar_visible
            &&& once.sidebar_idx == h.sidebar_idx && once.active_pane == h.active_pane
            &&& once.first_sel == h.first_sel && once.second_sel == h.second_sel
        }),
        a != ActionView::ToggleSidebar && a != ActionView::Tick ==> h.updated(a) == h,
        h.updated(ActionView::Tick).keys.pending.len() == 0,
        h.updated(ActionView::Tick).keys.map == h.keys.map,
        h.updated(ActionView::Tick).focus == h.focus,
{
}

// ── Texts ───────────────────────────────────────────────────────────────────

/// The row of a list has its name behind the icon, and behind the name how many todos are open,
/// in brackets, where there are any.
pub proof fn law_list_row_tells_the_open_todos(icon: ListIcon, l: SummaryView)
    ensures
        ({
            let t = list_row(icon, l);
            &&& t.len() >= 3 + l.name.len()
            &&& t[1] == icon.0
            &&& t.subrange(3, 3 + l.name.len() as int) == l.name
            &&& l.open_count == 0 ==> t.len() == 3 + l.name.len()
            &&& l.open_count > 0 ==> t.skip(3 + l.name.len() as int) == " ("@ + decimal(
                l.open_count as nat,
            ) + ")"@
        }),
{
    let t = list_row(icon, l);
    assert(t.subrange(3, 3 + l.name.len() as int) =~= l.name);
    if l.open_count > 0 {
        assert(t.skip(3 + l.name.len() as int) =~= " ("@ + decimal(l.open_count as nat) + ")"@);
    }
}

/// The row of a todo has its title, its priority and its mark: a check where it is done, and a
/// blank where it is not.
pub proof fn law_todo_row_tells_the_mark(t: TodoView)
    ensures
        todo_row(t).title == t.title,
        todo_row(t).priority == t.priority,
        todo_row(t).done == t.done,
        (todo_row(t).check == "✓"@) == t.done,
        (todo_row(t).check == " "@) == !t.done,
        t.due is None ==> todo_row(t).due.len() == 0,
{
    reveal_strlit("✓");
    reveal_strlit(" ");
    assert("✓"@[0] != " "@[0]);
}

/// A list is found among the summaries at the first place that has its number.
pub proof fn law_list_is_found_by_number(lists: Seq<SummaryView>, id: ListId)
    ensures
        match list_position(lists, id) {
            Some(i) => 0 <= i < lists.len() && lists[i].id == id && forall|j: int|
                0 <= j < i ==> (#[trigger] lists[j]).id != id,
            None => forall|j: int| 0 <= j < lists.len() ==> (#[trigger] lists[j]).id != id,
        },
    decreases lists.len(),
{
    if lists.len() > 0 {
        let init = lists.drop_last();
        law_list_is_found_by_number(init, id);
        assert forall|j: int| 0 <= j < init.len() implies #[trigger] lists[j] == init[j] by {}
    }
}

/// The title of a pane starts with the name of the list that it shows.
pub proof fn law_pane_title_names_the_list(v: ModelView, pane: PaneView, i: int)
    requires
        0 <= i < v.lists.len(),
        pane.target == Some(ViewTarget::List(v.lists[i].id)),
        forall|j: int| 0 <= j < v.lists.len() && j != i ==> (#[trigger] v.lists[j]).id
            != v.lists[i].id,
    ensures
        pane_title(v, pane).len() >= v.lists[i].name.len(),
        pane_title(v, pane).take(v.lists[i].name.len() as int) == v.lists[i].name,
{
    law_list_is_found_by_number(v.lists, v.lists[i].id);
    assert(list_position(v.lists, v.lists[i].id) == Some(i));
    assert(pane_title(v, pane).take(v.lists[i].name.len() as int) =~= v.lists[i].name);
}

/// At the start one pane shows all tasks, and the sidebar is there and has the keys.
pub proof fn law_workspace_at_the_start()
    ensures
        blank_model().panes.len() == 1,
        blank_model().panes[0].target == Some(ViewTarget::Meta(MetaList::AllTasks)),
        blank_model().panes[0].items.len() == 0,
        blank_model().split is None,
        blank_model().ratio == 50,
        blank_model().sort == SortMode::Alphabetical,
        blank_model().lists.len() == 0,
        blank_model().valid(),
        home_start().focus == Focus::Sidebar,
        home_start().sidebar_visible,
        home_start().sidebar_idx == 0,
        home_start().fits(blank_model()),
{
}

/// A row below the last is no list: nothing is opened, renamed, shared or deleted there.
pub proof fn law_no_row_no_list(h: HomeView, v: ModelView)
    requires
        h.focus == Focus::Sidebar,
        h.sidebar_idx >= v.lists.len() + 2,
    ensures
        h.ran(v, HomeCmd::OpenSelected).sent is None,
        h.ran(v, HomeCmd::Rename).sent is None,
        h.ran(v, HomeCmd::Share).sent is None,
        h.ran(v, HomeCmd::Members).sent is None,
        h.ran(v, HomeCmd::Delete).sent is None,
        h.ran(v, HomeCmd::OpenSelected).home == h,
{
}

} // verus!
