//! The sidebar as a part of its own: the meta-lists, then the user's lists.
use unicode_width::UnicodeWidthStr;
use vstd::prelude::*;
use vstd::string::*;

use crate::action::{opt_action, Action, ActionView, DeleteTarget, DeleteView};
use crate::components::home::{
    hint_text, icon_for, layout_hint, layout_items, row_list, row_step, sidebar_len, step_row,
    user_list_at, Focus, HomeCmd, ListIcon,
};
use crate::components::surface::compiled_from;
use crate::config::{Config, IconType, KeyContext};
use crate::keymap::{compile_keymap, KeyMap};
use crate::keys::KeyEvent;
use crate::mode::Captures;
use crate::model::{metas, ListId, SummaryView};
use crate::view::{ModelView, ViewModel};

verus! {

/// The number of columns that a text takes on a terminal.
pub uninterp spec fn columns(s: Seq<char>) -> nat;

/// The number of columns that a text takes on a terminal, by
/// `unicode_width::UnicodeWidthStr::width` for `str`. It depends on the characters of
/// the text alone.
#[verifier::external_body]
fn width(s: &str) -> (r: usize)
    ensures
        r == columns(s@),
{
    UnicodeWidthStr::width(s)
}

/// The widest that a sidebar grows, in columns.
pub const MAX_WIDTH: u16 = 50;

/// The larger of two numbers.
pub open spec fn larger(a: int, b: int) -> int {
    if a > b {
        a
    } else {
        b
    }
}

/// The number of columns of the widest name; zero where there is none.
pub open spec fn widest(lists: Seq<SummaryView>) -> int
    decreases lists.len(),
{
    if lists.len() == 0 {
        0
    } else {
        larger(widest(lists.drop_last()), columns(lists.last().name) as int)
    }
}

/// The width of a sidebar: room for its hint and its border, and for the widest name,
/// its icon and its border, within the limit.
pub open spec fn sidebar_width(hint: int, lists: int, name: int) -> int {
    let wanted = if lists == 0 {
        hint + 2
    } else {
        larger(hint + 2, name + 4)
    };
    if wanted > MAX_WIDTH {
        MAX_WIDTH as int
    } else {
        wanted
    }
}

/// The width of a sidebar, from the columns of its hint and those of the widest of its
/// names, where it has any.
pub fn width_for(hint: usize, name: Option<usize>) -> (r: u16)
    ensures
        r == (match name {
            Some(n) => sidebar_width(hint as int, 1, n as int),
            None => sidebar_width(hint as int, 0, 0),
        }),
{
    let for_hint: u16 = if hint > 48 {
        MAX_WIDTH
    } else {
        hint as u16 + 2
    };
    let for_name: u16 = match name {
        Some(n) => {
            if n > 46 {
                MAX_WIDTH
            } else {
                n as u16 + 4
            }
        },
        None => 0,
    };
    if for_hint > for_name {
        for_hint
    } else {
        for_name
    }
}

/// The sidebar.
pub struct Sidebar {
    pub icon: ListIcon,
    pub focus: Focus,
    pub sidebar_visible: bool,
    /// The selected row.
    pub sidebar_idx: usize,
    pub keymap: KeyMap<HomeCmd>,
    /// The hint line, made when the bindings change.
    pub layout_hint: String,
}

/// What the sidebar holds.
#[verifier::ext_equal]
pub ghost struct SidebarView {
    pub icon: ListIcon,
    pub focus: Focus,
    pub sidebar_visible: bool,
    pub sidebar_idx: int,
    pub map: Seq<(Seq<KeyEvent>, HomeCmd)>,
    pub layout_hint: Seq<char>,
}

impl View for Sidebar {
    type V = SidebarView;

    open spec fn view(&self) -> SidebarView {
        SidebarView {
            icon: self.icon,
            focus: self.focus,
            sidebar_visible: self.sidebar_visible,
            sidebar_idx: self.sidebar_idx as int,
            map: self.keymap@,
            layout_hint: self.layout_hint@,
        }
    }
}

/// The sidebar at the start.
pub open spec fn sidebar_start() -> SidebarView {
    SidebarView {
        icon: icon_for(IconType::NerdFonts),
        focus: Focus::Sidebar,
        sidebar_visible: true,
        sidebar_idx: 0,
        map: Seq::empty(),
        layout_hint: Seq::empty(),
    }
}

impl SidebarView {
    /// The list that is selected.
    pub open spec fn selected(self, v: ModelView) -> Option<(ListId, Seq<char>)> {
        row_list(v.lists, self.sidebar_idx)
    }

    /// The list that a command on lists is about, while the sidebar has the keys.
    pub open spec fn meant_list(self, v: ModelView) -> Option<ListId> {
        match self.selected(v) {
            Some(p) if self.focus == Focus::Sidebar => Some(p.0),
            _ => None,
        }
    }

    /// The sidebar with the selection one row down or up.
    pub open spec fn moved(self, v: ModelView, delta: int) -> SidebarView {
        if self.focus == Focus::Sidebar {
            SidebarView {
                sidebar_idx: row_step(
                    self.sidebar_idx,
                    delta,
                    metas().len() + v.lists.len() as int,
                ),
                ..self
            }
        } else {
            self
        }
    }

    /// What a command does: the sidebar afterwards, and the action that is sent. The
    /// other commands are the panes'.
    pub open spec fn ran(self, v: ModelView, cmd: HomeCmd) -> (SidebarView, Option<ActionView>) {
        match cmd {
            HomeCmd::FocusSidebar => (SidebarView { focus: Focus::Sidebar, ..self }, None),
            HomeCmd::FocusPane => (SidebarView { focus: Focus::Pane, ..self }, None),
            HomeCmd::SelectNext => (self.moved(v, 1), None),
            HomeCmd::SelectPrev => (self.moved(v, -1), None),
            HomeCmd::Share => match self.meant_list(v) {
                Some(id) => (self, Some(ActionView::ShareModal(id))),
                None => (self, None),
            },
            HomeCmd::Members => match self.meant_list(v) {
                Some(id) => (self, Some(ActionView::MembersModal(id))),
                None => (self, None),
            },
            HomeCmd::Rename => match self.selected(v) {
                Some((list_id, name)) => (
                    self,
                    Some(ActionView::RenameListModal { list_id, name }),
                ),
                None => (self, None),
            },
            HomeCmd::Delete => match self.meant_list(v) {
                Some(id) => (self, Some(ActionView::ConfirmDelete(DeleteView::List(id)))),
                None => (self, None),
            },
            _ => (self, None),
        }
    }
}

impl Captures for Sidebar {
    open spec fn captures(&self) -> bool {
        false
    }

    fn captures_input(&self) -> (r: bool) {
        false
    }
}

impl Sidebar {
    /// The keymap is valid.
    pub open spec fn wf(&self) -> bool {
        self.keymap.wf()
    }

    /// The sidebar at the start.
    pub fn new() -> (r: Sidebar)
        ensures
            r.wf(),
            r@ == sidebar_start(),
    {
        let r = Sidebar {
            icon: ListIcon::nf(),
            focus: Focus::default(),
            sidebar_visible: true,
            sidebar_idx: 0,
            keymap: KeyMap::new(),
            layout_hint: String::new(),
        };
        proof {
            assert(r@ =~= sidebar_start());
        }
        r
    }

    /// Applies the configuration: the icon, the bindings, and the hint that they give.
    pub fn configure(&mut self, config: &Config)
        requires
            old(self).wf(),
            config.wf(),
        ensures
            final(self).wf(),
            final(self)@ == ({
                let map = compiled_from::<HomeCmd>(config.keybindings.at(KeyContext::Home));
                SidebarView {
                    icon: icon_for(config.config.icon_type),
                    map,
                    layout_hint: hint_text(map, layout_items()),
                    ..old(self)@
                }
            }),
    {
        self.icon = ListIcon::of(config.config.icon_type);
        self.keymap = compile_keymap::<HomeCmd>(config.keybindings.context(KeyContext::Home));
        self.layout_hint = layout_hint(&self.keymap);
    }

    fn command_list(&self, view: &ViewModel) -> (r: Option<ListId>)
        ensures
            r == self@.meant_list(view@),
    {
        if self.focus == Focus::Sidebar {
            match user_list_at(view, self.sidebar_idx) {
                Some(p) => Some(p.0),
                None => None,
            }
        } else {
            None
        }
    }

    /// Moves the selection some rows down, or up where the number is negative, while the
    /// sidebar has the keys.
    pub fn move_selection(&mut self, view: &ViewModel, delta: isize)
        requires
            old(self).wf(),
            view@.valid(),
        ensures
            final(self).wf(),
            final(self)@ == old(self)@.moved(view@, delta as int),
    {
        if self.focus == Focus::Sidebar {
            let n: usize = sidebar_len(view);
            self.sidebar_idx = step_row(self.sidebar_idx, delta, n);
        }
    }

    /// Runs a command; gives the action that it sends.
    pub fn execute(&mut self, view: &ViewModel, cmd: HomeCmd) -> (r: Option<Action>)
        requires
            old(self).wf(),
            view@.valid(),
        ensures
            final(self).wf(),
            (final(self)@, opt_action(r)) == old(self)@.ran(view@, cmd),
    {
        match cmd {
            HomeCmd::FocusSidebar => {
                self.focus = Focus::Sidebar;
                None
            },
            HomeCmd::FocusPane => {
                self.focus = Focus::Pane;
                None
            },
            HomeCmd::SelectNext => {
                self.move_selection(view, 1);
                None
            },
            HomeCmd::SelectPrev => {
                self.move_selection(view, -1);
                None
            },
            HomeCmd::Share => match self.command_list(view) {
                Some(id) => Some(Action::ShareModal(id)),
                None => None,
            },
            HomeCmd::Members => match self.command_list(view) {
                Some(id) => Some(Action::MembersModal(id)),
                None => None,
            },
            HomeCmd::Rename => match user_list_at(view, self.sidebar_idx) {
                Some((list_id, name)) => Some(Action::RenameListModal { list_id, name }),
                None => None,
            },
            HomeCmd::Delete => match self.command_list(view) {
                Some(id) => Some(Action::ConfirmDelete(DeleteTarget::List(id))),
                None => None,
            },
            _ => None,
        }
    }

    /// Reacts to an action: the sidebar hides and shows.
    pub fn update(&mut self, action: &Action)
        requires
            old(self).wf(),
        ensures
            final(self).wf(),
            final(self)@ == (if action@ == ActionView::ToggleSidebar {
                SidebarView {
                    sidebar_visible: !old(self)@.sidebar_visible,
                    focus: if old(self)@.sidebar_visible {
                        Focus::Pane
                    } else {
                        old(self)@.focus
                    },
                    ..old(self)@
                }
            } else {
                old(self)@
            }),
    {
        match action {
            Action::ToggleSidebar => {
                self.sidebar_visible = !self.sidebar_visible;
                if !self.sidebar_visible {
                    self.focus = Focus::Pane;
                }
            },
            _ => {},
        }
    }

    /// The number of columns that the sidebar takes; none while it is hidden.
    pub fn placement(&self, view: &ViewModel) -> (r: u16)
        ensures
            r == (if self@.sidebar_visible {
                sidebar_width(
                    columns(self@.layout_hint) as int,
                    view@.lists.len() as int,
                    widest(view@.lists),
                )
            } else {
                0
            }),
    {
        if !self.sidebar_visible {
            return 0;
        }
        let n: usize = view.lists.len();
        let mut most: usize = 0;
        let mut i: usize = 0;
        proof {
            assert(view@.lists.take(0) =~= Seq::empty());
        }
        while i < n
            invariant
                i <= n,
                n == view.lists@.len(),
                most == widest(view@.lists.take(i as int)),
            decreases n - i,
        {
            proof {
                assert(view@.lists.take(i + 1).drop_last() =~= view@.lists.take(i as int));
            }
            let w: usize = width(view.lists[i].name.as_str());
            if w > most {
                most = w;
            }
            i = i + 1;
        }
        proof {
            assert(view@.lists.take(n as int) =~= view@.lists);
        }
        let hint: usize = width(self.layout_hint.as_str());
        if n == 0 {
            width_for(hint, None)
        } else {
            width_for(hint, Some(most))
        }
    }
}

} // verus!
