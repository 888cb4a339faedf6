//! The key bindings that the program comes with. A user's bindings are laid over them.
use vstd::prelude::*;
use vstd::string::*;

use crate::config::{bindings_of, read_bindings, KeyBindings, KeyContext, RawBindings};
use crate::keymap::CommandSpec;

verus! {

/// A binding: the keys, the command, and whether the footer lists it.
pub type Shipped = (Seq<char>, Seq<char>, bool);

/// What bindings say.
pub open spec fn shipped_views(v: Seq<(String, CommandSpec)>) -> Seq<Shipped> {
    v.map_values(|e: (String, CommandSpec)| (e.0@, e.1.name(), e.1.shown()))
}

/// The bindings of a surface, in the order in which hints name them.
#[verifier::opaque]
pub open spec fn shipped(ctx: KeyContext) -> Seq<Shipped> {
    match ctx {
        KeyContext::Global => seq![
            ("q"@, "quit"@, true),
            ("?"@, "help_modal"@, true),
            ("ctrl-c"@, "quit"@, false),
            ("ctrl-d"@, "quit"@, false),
            ("ctrl-z"@, "suspend"@, false),
            ("ctrl-l"@, "login_modal"@, false),
            ("ctrl-r"@, "register_modal"@, false),
            ("space+e"@, "toggle_sidebar"@, true),
        ],
        KeyContext::Home => seq![
            ("h"@, "focus_sidebar"@, false),
            ("l"@, "focus_pane"@, false),
            ("tab"@, "cycle_focus"@, false),
            ("j"@, "select_next"@, false),
            ("down"@, "select_next"@, false),
            ("k"@, "select_prev"@, false),
            ("up"@, "select_prev"@, false),
            ("enter"@, "open_selected"@, false),
            ("n"@, "new_list"@, false),
            ("a"@, "add_todo"@, false),
            ("e"@, "edit_todo"@, false),
            ("x"@, "toggle_done"@, false),
            ("d"@, "delete"@, false),
            ("r"@, "rename"@, false),
            ("o"@, "cycle_sort"@, false),
            ("s"@, "share"@, false),
            ("m"@, "members"@, false),
            ("|"@, "split_horizontal"@, false),
            ("-"@, "split_vertical"@, false),
            ("w"@, "cycle_pane"@, false),
            ("shift-x"@, "close_pane"@, false),
            (">"@, "grow_pane"@, false),
            ("<"@, "shrink_pane"@, false),
        ],
        KeyContext::Form => seq![
            ("tab"@, "field_next"@, false),
            ("down"@, "field_next"@, false),
            ("backtab"@, "field_prev"@, false),
            ("up"@, "field_prev"@, false),
            ("enter"@, "submit"@, false),
            ("space"@, "cycle_priority_next"@, false),
        ],
        KeyContext::Modal => seq![
            ("tab"@, "focus_next"@, false),
            ("right"@, "focus_next"@, false),
            ("backtab"@, "focus_prev"@, false),
            ("left"@, "focus_prev"@, false),
            ("enter"@, "activate"@, false),
        ],
        KeyContext::Members => seq![
            ("j"@, "select_next"@, false),
            ("down"@, "select_next"@, false),
            ("k"@, "select_prev"@, false),
            ("up"@, "select_prev"@, false),
            ("u"@, "unshare"@, false),
        ],
        KeyContext::Login | KeyContext::Register => Seq::empty(),
    }
}

fn bind(out: &mut Vec<(String, CommandSpec)>, keys: &str, command: &str, show: bool)
    ensures
        shipped_views(final(out)@) == shipped_views(old(out)@).push((keys@, command@, show)),
{
    let ghost before = out@;
    let spec = if show {
        CommandSpec::Full { command: command.to_owned(), show }
    } else {
        CommandSpec::Bare(command.to_owned())
    };
    out.push((keys.to_owned(), spec));
    proof {
        assert(shipped_views(out@) =~= shipped_views(before).push((keys@, command@, show)));
    }
}

fn global_bindings() -> (r: Vec<(String, CommandSpec)>)
    ensures
        shipped_views(r@) == shipped(KeyContext::Global),
{
    let mut v: Vec<(String, CommandSpec)> = Vec::new();
    bind(&mut v, "q", "quit", true);
    bind(&mut v, "?", "help_modal", true);
    bind(&mut v, "ctrl-c", "quit", false);
    bind(&mut v, "ctrl-d", "quit", false);
    bind(&mut v, "ctrl-z", "suspend", false);
    bind(&mut v, "ctrl-l", "login_modal", false);
    bind(&mut v, "ctrl-r", "register_modal", false);
    bind(&mut v, "space+e", "toggle_sidebar", true);
    proof {
        reveal(shipped);
        assert(shipped_views(v@) =~= shipped(KeyContext::Global));
    }
    v
}

fn home_bindings() -> (r: Vec<(String, CommandSpec)>)
    ensures
        shipped_views(r@) == shipped(KeyContext::Home),
{
    let mut v: Vec<(String, CommandSpec)> = Vec::new();
    bind(&mut v, "h", "focus_sidebar", false);
    bind(&mut v, "l", "focus_pane", false);
    bind(&mut v, "tab", "cycle_focus", false);
    bind(&mut v, "j", "select_next", false);
    bind(&mut v, "down", "select_next", false);
    bind(&mut v, "k", "select_prev", false);
    bind(&mut v, "up", "select_prev", false);
    bind(&mut v, "enter", "open_selected", false);
    bind(&mut v, "n", "new_list", false);
    bind(&mut v, "a", "add_todo", false);
    bind(&mut v, "e", "edit_todo", false);
    bind(&mut v, "x", "toggle_done", false);
    bind(&mut v, "d", "delete", false);
    bind(&mut v, "r", "rename", false);
    bind(&mut v, "o", "cycle_sort", false);
    bind(&mut v, "s", "share", false);
    bind(&mut v, "m", "members", false);
    bind(&mut v, "|", "split_horizontal", false);
    bind(&mut v, "-", "split_vertical", false);
    bind(&mut v, "w", "cycle_pane", false);
    bind(&mut v, "shift-x", "close_pane", false);
    bind(&mut v, ">", "grow_pane", false);
    bind(&mut v, "<", "shrink_pane", false);
    proof {
        reveal(shipped);
        assert(shipped_views(v@) =~= shipped(KeyContext::Home));
    }
    v
}

fn form_bindings() -> (r: Vec<(String, CommandSpec)>)
    ensures
        shipped_views(r@) == shipped(KeyContext::Form),
{
    let mut v: Vec<(String, CommandSpec)> = Vec::new();
    bind(&mut v, "tab", "field_next", false);
    bind(&mut v, "down", "field_next", false);
    bind(&mut v, "backtab", "field_prev", false);
    bind(&mut v, "up", "field_prev", false);
    bind(&mut v, "enter", "submit", false);
    bind(&mut v, "space", "cycle_priority_next", false);
    proof {
        reveal(shipped);
        assert(shipped_views(v@) =~= shipped(KeyContext::Form));
    }
    v
}

fn modal_bindings() -> (r: Vec<(String, CommandSpec)>)
    ensures
        shipped_views(r@) == shipped(KeyContext::Modal),
{
    let mut v: Vec<(String, CommandSpec)> = Vec::new();
    bind(&mut v, "tab", "focus_next", false);
    bind(&mut v, "right", "focus_next", false);
    bind(&mut v, "backtab", "focus_prev", false);
    bind(&mut v, "left", "focus_prev", false);
    bind(&mut v, "enter", "activate", false);
    proof {
        reveal(shipped);
        assert(shipped_views(v@) =~= shipped(KeyContext::Modal));
    }
    v
}

fn members_bindings() -> (r: Vec<(String, CommandSpec)>)
    ensures
        shipped_views(r@) == shipped(KeyContext::Members),
{
    let mut v: Vec<(String, CommandSpec)> = Vec::new();
    bind(&mut v, "j", "select_next", false);
    bind(&mut v, "down", "select_next", false);
    bind(&mut v, "k", "select_prev", false);
    bind(&mut v, "up", "select_prev", false);
    bind(&mut v, "u", "unshare", false);
    proof {
        reveal(shipped);
        assert(shipped_views(v@) =~= shipped(KeyContext::Members));
    }
    v
}

/// The bindings of a surface.
pub fn default_entries(ctx: KeyContext) -> (r: Vec<(String, CommandSpec)>)
    ensures
        shipped_views(r@) == shipped(ctx),
{
    match ctx {
        KeyContext::Global => global_bindings(),
        KeyContext::Home => home_bindings(),
        KeyContext::Form => form_bindings(),
        KeyContext::Modal => modal_bindings(),
        KeyContext::Members => members_bindings(),
        KeyContext::Login | KeyContext::Register => {
            let v: Vec<(String, CommandSpec)> = Vec::new();
            proof {
                reveal(shipped);
                assert(shipped_views(v@) =~= Seq::empty());
            }
            v
        },
    }
}

/// Whether entries are those of a surface, and read as these bindings.
pub open spec fn reads_as(
    ctx: KeyContext,
    raw: Seq<(String, CommandSpec)>,
    m: RawBindings,
) -> bool {
    shipped_views(raw) == shipped(ctx) && bindings_of(raw) == Ok::<RawBindings, Seq<char>>(m)
}

/// Whether entries are those of a surface, and cannot be read for this reason.
pub open spec fn fails_as(
    ctx: KeyContext,
    raw: Seq<(String, CommandSpec)>,
    e: Seq<char>,
) -> bool {
    shipped_views(raw) == shipped(ctx) && bindings_of(raw) == Err::<RawBindings, Seq<char>>(e)
}

/// Whether the bindings of a surface cannot be read for this reason.
pub open spec fn misread(ctx: KeyContext, e: Seq<char>) -> bool {
    exists|raw: Seq<(String, CommandSpec)>| #[trigger] fails_as(ctx, raw, e)
}

/// Whether the bindings of some surface cannot be read for this reason.
pub open spec fn misread_somewhere(e: Seq<char>) -> bool {
    exists|ctx: KeyContext| #[trigger] misread(ctx, e)
}

/// Whether a surface has the bindings that the program comes with.
pub open spec fn is_default(b: KeyBindings, ctx: KeyContext) -> bool {
    if shipped(ctx).len() == 0 {
        b.at(ctx) is None
    } else {
        b.at(ctx) matches Some(m) && exists|raw: Seq<(String, CommandSpec)>| #[trigger]
            reads_as(ctx, raw, m)
    }
}

proof fn lemma_shipped()
    ensures
        forall|ctx: KeyContext|
            #![trigger shipped(ctx)]
            shipped(ctx).len() == 0 <==> ctx == KeyContext::Login || ctx == KeyContext::Register,
{
    reveal(shipped);
}

fn read_default(b: &mut KeyBindings, ctx: KeyContext) -> (r: Result<(), String>)
    requires
        old(b).wf(),
        shipped(ctx).len() > 0,
    ensures
        final(b).wf(),
        match r {
            Ok(_) => is_default(*final(b), ctx) && forall|other: KeyContext|
                other != ctx ==> #[trigger] final(b).at(other) == old(b).at(other),
            Err(e) => misread(ctx, e@),
        },
{
    let raw = default_entries(ctx);
    match read_bindings(&raw) {
        Ok(m) => {
            proof {
                assert(reads_as(ctx, raw@, m@));
            }
            b.set(ctx, m);
            proof {
                assert(b.at(ctx)->0 == m@);
                assert(is_default(*b, ctx));
            }
            Ok(())
        },
        Err(e) => {
            proof {
                assert(fails_as(ctx, raw@, e@));
                assert(misread(ctx, e@));
            }
            Err(e)
        },
    }
}

/// The bindings that the program comes with. Where one of them cannot be read, an error says
/// which.
pub fn default_bindings() -> (r: Result<KeyBindings, String>)
    ensures
        match r {
            Ok(b) => b.wf() && forall|ctx: KeyContext| #[trigger] is_default(b, ctx),
            Err(e) => misread_somewhere(e@),
        },
{
    let mut b = KeyBindings::new();
    proof {
        lemma_shipped();
    }
    if let Err(e) = read_default(&mut b, KeyContext::Global) {
        return Err(e);
    }
    if let Err(e) = read_default(&mut b, KeyContext::Home) {
        return Err(e);
    }
    if let Err(e) = read_default(&mut b, KeyContext::Form) {
        return Err(e);
    }
    if let Err(e) = read_default(&mut b, KeyContext::Modal) {
        return Err(e);
    }
    if let Err(e) = read_default(&mut b, KeyContext::Members) {
        return Err(e);
    }
    proof {
        assert forall|ctx: KeyContext| #[trigger] is_default(b, ctx) by {
            assert(b.at(ctx) == b.at(ctx));
        }
    }
    Ok(b)
}

} // verus!
