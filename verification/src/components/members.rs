//! The dialog that lists the members of a list.
use vstd::prelude::*;
use vstd::string::*;

use crate::action::{quiet, sends, Action, ActionView, Outcome, OutcomeView};
use crate::components::surface::{compiled_from, unbound, Surface, SurfaceView};
use crate::config::{Config, KeyContext};
use crate::cycle::{next_of, prev_of, step};
use crate::keymap::{all_keys_for, key_texts, SameVerb, Verb};
use crate::keys::KeyEvent;
use crate::model::{ListId, Member, MemberId, Role};
use crate::text::{joined3, joined_with, same};

verus! {

/// What a key can do in the members dialog.
#[derive(Clone, Copy, Debug, PartialEq, Eq, Structural)]
pub enum MembersCmd {
    SelectNext,
    SelectPrev,
    Unshare,
}

impl Verb for MembersCmd {
    open spec fn named(name: Seq<char>) -> Option<MembersCmd> {
        if name == "select_next"@ {
            Some(MembersCmd::SelectNext)
        } else if name == "select_prev"@ {
            Some(MembersCmd::SelectPrev)
        } else if name == "unshare"@ {
            Some(MembersCmd::Unshare)
        } else {
            None
        }
    }

    fn parse(name: &str) -> (r: Option<MembersCmd>) {
        if same(name, "select_next") {
            Some(MembersCmd::SelectNext)
        } else if same(name, "select_prev") {
            Some(MembersCmd::SelectPrev)
        } else if same(name, "unshare") {
            Some(MembersCmd::Unshare)
        } else {
            None
        }
    }
}

impl SameVerb for MembersCmd {
    fn is(&self, other: &MembersCmd) -> (r: bool) {
        *self == *other
    }
}

/// The dialog that lists the members of a list.
pub struct Members {
    pub list_id: ListId,
    pub members: Vec<Member>,
    /// The member who looks at the dialog.
    pub me: MemberId,
    pub selected: usize,
    pub surface: Surface<MembersCmd>,
}

/// What the members dialog holds.
#[verifier::ext_equal]
pub ghost struct MembersView {
    pub list_id: ListId,
    pub members: Seq<Member>,
    pub me: MemberId,
    pub selected: int,
    pub keys: SurfaceView<MembersCmd>,
}

impl View for Members {
    type V = MembersView;

    open spec fn view(&self) -> MembersView {
        MembersView {
            list_id: self.list_id,
            members: self.members@,
            me: self.me,
            selected: self.selected as int,
            keys: self.surface@,
        }
    }
}

/// The dialog as it opens.
pub open spec fn members_start(list_id: ListId, members: Seq<Member>, me: MemberId) -> MembersView {
    MembersView { list_id, members, me, selected: 0, keys: unbound::<MembersCmd>() }
}

impl MembersView {
    /// The dialog with the selection moved, around the ends.
    pub open spec fn select(self, delta: int) -> MembersView {
        if self.members.len() == 0 {
            self
        } else {
            MembersView { selected: step(self.selected, delta, self.members.len() as int), ..self }
        }
    }

    /// What removing the selected member sends: nothing where that is oneself.
    pub open spec fn unshared(self) -> OutcomeView {
        if 0 <= self.selected < self.members.len() && self.members[self.selected].id != self.me {
            sends(
                ActionView::Unshare {
                    list_id: self.list_id,
                    member_id: self.members[self.selected].id,
                },
            )
        } else {
            quiet()
        }
    }

    /// What a key does.
    pub open spec fn after_key(self, key: KeyEvent) -> (MembersView, OutcomeView) {
        let p = MembersView { keys: self.keys.after(key), ..self };
        match self.keys.command(key) {
            Some(MembersCmd::SelectNext) => (p.select(1), quiet()),
            Some(MembersCmd::SelectPrev) => (p.select(-1), quiet()),
            Some(MembersCmd::Unshare) => (p, p.unshared()),
            None => (p, quiet()),
        }
    }
}

/// The two hexadecimal digits of a byte.
pub open spec fn hex_digit(n: int) -> char {
    if n < 10 {
        ((48 + n) as u32) as char
    } else {
        ((87 + n) as u32) as char
    }
}

/// Bytes in lowercase hexadecimal.
pub open spec fn hex_text(bytes: Seq<u8>) -> Seq<char>
    decreases bytes.len(),
{
    if bytes.len() == 0 {
        Seq::empty()
    } else {
        hex_text(bytes.drop_last()).push(hex_digit(bytes.last() as int / 16)).push(
            hex_digit(bytes.last() as int % 16),
        )
    }
}

/// Two digits for each byte.
proof fn lemma_hex_len(bytes: Seq<u8>)
    ensures
        hex_text(bytes).len() == 2 * bytes.len(),
    decreases bytes.len(),
{
    if bytes.len() > 0 {
        lemma_hex_len(bytes.drop_last());
    }
}

/// `hex::encode`: bytes in lowercase hexadecimal.
#[verifier::external_body]
pub(crate) fn hex_encode(bytes: &[u8]) -> (r: String)
    ensures
        r@ == hex_text(bytes@),
{
    hex::encode(bytes)
}

/// The line of a member: the role, the start of the identifier, and a mark on
/// oneself.
pub open spec fn member_line(m: Member, me: MemberId) -> Seq<char> {
    " "@ + (match m.role {
        Role::Owner => "owner "@,
        Role::Member => "member"@,
    }) + "  "@ + hex_text(m.id.0@).take(8) + "\u{2026}"@ + (if m.id == me {
        "  (you)"@
    } else {
        ""@
    })
}

/// The hint beneath the members; without a key for it, none.
pub open spec fn members_hint(keys: SurfaceView<MembersCmd>) -> Seq<char> {
    let ts = key_texts(keys.map, MembersCmd::Unshare);
    if ts.len() == 0 {
        Seq::empty()
    } else {
        " "@ + joined_with(ts, "/"@) + ": remove "@
    }
}

impl Members {
    /// The keymap is valid, and the selection is a member where there is one.
    pub open spec fn wf(&self) -> bool {
        self.surface.wf() && (self.members@.len() == 0 || self.selected < self.members@.len())
    }

    /// The dialog for these members.
    pub fn new(list_id: ListId, members: Vec<Member>, me: MemberId) -> (r: Members)
        ensures
            r.wf(),
            r@ == members_start(list_id, members@, me),
    {
        Members { list_id, members, me, selected: 0, surface: Surface::new() }
    }

    /// Applies the configuration.
    pub fn configure(&mut self, config: &Config)
        requires
            old(self).wf(),
            config.wf(),
        ensures
            final(self).wf(),
            final(self)@ == (MembersView {
                keys: SurfaceView {
                    map: compiled_from::<MembersCmd>(
                        config.keybindings.at(KeyContext::Members),
                    ),
                    ..old(self)@.keys
                },
                ..old(self)@
            }),
    {
        self.surface.configure(config.keybindings.context(KeyContext::Members));
    }

    /// Takes a key.
    pub fn handle_key_event(&mut self, key: KeyEvent) -> (r: Outcome)
        requires
            old(self).wf(),
        ensures
            final(self).wf(),
            (final(self)@, r@) == old(self)@.after_key(key),
    {
        let n: usize = self.members.len();
        match self.surface.press(key) {
            Some(MembersCmd::SelectNext) => {
                if n > 0 {
                    self.selected = next_of(self.selected, n);
                }
                Outcome::none()
            },
            Some(MembersCmd::SelectPrev) => {
                if n > 0 {
                    self.selected = prev_of(self.selected, n);
                }
                Outcome::none()
            },
            Some(MembersCmd::Unshare) => self.unshare_selected(),
            None => Outcome::none(),
        }
    }

    /// Removes the selected member, unless that is oneself.
    fn unshare_selected(&self) -> (r: Outcome)
        ensures
            r@ == self@.unshared(),
    {
        if self.selected >= self.members.len() {
            return Outcome::none();
        }
        let m = self.members[self.selected];
        if m.id == self.me {
            return Outcome::none();
        }
        Outcome::send(Action::Unshare { list_id: self.list_id, member_id: m.id })
    }

    /// The line of a member.
    pub fn line(&self, i: usize) -> (r: String)
        requires
            i < self.members@.len(),
        ensures
            r@ == member_line(self.members@[i as int], self.me),
    {
        let m = self.members[i];
        let role: &str = match m.role {
            Role::Owner => "owner ",
            Role::Member => "member",
        };
        let id = hex_encode(m.id.0.as_slice());
        proof {
            lemma_hex_len(m.id.0@);
        }
        let short = id.as_str().substring_char(0, 8);
        let you: &str = if m.id == self.me {
            "  (you)"
        } else {
            ""
        };
        let mut s = joined3(" ", role, "  ");
        s.append(short);
        s.append("\u{2026}");
        s.append(you);
        proof {
            assert(id@.subrange(0, 8) =~= id@.take(8));
        }
        s
    }

    /// The hint beneath the members.
    pub fn hint(&self) -> (r: String)
        requires
            self.wf(),
        ensures
            r@ == members_hint(self@.keys),
    {
        match all_keys_for(&self.surface.keymap, &MembersCmd::Unshare) {
            Some(k) => joined3(" ", k.as_str(), ": remove "),
            None => {
                let s = String::new();
                proof {
                    assert(s@ =~= Seq::<char>::empty());
                }
                s
            },
        }
    }
}

/// Nobody removes themself in this dialog.
pub proof fn law_cannot_unshare_oneself(v: MembersView, key: KeyEvent)
    ensures
        v.after_key(key).1.sent != Some(
            ActionView::Unshare { list_id: v.list_id, member_id: v.me },
        ),
{
}

} // verus!
