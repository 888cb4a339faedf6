//! The configuration: application settings, key bindings and styles, and how the
//! user's files are laid over the built-in defaults.
use vstd::prelude::*;
use vstd::string::*;

use crate::keymap::{
    bound, copy_keys, distinct, lemma_position, lookup, position, same_keys, CommandSpec, KeyMap,
};
use crate::keys::{parse_key_sequence, parsed_sequence, KeyEvent};
use crate::mode::Mode;
use crate::style::Style;
use crate::text::{chars_of, joined, same, string_of};

verus! {

/// The base URL of the server when the configuration names none.
pub fn default_server_url() -> (r: String)
    ensures
        r@ == "http://127.0.0.1:8192"@,
{
    "http://127.0.0.1:8192".to_owned()
}

/// The icons that the interface draws with.
#[derive(Clone, Copy, Debug, PartialEq, Eq, Structural)]
pub enum IconType {
    NerdFonts,
    Emojis,
    Basic,
}

impl IconType {
    /// The icons used when the configuration names none.
    pub fn for_platform(windows: bool) -> (r: IconType)
        ensures
            r == (if windows {
                IconType::Emojis
            } else {
                IconType::NerdFonts
            }),
    {
        if windows {
            IconType::Emojis
        } else {
            IconType::NerdFonts
        }
    }
}

/// Which key bindings a focused text field obeys.
#[derive(Clone, Copy, Debug, PartialEq, Eq, Structural)]
pub enum EditingMode {
    Emacs,
    Vim,
}

impl Default for EditingMode {
    fn default() -> (r: EditingMode)
        ensures
            r == EditingMode::Emacs,
    {
        EditingMode::Emacs
    }
}

/// Settings of the password-less unlock of one device.
#[derive(Debug)]
pub struct DeviceUnlockConfig {
    pub enabled: bool,
    /// What the cached keys are sealed to.
    pub recipient: Option<String>,
    /// The path of the file that opens the cached keys.
    pub identity: Option<String>,
}

/// The application settings.
#[derive(Debug)]
pub struct AppConfig {
    pub data_dir: String,
    pub config_dir: String,
    /// Base URL of the server.
    pub server_url: String,
    pub icon_type: IconType,
    pub device_unlock: DeviceUnlockConfig,
    pub editing_mode: EditingMode,
}

/// The surface that a keymap belongs to.
#[derive(Clone, Copy, Debug, PartialEq, Eq, Structural)]
pub enum KeyContext {
    /// Commands that work everywhere.
    Global,
    Home,
    Login,
    Register,
    /// The button row of a modal.
    Modal,
    /// The members dialog.
    Members,
    /// The fields of every form.
    Form,
}

/// The surface of a screen.
pub open spec fn context_of(mode: Mode) -> KeyContext {
    match mode {
        Mode::Home => KeyContext::Home,
        Mode::Login => KeyContext::Login,
        Mode::Register => KeyContext::Register,
    }
}

impl From<Mode> for KeyContext {
    fn from(mode: Mode) -> (r: KeyContext) {
        match mode {
            Mode::Home => KeyContext::Home,
            Mode::Login => KeyContext::Login,
            Mode::Register => KeyContext::Register,
        }
    }
}

impl vstd::std_specs::convert::FromSpecImpl<Mode> for KeyContext {
    open spec fn obeys_from_spec() -> bool {
        true
    }

    open spec fn from_spec(mode: Mode) -> KeyContext {
        context_of(mode)
    }
}

// ── Key bindings ────────────────────────────────────────────────────────────

/// The bindings of one surface, as key sequences and command names.
pub type RawBindings = Seq<(Seq<KeyEvent>, CommandSpec)>;

/// The bindings of every surface that has some.
pub struct KeyBindings {
    pub global: Option<KeyMap<CommandSpec>>,
    pub home: Option<KeyMap<CommandSpec>>,
    pub login: Option<KeyMap<CommandSpec>>,
    pub register: Option<KeyMap<CommandSpec>>,
    pub modal: Option<KeyMap<CommandSpec>>,
    pub members: Option<KeyMap<CommandSpec>>,
    pub form: Option<KeyMap<CommandSpec>>,
}

/// Whether the bindings of a surface, if it has some, are a valid keymap.
pub open spec fn valid_map(m: Option<KeyMap<CommandSpec>>) -> bool {
    m matches Some(k) ==> k.wf()
}

/// The bindings of a surface, if it has some.
pub open spec fn map_view(m: Option<KeyMap<CommandSpec>>) -> Option<RawBindings> {
    match m {
        Some(k) => Some(k@),
        None => None,
    }
}

impl KeyBindings {
    /// Every surface's bindings are a valid keymap.
    pub open spec fn wf(&self) -> bool {
        &&& valid_map(self.global)
        &&& valid_map(self.home)
        &&& valid_map(self.login)
        &&& valid_map(self.register)
        &&& valid_map(self.modal)
        &&& valid_map(self.members)
        &&& valid_map(self.form)
    }

    /// The bindings of a surface, if it has some.
    pub open spec fn at(&self, ctx: KeyContext) -> Option<RawBindings> {
        map_view(
            match ctx {
                KeyContext::Global => self.global,
                KeyContext::Home => self.home,
                KeyContext::Login => self.login,
                KeyContext::Register => self.register,
                KeyContext::Modal => self.modal,
                KeyContext::Members => self.members,
                KeyContext::Form => self.form,
            },
        )
    }

    /// No bindings at all.
    pub fn new() -> (r: KeyBindings)
        ensures
            r.wf(),
            forall|ctx: KeyContext| #[trigger] r.at(ctx) is None,
    {
        KeyBindings {
            global: None,
            home: None,
            login: None,
            register: None,
            modal: None,
            members: None,
            form: None,
        }
    }

    /// The bindings of a surface, if it has some.
    pub fn context(&self, ctx: KeyContext) -> (r: Option<&KeyMap<CommandSpec>>)
        requires
            self.wf(),
        ensures
            match r {
                Some(m) => m.wf() && self.at(ctx) == Some(m@),
                None => self.at(ctx) is None,
            },
    {
        match ctx {
            KeyContext::Global => self.global.as_ref(),
            KeyContext::Home => self.home.as_ref(),
            KeyContext::Login => self.login.as_ref(),
            KeyContext::Register => self.register.as_ref(),
            KeyContext::Modal => self.modal.as_ref(),
            KeyContext::Members => self.members.as_ref(),
            KeyContext::Form => self.form.as_ref(),
        }
    }

    /// Sets the bindings of a surface.
    pub fn set(&mut self, ctx: KeyContext, map: KeyMap<CommandSpec>)
        requires
            old(self).wf(),
            map.wf(),
        ensures
            final(self).wf(),
            final(self).at(ctx) == Some(map@),
            forall|other: KeyContext|
                other != ctx ==> #[trigger] final(self).at(other) == old(self).at(other),
    {
        match ctx {
            KeyContext::Global => {
                self.global = Some(map);
            },
            KeyContext::Home => {
                self.home = Some(map);
            },
            KeyContext::Login => {
                self.login = Some(map);
            },
            KeyContext::Register => {
                self.register = Some(map);
            },
            KeyContext::Modal => {
                self.modal = Some(map);
            },
            KeyContext::Members => {
                self.members = Some(map);
            },
            KeyContext::Form => {
                self.form = Some(map);
            },
        }
    }
}

/// The keymap that a list of texts and commands describes: each text is read as a
/// key sequence, and the first that cannot be read decides the error.
pub open spec fn bindings_of(raw: Seq<(String, CommandSpec)>) -> Result<RawBindings, Seq<char>>
    decreases raw.len(),
{
    if raw.len() == 0 {
        Ok(Seq::empty())
    } else {
        match bindings_of(raw.drop_last()) {
            Err(e) => Err(e),
            Ok(m) => match parsed_sequence(raw.last().0@) {
                Err(e) => Err(e),
                Ok(keys) => Ok(bound(m, keys, raw.last().1)),
            },
        }
    }
}

proof fn lemma_first_bad_binding(raw: Seq<(String, CommandSpec)>, n: int)
    requires
        0 <= n <= raw.len(),
        bindings_of(raw.take(n)) is Err,
    ensures
        bindings_of(raw) == bindings_of(raw.take(n)),
    decreases raw.len() - n,
{
    if n == raw.len() {
        assert(raw.take(n) =~= raw);
    } else {
        assert(raw.take(n + 1).drop_last() =~= raw.take(n));
        lemma_first_bad_binding(raw, n + 1);
    }
}

/// Reads the bindings of one surface.
pub fn read_bindings(raw: &Vec<(String, CommandSpec)>) -> (r: Result<
    KeyMap<CommandSpec>,
    String,
>)
    ensures
        match r {
            Ok(m) => m.wf() && bindings_of(raw@) == Ok::<RawBindings, Seq<char>>(m@),
            Err(e) => bindings_of(raw@) == Err::<RawBindings, Seq<char>>(e@),
        },
{
    let mut out: KeyMap<CommandSpec> = KeyMap::new();
    let mut i: usize = 0;
    proof {
        assert(raw@.take(0) =~= Seq::<(String, CommandSpec)>::empty());
    }
    while i < raw.len()
        invariant
            i <= raw@.len(),
            out.wf(),
            bindings_of(raw@.take(i as int)) == Ok::<RawBindings, Seq<char>>(out@),
        decreases raw@.len() - i,
    {
        proof {
            assert(raw@.take(i + 1).drop_last() =~= raw@.take(i as int));
            assert(raw@.take(i + 1).last() == raw@[i as int]);
        }
        match parse_key_sequence(raw[i].0.as_str()) {
            Ok(keys) => {
                let cmd = raw[i].1.copy();
                out.insert(keys, cmd);
            },
            Err(e) => {
                proof {
                    lemma_first_bad_binding(raw@, i + 1);
                }
                return Err(e);
            },
        }
        i = i + 1;
    }
    proof {
        assert(raw@.take(raw@.len() as int) =~= raw@);
    }
    Ok(out)
}

/// The bindings of a user over the defaults: each default whose key sequence the
/// user has not bound is added, in order.
pub open spec fn filled(user: RawBindings, defaults: RawBindings) -> RawBindings
    decreases defaults.len(),
{
    if defaults.len() == 0 {
        user
    } else {
        let u = filled(user, defaults.drop_last());
        if position(u, defaults.last().0) is Some {
            u
        } else {
            u.push(defaults.last())
        }
    }
}

/// Lays a user's bindings over the defaults.
pub fn fill_bindings(user: &mut KeyMap<CommandSpec>, defaults: &KeyMap<CommandSpec>)
    requires
        old(user).wf(),
        defaults.wf(),
    ensures
        final(user).wf(),
        final(user)@ == filled(old(user)@, defaults@),
{
    let ghost start = user@;
    let mut i: usize = 0;
    proof {
        assert(defaults@.take(0) =~= Seq::<(Seq<KeyEvent>, CommandSpec)>::empty());
    }
    while i < defaults.len()
        invariant
            i <= defaults@.len(),
            user.wf(),
            defaults.wf(),
            user@ == filled(start, defaults@.take(i as int)),
        decreases defaults@.len() - i,
    {
        proof {
            assert(defaults@.take(i + 1).drop_last() =~= defaults@.take(i as int));
            assert(defaults@.take(i + 1).last() == defaults@[i as int]);
        }
        let keys = copy_keys(defaults.keys_at(i));
        if user.position_of(&keys).is_none() {
            let cmd = defaults.value_at(i).copy();
            user.insert(keys, cmd);
        }
        i = i + 1;
    }
    proof {
        assert(defaults@.take(defaults@.len() as int) =~= defaults@);
    }
}

/// A user's binding prevails over the default; where the user has bound nothing,
/// the default stands.
pub proof fn law_user_bindings_prevail(
    user: RawBindings,
    defaults: RawBindings,
    keys: Seq<KeyEvent>,
)
    requires
        distinct(user),
        distinct(defaults),
    ensures
        distinct(filled(user, defaults)),
        lookup(filled(user, defaults), keys) == (match lookup(user, keys) {
            Some(c) => Some(c),
            None => lookup(defaults, keys),
        }),
    decreases defaults.len(),
{
    if defaults.len() > 0 {
        let init = defaults.drop_last();
        let last = defaults.last();
        assert(distinct(init)) by {
            assert forall|i: int, j: int| 0 <= i < j < init.len() implies !same_keys(
                #[trigger] init[i].0,
                #[trigger] init[j].0,
            ) by {
                assert(init[i] == defaults[i] && init[j] == defaults[j]);
            }
        }
        law_user_bindings_prevail(user, init, keys);
        law_user_bindings_prevail(user, init, last.0);
        let u = filled(user, init);
        let f = filled(user, defaults);
        lemma_position(init, keys);
        lemma_position(init, last.0);
        lemma_position(user, keys);
        lemma_position(user, last.0);
        lemma_position(u, keys);
        lemma_position(u, last.0);
        // `last` is bound in no earlier default.
        assert(position(init, last.0) is None) by {
            if let Some(p) = position(init, last.0) {
                assert(init[p] == defaults[p]);
                assert(!same_keys(defaults[p].0, defaults[defaults.len() - 1].0));
            }
        }
        if position(u, last.0) is None {
            assert(f == u.push(last));
            assert forall|i: int, j: int| 0 <= i < j < f.len() implies !same_keys(
                #[trigger] f[i].0,
                #[trigger] f[j].0,
            ) by {
                assert(f[i] == u[i]);
                if j < u.len() {
                    assert(f[j] == u[j]);
                }
            }
            assert(f.drop_last() =~= u);
            if same_keys(last.0, keys) {
                // Then nothing earlier binds `keys` either.
                if let Some(p) = position(user, keys) {
                    assert(same_keys(user[p].0, last.0)) by {
                        crate::config::lemma_same_keys_join(user[p].0, keys, last.0);
                    }
                }
            }
        } else {
            if same_keys(last.0, keys) {
                // The user has bound `last`'s keys, so also `keys`.
                assert(lookup(user, last.0) is Some);
                let p = position(user, last.0)->0;
                assert(same_keys(user[p].0, keys)) by {
                    assert forall|i: int| 0 <= i < user[p].0.len() implies crate::keys::same_key(
                        #[trigger] user[p].0[i],
                        keys[i],
                    ) by {
                        assert(crate::keys::same_key(user[p].0[i], last.0[i]));
                        assert(crate::keys::same_key(last.0[i], keys[i]));
                    }
                }
            }
        }
    }
}

/// Two sequences that are both the keys of a third are the same keys.
pub proof fn lemma_same_keys_join(a: Seq<KeyEvent>, b: Seq<KeyEvent>, c: Seq<KeyEvent>)
    requires
        same_keys(a, b),
        same_keys(c, b),
    ensures
        same_keys(a, c),
{
    assert forall|i: int| 0 <= i < a.len() implies crate::keys::same_key(#[trigger] a[i], c[i]) by {
        assert(crate::keys::same_key(c[i], b[i]));
    }
}

/// Lays the user's bindings of one surface over the defaults; a surface without
/// user bindings takes the defaults.
fn fill_surface(user: Option<KeyMap<CommandSpec>>, defaults: &Option<KeyMap<CommandSpec>>) -> (r:
    Option<KeyMap<CommandSpec>>)
    requires
        valid_map(user),
        valid_map(*defaults),
    ensures
        valid_map(r),
        map_view(r) == filled_surface(map_view(user), map_view(*defaults)),
{
    match defaults {
        None => user,
        Some(d) => {
            let mut u = match user {
                Some(u) => u,
                None => KeyMap::new(),
            };
            fill_bindings(&mut u, d);
            Some(u)
        },
    }
}

/// The bindings of one surface over the defaults.
pub open spec fn filled_surface(
    user: Option<RawBindings>,
    defaults: Option<RawBindings>,
) -> Option<RawBindings> {
    match defaults {
        None => user,
        Some(d) => Some(
            filled(
                match user {
                    Some(u) => u,
                    None => Seq::empty(),
                },
                d,
            ),
        ),
    }
}

/// Lays the user's bindings over the defaults, surface by surface.
pub fn merge_bindings(user: KeyBindings, defaults: &KeyBindings) -> (r: KeyBindings)
    requires
        user.wf(),
        defaults.wf(),
    ensures
        r.wf(),
        forall|ctx: KeyContext| #[trigger]
            r.at(ctx) == filled_surface(user.at(ctx), defaults.at(ctx)),
{
    KeyBindings {
        global: fill_surface(user.global, &defaults.global),
        home: fill_surface(user.home, &defaults.home),
        login: fill_surface(user.login, &defaults.login),
        register: fill_surface(user.register, &defaults.register),
        modal: fill_surface(user.modal, &defaults.modal),
        members: fill_surface(user.members, &defaults.members),
        form: fill_surface(user.form, &defaults.form),
    }
}

// ── Styles ──────────────────────────────────────────────────────────────────

/// The named styles of one screen; no name stands twice.
pub struct StyleMap {
    pub entries: Vec<(String, Style)>,
}

/// The entries of a style map.
pub open spec fn style_entries(v: Seq<(String, Style)>) -> Seq<(Seq<char>, Style)> {
    v.map_values(|e: (String, Style)| (e.0@, e.1))
}

/// The style with this name.
pub open spec fn style_named(m: Seq<(Seq<char>, Style)>, name: Seq<char>) -> Option<Style>
    decreases m.len(),
{
    if m.len() == 0 {
        None
    } else if m.last().0 == name {
        Some(m.last().1)
    } else {
        style_named(m.drop_last(), name)
    }
}

impl View for StyleMap {
    type V = Seq<(Seq<char>, Style)>;

    open spec fn view(&self) -> Seq<(Seq<char>, Style)> {
        style_entries(self.entries@)
    }
}

/// The styles of a user over the defaults: each default whose name the user has
/// not defined is added.
pub open spec fn filled_styles(
    user: Seq<(Seq<char>, Style)>,
    defaults: Seq<(Seq<char>, Style)>,
) -> Seq<(Seq<char>, Style)>
    decreases defaults.len(),
{
    if defaults.len() == 0 {
        user
    } else {
        let u = filled_styles(user, defaults.drop_last());
        if style_named(u, defaults.last().0) is Some {
            u
        } else {
            u.push(defaults.last())
        }
    }
}

/// Whether no name stands twice.
pub open spec fn named_once(m: Seq<(Seq<char>, Style)>) -> bool {
    forall|i: int, j: int| 0 <= i < j < m.len() ==> (#[trigger] m[i]).0 != (#[trigger] m[j]).0
}

/// A name that has no style stands in no entry.
proof fn lemma_unnamed(m: Seq<(Seq<char>, Style)>, name: Seq<char>)
    ensures
        style_named(m, name) is None ==> forall|i: int|
            0 <= i < m.len() ==> (#[trigger] m[i]).0 != name,
    decreases m.len(),
{
    if m.len() > 0 {
        lemma_unnamed(m.drop_last(), name);
        assert forall|i: int| style_named(m, name) is None && 0 <= i < m.len() implies (
        #[trigger] m[i]).0 != name by {
            if i < m.len() - 1 {
                assert(m.drop_last()[i] == m[i]);
            }
        }
    }
}

/// A user's style prevails over a default of the same name; a default stands where the user
/// has none; and where no name stood twice, none does.
pub proof fn law_user_styles_prevail(
    user: Seq<(Seq<char>, Style)>,
    defaults: Seq<(Seq<char>, Style)>,
    name: Seq<char>,
)
    requires
        named_once(user),
        named_once(defaults),
    ensures
        named_once(filled_styles(user, defaults)),
        style_named(filled_styles(user, defaults), name) == (match style_named(user, name) {
            Some(s) => Some(s),
            None => style_named(defaults, name),
        }),
    decreases defaults.len(),
{
    if defaults.len() > 0 {
        let init = defaults.drop_last();
        let last = defaults.last();
        assert(named_once(init)) by {
            assert forall|i: int, j: int| 0 <= i < j < init.len() implies (#[trigger] init[i]).0 != (
            #[trigger] init[j]).0 by {
                assert(defaults[i].0 != defaults[j].0);
            }
        }
        law_user_styles_prevail(user, init, name);
        law_user_styles_prevail(user, init, last.0);
        let u = filled_styles(user, init);
        assert(style_named(init, last.0) is None) by {
            lemma_named_stands(init, last.0);
        }
        if style_named(u, last.0) is None {
            lemma_unnamed(u, last.0);
            assert(u.push(last).drop_last() =~= u);
        }
    }
}

proof fn lemma_named_stands(m: Seq<(Seq<char>, Style)>, name: Seq<char>)
    ensures
        style_named(m, name) is Some ==> exists|i: int|
            0 <= i < m.len() && (#[trigger] m[i]).0 == name,
    decreases m.len(),
{
    if m.len() > 0 {
        lemma_named_stands(m.drop_last(), name);
        if m.last().0 == name {
            assert(m[m.len() - 1].0 == name);
        } else if style_named(m, name) is Some {
            let i = choose|i: int|
                0 <= i < m.drop_last().len() && (#[trigger] m.drop_last()[i]).0 == name;
            assert(m[i].0 == name);
        }
    }
}

impl StyleMap {
    /// No name stands twice.
    pub open spec fn wf(&self) -> bool {
        named_once(self@)
    }

    /// No styles.
    pub fn new() -> (r: StyleMap)
        ensures
            r.wf(),
            r@ == Seq::<(Seq<char>, Style)>::empty(),
    {
        let r = StyleMap { entries: Vec::new() };
        proof {
            assert(r@ =~= Seq::<(Seq<char>, Style)>::empty());
        }
        r
    }

    /// The style with this name.
    pub fn get(&self, name: &str) -> (r: Option<Style>)
        ensures
            r == style_named(self@, name@),
    {
        let mut i: usize = self.entries.len();
        proof {
            assert(self@.take(i as int) =~= self@);
        }
        while i > 0
            invariant
                i <= self.entries@.len(),
                style_named(self@, name@) == style_named(self@.take(i as int), name@),
            decreases i,
        {
            proof {
                assert(self@.take(i as int).drop_last() =~= self@.take(i - 1));
                assert(self@.take(i as int).last() == self@[i - 1]);
            }
            if same(self.entries[i - 1].0.as_str(), name) {
                return Some(self.entries[i - 1].1);
            }
            i = i - 1;
        }
        proof {
            assert(self@.take(0) =~= Seq::<(Seq<char>, Style)>::empty());
        }
        None
    }

    /// Lays the styles over the defaults.
    pub fn fill(&mut self, defaults: &StyleMap)
        ensures
            final(self)@ == filled_styles(old(self)@, defaults@),
            old(self).wf() && defaults.wf() ==> final(self).wf(),
    {
        let ghost start = self@;
        let mut i: usize = 0;
        proof {
            assert(defaults@.take(0) =~= Seq::<(Seq<char>, Style)>::empty());
        }
        while i < defaults.entries.len()
            invariant
                i <= defaults.entries@.len(),
                self@ == filled_styles(start, defaults@.take(i as int)),
            decreases defaults.entries@.len() - i,
        {
            let ghost before = self@;
            let ghost ents = self.entries@;
            proof {
                assert(defaults@.take(i + 1).drop_last() =~= defaults@.take(i as int));
                assert(defaults@.take(i + 1).last() == defaults@[i as int]);
            }
            let e = &defaults.entries[i];
            if self.get(e.0.as_str()).is_none() {
                self.entries.push((e.0.clone(), e.1));
                proof {
                    assert(self@ =~= before.push(defaults@[i as int]));
                }
            }
            i = i + 1;
        }
        proof {
            assert(defaults@.take(defaults@.len() as int) =~= defaults@);
            if named_once(start) && named_once(defaults@) {
                law_user_styles_prevail(start, defaults@, Seq::empty());
            }
        }
    }

    /// Gives a name a style, in the place of the one that it had.
    pub fn set(&mut self, name: String, style: Style)
        requires
            old(self).wf(),
        ensures
            final(self).wf(),
            forall|n: Seq<char>| #[trigger]
                style_named(final(self)@, n) == (if n == name@ {
                    Some(style)
                } else {
                    style_named(old(self)@, n)
                }),
    {
        let ghost before = self@;
        let mut i: usize = 0;
        while i < self.entries.len()
            invariant
                i <= self.entries@.len(),
                self@ == before,
                before == old(self)@,
                named_once(before),
                forall|j: int| 0 <= j < i ==> (#[trigger] before[j]).0 != name@,
            decreases self.entries@.len() - i,
        {
            if same(self.entries[i].0.as_str(), name.as_str()) {
                self.entries.set(i, (name, style));
                proof {
                    assert(before[i as int].0 == name@);
                    assert(self@ =~= before.update(i as int, (before[i as int].0, style)));
                    lemma_style_replaced(before, i as int, style);
                }
                return;
            }
            i = i + 1;
        }
        self.entries.push((name, style));
        proof {
            let after = before.push((name@, style));
            assert(self@ =~= after);
            assert(after.drop_last() =~= before);
        }
    }
}

/// An entry with another style changes the style of its name alone.
proof fn lemma_style_replaced(m: Seq<(Seq<char>, Style)>, i: int, style: Style)
    requires
        named_once(m),
        0 <= i < m.len(),
    ensures
        named_once(m.update(i, (m[i].0, style))),
        forall|n: Seq<char>| #[trigger]
            style_named(m.update(i, (m[i].0, style)), n) == (if n == m[i].0 {
                Some(style)
            } else {
                style_named(m, n)
            }),
    decreases m.len(),
{
    let u = m.update(i, (m[i].0, style));
    assert forall|a: int, b: int| 0 <= a < b < u.len() implies (#[trigger] u[a]).0 != (
    #[trigger] u[b]).0 by {
        assert(m[a].0 != m[b].0);
    }
    let init = m.drop_last();
    if i == m.len() - 1 {
        assert(u.drop_last() =~= init);
    } else {
        assert forall|a: int, b: int| 0 <= a < b < init.len() implies (#[trigger] init[a]).0 != (
        #[trigger] init[b]).0 by {
            assert(m[a].0 != m[b].0);
        }
        lemma_style_replaced(init, i, style);
        assert(u.drop_last() =~= init.update(i, (init[i].0, style)));
        assert(m[i].0 != m[m.len() - 1].0);
        assert forall|n: Seq<char>| #[trigger] style_named(u, n) == (if n == m[i].0 {
            Some(style)
        } else {
            style_named(m, n)
        }) by {
            assert(u.last() == m.last());
            assert(style_named(u.drop_last(), n) == style_named(
                init.update(i, (init[i].0, style)),
                n,
            ));
        }
    }
}

/// The styles of every screen.
pub struct Styles {
    pub home: StyleMap,
    pub register: StyleMap,
    pub login: StyleMap,
}

impl Styles {
    /// The styles of a screen.
    pub open spec fn at(&self, mode: Mode) -> Seq<(Seq<char>, Style)> {
        match mode {
            Mode::Home => self.home@,
            Mode::Register => self.register@,
            Mode::Login => self.login@,
        }
    }

    /// No name stands twice on a screen.
    pub open spec fn wf(&self) -> bool {
        self.home.wf() && self.register.wf() && self.login.wf()
    }

    /// No styles.
    pub fn new() -> (r: Styles)
        ensures
            r.wf(),
            forall|m: Mode| #[trigger] r.at(m) == Seq::<(Seq<char>, Style)>::empty(),
    {
        Styles { home: StyleMap::new(), register: StyleMap::new(), login: StyleMap::new() }
    }

    /// Lays the styles over the defaults, screen by screen.
    pub fn merge(&mut self, defaults: &Styles)
        ensures
            forall|m: Mode| #[trigger]
                final(self).at(m) == filled_styles(old(self).at(m), defaults.at(m)),
            old(self).wf() && defaults.wf() ==> final(self).wf(),
    {
        self.home.fill(&defaults.home);
        self.register.fill(&defaults.register);
        self.login.fill(&defaults.login);
    }
}

// ── The configuration ───────────────────────────────────────────────────────

/// The whole configuration.
pub struct Config {
    pub config: AppConfig,
    pub keybindings: KeyBindings,
    pub styles: Styles,
}

/// A path with a leading `~` replaced by the home directory, where that is known.
pub open spec fn expanded(path: Seq<char>, home: Option<Seq<char>>) -> Seq<char> {
    match home {
        Some(h) if path.len() > 0 && path[0] == '~' => h + path.skip(1),
        _ => path,
    }
}

/// Replaces a leading `~` by the home directory, where that is known.
pub fn expand_home(path: &str, home: Option<&str>) -> (r: String)
    ensures
        r@ == expanded(
            path@,
            match home {
                Some(h) => Some(h@),
                None => None,
            },
        ),
{
    let v = chars_of(path);
    match home {
        Some(h) if v.len() > 0 && v[0] == '~' => {
            let rest = string_of(&v, 1, v.len());
            proof {
                assert(path@.skip(1) =~= v@.subrange(1, v@.len() as int));
            }
            joined(h, rest.as_str())
        },
        _ => path.to_owned(),
    }
}

impl Config {
    /// The bindings are valid keymaps.
    pub open spec fn wf(&self) -> bool {
        self.keybindings.wf()
    }

    /// Lays a user's configuration over the defaults: bindings and styles that the
    /// user has not defined come from the defaults, and a leading `~` in the path of
    /// the device identity becomes the home directory.
    pub fn merged(user: Config, defaults: &Config, home: Option<&str>) -> (r: Config)
        requires
            user.wf(),
            defaults.wf(),
        ensures
            r.wf(),
            forall|ctx: KeyContext| #[trigger]
                r.keybindings.at(ctx) == filled_surface(
                    user.keybindings.at(ctx),
                    defaults.keybindings.at(ctx),
                ),
            forall|m: Mode| #[trigger]
                r.styles.at(m) == filled_styles(user.styles.at(m), defaults.styles.at(m)),
            r.config.data_dir == user.config.data_dir,
            r.config.config_dir == user.config.config_dir,
            r.config.server_url == user.config.server_url,
            r.config.icon_type == user.config.icon_type,
            r.config.editing_mode == user.config.editing_mode,
            r.config.device_unlock.enabled == user.config.device_unlock.enabled,
            r.config.device_unlock.recipient == user.config.device_unlock.recipient,
            match user.config.device_unlock.identity {
                Some(p) => r.config.device_unlock.identity matches Some(q) && q@ == expanded(
                    p@,
                    match home {
                        Some(h) => Some(h@),
                        None => None,
                    },
                ),
                None => r.config.device_unlock.identity is None,
            },
    {
        let keybindings = merge_bindings(user.keybindings, &defaults.keybindings);
        let mut styles = user.styles;
        styles.merge(&defaults.styles);
        let identity = match user.config.device_unlock.identity {
            Some(p) => Some(expand_home(p.as_str(), home)),
            None => None,
        };
        Config {
            config: AppConfig {
                data_dir: user.config.data_dir,
                config_dir: user.config.config_dir,
                server_url: user.config.server_url,
                icon_type: user.config.icon_type,
                device_unlock: DeviceUnlockConfig {
                    enabled: user.config.device_unlock.enabled,
                    recipient: user.config.device_unlock.recipient,
                    identity,
                },
                editing_mode: user.config.editing_mode,
            },
            keybindings,
            styles,
        }
    }
}

/// A place where the configuration may lie, and whether it exists.
pub struct Candidate {
    pub path: String,
    pub exists: bool,
}

/// The configuration directory: the one that the environment names, else the one
/// under the home directory if it exists, else the platform's if it exists, else
/// the project's own, else `./.config`.
pub fn choose_config_dir(
    named: Option<String>,
    home: Option<Candidate>,
    base: Option<Candidate>,
    project: Option<String>,
) -> (r: String)
    ensures
        match named {
            Some(p) => r == p,
            None => match home {
                Some(c) if c.exists => r == c.path,
                _ => match base {
                    Some(c) if c.exists => r == c.path,
                    _ => match project {
                        Some(p) => r == p,
                        None => r@ == "./.config"@,
                    },
                },
            },
        },
{
    if let Some(p) = named {
        return p;
    }
    if let Some(c) = home {
        if c.exists {
            return c.path;
        }
    }
    if let Some(c) = base {
        if c.exists {
            return c.path;
        }
    }
    match project {
        Some(p) => p,
        None => "./.config".to_owned(),
    }
}

} // verus!
