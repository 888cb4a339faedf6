//! The data that lists, todos and members are made of.
use vstd::prelude::*;

use crate::text::texts;

verus! {

// ── Identifiers and keys ────────────────────────────────────────────────────

/// The identifier of a list.
#[derive(Clone, Copy, Debug, Eq, Hash)]
pub struct ListId(pub [u8; 16]);

impl PartialEq for ListId {
    fn eq(&self, other: &ListId) -> (r: bool) {
        let mut i: usize = 0;
        while i < 16
            invariant
                i <= 16,
                forall|j: int| 0 <= j < i ==> self.0@[j] == other.0@[j],
            decreases 16 - i,
        {
            if self.0[i] != other.0[i] {
                return false;
            }
            i = i + 1;
        }
        proof {
            assert(self.0@ =~= other.0@);
            assert(self.0 == other.0);
        }
        true
    }
}

impl vstd::std_specs::cmp::PartialEqSpecImpl for ListId {
    open spec fn obeys_eq_spec() -> bool {
        true
    }

    open spec fn eq_spec(&self, other: &ListId) -> bool {
        *self == *other
    }
}

/// The identifier of a member.
#[derive(Clone, Copy, Debug, Eq, Hash)]
pub struct MemberId(pub [u8; 16]);

impl PartialEq for MemberId {
    fn eq(&self, other: &MemberId) -> (r: bool) {
        let mut i: usize = 0;
        while i < 16
            invariant
                i <= 16,
                forall|j: int| 0 <= j < i ==> self.0@[j] == other.0@[j],
            decreases 16 - i,
        {
            if self.0[i] != other.0[i] {
                return false;
            }
            i = i + 1;
        }
        proof {
            assert(self.0@ =~= other.0@);
            assert(self.0 == other.0);
        }
        true
    }
}

impl vstd::std_specs::cmp::PartialEqSpecImpl for MemberId {
    open spec fn obeys_eq_spec() -> bool {
        true
    }

    open spec fn eq_spec(&self, other: &MemberId) -> bool {
        *self == *other
    }
}

/// The identifier that is all zeroes.
pub open spec fn blank_member() -> MemberId {
    choose|m: MemberId| (#[trigger] m.0@) == Seq::new(16, |i: int| 0u8)
}

impl Default for MemberId {
    fn default() -> (r: MemberId)
        ensures
            r == blank_member(),
            r.0@ == Seq::new(16, |i: int| 0u8),
    {
        let r = MemberId([0u8; 16]);
        proof {
            assert(r.0@ =~= Seq::new(16, |i: int| 0u8));
            assert(r.0@ =~= blank_member().0@);
            assert(r.0 == blank_member().0);
        }
        r
    }
}

/// An X25519 public key: what data keys are sealed to.
#[derive(Clone, Copy, Debug, Eq, Hash)]
pub struct X25519Pub(pub [u8; 32]);

impl PartialEq for X25519Pub {
    fn eq(&self, other: &X25519Pub) -> (r: bool) {
        let mut i: usize = 0;
        while i < 32
            invariant
                i <= 32,
                forall|j: int| 0 <= j < i ==> self.0@[j] == other.0@[j],
            decreases 32 - i,
        {
            if self.0[i] != other.0[i] {
                return false;
            }
            i = i + 1;
        }
        proof {
            assert(self.0@ =~= other.0@);
            assert(self.0 == other.0);
        }
        true
    }
}

impl vstd::std_specs::cmp::PartialEqSpecImpl for X25519Pub {
    open spec fn obeys_eq_spec() -> bool {
        true
    }

    open spec fn eq_spec(&self, other: &X25519Pub) -> bool {
        *self == *other
    }
}

/// An Ed25519 public key: what signatures are verified with.
#[derive(Clone, Copy, Debug, Eq, Hash)]
pub struct Ed25519Pub(pub [u8; 32]);

impl PartialEq for Ed25519Pub {
    fn eq(&self, other: &Ed25519Pub) -> (r: bool) {
        let mut i: usize = 0;
        while i < 32
            invariant
                i <= 32,
                forall|j: int| 0 <= j < i ==> self.0@[j] == other.0@[j],
            decreases 32 - i,
        {
            if self.0[i] != other.0[i] {
                return false;
            }
            i = i + 1;
        }
        proof {
            assert(self.0@ =~= other.0@);
            assert(self.0 == other.0);
        }
        true
    }
}

impl vstd::std_specs::cmp::PartialEqSpecImpl for Ed25519Pub {
    open spec fn obeys_eq_spec() -> bool {
        true
    }

    open spec fn eq_spec(&self, other: &Ed25519Pub) -> bool {
        *self == *other
    }
}

/// The generation of a list's data key.
pub type Epoch = u32;

// ── Members ─────────────────────────────────────────────────────────────────

/// What a member may do with a list.
#[derive(Clone, Copy, Debug, PartialEq, Eq, Structural)]
pub enum Role {
    Owner,
    Member,
}

/// A member of a list, with the keys to seal to and to verify with.
#[derive(Clone, Copy, Debug, PartialEq, Eq)]
pub struct Member {
    pub id: MemberId,
    pub identity_pub: X25519Pub,
    pub signing_pub: Ed25519Pub,
    pub role: Role,
}

/// A data key of one epoch, sealed to one member.
#[derive(Debug, PartialEq, Eq)]
pub struct KeySlot {
    pub epoch: Epoch,
    pub member: MemberId,
    pub wrapped_dek: Vec<u8>,
}

/// Who shares a list, and the sealed data keys of its epochs.
#[derive(Debug)]
pub struct ListMetadata {
    pub members: Vec<Member>,
    pub key_slots: Vec<KeySlot>,
    pub current_epoch: Epoch,
}

/// An encrypted and signed update of a list.
#[derive(Debug, PartialEq, Eq)]
pub struct UpdatePayload {
    pub version: u8,
    pub list_id: ListId,
    pub epoch: Epoch,
    pub author: MemberId,
    pub nonce: [u8; 24],
    pub ciphertext: Vec<u8>,
    pub signature: [u8; 64],
}

// ── Priorities ──────────────────────────────────────────────────────────────

/// How urgent a todo is.
#[derive(Clone, Copy, Debug, PartialEq, Eq, Structural)]
pub enum Priority {
    Unset,
    Low,
    Med,
    High,
}

impl Priority {
    /// The rank by which priorities are stored and compared.
    pub open spec fn level(self) -> int {
        match self {
            Priority::Unset => 0,
            Priority::Low => 1,
            Priority::Med => 2,
            Priority::High => 3,
        }
    }

    /// The priority of a stored rank; an unknown rank is no priority.
    pub open spec fn of_level(rank: int) -> Priority {
        if rank == 1 {
            Priority::Low
        } else if rank == 2 {
            Priority::Med
        } else if rank == 3 {
            Priority::High
        } else {
            Priority::Unset
        }
    }

    /// The rank by which priorities are stored and compared.
    pub fn rank(self) -> (r: i64)
        ensures
            r == self.level(),
    {
        match self {
            Priority::Unset => 0,
            Priority::Low => 1,
            Priority::Med => 2,
            Priority::High => 3,
        }
    }

    /// The priority of a stored rank; an unknown rank is no priority.
    pub fn from_rank(rank: i64) -> (r: Priority)
        ensures
            r == Priority::of_level(rank as int),
    {
        if rank == 1 {
            Priority::Low
        } else if rank == 2 {
            Priority::Med
        } else if rank == 3 {
            Priority::High
        } else {
            Priority::Unset
        }
    }

    /// The next higher priority; after the highest comes none.
    pub fn next(self) -> (r: Priority)
        ensures
            r == Priority::of_level((self.level() + 1) % 4),
    {
        match self {
            Priority::Unset => Priority::Low,
            Priority::Low => Priority::Med,
            Priority::Med => Priority::High,
            Priority::High => Priority::Unset,
        }
    }

    /// The next lower priority; before none comes the highest.
    pub fn prev(self) -> (r: Priority)
        ensures
            r == Priority::of_level((self.level() + 3) % 4),
    {
        match self {
            Priority::Unset => Priority::High,
            Priority::Low => Priority::Unset,
            Priority::Med => Priority::Low,
            Priority::High => Priority::Med,
        }
    }

    /// The text of a priority.
    pub open spec fn text(self) -> Seq<char> {
        match self {
            Priority::Unset => "None"@,
            Priority::Low => "Low"@,
            Priority::Med => "Med"@,
            Priority::High => "High"@,
        }
    }

    /// The text of a priority.
    pub fn label(self) -> (r: &'static str)
        ensures
            r@ == self.text(),
    {
        match self {
            Priority::Unset => "None",
            Priority::Low => "Low",
            Priority::Med => "Med",
            Priority::High => "High",
        }
    }
}

/// Storing a priority by its rank and reading it back gives the priority.
pub proof fn law_priority_rank_round_trip(p: Priority)
    ensures
        Priority::of_level(p.level()) == p,
        Priority::of_level((Priority::of_level((p.level() + 1) % 4).level() + 3) % 4) == p,
{
}

// ── Views ───────────────────────────────────────────────────────────────────

/// How lists and todos are sorted.
#[derive(Clone, Copy, Debug, PartialEq, Eq, Structural)]
pub enum SortMode {
    Alphabetical,
    DueDate,
    Priority,
}

impl Default for SortMode {
    fn default() -> (r: SortMode)
        ensures
            r == SortMode::Alphabetical,
    {
        SortMode::Alphabetical
    }
}

impl SortMode {
    /// The mode after this one.
    pub open spec fn after(self) -> SortMode {
        match self {
            SortMode::Alphabetical => SortMode::DueDate,
            SortMode::DueDate => SortMode::Priority,
            SortMode::Priority => SortMode::Alphabetical,
        }
    }

    /// The mode after this one.
    pub fn next(self) -> (r: SortMode)
        ensures
            r == self.after(),
    {
        match self {
            SortMode::Alphabetical => SortMode::DueDate,
            SortMode::DueDate => SortMode::Priority,
            SortMode::Priority => SortMode::Alphabetical,
        }
    }

    /// The text of a sort mode.
    pub open spec fn text(self) -> Seq<char> {
        match self {
            SortMode::Alphabetical => "alphabetical"@,
            SortMode::DueDate => "due date"@,
            SortMode::Priority => "priority"@,
        }
    }

    /// The text of a sort mode.
    pub fn label(self) -> (r: &'static str)
        ensures
            r@ == self.text(),
    {
        match self {
            SortMode::Alphabetical => "alphabetical",
            SortMode::DueDate => "due date",
            SortMode::Priority => "priority",
        }
    }
}

/// A view across all lists.
#[derive(Clone, Copy, Debug, PartialEq, Eq, Structural)]
pub enum MetaList {
    AllTasks,
    DueToday,
}

/// The meta-lists, in the order in which the sidebar shows them.
pub open spec fn metas() -> Seq<MetaList> {
    seq![MetaList::AllTasks, MetaList::DueToday]
}

/// The seconds in a day.
pub const DAY: i64 = 86400;

/// The day, counted from the epoch, of a time in seconds.
pub fn day_of(seconds: i64) -> (r: i64)
    ensures
        r == seconds as int / 86400,
{
    if seconds >= 0 {
        seconds / DAY
    } else {
        let n: i64 = -(seconds + 1);
        -(n / DAY) - 1
    }
}

impl MetaList {
    /// The meta-lists, in the order in which the sidebar shows them.
    pub fn all() -> (r: Vec<MetaList>)
        ensures
            r@ == metas(),
    {
        let mut v: Vec<MetaList> = Vec::new();
        v.push(MetaList::AllTasks);
        v.push(MetaList::DueToday);
        proof {
            assert(v@ =~= metas());
        }
        v
    }

    /// Whether a todo due at `due` belongs in the view at the time `now`.
    pub open spec fn holds(self, due: Option<i64>, now: i64) -> bool {
        match self {
            MetaList::AllTasks => true,
            MetaList::DueToday => due matches Some(d) && d as int / 86400 == now as int / 86400,
        }
    }

    /// Whether a todo due at `due` belongs in the view at the time `now`.
    pub fn contains(self, due: Option<i64>, now: i64) -> (r: bool)
        ensures
            r == self.holds(due, now),
    {
        match self {
            MetaList::AllTasks => true,
            MetaList::DueToday => match due {
                Some(d) => day_of(d) == day_of(now),
                None => false,
            },
        }
    }

    /// The text of a meta-list.
    pub open spec fn text(self) -> Seq<char> {
        match self {
            MetaList::AllTasks => "All Tasks"@,
            MetaList::DueToday => "Due Today"@,
        }
    }

    /// The text of a meta-list.
    pub fn label(self) -> (r: &'static str)
        ensures
            r@ == self.text(),
    {
        match self {
            MetaList::AllTasks => "All Tasks",
            MetaList::DueToday => "Due Today",
        }
    }
}

/// What a pane shows.
#[derive(Clone, Copy, Debug, Eq)]
pub enum ViewTarget {
    List(ListId),
    Meta(MetaList),
}

impl PartialEq for ViewTarget {
    fn eq(&self, other: &ViewTarget) -> (r: bool) {
        match (self, other) {
            (ViewTarget::List(a), ViewTarget::List(b)) => *a == *b,
            (ViewTarget::Meta(a), ViewTarget::Meta(b)) => *a == *b,
            _ => false,
        }
    }
}

impl vstd::std_specs::cmp::PartialEqSpecImpl for ViewTarget {
    open spec fn obeys_eq_spec() -> bool {
        true
    }

    open spec fn eq_spec(&self, other: &ViewTarget) -> bool {
        *self == *other
    }
}

// ── Todos ───────────────────────────────────────────────────────────────────

/// A step of a todo.
#[derive(Debug, PartialEq, Eq)]
pub struct Subtask {
    pub id: String,
    pub title: String,
    pub done: bool,
}

/// The contents of a subtask.
#[verifier::ext_equal]
pub struct SubtaskView {
    pub id: Seq<char>,
    pub title: Seq<char>,
    pub done: bool,
}

impl View for Subtask {
    type V = SubtaskView;

    open spec fn view(&self) -> SubtaskView {
        SubtaskView { id: self.id@, title: self.title@, done: self.done }
    }
}

/// A todo, as the lists hold it. `due` is a time in seconds.
#[derive(Debug, PartialEq, Eq)]
pub struct TodoItem {
    pub id: String,
    pub title: String,
    pub notes: String,
    pub due: Option<i64>,
    pub priority: Priority,
    pub done: bool,
    pub tags: Vec<String>,
    pub subtasks: Vec<Subtask>,
    pub order_key: String,
}

/// The contents of a todo.
#[verifier::ext_equal]
pub struct TodoView {
    pub id: Seq<char>,
    pub title: Seq<char>,
    pub notes: Seq<char>,
    pub due: Option<i64>,
    pub priority: Priority,
    pub done: bool,
    pub tags: Seq<Seq<char>>,
    pub subtasks: Seq<SubtaskView>,
    pub order_key: Seq<char>,
}

/// The contents of a list of subtasks.
pub open spec fn subtask_views(v: Seq<Subtask>) -> Seq<SubtaskView> {
    v.map_values(|s: Subtask| s@)
}

impl View for TodoItem {
    type V = TodoView;

    open spec fn view(&self) -> TodoView {
        TodoView {
            id: self.id@,
            title: self.title@,
            notes: self.notes@,
            due: self.due,
            priority: self.priority,
            done: self.done,
            tags: texts(self.tags@),
            subtasks: subtask_views(self.subtasks@),
            order_key: self.order_key@,
        }
    }
}

/// A copy of a list of texts.
pub fn copy_texts(v: &Vec<String>) -> (r: Vec<String>)
    ensures
        texts(r@) == texts(v@),
{
    let mut out: Vec<String> = Vec::new();
    let mut i: usize = 0;
    while i < v.len()
        invariant
            i <= v@.len(),
            out@ == v@.take(i as int),
        decreases v@.len() - i,
    {
        out.push(v[i].clone());
        proof {
            assert(v@.take(i as int).push(v@[i as int]) =~= v@.take(i + 1));
        }
        i = i + 1;
    }
    proof {
        assert(v@.take(v@.len() as int) =~= v@);
    }
    out
}

impl Subtask {
    /// A copy of the subtask.
    pub fn copy(&self) -> (r: Subtask)
        ensures
            r == *self,
    {
        Subtask { id: self.id.clone(), title: self.title.clone(), done: self.done }
    }
}

impl TodoItem {
    /// A copy of the todo.
    pub fn copy(&self) -> (r: TodoItem)
        ensures
            r@ == self@,
    {
        let mut subs: Vec<Subtask> = Vec::new();
        let mut i: usize = 0;
        while i < self.subtasks.len()
            invariant
                i <= self.subtasks@.len(),
                subs@ == self.subtasks@.take(i as int),
            decreases self.subtasks@.len() - i,
        {
            subs.push(self.subtasks[i].copy());
            proof {
                assert(self.subtasks@.take(i as int).push(self.subtasks@[i as int])
                    =~= self.subtasks@.take(i + 1));
            }
            i = i + 1;
        }
        proof {
            assert(self.subtasks@.take(self.subtasks@.len() as int) =~= self.subtasks@);
        }
        TodoItem {
            id: self.id.clone(),
            title: self.title.clone(),
            notes: self.notes.clone(),
            due: self.due,
            priority: self.priority,
            done: self.done,
            tags: copy_texts(&self.tags),
            subtasks: subs,
            order_key: self.order_key.clone(),
        }
    }
}

/// What a form says of a todo.
#[derive(Debug, PartialEq, Eq)]
pub struct TodoItemInput {
    pub title: String,
    pub notes: String,
    pub due: Option<i64>,
    pub priority: Priority,
    pub tags: Vec<String>,
}

/// The contents of what a form says of a todo.
#[verifier::ext_equal]
pub struct InputView {
    pub title: Seq<char>,
    pub notes: Seq<char>,
    pub due: Option<i64>,
    pub priority: Priority,
    pub tags: Seq<Seq<char>>,
}

impl View for TodoItemInput {
    type V = InputView;

    open spec fn view(&self) -> InputView {
        InputView {
            title: self.title@,
            notes: self.notes@,
            due: self.due,
            priority: self.priority,
            tags: texts(self.tags@),
        }
    }
}

impl TodoItemInput {
    /// A copy of the input.
    pub fn copy(&self) -> (r: TodoItemInput)
        ensures
            r@ == self@,
    {
        TodoItemInput {
            title: self.title.clone(),
            notes: self.notes.clone(),
            due: self.due,
            priority: self.priority,
            tags: copy_texts(&self.tags),
        }
    }
}

impl Default for TodoItemInput {
    fn default() -> (r: TodoItemInput)
        ensures
            r@ == (InputView {
                title: Seq::empty(),
                notes: Seq::empty(),
                due: None,
                priority: Priority::Unset,
                tags: Seq::empty(),
            }),
    {
        let r = TodoItemInput {
            title: String::new(),
            notes: String::new(),
            due: None,
            priority: Priority::Unset,
            tags: Vec::new(),
        };
        proof {
            assert(r.title@ =~= Seq::<char>::empty());
            assert(r.notes@ =~= Seq::<char>::empty());
            assert(texts(r.tags@) =~= Seq::<Seq<char>>::empty());
        }
        r
    }
}

/// A list as the sidebar shows it, with what its open todos add up to.
#[derive(Debug, PartialEq, Eq)]
pub struct ListSummary {
    pub id: ListId,
    pub name: String,
    pub role: Role,
    pub open_count: usize,
    pub next_due: Option<i64>,
    pub top_priority: Priority,
}

/// The contents of a list summary.
#[verifier::ext_equal]
pub struct SummaryView {
    pub id: ListId,
    pub name: Seq<char>,
    pub role: Role,
    pub open_count: int,
    pub next_due: Option<i64>,
    pub top_priority: Priority,
}

impl View for ListSummary {
    type V = SummaryView;

    open spec fn view(&self) -> SummaryView {
        SummaryView {
            id: self.id,
            name: self.name@,
            role: self.role,
            open_count: self.open_count as int,
            next_due: self.next_due,
            top_priority: self.top_priority,
        }
    }
}

} // verus!
