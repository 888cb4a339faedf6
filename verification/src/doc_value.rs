//! The values of a document: what a list's document can hold, and how its items are
//! read as todos.
use vstd::prelude::*;
use vstd::string::*;

use crate::dates::{in_calendar, pad, padded, Date};
use crate::model::{Priority, Subtask, SubtaskView, TodoItem, TodoView};
use crate::text::{same, texts};

verus! {

// ── Values ──────────────────────────────────────────────────────────────────

/// What a container in a document is.
pub ghost enum Kind {
    Table,
    List,
    MovableList,
    Other,
}

/// A value in a document. A container holds the value that it stands for.
pub ghost enum Datum {
    Null,
    Bool(bool),
    Int(i64),
    Text(Seq<char>),
    List(Seq<Datum>),
    Table(Map<Seq<char>, Datum>),
    /// A number that is not a 64-bit integer.
    Other,
    Container(Kind, Box<Datum>),
}

/// The value of a map container with these entries.
pub open spec fn held_map(m: Map<Seq<char>, Datum>) -> Datum {
    Datum::Container(Kind::Table, Box::new(Datum::Table(m)))
}

/// The value of a list container with these items.
pub open spec fn held_list(kind: Kind, s: Seq<Datum>) -> Datum {
    Datum::Container(kind, Box::new(Datum::List(s)))
}

/// The entries of a map container; any other value has none.
pub open spec fn live_map(v: Datum) -> Option<Map<Seq<char>, Datum>> {
    match v {
        Datum::Container(Kind::Table, b) => match *b {
            Datum::Table(m) => Some(m),
            _ => None,
        },
        _ => None,
    }
}

/// The items of a list container of a kind; any other value has none.
pub open spec fn live_list(v: Datum, kind: Kind) -> Option<Seq<Datum>> {
    match v {
        Datum::Container(k, b) => match *b {
            Datum::List(s) => if k == kind {
                Some(s)
            } else {
                None
            },
            _ => None,
        },
        _ => None,
    }
}

/// A value with every container replaced by what it holds.
pub open spec fn bare(v: Datum) -> Datum
    decreases v,
{
    match v {
        Datum::List(s) => Datum::List(
            Seq::new(
                s.len(),
                |i: int|
                    if 0 <= i < s.len() {
                        bare(s[i])
                    } else {
                        Datum::Null
                    },
            ),
        ),
        Datum::Table(m) => Datum::Table(
            Map::new(
                |k: Seq<char>| m.contains_key(k),
                |k: Seq<char>|
                    if m.contains_key(k) {
                        bare(m[k])
                    } else {
                        Datum::Null
                    },
            ),
        ),
        Datum::Container(_, b) => bare(*b),
        _ => v,
    }
}

/// Values with every container replaced by what it holds.
pub open spec fn bare_all(s: Seq<Datum>) -> Seq<Datum> {
    s.map_values(|v: Datum| bare(v))
}

// ── Plain values ────────────────────────────────────────────────────────────

/// A value that was read out of a document.
#[derive(Debug)]
pub enum Plain {
    Null,
    Bool(bool),
    Int(i64),
    Text(String),
    List(Vec<Plain>),
    Table(Vec<(String, Plain)>),
    /// A number that is not a 64-bit integer.
    Other,
}

/// The entries of a table; where a name comes twice, the last counts.
pub open spec fn entries(v: Seq<(String, Plain)>) -> Map<Seq<char>, Datum>
    decreases v,
{
    if v.len() == 0 {
        Map::empty()
    } else {
        entries(v.drop_last()).insert(v.last().0@, v.last().1.value())
    }
}

impl Plain {
    /// The value.
    pub open spec fn value(self) -> Datum
        decreases self,
    {
        match self {
            Plain::Null => Datum::Null,
            Plain::Bool(b) => Datum::Bool(b),
            Plain::Int(i) => Datum::Int(i),
            Plain::Text(s) => Datum::Text(s@),
            Plain::List(v) => Datum::List(
                Seq::new(
                    v@.len(),
                    |i: int|
                        if 0 <= i < v@.len() {
                            v@[i].value()
                        } else {
                            Datum::Null
                        },
                ),
            ),
            Plain::Table(v) => Datum::Table(entries(v@)),
            Plain::Other => Datum::Other,
        }
    }
}

/// The values.
pub open spec fn plain_values(v: Seq<Plain>) -> Seq<Datum> {
    v.map_values(|p: Plain| p.value())
}

// ── Reading todos ───────────────────────────────────────────────────────────

/// A field of a record: an entry by its name, or an item by its position.
pub open spec fn field(v: Datum, name: Seq<char>, pos: int) -> Option<Datum> {
    match v {
        Datum::Table(m) => if m.contains_key(name) {
            Some(m[name])
        } else {
            None
        },
        Datum::List(s) => if 0 <= pos < s.len() {
            Some(s[pos])
        } else {
            None
        },
        _ => None,
    }
}

/// Whether a value can be a record of `n` fields.
pub open spec fn is_record(v: Datum, n: int) -> bool {
    match v {
        Datum::Table(_) => true,
        Datum::List(s) => s.len() <= n,
        _ => false,
    }
}

/// A text field; empty where it is missing, and nothing where it is no text.
pub open spec fn text_field(v: Option<Datum>) -> Option<Seq<char>> {
    match v {
        None => Some(Seq::empty()),
        Some(Datum::Text(s)) => Some(s),
        _ => None,
    }
}

/// A number; zero where it is missing, and nothing where it is no number.
pub open spec fn int_field(v: Option<Datum>) -> Option<i64> {
    match v {
        None => Some(0i64),
        Some(Datum::Int(i)) => Some(i),
        _ => None,
    }
}

/// A mark; unset where it is missing, and nothing where it is no mark.
pub open spec fn bool_field(v: Option<Datum>) -> Option<bool> {
    match v {
        None => Some(false),
        Some(Datum::Bool(b)) => Some(b),
        _ => None,
    }
}

/// A time that may be missing; nothing where it is no number. A time beyond the
/// calendar counts as missing.
pub open spec fn time_field(v: Option<Datum>) -> Option<Option<i64>> {
    match v {
        None | Some(Datum::Null) => Some(None),
        Some(Datum::Int(i)) => if in_calendar(i) {
            Some(Some(i))
        } else {
            Some(None)
        },
        _ => None,
    }
}

/// The texts of values that are all texts.
pub open spec fn all_texts(s: Seq<Datum>) -> Option<Seq<Seq<char>>>
    decreases s.len(),
{
    if s.len() == 0 {
        Some(Seq::empty())
    } else {
        match (all_texts(s.drop_last()), s.last()) {
            (Some(t), Datum::Text(x)) => Some(t.push(x)),
            _ => None,
        }
    }
}

/// A list of texts; empty where it is missing, and nothing where it is anything else.
pub open spec fn texts_field(v: Option<Datum>) -> Option<Seq<Seq<char>>> {
    match v {
        None => Some(Seq::empty()),
        Some(Datum::List(s)) => all_texts(s),
        _ => None,
    }
}

/// A subtask out of a value.
pub open spec fn subtask_of(v: Datum) -> Option<SubtaskView> {
    let id = text_field(field(v, "id"@, 0));
    let title = text_field(field(v, "title"@, 1));
    let done = bool_field(field(v, "done"@, 2));
    if is_record(v, 3) && id is Some && title is Some && done is Some {
        Some(SubtaskView { id: id->0, title: title->0, done: done->0 })
    } else {
        None
    }
}

/// The subtasks of values that are all subtasks.
pub open spec fn all_subtasks(s: Seq<Datum>) -> Option<Seq<SubtaskView>>
    decreases s.len(),
{
    if s.len() == 0 {
        Some(Seq::empty())
    } else {
        match (all_subtasks(s.drop_last()), subtask_of(s.last())) {
            (Some(t), Some(x)) => Some(t.push(x)),
            _ => None,
        }
    }
}

/// A list of subtasks; empty where it is missing, and nothing where it is anything
/// else.
pub open spec fn subtasks_field(v: Option<Datum>) -> Option<Seq<SubtaskView>> {
    match v {
        None => Some(Seq::empty()),
        Some(Datum::List(s)) => all_subtasks(s),
        _ => None,
    }
}

/// The todo at a position, out of a value. Its key for the order is the position, in at
/// least eight digits.
pub open spec fn todo_of(v: Datum, position: nat) -> Option<TodoView> {
    let id = text_field(field(v, "id"@, 0));
    let title = text_field(field(v, "title"@, 1));
    let notes = text_field(field(v, "notes"@, 2));
    let due = time_field(field(v, "due"@, 3));
    let priority = int_field(field(v, "priority"@, 4));
    let done = bool_field(field(v, "done"@, 5));
    let tags = texts_field(field(v, "tags"@, 6));
    let subtasks = subtasks_field(field(v, "subtasks"@, 7));
    if is_record(v, 8) && id is Some && title is Some && notes is Some && due is Some && priority
        is Some && done is Some && tags is Some && subtasks is Some {
        Some(
            TodoView {
                id: id->0,
                title: title->0,
                notes: notes->0,
                due: due->0,
                priority: Priority::of_level((priority->0) as int),
                done: done->0,
                tags: tags->0,
                subtasks: subtasks->0,
                order_key: padded(position, 8),
            },
        )
    } else {
        None
    }
}

/// The todos of values that are all todos.
pub open spec fn all_todos(s: Seq<Datum>) -> Option<Seq<TodoView>>
    decreases s.len(),
{
    if s.len() == 0 {
        Some(Seq::empty())
    } else {
        match (all_todos(s.drop_last()), todo_of(s.last(), (s.len() - 1) as nat)) {
            (Some(t), Some(x)) => Some(t.push(x)),
            _ => None,
        }
    }
}

/// The todos in values; where one of them is no todo, there are none at all.
pub open spec fn projected(s: Seq<Datum>) -> Seq<TodoView> {
    match all_todos(s) {
        Some(t) => t,
        None => Seq::empty(),
    }
}

/// What an optional value is.
pub open spec fn opt_value(p: Option<&Plain>) -> Option<Datum> {
    match p {
        Some(q) => Some(q.value()),
        None => None,
    }
}

impl Plain {
    /// A field of a record.
    pub fn field<'a>(&'a self, name: &str, pos: usize) -> (r: Option<&'a Plain>)
        ensures
            opt_value(r) == field(self.value(), name@, pos as int),
    {
        match self {
            Plain::Table(v) => {
                proof {
                    assert(v@.take(0) =~= Seq::empty());
                }
                let n: usize = v.len();
                let mut found: Option<usize> = None;
                let mut i: usize = 0;
                while i < n
                    invariant
                        i <= n,
                        n == v@.len(),
                        match found {
                            Some(k) => k < i && entries(v@.take(i as int)).contains_key(name@)
                                && entries(v@.take(i as int))[name@] == v@[k as int].1.value(),
                            None => !entries(v@.take(i as int)).contains_key(name@),
                        },
                    decreases n - i,
                {
                    proof {
                        assert(v@.take(i + 1).drop_last() =~= v@.take(i as int));
                        assert(v@.take(i + 1).last() == v@[i as int]);
                    }
                    if same(v[i].0.as_str(), name) {
                        found = Some(i);
                    }
                    i = i + 1;
                }
                proof {
                    assert(v@.take(n as int) =~= v@);
                }
                match found {
                    Some(k) => Some(&v[k].1),
                    None => None,
                }
            },
            Plain::List(v) => {
                if pos < v.len() {
                    Some(&v[pos])
                } else {
                    None
                }
            },
            _ => None,
        }
    }

    /// Whether the value can be a record of `n` fields.
    pub fn record(&self, n: usize) -> (r: bool)
        ensures
            r == is_record(self.value(), n as int),
    {
        match self {
            Plain::Table(_) => true,
            Plain::List(v) => v.len() <= n,
            _ => false,
        }
    }
}

fn read_text(p: Option<&Plain>) -> (r: Option<String>)
    ensures
        crate::keymap::opt_text(r) == text_field(opt_value(p)),
{
    match p {
        None => {
            let s = String::new();
            proof {
                assert(s@ =~= Seq::empty());
            }
            Some(s)
        },
        Some(Plain::Text(s)) => Some(s.clone()),
        _ => None,
    }
}

fn read_int(p: Option<&Plain>) -> (r: Option<i64>)
    ensures
        r == int_field(opt_value(p)),
{
    match p {
        None => Some(0),
        Some(Plain::Int(i)) => Some(*i),
        _ => None,
    }
}

fn read_bool(p: Option<&Plain>) -> (r: Option<bool>)
    ensures
        r == bool_field(opt_value(p)),
{
    match p {
        None => Some(false),
        Some(Plain::Bool(b)) => Some(*b),
        _ => None,
    }
}

fn read_time(p: Option<&Plain>) -> (r: Option<Option<i64>>)
    ensures
        r == time_field(opt_value(p)),
{
    match p {
        None => Some(None),
        Some(Plain::Null) => Some(None),
        Some(Plain::Int(i)) => match Date::from_seconds(*i) {
            Some(_) => Some(Some(*i)),
            None => Some(None),
        },
        _ => None,
    }
}

/// What an optional list of texts holds.
pub open spec fn opt_texts(v: Option<Vec<String>>) -> Option<Seq<Seq<char>>> {
    match v {
        Some(x) => Some(texts(x@)),
        None => None,
    }
}

/// No list of texts starts with one that has none.
proof fn lemma_texts_prefix(s: Seq<Datum>, n: int)
    requires
        0 <= n <= s.len(),
        all_texts(s.take(n)) is None,
    ensures
        all_texts(s) is None,
    decreases s.len() - n,
{
    if n < s.len() {
        assert(s.take(n + 1).drop_last() =~= s.take(n));
        lemma_texts_prefix(s, n + 1);
    } else {
        assert(s.take(n) =~= s);
    }
}

fn read_texts(p: Option<&Plain>) -> (r: Option<Vec<String>>)
    ensures
        opt_texts(r) == texts_field(opt_value(p)),
{
    match p {
        None => {
            let v: Vec<String> = Vec::new();
            proof {
                assert(texts(v@) =~= Seq::empty());
            }
            Some(v)
        },
        Some(Plain::List(v)) => {
            let ghost all = plain_values(v@);
            proof {
                lemma_list_value(v);
                assert(all.take(0) =~= Seq::empty());
            }
            let n: usize = v.len();
            let mut out: Vec<String> = Vec::new();
            proof {
                assert(texts(out@) =~= Seq::empty());
            }
            let mut i: usize = 0;
            while i < n
                invariant
                    i <= n,
                    n == v@.len(),
                    all == plain_values(v@),
                    texts_field(opt_value(p)) == all_texts(all),
                    all_texts(all.take(i as int)) == Some(texts(out@)),
                decreases n - i,
            {
                proof {
                    assert(all.take(i + 1).drop_last() =~= all.take(i as int));
                    assert(all.take(i + 1).last() == v@[i as int].value());
                }
                match &v[i] {
                    Plain::Text(s) => {
                        let ghost before = out@;
                        let t = s.clone();
                        out.push(t);
                        proof {
                            assert(texts(out@) =~= texts(before).push(t@));
                        }
                    },
                    _ => {
                        proof {
                            lemma_texts_prefix(all, i + 1);
                        }
                        return None;
                    },
                }
                i = i + 1;
            }
            proof {
                assert(all.take(n as int) =~= all);
            }
            Some(out)
        },
        _ => None,
    }
}

/// The value of a list is the list of the values.
pub proof fn lemma_list_value(v: &Vec<Plain>)
    ensures
        Plain::List(*v).value() == Datum::List(plain_values(v@)),
{
    let x = Plain::List(*v).value();
    assert(x is List);
    assert(x->List_0 =~= plain_values(v@));
}

/// What an optional subtask holds.
pub open spec fn opt_subtask(s: Option<Subtask>) -> Option<SubtaskView> {
    match s {
        Some(x) => Some(x@),
        None => None,
    }
}

fn read_subtask(p: &Plain) -> (r: Option<Subtask>)
    ensures
        opt_subtask(r) == subtask_of(p.value()),
{
    if !p.record(3) {
        return None;
    }
    let id = read_text(p.field("id", 0));
    let title = read_text(p.field("title", 1));
    let done = read_bool(p.field("done", 2));
    match (id, title, done) {
        (Some(id), Some(title), Some(done)) => Some(Subtask { id, title, done }),
        _ => None,
    }
}

/// What an optional list of subtasks holds.
pub open spec fn opt_subtasks(v: Option<Vec<Subtask>>) -> Option<Seq<SubtaskView>> {
    match v {
        Some(x) => Some(crate::model::subtask_views(x@)),
        None => None,
    }
}

/// No list of subtasks starts with one that has none.
proof fn lemma_subtasks_prefix(s: Seq<Datum>, n: int)
    requires
        0 <= n <= s.len(),
        all_subtasks(s.take(n)) is None,
    ensures
        all_subtasks(s) is None,
    decreases s.len() - n,
{
    if n < s.len() {
        assert(s.take(n + 1).drop_last() =~= s.take(n));
        lemma_subtasks_prefix(s, n + 1);
    } else {
        assert(s.take(n) =~= s);
    }
}

fn read_subtasks(p: Option<&Plain>) -> (r: Option<Vec<Subtask>>)
    ensures
        opt_subtasks(r) == subtasks_field(opt_value(p)),
{
    match p {
        None => {
            let v: Vec<Subtask> = Vec::new();
            proof {
                assert(crate::model::subtask_views(v@) =~= Seq::empty());
            }
            Some(v)
        },
        Some(Plain::List(v)) => {
            let ghost all = plain_values(v@);
            proof {
                lemma_list_value(v);
                assert(all.take(0) =~= Seq::empty());
            }
            let n: usize = v.len();
            let mut out: Vec<Subtask> = Vec::new();
            proof {
                assert(crate::model::subtask_views(out@) =~= Seq::empty());
            }
            let mut i: usize = 0;
            while i < n
                invariant
                    i <= n,
                    n == v@.len(),
                    all == plain_values(v@),
                    subtasks_field(opt_value(p)) == all_subtasks(all),
                    all_subtasks(all.take(i as int)) == Some(crate::model::subtask_views(out@)),
                decreases n - i,
            {
                proof {
                    assert(all.take(i + 1).drop_last() =~= all.take(i as int));
                    assert(all.take(i + 1).last() == v@[i as int].value());
                }
                match read_subtask(&v[i]) {
                    Some(x) => {
                        let ghost before = out@;
                        let ghost y = x@;
                        out.push(x);
                        proof {
                            assert(crate::model::subtask_views(out@)
                                =~= crate::model::subtask_views(before).push(y));
                        }
                    },
                    None => {
                        proof {
                            lemma_subtasks_prefix(all, i + 1);
                        }
                        return None;
                    },
                }
                i = i + 1;
            }
            proof {
                assert(all.take(n as int) =~= all);
            }
            Some(out)
        },
        _ => None,
    }
}

/// What an optional todo holds.
pub open spec fn opt_todo(t: Option<TodoItem>) -> Option<TodoView> {
    match t {
        Some(x) => Some(x@),
        None => None,
    }
}

/// Reads the todo at a position out of a value.
pub fn into_item(p: &Plain, position: usize) -> (r: Option<TodoItem>)
    ensures
        opt_todo(r) == todo_of(p.value(), position as nat),
{
    if !p.record(8) {
        return None;
    }
    let id = read_text(p.field("id", 0));
    let title = read_text(p.field("title", 1));
    let notes = read_text(p.field("notes", 2));
    let due = read_time(p.field("due", 3));
    let priority = read_int(p.field("priority", 4));
    let done = read_bool(p.field("done", 5));
    let tags = read_texts(p.field("tags", 6));
    let subtasks = read_subtasks(p.field("subtasks", 7));
    match (id, title, notes, due, priority, done, tags, subtasks) {
        (
            Some(id),
            Some(title),
            Some(notes),
            Some(due),
            Some(priority),
            Some(done),
            Some(tags),
            Some(subtasks),
        ) => Some(
            TodoItem {
                id,
                title,
                notes,
                due,
                priority: Priority::from_rank(priority),
                done,
                tags,
                subtasks,
                order_key: pad(position as u64, 8),
            },
        ),
        _ => None,
    }
}

/// What todos hold.
pub open spec fn todo_views(v: Seq<TodoItem>) -> Seq<TodoView> {
    v.map_values(|t: TodoItem| t@)
}

/// Among values one of which is no todo, there are no todos at all.
proof fn lemma_todos_prefix(s: Seq<Datum>, n: int)
    requires
        0 <= n <= s.len(),
        all_todos(s.take(n)) is None,
    ensures
        all_todos(s) is None,
    decreases s.len() - n,
{
    if n < s.len() {
        assert(s.take(n + 1).drop_last() =~= s.take(n));
        lemma_todos_prefix(s, n + 1);
    } else {
        assert(s.take(n) =~= s);
    }
}

/// Reads the todos out of values; where one of them is no todo, there are none at all.
pub fn project(v: &Vec<Plain>) -> (r: Vec<TodoItem>)
    ensures
        todo_views(r@) == projected(plain_values(v@)),
{
    let ghost all = plain_values(v@);
    let n: usize = v.len();
    let mut out: Vec<TodoItem> = Vec::new();
    proof {
        assert(all.take(0) =~= Seq::empty());
        assert(todo_views(out@) =~= Seq::empty());
    }
    let mut i: usize = 0;
    while i < n
        invariant
            i <= n,
            n == v@.len(),
            all == plain_values(v@),
            all_todos(all.take(i as int)) == Some(todo_views(out@)),
        decreases n - i,
    {
        proof {
            assert(all.take(i + 1).drop_last() =~= all.take(i as int));
            assert(all.take(i + 1).last() == v@[i as int].value());
        }
        match into_item(&v[i], i) {
            Some(x) => {
                let ghost before = out@;
                let ghost y = x@;
                out.push(x);
                proof {
                    assert(todo_views(out@) =~= todo_views(before).push(y));
                }
            },
            None => {
                proof {
                    lemma_todos_prefix(all, i + 1);
                }
                let none: Vec<TodoItem> = Vec::new();
                proof {
                    assert(todo_views(none@) =~= Seq::empty());
                }
                return none;
            },
        }
        i = i + 1;
    }
    proof {
        assert(all.take(n as int) =~= all);
    }
    out
}

} // verus!
