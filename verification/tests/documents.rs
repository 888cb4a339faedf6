use todoers::dates::Date;
use todoers::doc_value::{into_item, project, Plain};
use todoers::list_doc::{DocError, TodoDoc};
use todoers::model::{Priority, TodoItemInput};

fn input(title: &str) -> TodoItemInput {
    TodoItemInput { title: title.to_string(), ..Default::default() }
}

fn titles(doc: &TodoDoc) -> Vec<String> {
    doc.items().into_iter().map(|i| i.title).collect()
}

fn at(year: i32, month: u8, day: u8, hour: i64) -> i64 {
    Date::from_calendar_date(year, month, day).unwrap().midnight() + hour * 3600
}

#[test]
fn empty_doc_has_no_items_and_blank_title() {
    let doc = TodoDoc::new();
    assert_eq!(doc.title(), "");
    assert!(doc.items().is_empty());
}

#[test]
fn add_and_read_back_full_item() {
    let mut doc = TodoDoc::new();
    doc.set_title("Groceries").unwrap();
    let id = doc
        .add_item(&TodoItemInput {
            title: "Milk".into(),
            notes: "2%".into(),
            due: Some(at(2026, 6, 20, 9)),
            priority: Priority::High,
            tags: vec!["dairy".into(), "fridge".into()],
        })
        .unwrap();

    assert_eq!(doc.title(), "Groceries");
    let items = doc.items();
    assert_eq!(items.len(), 1);
    let it = &items[0];
    assert_eq!(it.id, id);
    assert_eq!(it.title, "Milk");
    assert_eq!(it.notes, "2%");
    assert_eq!(it.priority, Priority::High);
    assert!(!it.done);
    assert_eq!(it.due, Some(at(2026, 6, 20, 9)));
    assert_eq!(it.tags, vec!["dairy", "fridge"]);
}

#[test]
fn toggle_priority_due_and_update() {
    let mut doc = TodoDoc::new();
    let id = doc.add_item(&input("Task")).unwrap();

    doc.toggle_done(&id).unwrap();
    assert!(doc.items()[0].done);
    doc.toggle_done(&id).unwrap();
    assert!(!doc.items()[0].done);

    doc.set_priority(&id, Priority::Med).unwrap();
    assert_eq!(doc.items()[0].priority, Priority::Med);

    doc.set_due(&id, Some(at(2026, 7, 1, 0))).unwrap();
    assert_eq!(doc.items()[0].due, Some(at(2026, 7, 1, 0)));
    doc.set_due(&id, None).unwrap();
    assert_eq!(doc.items()[0].due, None);

    doc.update_item(
        &id,
        &TodoItemInput {
            title: "Renamed".into(),
            notes: "new notes".into(),
            priority: Priority::Low,
            tags: vec!["x".into()],
            due: None,
        },
    )
    .unwrap();
    let it = &doc.items()[0];
    assert_eq!(it.title, "Renamed");
    assert_eq!(it.notes, "new notes");
    assert_eq!(it.priority, Priority::Low);
    assert_eq!(it.tags, vec!["x"]);
}

#[test]
fn tags_add_and_remove() {
    let mut doc = TodoDoc::new();
    let id = doc.add_item(&input("t")).unwrap();
    doc.add_tag(&id, "a").unwrap();
    doc.add_tag(&id, "b").unwrap();
    assert_eq!(doc.items()[0].tags, vec!["a", "b"]);
    doc.remove_tag(&id, "a").unwrap();
    assert_eq!(doc.items()[0].tags, vec!["b"]);
}

#[test]
fn subtasks_add_toggle_remove() {
    let mut doc = TodoDoc::new();
    let id = doc.add_item(&input("parent")).unwrap();
    let s1 = doc.add_subtask(&id, "step 1").unwrap();
    let _s2 = doc.add_subtask(&id, "step 2").unwrap();

    let subs = &doc.items()[0].subtasks;
    assert_eq!(subs.len(), 2);
    assert_eq!(subs[0].title, "step 1");
    assert!(!subs[0].done);

    doc.toggle_subtask(&id, &s1).unwrap();
    assert!(doc.items()[0].subtasks[0].done);

    doc.remove_subtask(&id, &s1).unwrap();
    let subs = &doc.items()[0].subtasks;
    assert_eq!(subs.len(), 1);
    assert_eq!(subs[0].title, "step 2");
}

#[test]
fn move_and_remove_reorder() {
    let mut doc = TodoDoc::new();
    let a = doc.add_item(&input("a")).unwrap();
    let _b = doc.add_item(&input("b")).unwrap();
    let _c = doc.add_item(&input("c")).unwrap();

    // a,b,c -> move a to end -> b,c,a
    doc.move_item(0, 2).unwrap();
    assert_eq!(titles(&doc), vec!["b", "c", "a"]);

    doc.remove_item(&a).unwrap();
    assert_eq!(titles(&doc), vec!["b", "c"]);
}

#[test]
fn snapshot_round_trips() {
    let mut doc = TodoDoc::new();
    doc.set_title("L").unwrap();
    doc.add_item(&input("one")).unwrap();
    doc.add_item(&input("two")).unwrap();

    let snap = doc.export_snapshot().unwrap();
    let restored = TodoDoc::from_snapshot(&snap).unwrap();
    assert_eq!(restored.title(), "L");
    assert_eq!(titles(&restored), vec!["one", "two"]);
}

#[test]
fn concurrent_updates_merge() {
    // Two replicas of the same list start from a shared base, edit
    // independently, then exchange updates — both converge with both items.
    let mut base = TodoDoc::new();
    base.set_title("shared").unwrap();
    let snap = base.export_snapshot().unwrap();

    let mut alice = TodoDoc::from_snapshot(&snap).unwrap();
    let mut bob = TodoDoc::from_snapshot(&snap).unwrap();

    let a_vv = alice.version();
    let b_vv = bob.version();
    alice.add_item(&input("from-alice")).unwrap();
    bob.add_item(&input("from-bob")).unwrap();

    let a_delta = alice.export_updates_from(&a_vv).unwrap();
    let b_delta = bob.export_updates_from(&b_vv).unwrap();
    alice.import(&b_delta).unwrap();
    bob.import(&a_delta).unwrap();

    let mut a_titles = titles(&alice);
    let mut b_titles = titles(&bob);
    a_titles.sort();
    b_titles.sort();
    assert_eq!(a_titles, vec!["from-alice", "from-bob"]);
    assert_eq!(a_titles, b_titles, "replicas converge");
}

/// Moving a todo away and back leaves the order as it was.
#[test]
fn moved_there_and_back() {
    let mut doc = TodoDoc::default();
    for t in ["a", "b", "c", "d"] {
        doc.add_item(&input(t)).unwrap();
    }
    doc.move_item(1, 3).unwrap();
    assert_eq!(titles(&doc), vec!["a", "c", "d", "b"]);
    doc.move_item(3, 1).unwrap();
    assert_eq!(titles(&doc), vec!["a", "b", "c", "d"]);
}

/// The position of a todo is its sort key.
#[test]
fn items_are_keyed_by_position() {
    let mut doc = TodoDoc::new();
    doc.add_item(&input("a")).unwrap();
    doc.add_item(&input("b")).unwrap();
    let items = doc.items();
    assert_eq!(items[0].order_key, "00000000");
    assert_eq!(items[1].order_key, "00000001");
    assert_ne!(items[0].id, items[1].id);
}

#[test]
fn a_given_number_names_the_item() {
    let mut doc = TodoDoc::new();
    let id = doc.add_item_with([0x11; 16], &input("a")).unwrap();
    assert_eq!(id, "11111111-1111-1111-1111-111111111111");
    assert_eq!(doc.items()[0].id, id);
    let sub = doc.add_subtask_with([0x22; 16], &id, "step").unwrap();
    assert_eq!(sub, "22222222-2222-2222-2222-222222222222");
    assert_eq!(doc.items()[0].subtasks[0].id, sub);
}

/// A todo that was overwritten reads as the form said; its number, its mark and its subtasks
/// stay, and so do the other todos.
#[test]
fn an_update_of_a_todo_reads_back() {
    let mut doc = TodoDoc::new();
    let other = doc.add_item(&input("other")).unwrap();
    let id = doc.add_item(&input("a")).unwrap();
    doc.toggle_done(&id).unwrap();
    doc.add_subtask(&id, "step").unwrap();
    doc.update_item(
        &id,
        &TodoItemInput {
            title: "b".into(),
            notes: "n".into(),
            due: Some(at(2026, 6, 20, 9)),
            priority: Priority::Med,
            tags: vec!["x".into(), "y".into()],
        },
    )
    .unwrap();
    let items = doc.items();
    assert_eq!(items[0].id, other);
    assert_eq!(items[0].title, "other");
    let item = &items[1];
    assert_eq!((item.id.as_str(), item.title.as_str()), (id.as_str(), "b"));
    assert_eq!(item.notes, "n");
    assert_eq!(item.due, Some(at(2026, 6, 20, 9)));
    assert_eq!(item.priority, Priority::Med);
    assert_eq!(item.tags, vec!["x", "y"]);
    assert!(item.done);
    assert_eq!(item.subtasks.len(), 1);
}

/// Two copies that were edited apart both have both new todos, and the old ones.
#[test]
fn concurrent_todos_are_both_there() {
    let mut base = TodoDoc::new();
    base.add_item(&input("before")).unwrap();
    let snap = base.export_snapshot().unwrap();
    let mut alice = TodoDoc::from_snapshot(&snap).unwrap();
    let mut bob = TodoDoc::from_snapshot(&snap).unwrap();
    let (a_vv, b_vv) = (alice.version(), bob.version());
    alice.add_item(&input("from-alice")).unwrap();
    bob.add_item(&input("from-bob")).unwrap();
    let x = alice.export_updates_from(&a_vv).unwrap();
    let y = bob.export_updates_from(&b_vv).unwrap();
    assert_eq!(alice.import(&y), Ok(()));
    assert_eq!(bob.import(&x), Ok(()));
    assert_eq!(alice.items(), bob.items());
    let all = titles(&alice);
    assert_eq!(all.len(), 3);
    for title in ["before", "from-alice", "from-bob"] {
        assert!(all.contains(&title.to_string()));
    }
}

#[test]
fn what_is_not_there_is_not_changed() {
    let mut doc = TodoDoc::new();
    let id = doc.add_item(&input("a")).unwrap();
    assert_eq!(doc.toggle_done("nobody"), Err(DocError::UnknownId));
    assert_eq!(doc.set_priority("nobody", Priority::Low), Err(DocError::UnknownId));
    assert_eq!(doc.set_due("nobody", None), Err(DocError::UnknownId));
    assert_eq!(doc.remove_item("nobody"), Err(DocError::UnknownId));
    assert_eq!(doc.add_tag("nobody", "x"), Err(DocError::UnknownId));
    assert_eq!(doc.remove_tag("nobody", "x"), Err(DocError::UnknownId));
    assert_eq!(doc.update_item("nobody", &input("z")), Err(DocError::UnknownId));
    assert_eq!(doc.add_subtask("nobody", "x"), Err(DocError::UnknownId));
    assert_eq!(doc.toggle_subtask("nobody", "x"), Err(DocError::UnknownId));
    assert_eq!(doc.remove_subtask("nobody", "x"), Err(DocError::UnknownId));
    assert_eq!(doc.move_item(0, 7), Err(DocError::Refused));
    assert_eq!(titles(&doc), vec!["a"]);
    // A tag or subtask that is not there is no error.
    assert_eq!(doc.remove_tag(&id, "missing"), Ok(()));
    assert_eq!(doc.toggle_subtask(&id, "missing"), Ok(()));
    assert_eq!(doc.remove_subtask(&id, "missing"), Ok(()));
}

#[test]
fn bytes_that_are_no_document_are_refused() {
    assert!(matches!(TodoDoc::from_snapshot(b"nonsense"), Err(DocError::Refused)));
    let mut doc = TodoDoc::new();
    assert_eq!(doc.import(b"nonsense"), Err(DocError::Refused));
}

/// A replica that takes all updates of another holds what it holds.
#[test]
fn all_updates_carry_the_whole_list() {
    let mut doc = TodoDoc::new();
    doc.set_title("L").unwrap();
    let id = doc.add_item(&input("one")).unwrap();
    doc.add_subtask(&id, "step").unwrap();
    doc.add_tag(&id, "x").unwrap();
    let all = doc.export_all_updates().unwrap();
    let mut copy = TodoDoc::new();
    copy.import(&all).unwrap();
    assert_eq!(copy.title(), "L");
    assert_eq!(copy.items(), doc.items());
}

/// It does not matter in which order updates arrive, nor whether they arrive again.
#[test]
fn updates_merge_in_any_order() {
    let mut base = TodoDoc::new();
    base.set_title("shared").unwrap();
    let snap = base.export_snapshot().unwrap();
    let mut alice = TodoDoc::from_snapshot(&snap).unwrap();
    let mut bob = TodoDoc::from_snapshot(&snap).unwrap();
    let (a_vv, b_vv) = (alice.version(), bob.version());
    alice.add_item(&input("from-alice")).unwrap();
    bob.add_item(&input("from-bob")).unwrap();
    bob.set_title("renamed").unwrap();
    let x = alice.export_updates_from(&a_vv).unwrap();
    let y = bob.export_updates_from(&b_vv).unwrap();

    let mut one = TodoDoc::from_snapshot(&snap).unwrap();
    one.import(&x).unwrap();
    one.import(&y).unwrap();
    let mut other = TodoDoc::from_snapshot(&snap).unwrap();
    other.import(&y).unwrap();
    other.import(&x).unwrap();
    other.import(&x).unwrap();
    assert_eq!(one.items(), other.items());
    assert_eq!(one.items().len(), 2);
    assert_eq!(one.title(), "renamed");
    assert_eq!(other.title(), "renamed");
}

/// The updates after a version carry what was done since, and nothing from before.
#[test]
fn updates_start_where_the_version_ends() {
    let mut doc = TodoDoc::new();
    doc.add_item(&input("one")).unwrap();
    let snap = doc.export_snapshot().unwrap();
    let since = doc.version();
    doc.add_item(&input("two")).unwrap();
    let change = doc.export_updates_from(&since).unwrap();

    let mut copy = TodoDoc::from_snapshot(&snap).unwrap();
    copy.import(&change).unwrap();
    assert_eq!(copy.items(), doc.items());

    let mut blank = TodoDoc::new();
    blank.import(&change).unwrap();
    assert!(blank.items().is_empty());
}

#[test]
fn a_tag_that_was_added_twice_leaves_once() {
    let mut doc = TodoDoc::new();
    let id = doc.add_item(&input("t")).unwrap();
    doc.add_tag(&id, "a").unwrap();
    doc.add_tag(&id, "a").unwrap();
    assert_eq!(doc.items()[0].tags, vec!["a", "a"]);
    doc.remove_tag(&id, "a").unwrap();
    assert_eq!(doc.items()[0].tags, vec!["a"]);
}

// ── reading values ──

fn text(s: &str) -> Plain {
    Plain::Text(s.to_string())
}

fn table(of: Vec<(&str, Plain)>) -> Plain {
    Plain::Table(of.into_iter().map(|(k, v)| (k.to_string(), v)).collect())
}

#[test]
fn a_value_is_read_as_a_todo() {
    let p = table(vec![
        ("id", text("i1")),
        ("title", text("Milk")),
        ("due", Plain::Int(86400)),
        ("priority", Plain::Int(2)),
        ("done", Plain::Bool(true)),
        ("tags", Plain::List(vec![text("a")])),
    ]);
    let it = into_item(&p, 12).unwrap();
    assert_eq!(it.id, "i1");
    assert_eq!(it.title, "Milk");
    assert_eq!(it.due, Some(86400));
    assert_eq!(it.priority, Priority::from_rank(2));
    assert!(it.done);
    assert_eq!(it.tags, vec!["a"]);
    assert_eq!(it.order_key, "00000012");
}

#[test]
fn a_value_that_is_no_todo_spoils_the_list() {
    let good = || table(vec![("id", text("i1")), ("title", text("Milk"))]);
    let bad = table(vec![("title", Plain::Int(3))]);
    assert!(into_item(&bad, 0).is_none());
    assert!(into_item(&Plain::Null, 0).is_none());
    assert_eq!(project(&vec![good(), good()]).len(), 2);
    assert!(project(&vec![good(), bad]).is_empty());
    assert!(project(&vec![]).is_empty());
}
