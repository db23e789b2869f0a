use todo_store::ops::{complete_from_input, delete_from_input, IdOpResult};
use todo_store::store::Store;

fn rows(store: &Store) -> Vec<(i64, String, String, bool)> {
    let mut v: Vec<(i64, String, String, bool)> = store
        .list_tasks()
        .expect("listing failed")
        .into_iter()
        .map(|t| (t.id, t.title, t.description, t.done))
        .collect();
    v.sort();
    v
}

#[test]
fn added_task_is_listed_exactly_not_done() {
    let mut store = Store::open_in_memory().expect("open failed");
    let pairs = [
        ("Buy milk", "2%"),
        ("water plants", ""),
        ("", "a title may be empty here: the menu does not validate"),
        ("caf\u{e9}", "\u{3042}"),
    ];
    for (title, description) in pairs {
        let id = store.add_task(title, description).expect("add failed");
        let listed = rows(&store);
        let row = listed.iter().find(|r| r.0 == id).expect("added task missing");
        assert_eq!(row.1, title);
        assert_eq!(row.2, description);
        assert!(!row.3);
    }
}

#[test]
fn complete_marks_done_and_is_idempotent() {
    let mut store = Store::open_in_memory().expect("open failed");
    let id_a = store.add_task("a", "first").expect("add failed");
    let id_b = store.add_task("b", "second").expect("add failed");
    store.complete_task(id_a).expect("complete failed");
    let after_once = rows(&store);
    assert_eq!(
        after_once,
        vec![
            (id_a, "a".to_string(), "first".to_string(), true),
            (id_b, "b".to_string(), "second".to_string(), false),
        ]
    );
    store.complete_task(id_a).expect("second complete failed");
    assert_eq!(rows(&store), after_once);
}

#[test]
fn missing_id_is_a_quiet_no_op() {
    let mut store = Store::open_in_memory().expect("open failed");
    let id = store.add_task("keep me", "untouched").expect("add failed");
    let before = rows(&store);
    store.complete_task(id + 100).expect("complete on missing id errored");
    store.delete_task(id + 100).expect("delete on missing id errored");
    assert_eq!(rows(&store), before);
}

#[test]
fn deleted_id_never_comes_back_in_a_listing() {
    let mut store = Store::open_in_memory().expect("open failed");
    let id_a = store.add_task("a", "").expect("add failed");
    let id_b = store.add_task("b", "").expect("add failed");
    store.delete_task(id_a).expect("delete failed");
    assert!(rows(&store).iter().all(|r| r.0 != id_a));
    store.complete_task(id_b).expect("complete failed");
    store.delete_task(id_a).expect("repeat delete errored");
    assert!(rows(&store).iter().all(|r| r.0 != id_a));
}

#[test]
fn n_adds_list_as_exactly_those_n_tasks() {
    let mut store = Store::open_in_memory().expect("open failed");
    let mut expected: Vec<(i64, String, String, bool)> = Vec::new();
    for k in 0..7 {
        let title = format!("task {k}");
        let description = format!("detail {k}");
        let id = store.add_task(&title, &description).expect("add failed");
        expected.push((id, title, description, false));
    }
    expected.sort();
    assert_eq!(rows(&store), expected);
}

#[test]
fn a_round_of_adds_lists_as_exactly_those_tasks() {
    let mut store = Store::open_in_memory().expect("open failed");
    store.add_task("pre", "existing").expect("add failed");
    let items: Vec<(String, String)> = (0..5)
        .map(|k| (format!("batch {k}"), format!("detail {k}")))
        .collect();
    let mut expected = rows(&store);
    let ids = store.add_tasks(&items).expect("batch add failed");
    assert_eq!(ids.len(), items.len());
    for (id, (title, description)) in ids.iter().zip(items.iter()) {
        expected.push((*id, title.clone(), description.clone(), false));
    }
    expected.sort();
    assert_eq!(rows(&store), expected);
}

#[test]
fn full_menu_scenario() {
    let mut store = Store::open_in_memory().expect("open failed");
    let id = store.add_task("Buy milk", "2%").expect("add failed");
    assert_eq!(id, 1);
    assert_eq!(
        rows(&store),
        vec![(1, "Buy milk".to_string(), "2%".to_string(), false)]
    );
    store.complete_task(1).expect("complete failed");
    assert_eq!(
        rows(&store),
        vec![(1, "Buy milk".to_string(), "2%".to_string(), true)]
    );
    store.delete_task(1).expect("delete failed");
    assert_eq!(rows(&store), vec![]);
    store.complete_task(99).expect("complete on empty store errored");
    assert_eq!(rows(&store), vec![]);
}

#[test]
fn bad_id_input_is_rejected_before_the_store() {
    let mut store = Store::open_in_memory().expect("open failed");
    store.add_task("stay", "put").expect("add failed");
    let before = rows(&store);
    assert!(matches!(
        complete_from_input(&mut store, "abc"),
        IdOpResult::BadInput
    ));
    assert!(matches!(
        delete_from_input(&mut store, "abc"),
        IdOpResult::BadInput
    ));
    assert!(matches!(
        complete_from_input(&mut store, ""),
        IdOpResult::BadInput
    ));
    assert_eq!(rows(&store), before);
}

#[test]
fn good_id_input_reaches_the_store() {
    let mut store = Store::open_in_memory().expect("open failed");
    let id = store.add_task("finish me", "then drop me").expect("add failed");
    let raw = id.to_string();
    assert!(matches!(
        complete_from_input(&mut store, &raw),
        IdOpResult::Applied
    ));
    assert!(rows(&store).iter().any(|r| r.0 == id && r.3));
    assert!(matches!(
        delete_from_input(&mut store, &raw),
        IdOpResult::Applied
    ));
    assert!(rows(&store).iter().all(|r| r.0 != id));
}

#[test]
fn schema_setup_is_idempotent_and_keeps_tasks() {
    let mut store = Store::open_in_memory().expect("open failed");
    let id = store.add_task("still here", "after setup").expect("add failed");
    let before = rows(&store);
    store.ensure_schema().expect("repeat schema setup errored");
    store.ensure_schema().expect("third schema setup errored");
    assert_eq!(rows(&store), before);
    assert!(before.iter().any(|r| r.0 == id));
}

#[test]
fn unopenable_path_reports_a_storage_error() {
    // A directory cannot be opened as a database file.
    assert!(Store::open(".").is_err());
}
