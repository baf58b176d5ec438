use fate_todo::handlers::add_todo_and_list;
use fate_todo::MemStore;

#[test]
fn empty_store_lists_nothing() {
    let store = MemStore::new();
    let listed = store.all_todos();
    assert!(listed.is_empty());
}

#[test]
fn append_then_list_in_submission_order() {
    let mut store = MemStore::new();
    store.add_todo("first".to_string());
    store.add_todo("second".to_string());
    store.add_todo("third".to_string());
    let listed = store.all_todos();
    assert_eq!(
        listed,
        vec!["first".to_string(), "second".to_string(), "third".to_string()]
    );
}

#[test]
fn duplicate_items_are_all_kept() {
    let mut store = MemStore::new();
    store.add_todo("same".to_string());
    store.add_todo("same".to_string());
    let listed = store.all_todos();
    assert_eq!(listed, vec!["same".to_string(), "same".to_string()]);
}

#[test]
fn listing_does_not_consume_the_store() {
    let mut store = MemStore::new();
    store.add_todo("keep".to_string());
    let first = store.all_todos();
    let second = store.all_todos();
    assert_eq!(first, second);
    assert_eq!(first, vec!["keep".to_string()]);
}

#[test]
fn post_buy_milk_on_empty_store_lists_exactly_it() {
    let mut store = MemStore::new();
    let listed = add_todo_and_list(&mut store, "Buy milk".to_string());
    assert_eq!(listed, vec!["Buy milk".to_string()]);
}

#[test]
fn add_todo_and_list_appends_at_the_end() {
    let mut store = MemStore::new();
    store.add_todo("old".to_string());
    let listed = add_todo_and_list(&mut store, "new".to_string());
    assert_eq!(listed, vec!["old".to_string(), "new".to_string()]);
}
