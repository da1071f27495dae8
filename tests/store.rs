use item_store::{Item, ItemStore, StoreError};

fn fields(it: &Item) -> (String, String, String) {
    (it.id.clone(), it.title.clone(), it.description.clone())
}

fn triple(id: &str, title: &str, description: &str) -> (String, String, String) {
    (id.to_string(), title.to_string(), description.to_string())
}

fn not_found_id(e: StoreError) -> String {
    match e {
        StoreError::NotFound { id } => id,
        StoreError::LockFailure => panic!("expected NotFound, got LockFailure"),
    }
}

#[test]
fn full_scenario() {
    let mut s = ItemStore::new();
    let a = s.create_item("A".to_string(), "a".to_string());
    assert_eq!(fields(&a), triple("1", "A", "a"));
    let b = s.create_item("B".to_string(), "b".to_string());
    assert_eq!(fields(&b), triple("2", "B", "b"));
    let all: Vec<_> = s.list_items().iter().map(fields).collect();
    assert_eq!(all, vec![triple("1", "A", "a"), triple("2", "B", "b")]);
    let u = s.update_item("1".to_string(), "A2".to_string(), "a2".to_string());
    assert_eq!(fields(&u.ok().unwrap()), triple("1", "A2", "a2"));
    assert!(s.delete_item("2".to_string()).is_ok());
    let all: Vec<_> = s.list_items().iter().map(fields).collect();
    assert_eq!(all, vec![triple("1", "A2", "a2")]);
    assert!(s.get_item("2".to_string()).is_none());
    let e = s.delete_item("2".to_string()).err().unwrap();
    assert_eq!(not_found_id(e), "2");
}

#[test]
fn new_store_is_empty_and_starts_at_one() {
    let s = ItemStore::new();
    assert_eq!(s.len(), 0);
    assert_eq!(s.next_id(), 1);
    assert!(s.list_items().is_empty());
}

#[test]
fn ids_increase_across_other_operations() {
    let mut s = ItemStore::new();
    let mut ids = Vec::new();
    for k in 0..12 {
        let it = s.create_item(format!("t{}", k), String::new());
        ids.push(it.id.clone());
        if k % 3 == 0 {
            assert!(s.delete_item(it.id.clone()).is_ok());
        }
        assert!(s.update_item("999".to_string(), String::new(), String::new()).is_err());
    }
    let expected: Vec<String> = (1..=12).map(|n: u64| n.to_string()).collect();
    assert_eq!(ids, expected);
    assert_eq!(ids[9], "10");
    assert_eq!(ids[11], "12");
    assert_eq!(s.next_id(), 13);
}

#[test]
fn deleted_ids_are_not_reused() {
    let mut s = ItemStore::new();
    s.create_item("A".to_string(), "a".to_string());
    assert!(s.delete_item("1".to_string()).is_ok());
    let b = s.create_item("B".to_string(), "b".to_string());
    assert_eq!(b.id, "2");
}

#[test]
fn list_keeps_creation_order() {
    let mut s = ItemStore::new();
    for k in 0..5 {
        s.create_item(format!("title{}", k), format!("desc{}", k));
    }
    let all: Vec<_> = s.list_items().iter().map(fields).collect();
    let expected: Vec<_> = (0..5)
        .map(|k| (format!("{}", k + 1), format!("title{}", k), format!("desc{}", k)))
        .collect();
    assert_eq!(all, expected);
}

#[test]
fn get_finds_existing_and_absent_otherwise() {
    let mut s = ItemStore::new();
    s.create_item("A".to_string(), "a".to_string());
    s.create_item("B".to_string(), "b".to_string());
    assert_eq!(fields(&s.get_item("2".to_string()).unwrap()), triple("2", "B", "b"));
    assert_eq!(fields(&s.get_item("1".to_string()).unwrap()), triple("1", "A", "a"));
    assert!(s.get_item("3".to_string()).is_none());
    assert!(s.get_item(String::new()).is_none());
    assert!(s.get_item("01".to_string()).is_none());
}

#[test]
fn get_on_empty_store_is_absent() {
    let s = ItemStore::new();
    assert!(s.get_item("1".to_string()).is_none());
}

#[test]
fn update_keeps_position_and_is_visible() {
    let mut s = ItemStore::new();
    s.create_item("A".to_string(), "a".to_string());
    s.create_item("B".to_string(), "b".to_string());
    s.create_item("C".to_string(), "c".to_string());
    let u = s.update_item("2".to_string(), "B2".to_string(), "b2".to_string()).ok().unwrap();
    assert_eq!(fields(&u), triple("2", "B2", "b2"));
    assert_eq!(fields(&s.get_item("2".to_string()).unwrap()), triple("2", "B2", "b2"));
    let all: Vec<_> = s.list_items().iter().map(fields).collect();
    assert_eq!(
        all,
        vec![triple("1", "A", "a"), triple("2", "B2", "b2"), triple("3", "C", "c")]
    );
    assert_eq!(s.next_id(), 4);
}

#[test]
fn update_missing_id_fails_and_changes_nothing() {
    let mut s = ItemStore::new();
    s.create_item("A".to_string(), "a".to_string());
    let before: Vec<_> = s.list_items().iter().map(fields).collect();
    let e = s.update_item("7".to_string(), "X".to_string(), "x".to_string()).err().unwrap();
    assert_eq!(not_found_id(e), "7");
    let after: Vec<_> = s.list_items().iter().map(fields).collect();
    assert_eq!(before, after);
    assert_eq!(s.next_id(), 2);
}

#[test]
fn delete_removes_only_that_item() {
    let mut s = ItemStore::new();
    for t in ["A", "B", "C", "D"] {
        s.create_item(t.to_string(), t.to_lowercase());
    }
    assert!(s.delete_item("2".to_string()).is_ok());
    assert!(s.get_item("2".to_string()).is_none());
    let all: Vec<_> = s.list_items().iter().map(fields).collect();
    assert_eq!(
        all,
        vec![triple("1", "A", "a"), triple("3", "C", "c"), triple("4", "D", "d")]
    );
}

#[test]
fn delete_missing_id_fails_and_changes_nothing() {
    let mut s = ItemStore::new();
    s.create_item("A".to_string(), "a".to_string());
    let e = s.delete_item("5".to_string()).err().unwrap();
    assert_eq!(not_found_id(e), "5");
    assert_eq!(s.len(), 1);
    assert_eq!(fields(&s.get_item("1".to_string()).unwrap()), triple("1", "A", "a"));
}

#[test]
fn delete_twice_second_is_not_found() {
    let mut s = ItemStore::new();
    s.create_item("A".to_string(), "a".to_string());
    assert!(s.delete_item("1".to_string()).is_ok());
    let e = s.delete_item("1".to_string()).err().unwrap();
    assert_eq!(not_found_id(e), "1");
    assert_eq!(s.len(), 0);
}

#[test]
fn empty_and_unicode_fields_are_kept() {
    let mut s = ItemStore::new();
    let it = s.create_item(String::new(), "説明".to_string());
    assert_eq!(fields(&it), triple("1", "", "説明"));
}

#[test]
fn cloned_item_is_equal() {
    let it = Item { id: "9".to_string(), title: "T".to_string(), description: "D".to_string() };
    assert_eq!(fields(&it.clone()), triple("9", "T", "D"));
}
