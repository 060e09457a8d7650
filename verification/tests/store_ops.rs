use user_service::store::UserStore;

#[test]
fn create_then_get_returns_what_was_submitted() {
    let mut store = UserStore::new();
    let id = store.create("Alice".to_string(), "alice@x.com".to_string());
    let u = store.get_by_id(id).expect("created row must be readable");
    assert_eq!(u.id, id);
    assert_eq!(u.name, "Alice");
    assert_eq!(u.email, "alice@x.com");
}

#[test]
fn list_all_has_one_entry_per_live_user() {
    let mut store = UserStore::new();
    let a = store.create("A".to_string(), "a@x".to_string());
    let b = store.create("B".to_string(), "b@x".to_string());
    let c = store.create("C".to_string(), "c@x".to_string());
    assert_eq!(store.list_all().len(), 3);
    assert!(store.delete_by_id(b));
    let rows = store.list_all();
    assert_eq!(rows.len(), 2);
    let mut ids: Vec<i32> = rows.iter().map(|u| u.id).collect();
    ids.sort();
    assert_eq!(ids, vec![a, c]);
}

#[test]
fn list_all_of_empty_store_is_empty() {
    let store = UserStore::new();
    assert_eq!(store.list_all().len(), 0);
}

#[test]
fn update_changes_only_the_targeted_row() {
    let mut store = UserStore::new();
    let a = store.create("A".to_string(), "a@x".to_string());
    let b = store.create("B".to_string(), "b@x".to_string());
    assert!(store.update_by_id(b, "B2".to_string(), "b2@x".to_string()));
    let ua = store.get_by_id(a).unwrap();
    assert_eq!(ua.name, "A");
    assert_eq!(ua.email, "a@x");
    let ub = store.get_by_id(b).unwrap();
    assert_eq!(ub.name, "B2");
    assert_eq!(ub.email, "b2@x");
}

#[test]
fn update_missing_reports_no_match_and_changes_nothing() {
    let mut store = UserStore::new();
    let a = store.create("A".to_string(), "a@x".to_string());
    assert!(!store.update_by_id(a + 1, "X".to_string(), "x@x".to_string()));
    let ua = store.get_by_id(a).unwrap();
    assert_eq!(ua.name, "A");
    assert_eq!(store.list_all().len(), 1);
}

#[test]
fn delete_missing_reports_not_found_and_mutates_nothing() {
    let mut store = UserStore::new();
    let a = store.create("A".to_string(), "a@x".to_string());
    assert!(!store.delete_by_id(999));
    assert_eq!(store.list_all().len(), 1);
    assert_eq!(store.get_by_id(a).unwrap().name, "A");
}

#[test]
fn delete_is_idempotent_in_outcome() {
    let mut store = UserStore::new();
    let a = store.create("A".to_string(), "a@x".to_string());
    assert!(store.delete_by_id(a));
    assert!(!store.delete_by_id(a));
    assert_eq!(store.list_all().len(), 0);
}

#[test]
fn deleted_id_is_never_reassigned() {
    let mut store = UserStore::new();
    let a = store.create("A".to_string(), "a@x".to_string());
    assert!(store.delete_by_id(a));
    let b = store.create("B".to_string(), "b@x".to_string());
    assert_ne!(a, b);
    assert!(store.get_by_id(a).is_none());
}
