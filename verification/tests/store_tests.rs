use todos::error::ApiError;
use todos::store::TaskStore;

#[test]
fn new_store_is_empty() {
    let s = TaskStore::new();
    assert_eq!(s.list().len(), 0);
}

#[test]
fn insert_then_list_has_one_new_entry() {
    let mut s = TaskStore::new();
    let id = s.insert("buy milk".to_string(), false).unwrap();
    assert_eq!(id, 1);
    let rows = s.list();
    assert_eq!(rows.len(), 1);
    assert_eq!(rows[0].id, 1);
    assert_eq!(rows[0].content, "buy milk");
    assert!(!rows[0].done);
}

#[test]
fn insert_done_true_is_kept() {
    let mut s = TaskStore::new();
    let id = s.insert("call home".to_string(), true).unwrap();
    let t = s.get(id).unwrap();
    assert!(t.done);
}

#[test]
fn get_fresh_id_returns_submitted_fields() {
    let mut s = TaskStore::new();
    s.insert("first".to_string(), false).unwrap();
    let id = s.insert("second".to_string(), true).unwrap();
    let t = s.get(id).unwrap();
    assert_eq!(t.id, id);
    assert_eq!(t.content, "second");
    assert!(t.done);
}

#[test]
fn get_absent_id_is_not_found() {
    let mut s = TaskStore::new();
    let id = s.insert("only".to_string(), false).unwrap();
    assert_eq!(s.get(id + 1).unwrap_err(), ApiError::NotFound);
    assert_eq!(s.get(i32::MAX).unwrap_err(), ApiError::NotFound);
}

#[test]
fn toggle_twice_restores_the_flag() {
    let mut s = TaskStore::new();
    let id = s.insert("flip me".to_string(), false).unwrap();
    assert_eq!(s.toggle(id).unwrap(), true);
    assert!(s.get(id).unwrap().done);
    assert_eq!(s.toggle(id).unwrap(), false);
    assert!(!s.get(id).unwrap().done);
}

#[test]
fn toggle_absent_id_is_not_found() {
    let mut s = TaskStore::new();
    assert_eq!(s.toggle(7).unwrap_err(), ApiError::NotFound);
}

#[test]
fn delete_then_get_is_not_found_and_delete_is_idempotent() {
    let mut s = TaskStore::new();
    let id = s.insert("gone soon".to_string(), false).unwrap();
    s.delete(id);
    assert_eq!(s.get(id).unwrap_err(), ApiError::NotFound);
    s.delete(id);
    assert_eq!(s.list().len(), 0);
}

#[test]
fn delete_keeps_the_other_rows_in_order() {
    let mut s = TaskStore::new();
    let a = s.insert("a".to_string(), false).unwrap();
    let b = s.insert("b".to_string(), false).unwrap();
    let c = s.insert("c".to_string(), false).unwrap();
    s.delete(b);
    let rows = s.list();
    assert_eq!(rows.len(), 2);
    assert_eq!(rows[0].id, a);
    assert_eq!(rows[1].id, c);
}

#[test]
fn list_is_strictly_ascending_by_id_after_mixed_operations() {
    let mut s = TaskStore::new();
    let mut ids = Vec::new();
    for n in 0..5 {
        ids.push(s.insert(format!("task {}", n), n % 2 == 0).unwrap());
    }
    s.toggle(ids[3]).unwrap();
    s.delete(ids[1]);
    s.insert("late".to_string(), false).unwrap();
    s.toggle(ids[0]).unwrap();
    let rows = s.list();
    for w in rows.windows(2) {
        assert!(w[0].id < w[1].id);
    }
}

#[test]
fn ids_are_never_reused_after_delete() {
    let mut s = TaskStore::new();
    let a = s.insert("a".to_string(), false).unwrap();
    s.delete(a);
    let b = s.insert("b".to_string(), false).unwrap();
    assert!(b > a);
}
