use todos::error::ApiError;
use todos::form::create_from_form;
use todos::handlers::{create_todo, delete_todo, read_todo, read_todos, update_todo};
use todos::store::TaskStore;
use todos::todo::CreateTodo;

#[test]
fn create_with_content_appends_and_returns_the_list() {
    let mut s = TaskStore::new();
    let rows = create_todo(
        &mut s,
        CreateTodo { content: "buy milk".to_string(), done: false },
    )
    .unwrap();
    assert_eq!(rows.len(), 1);
    assert_eq!(rows[0].id, 1);
    assert_eq!(rows[0].content, "buy milk");
    assert!(!rows[0].done);
}

#[test]
fn create_with_empty_content_is_rejected_and_persists_nothing() {
    let mut s = TaskStore::new();
    create_todo(&mut s, CreateTodo { content: "keep".to_string(), done: false }).unwrap();
    let before = read_todos(&s).len();
    let err = create_todo(&mut s, CreateTodo { content: String::new(), done: true }).unwrap_err();
    assert_eq!(err, ApiError::Validation);
    assert_eq!(read_todos(&s).len(), before);
}

#[test]
fn read_absent_id_is_not_found() {
    let s = TaskStore::new();
    assert_eq!(read_todo(&s, 1).unwrap_err(), ApiError::NotFound);
}

#[test]
fn update_toggles_and_returns_the_list() {
    let mut s = TaskStore::new();
    create_todo(&mut s, CreateTodo { content: "flip".to_string(), done: false }).unwrap();
    let rows = update_todo(&mut s, 1).unwrap();
    assert!(rows[0].done);
    let rows = update_todo(&mut s, 1).unwrap();
    assert!(!rows[0].done);
}

#[test]
fn update_absent_id_is_not_found() {
    let mut s = TaskStore::new();
    assert_eq!(update_todo(&mut s, 3).unwrap_err(), ApiError::NotFound);
}

#[test]
fn delete_is_idempotent_and_returns_the_remaining_list() {
    let mut s = TaskStore::new();
    create_todo(&mut s, CreateTodo { content: "a".to_string(), done: false }).unwrap();
    create_todo(&mut s, CreateTodo { content: "b".to_string(), done: false }).unwrap();
    let rows = delete_todo(&mut s, 1);
    assert_eq!(rows.len(), 1);
    assert_eq!(rows[0].content, "b");
    let rows = delete_todo(&mut s, 1);
    assert_eq!(rows.len(), 1);
}

#[test]
fn full_task_lifecycle() {
    // Create "buy milk", read it back as JSON, toggle it, delete it, and
    // see it gone.
    let mut s = TaskStore::new();
    let form = vec![("content".to_string(), "buy milk".to_string())];
    let req = create_from_form(&form);
    assert_eq!(req.content, "buy milk");
    assert!(!req.done);
    let rows = create_todo(&mut s, req).unwrap();
    assert_eq!(rows[0].id, 1);
    let body = read_todo(&s, 1).unwrap();
    assert_eq!(body, "{\"id\":1,\"content\":\"buy milk\",\"done\":false}");
    update_todo(&mut s, 1).unwrap();
    let body = read_todo(&s, 1).unwrap();
    assert_eq!(body, "{\"id\":1,\"content\":\"buy milk\",\"done\":true}");
    delete_todo(&mut s, 1);
    assert_eq!(read_todo(&s, 1).unwrap_err(), ApiError::NotFound);
}

#[test]
fn error_kinds_map_to_their_status_codes() {
    assert_eq!(ApiError::Validation.status_code(), 400);
    assert_eq!(ApiError::NotFound.status_code(), 404);
    assert_eq!(ApiError::Storage.status_code(), 500);
    assert_eq!(ApiError::Validation.message(), "Won't use empty payloads");
    assert_eq!(ApiError::NotFound.message(), "No such task");
    assert_eq!(
        ApiError::Storage.message(),
        "An unexpected exception has occured"
    );
}

#[test]
fn rejected_create_consumes_no_id() {
    let mut s = TaskStore::new();
    let err = create_todo(&mut s, CreateTodo { content: String::new(), done: false }).unwrap_err();
    assert_eq!(err, ApiError::Validation);
    let rows = create_todo(&mut s, CreateTodo { content: "first".to_string(), done: false }).unwrap();
    assert_eq!(rows[0].id, 1);
}
