//! The five request handlers, as decisions over the store.
//!
//! Each handler takes the store and the plain values the HTTP layer decoded,
//! and returns the plain values the HTTP layer renders (a task list to show,
//! a JSON body, or an error to map to a status code).  The update policy of
//! this service is the toggle: a `PUT` on a task carries no body and flips
//! its done flag.

use vstd::prelude::*;

use crate::error::ApiError;
use crate::json::{json_of, todo_json};
use crate::store::TaskStore;
use crate::todo::{
    CreateTodo, Todo, contains_id, ids_ascending, seq_view, spec_delete, spec_insert, spec_toggle,
    task_of,
};

verus! {

/// `POST /tasks`: rejects empty content outright (nothing is persisted),
/// otherwise inserts one row under a fresh id and returns the full ordered
/// list; a storage failure (exhausted id space) also persists nothing.
pub fn create_todo(store: &mut TaskStore, req: CreateTodo) -> (r: Result<Vec<Todo>, ApiError>)
    requires
        old(store).wf(),
    ensures
        final(store).wf(),
        req.content@.len() == 0 ==> r == Err::<Vec<Todo>, ApiError>(ApiError::Validation)
            && *final(store) == *old(store),
        req.content@.len() > 0 && old(store).next_id() < i32::MAX ==> r is Ok,
        match r {
            Ok(rows) => {
                &&& req.content@.len() > 0
                &&& old(store).next_id() < i32::MAX
                &&& final(store)@ == spec_insert(
                    old(store)@,
                    old(store).next_id(),
                    req.content@,
                    req.done,
                )
                &&& seq_view(rows@) == final(store)@
            },
            Err(e) => {
                &&& *final(store) == *old(store)
                &&& (e == ApiError::Validation <==> req.content@.len() == 0)
                &&& (e == ApiError::Storage <==> req.content@.len() > 0 && old(store).next_id()
                    == i32::MAX)
            },
        },
{
    if req.content.as_str().is_empty() {
        return Err(ApiError::Validation);
    }
    match store.insert(req.content, req.done) {
        Ok(_) => Ok(store.list()),
        Err(e) => Err(e),
    }
}

/// `GET /tasks/{id}`: renders the addressed task as a JSON object, or a
/// not-found error exactly when no row carries the id.
pub fn read_todo(store: &TaskStore, id: i32) -> (r: Result<String, ApiError>)
    requires
        store.wf(),
    ensures
        match r {
            Ok(body) => contains_id(store@, id as int) && body@ == json_of(
                task_of(store@, id as int),
            ),
            Err(e) => e == ApiError::NotFound && !contains_id(store@, id as int),
        },
{
    match store.get(id) {
        Ok(t) => Ok(todo_json(&t)),
        Err(e) => Err(e),
    }
}

/// `GET /tasks`: the full collection, ordered by ascending id; an empty
/// list is a valid result, never an error.
pub fn read_todos(store: &TaskStore) -> (r: Vec<Todo>)
    requires
        store.wf(),
    ensures
        seq_view(r@) == store@,
        ids_ascending(seq_view(r@)),
{
    store.list()
}

/// `PUT /tasks/{id}` (toggle policy): flips the done flag of the addressed
/// row and returns the full ordered list; a not-found error exactly when no
/// row carries the id, and then nothing changes.
pub fn update_todo(store: &mut TaskStore, id: i32) -> (r: Result<Vec<Todo>, ApiError>)
    requires
        old(store).wf(),
    ensures
        final(store).wf(),
        final(store)@ == spec_toggle(old(store)@, id as int),
        final(store).next_id() == old(store).next_id(),
        match r {
            Ok(rows) => contains_id(old(store)@, id as int) && seq_view(rows@) == final(store)@,
            Err(e) => e == ApiError::NotFound && !contains_id(old(store)@, id as int),
        },
{
    match store.toggle(id) {
        Ok(_) => Ok(store.list()),
        Err(e) => Err(e),
    }
}

/// `DELETE /tasks/{id}`: removes the addressed row if present and returns
/// the full ordered list; an absent id is not an error (the operation is
/// idempotent).
pub fn delete_todo(store: &mut TaskStore, id: i32) -> (r: Vec<Todo>)
    requires
        old(store).wf(),
    ensures
        final(store).wf(),
        final(store)@ == spec_delete(old(store)@, id as int),
        final(store).next_id() == old(store).next_id(),
        seq_view(r@) == final(store)@,
{
    store.delete(id);
    store.list()
}

} // verus!
