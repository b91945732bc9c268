//! The task entity and the mathematical model of the task table.
//!
//! A table state is a `Seq<TodoView>` whose entries are ordered by strictly
//! ascending id.  The four store operations (insert, toggle, delete, lookup)
//! have spec-level counterparts here; the executable store is proved against
//! them.

use vstd::prelude::*;

verus! {

/// One persisted task: a surrogate id, its text, and a completion flag.
#[derive(Debug)]
pub struct Todo {
    pub id: i32,
    pub content: String,
    pub done: bool,
}

/// A task submitted for creation: the id is assigned by the store.
#[derive(Debug)]
pub struct CreateTodo {
    pub content: String,
    pub done: bool,
}

/// The mathematical value of a task.
#[verifier::ext_equal]
pub ghost struct TodoView {
    pub id: int,
    pub content: Seq<char>,
    pub done: bool,
}

impl View for Todo {
    type V = TodoView;

    open spec fn view(&self) -> TodoView {
        TodoView { id: self.id as int, content: self.content@, done: self.done }
    }
}

/// The value of a row vector, entry by entry.
pub open spec fn seq_view(s: Seq<Todo>) -> Seq<TodoView> {
    s.map_values(|t: Todo| t@)
}

/// Entries are ordered by strictly ascending id (so ids are also unique).
pub open spec fn ids_ascending(s: Seq<TodoView>) -> bool {
    forall|i: int, j: int| 0 <= i < j < s.len() ==> s[i].id < s[j].id
}

/// Every persisted task has non-empty content.
pub open spec fn contents_nonempty(s: Seq<TodoView>) -> bool {
    forall|i: int| 0 <= i < s.len() ==> s[i].content.len() > 0
}

/// Ids are assigned starting from 1.
pub open spec fn ids_positive(s: Seq<TodoView>) -> bool {
    forall|i: int| 0 <= i < s.len() ==> 1 <= s[i].id
}

/// Every id in the table is below `bound` (used with the next id to assign).
pub open spec fn ids_below(s: Seq<TodoView>, bound: int) -> bool {
    forall|i: int| 0 <= i < s.len() ==> s[i].id < bound
}

/// A well-formed table state.
pub open spec fn wf_tasks(s: Seq<TodoView>) -> bool {
    &&& ids_ascending(s)
    &&& contents_nonempty(s)
    &&& ids_positive(s)
}

/// Whether some entry carries the id.
pub open spec fn contains_id(s: Seq<TodoView>, id: int) -> bool {
    exists|i: int| 0 <= i < s.len() && s[i].id == id
}

/// The position of the entry with the id (unique when ids are ascending).
pub open spec fn index_of_id(s: Seq<TodoView>, id: int) -> int {
    choose|i: int| 0 <= i < s.len() && s[i].id == id
}

/// The entry with the id.
pub open spec fn task_of(s: Seq<TodoView>, id: int) -> TodoView {
    s[index_of_id(s, id)]
}

/// The same task with its completion flag flipped.
pub open spec fn flip(t: TodoView) -> TodoView {
    TodoView { id: t.id, content: t.content, done: !t.done }
}

/// Inserting a fresh row appends it: the new id is above every present id.
pub open spec fn spec_insert(s: Seq<TodoView>, id: int, content: Seq<char>, done: bool) -> Seq<
    TodoView,
> {
    s.push(TodoView { id, content, done })
}

/// Toggling flips the flag of the addressed row and moves nothing else.
pub open spec fn spec_toggle(s: Seq<TodoView>, id: int) -> Seq<TodoView> {
    if contains_id(s, id) {
        s.update(index_of_id(s, id), flip(task_of(s, id)))
    } else {
        s
    }
}

/// Deleting removes the addressed row if present and is otherwise a no-op.
pub open spec fn spec_delete(s: Seq<TodoView>, id: int) -> Seq<TodoView> {
    if contains_id(s, id) {
        s.remove(index_of_id(s, id))
    } else {
        s
    }
}

/// With ascending ids, any position holding the id is the position
/// `index_of_id` denotes.
pub proof fn lemma_index_of_id_unique(s: Seq<TodoView>, id: int, i: int)
    requires
        ids_ascending(s),
        0 <= i < s.len(),
        s[i].id == id,
    ensures
        index_of_id(s, id) == i,
{
    assert(contains_id(s, id));
    let j = index_of_id(s, id);
    if i < j {
        assert(s[i].id < s[j].id);
    } else if j < i {
        assert(s[j].id < s[i].id);
    }
}

} // verus!
