//! The executable task store: an ordered row vector plus the next id to
//! assign, proved against the spec-level table operations of [`crate::todo`].
//!
//! The store mirrors the four statements the service issues against its one
//! table: insert, lookup by id, ordered listing, done-toggle, and delete.
//! The toggle is a single operation on the store, so the flag flip is atomic
//! here rather than a fetch-then-write pair.

use vstd::prelude::*;

use crate::error::ApiError;
use crate::todo::{
    Todo, TodoView, contains_id, flip, ids_ascending, ids_below, lemma_index_of_id_unique,
    seq_view, spec_delete, spec_insert, spec_toggle, task_of, wf_tasks,
};

verus! {

/// The task table: rows in strictly ascending id order, and the id the next
/// insertion will be assigned.
pub struct TaskStore {
    tasks: Vec<Todo>,
    next_id: i32,
}

impl View for TaskStore {
    type V = Seq<TodoView>;

    closed spec fn view(&self) -> Seq<TodoView> {
        seq_view(self.tasks@)
    }
}

impl TaskStore {
    /// The id the next successful insertion returns.
    pub closed spec fn next_id(&self) -> int {
        self.next_id as int
    }

    /// The store invariant: a well-formed table whose ids all lie below the
    /// next id to assign.
    pub open spec fn wf(&self) -> bool {
        &&& wf_tasks(self@)
        &&& ids_below(self@, self.next_id())
        &&& 1 <= self.next_id() <= i32::MAX
    }

    /// An empty store; ids are assigned starting from 1.
    pub fn new() -> (s: Self)
        ensures
            s.wf(),
            s@ == Seq::<TodoView>::empty(),
            s.next_id() == 1,
    {
        let s = TaskStore { tasks: Vec::new(), next_id: 1 };
        proof {
            assert(s@ =~= Seq::<TodoView>::empty());
        }
        s
    }

    /// The position of the row with the id, if any.
    fn find_index(&self, id: i32) -> (r: Option<usize>)
        requires
            self.wf(),
        ensures
            match r {
                Some(i) => i < self@.len() && self@[i as int].id == id,
                None => !contains_id(self@, id as int),
            },
    {
        let mut i: usize = 0;
        while i < self.tasks.len()
            invariant
                self.wf(),
                i <= self@.len(),
                forall|j: int| 0 <= j < i ==> self@[j].id != id,
            decreases self@.len() - i,
        {
            if self.tasks[i].id == id {
                return Some(i);
            }
            i += 1;
        }
        None
    }

    /// A fresh copy of one row, equal in value to the original.
    fn copy_row(t: &Todo) -> (r: Todo)
        ensures
            r@ == t@,
    {
        Todo { id: t.id, content: t.content.clone(), done: t.done }
    }

    /// `insert(content, done) -> id`: appends a row under a fresh id.
    ///
    /// Succeeds exactly when the id space is not exhausted; the new row is
    /// appended (its id is above every present id), and nothing else moves.
    pub fn insert(&mut self, content: String, done: bool) -> (r: Result<i32, ApiError>)
        requires
            old(self).wf(),
            content@.len() > 0,
        ensures
            final(self).wf(),
            match r {
                Ok(id) => {
                    &&& old(self).next_id() < i32::MAX
                    &&& id == old(self).next_id()
                    &&& final(self)@ == spec_insert(old(self)@, id as int, content@, done)
                    &&& final(self).next_id() == old(self).next_id() + 1
                },
                Err(e) => {
                    &&& e == ApiError::Storage
                    &&& old(self).next_id() == i32::MAX
                    &&& *final(self) == *old(self)
                },
            },
    {
        if self.next_id == i32::MAX {
            return Err(ApiError::Storage);
        }
        let id: i32 = self.next_id;
        let row = Todo { id, content, done };
        let ghost prev = self@;
        self.tasks.push(row);
        self.next_id = id + 1;
        proof {
            assert(self@ =~= prev.push(TodoView { id: id as int, content: content@, done }));
            crate::laws::lemma_insert_preserves_wf(prev, id as int, content@, done);
        }
        Ok(id)
    }

    /// `get(id) -> Task`: returns the addressed row, or `NotFound` exactly
    /// when no row carries the id.
    pub fn get(&self, id: i32) -> (r: Result<Todo, ApiError>)
        requires
            self.wf(),
        ensures
            match r {
                Ok(t) => contains_id(self@, id as int) && t@ == task_of(self@, id as int),
                Err(e) => e == ApiError::NotFound && !contains_id(self@, id as int),
            },
    {
        match self.find_index(id) {
            Some(i) => {
                proof {
                    lemma_index_of_id_unique(self@, id as int, i as int);
                }
                Ok(Self::copy_row(&self.tasks[i]))
            },
            None => Err(ApiError::NotFound),
        }
    }

    /// `list() -> ordered sequence`: a copy of every row, in table order
    /// (strictly ascending by id, by the invariant).
    pub fn list(&self) -> (r: Vec<Todo>)
        requires
            self.wf(),
        ensures
            seq_view(r@) == self@,
            ids_ascending(seq_view(r@)),
    {
        let mut out: Vec<Todo> = Vec::new();
        let mut i: usize = 0;
        while i < self.tasks.len()
            invariant
                self.wf(),
                i <= self@.len(),
                seq_view(out@) =~= self@.take(i as int),
            decreases self@.len() - i,
        {
            out.push(Self::copy_row(&self.tasks[i]));
            proof {
                assert(seq_view(out@) =~= self@.take(i as int).push(self@[i as int]));
                assert(self@.take(i as int).push(self@[i as int]) =~= self@.take(i + 1));
            }
            i += 1;
        }
        proof {
            assert(self@.take(self@.len() as int) =~= self@);
        }
        out
    }

    /// `toggle(id)`: flips the done flag of the addressed row in place and
    /// returns the new flag; `NotFound` exactly when no row carries the id.
    pub fn toggle(&mut self, id: i32) -> (r: Result<bool, ApiError>)
        requires
            old(self).wf(),
        ensures
            final(self).wf(),
            final(self).next_id() == old(self).next_id(),
            final(self)@ == spec_toggle(old(self)@, id as int),
            match r {
                Ok(b) => {
                    &&& contains_id(old(self)@, id as int)
                    &&& b == !task_of(old(self)@, id as int).done
                },
                Err(e) => e == ApiError::NotFound && !contains_id(old(self)@, id as int),
            },
    {
        let ghost prev = self@;
        match self.find_index(id) {
            Some(i) => {
                proof {
                    lemma_index_of_id_unique(prev, id as int, i as int);
                }
                let row = self.tasks.remove(i);
                let flipped = Todo { id: row.id, content: row.content, done: !row.done };
                let new_done = flipped.done;
                self.tasks.insert(i, flipped);
                proof {
                    assert(self@ =~= prev.update(i as int, flip(prev[i as int])));
                    assert(self@ =~= spec_toggle(prev, id as int));
                    crate::laws::lemma_toggle_preserves_wf(prev, id as int);
                    assert(ids_below(self@, old(self).next_id()));
                }
                Ok(new_done)
            },
            None => Err(ApiError::NotFound),
        }
    }

    /// `delete(id)`: removes the addressed row if present; deleting an
    /// absent id is a no-op, never an error.
    pub fn delete(&mut self, id: i32)
        requires
            old(self).wf(),
        ensures
            final(self).wf(),
            final(self).next_id() == old(self).next_id(),
            final(self)@ == spec_delete(old(self)@, id as int),
    {
        let ghost prev = self@;
        match self.find_index(id) {
            Some(i) => {
                proof {
                    lemma_index_of_id_unique(prev, id as int, i as int);
                }
                self.tasks.remove(i);
                proof {
                    assert(self@ =~= prev.remove(i as int));
                    crate::laws::lemma_delete_preserves_wf(prev, id as int);
                    assert(ids_below(self@, old(self).next_id()));
                }
            },
            None => {
                proof {
                    assert(self@ =~= spec_delete(prev, id as int));
                }
            },
        }
    }
}

} // verus!
