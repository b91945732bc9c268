//! The laws the task table obeys, proved over the spec-level operations of
//! [`crate::todo`].  The preservation lemmas double as the proof that every
//! store operation keeps the listing order strictly ascending by id.

use vstd::prelude::*;

use crate::json::{digit_char, spec_digits};
use crate::router::{all_digits, dec_value, is_digit};
use crate::todo::{
    TodoView, contains_id, flip, ids_below, index_of_id, lemma_index_of_id_unique, spec_delete,
    spec_insert, spec_toggle, task_of, wf_tasks,
};

verus! {

/// Inserting under a fresh id above every present id keeps the table
/// well-formed, and every id stays below the next id to assign.
pub proof fn lemma_insert_preserves_wf(s: Seq<TodoView>, id: int, content: Seq<char>, done: bool)
    requires
        wf_tasks(s),
        ids_below(s, id),
        1 <= id,
        content.len() > 0,
    ensures
        wf_tasks(spec_insert(s, id, content, done)),
        ids_below(spec_insert(s, id, content, done), id + 1),
{
}

/// Toggling moves no row and changes no id or content: the table stays
/// well-formed, and any id bound that held keeps holding.
pub proof fn lemma_toggle_preserves_wf(s: Seq<TodoView>, id: int)
    requires
        wf_tasks(s),
    ensures
        wf_tasks(spec_toggle(s, id)),
        spec_toggle(s, id).len() == s.len(),
        forall|j: int| 0 <= j < s.len() ==> #[trigger] spec_toggle(s, id)[j].id == s[j].id,
        forall|b: int| ids_below(s, b) ==> #[trigger] ids_below(spec_toggle(s, id), b),
{
    if contains_id(s, id) {
        let i = index_of_id(s, id);
        assert(0 <= i < s.len() && s[i].id == id);
    }
}

/// Deleting keeps every remaining row a row of the old table, in the old
/// order: the table stays well-formed, and any id bound keeps holding.
pub proof fn lemma_delete_preserves_wf(s: Seq<TodoView>, id: int)
    requires
        wf_tasks(s),
    ensures
        wf_tasks(spec_delete(s, id)),
        spec_delete(s, id).len() <= s.len(),
        forall|b: int| ids_below(s, b) ==> #[trigger] ids_below(spec_delete(s, id), b),
{
    if contains_id(s, id) {
        let i = index_of_id(s, id);
        assert(0 <= i < s.len() && s[i].id == id);
        s.remove_ensures(i);
    }
}

/// Creating a task then listing shows exactly one new entry: the old rows
/// stand unchanged in their old places, and the one new row carries the
/// submitted content and flag under the fresh id.
pub proof fn lemma_create_then_list(s: Seq<TodoView>, id: int, content: Seq<char>, done: bool)
    requires
        wf_tasks(s),
        ids_below(s, id),
        1 <= id,
        content.len() > 0,
    ensures
        spec_insert(s, id, content, done).len() == s.len() + 1,
        forall|j: int| 0 <= j < s.len() ==> #[trigger] spec_insert(s, id, content, done)[j] == s[j],
        spec_insert(s, id, content, done)[s.len() as int] == (TodoView { id, content, done }),
        wf_tasks(spec_insert(s, id, content, done)),
{
    lemma_insert_preserves_wf(s, id, content, done);
}

/// Fetching a freshly created id returns exactly the submitted fields.
pub proof fn lemma_create_then_get(s: Seq<TodoView>, id: int, content: Seq<char>, done: bool)
    requires
        wf_tasks(s),
        ids_below(s, id),
        1 <= id,
        content.len() > 0,
    ensures
        contains_id(spec_insert(s, id, content, done), id),
        task_of(spec_insert(s, id, content, done), id) == (TodoView { id, content, done }),
{
    let s1 = spec_insert(s, id, content, done);
    lemma_insert_preserves_wf(s, id, content, done);
    assert(s1[s.len() as int].id == id);
    assert(contains_id(s1, id));
    lemma_index_of_id_unique(s1, id, s.len() as int);
}

/// An id above every assigned id addresses no row.
pub proof fn lemma_fresh_id_absent(s: Seq<TodoView>, id: int)
    requires
        ids_below(s, id),
    ensures
        !contains_id(s, id),
{
}

/// Toggling a task twice returns the table to its original state.
pub proof fn lemma_toggle_twice(s: Seq<TodoView>, id: int)
    requires
        wf_tasks(s),
    ensures
        spec_toggle(spec_toggle(s, id), id) == s,
{
    if contains_id(s, id) {
        let i = index_of_id(s, id);
        assert(0 <= i < s.len() && s[i].id == id);
        lemma_index_of_id_unique(s, id, i);
        let s1 = spec_toggle(s, id);
        lemma_toggle_preserves_wf(s, id);
        assert(s1[i].id == id);
        assert(contains_id(s1, id));
        lemma_index_of_id_unique(s1, id, i);
        let s2 = spec_toggle(s1, id);
        assert(flip(flip(s[i])) == s[i]);
        assert(s2 =~= s);
    }
}

/// Deleting a task leaves no row under its id, so a fetch afterwards is a
/// not-found result; and deleting it a second time changes nothing.
pub proof fn lemma_delete_then_absent(s: Seq<TodoView>, id: int)
    requires
        wf_tasks(s),
    ensures
        !contains_id(spec_delete(s, id), id),
        spec_delete(spec_delete(s, id), id) == spec_delete(s, id),
{
    if contains_id(s, id) {
        let i = index_of_id(s, id);
        assert(0 <= i < s.len() && s[i].id == id);
        let s1 = spec_delete(s, id);
        s.remove_ensures(i);
        assert forall|j: int| 0 <= j < s1.len() implies s1[j].id != id by {
            if j < i {
                assert(s1[j] == s[j]);
                if s[j].id == id {
                    lemma_index_of_id_unique(s, id, j);
                }
            } else {
                assert(s1[j] == s[j + 1]);
                if s[j + 1].id == id {
                    lemma_index_of_id_unique(s, id, j + 1);
                }
            }
        }
    }
}

/// The id rendered into a JSON body is the decimal numeral of the id: it
/// is all digits, and parsing it back under the route matcher's digit
/// semantics returns the same number.
pub proof fn lemma_digits_roundtrip(n: int)
    requires
        0 <= n,
    ensures
        all_digits(spec_digits(n)),
        dec_value(spec_digits(n)) == n,
    decreases n,
{
    let s = spec_digits(n);
    if n < 10 {
        assert(s =~= seq![digit_char(n)]);
        assert(s.drop_last() =~= Seq::<char>::empty());
        assert((s.last() as u32) == 48 + n);
        assert(is_digit(s[0]));
        assert(dec_value(Seq::<char>::empty()) == 0);
        assert(dec_value(s) == dec_value(s.drop_last()) * 10 + ((s.last() as u32) - 48));
    } else {
        lemma_digits_roundtrip(n / 10);
        let p = spec_digits(n / 10);
        assert(s == p.push(digit_char(n % 10)));
        assert(s.drop_last() =~= p);
        assert((s.last() as u32) == 48 + n % 10);
        assert(dec_value(s) == dec_value(p) * 10 + n % 10);
        assert forall|i: int| 0 <= i < s.len() implies is_digit(#[trigger] s[i]) by {
            if i < p.len() {
                assert(s[i] == p[i]);
            }
        }
    }
}

} // verus!
