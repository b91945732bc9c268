//! Decoding a submitted form into a task to create.
//!
//! The form arrives as named fields.  The task text is the value of the
//! first field named `content`; the done flag is set exactly when a field
//! named `done` is present, whatever its value.  (Nothing is inferred from
//! the number or order of the other fields.)

use vstd::prelude::*;

use crate::todo::CreateTodo;

verus! {

/// The fields as plain values: `(name, value)` pairs.
pub open spec fn field_views(s: Seq<(String, String)>) -> Seq<(Seq<char>, Seq<char>)> {
    s.map_values(|p: (String, String)| (p.0@, p.1@))
}

/// The value of the first field named `content`; empty if there is none.
pub open spec fn spec_form_content(fs: Seq<(Seq<char>, Seq<char>)>) -> Seq<char>
    decreases fs.len(),
{
    if fs.len() == 0 {
        Seq::empty()
    } else if fs[0].0 == "content"@ {
        fs[0].1
    } else {
        spec_form_content(fs.drop_first())
    }
}

/// Whether a field named `done` is present.
pub open spec fn spec_form_done(fs: Seq<(Seq<char>, Seq<char>)>) -> bool {
    exists|i: int| 0 <= i < fs.len() && #[trigger] fs[i].0 == "done"@
}

/// Builds the task to create from the submitted fields.  The content and
/// the flag are exactly what the field model above denotes; validation
/// (rejecting empty content) happens in the create handler.
pub fn create_from_form(fields: &Vec<(String, String)>) -> (r: CreateTodo)
    ensures
        r.content@ == spec_form_content(field_views(fields@)),
        r.done == spec_form_done(field_views(fields@)),
{
    let ghost fv = field_views(fields@);
    let key_content = String::from_str("content");
    let key_done = String::from_str("done");
    let mut content = String::new();
    let mut found = false;
    let mut done = false;
    let mut i: usize = 0;
    proof {
        assert(fv.skip(0) =~= fv);
    }
    while i < fields.len()
        invariant
            i <= fields@.len(),
            fv == field_views(fields@),
            found ==> content@ == spec_form_content(fv),
            !found ==> content@ == Seq::<char>::empty() && spec_form_content(fv)
                == spec_form_content(fv.skip(i as int)),
            done == spec_form_done(fv.take(i as int)),
            key_content@ == "content"@,
            key_done@ == "done"@,
        decreases fields@.len() - i,
    {
        proof {
            assert(fv[i as int] == (fields@[i as int].0@, fields@[i as int].1@));
        }
        if !found && fields[i].0 == key_content {
            content = fields[i].1.clone();
            found = true;
            proof {
                assert(fv.skip(i as int)[0] == fv[i as int]);
                assert(spec_form_content(fv.skip(i as int)) == fv[i as int].1);
            }
        }
        if fields[i].0 == key_done {
            done = true;
        }
        proof {
            if !found {
                assert(fv.skip(i as int)[0] == fv[i as int]);
                assert(fv.skip(i as int).drop_first() =~= fv.skip(i + 1));
            }
            assert(fv.take(i + 1).drop_last() =~= fv.take(i as int));
            assert(fv.take(i + 1).last() == fv[i as int]);
            assert(spec_form_done(fv.take(i + 1)) == (spec_form_done(fv.take(i as int)) || fv[i
                as int].0 == "done"@)) by {
                if spec_form_done(fv.take(i as int)) {
                    let w = choose|j: int|
                        0 <= j < i && #[trigger] fv.take(i as int)[j].0 == "done"@;
                    assert(fv.take(i + 1)[w].0 == "done"@);
                }
                if fv[i as int].0 == "done"@ {
                    assert(fv.take(i + 1)[i as int].0 == "done"@);
                }
                if spec_form_done(fv.take(i + 1)) {
                    let w = choose|j: int| 0 <= j <= i && #[trigger] fv.take(i + 1)[j].0 == "done"@;
                    if w < i {
                        assert(fv.take(i as int)[w].0 == "done"@);
                    }
                }
            }
        }
        i += 1;
    }
    proof {
        if !found {
            assert(fv.skip(fields@.len() as int) =~= Seq::<(Seq<char>, Seq<char>)>::empty());
        }
        assert(fv.take(fields@.len() as int) =~= fv);
    }
    CreateTodo { content, done }
}

} // verus!
