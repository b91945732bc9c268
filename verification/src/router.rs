//! Route matching for the HTTP surface of the service.
//!
//! The service answers on six routes: the landing page, the collection
//! (`GET`/`POST /tasks`), and one task (`GET`/`PUT`/`DELETE /tasks/{id}`,
//! the id in decimal digits).  [`match_route`] decides, from the method and
//! the path alone, which handler a request reaches and with which id;
//! everything else is unmatched.

use vstd::prelude::*;

use crate::text::chars_of;

verus! {

/// The request methods the service distinguishes.
#[derive(Clone, Copy, Debug, PartialEq, Eq, Structural)]
pub enum Method {
    Get,
    Post,
    Put,
    Delete,
    Other,
}

/// Where a request is dispatched.
#[derive(Clone, Copy, Debug, PartialEq, Eq, Structural)]
pub enum Route {
    Index,
    TodoList,
    TodoCreate,
    TodoRead(i32),
    TodoToggle(i32),
    TodoDelete(i32),
    Unmatched,
}

/// A decimal digit character.
pub open spec fn is_digit(c: char) -> bool {
    48 <= (c as u32) <= 57
}

pub open spec fn all_digits(s: Seq<char>) -> bool {
    forall|i: int| 0 <= i < s.len() ==> is_digit(#[trigger] s[i])
}

/// The number a digit string denotes, most significant digit first.
pub open spec fn dec_value(s: Seq<char>) -> int
    decreases s.len(),
{
    if s.len() == 0 {
        0
    } else {
        dec_value(s.drop_last()) * 10 + ((s.last() as u32) - 48)
    }
}

/// A path addressing one task: `/tasks/` (7 characters) followed by at
/// least one decimal digit, the number fitting an `i32` id.
pub open spec fn is_item_path(p: Seq<char>) -> bool {
    &&& p.len() > 7
    &&& p.take(7) == "/tasks/"@
    &&& all_digits(p.skip(7))
    &&& dec_value(p.skip(7)) <= i32::MAX
}

/// The dispatch decision for a method and a path.
pub open spec fn spec_route(m: Method, p: Seq<char>) -> Route {
    if p == "/"@ {
        if m is Get {
            Route::Index
        } else {
            Route::Unmatched
        }
    } else if p == "/tasks"@ {
        match m {
            Method::Get => Route::TodoList,
            Method::Post => Route::TodoCreate,
            _ => Route::Unmatched,
        }
    } else if is_item_path(p) {
        let id = dec_value(p.skip(7)) as i32;
        match m {
            Method::Get => Route::TodoRead(id),
            Method::Put => Route::TodoToggle(id),
            Method::Delete => Route::TodoDelete(id),
            _ => Route::Unmatched,
        }
    } else {
        Route::Unmatched
    }
}

/// A digit string denotes a non-negative number.
proof fn lemma_dec_value_nonneg(s: Seq<char>)
    requires
        all_digits(s),
    ensures
        dec_value(s) >= 0,
    decreases s.len(),
{
    if s.len() > 0 {
        assert(all_digits(s.drop_last()));
        lemma_dec_value_nonneg(s.drop_last());
    }
}

/// Reading more digits never shrinks the denoted number.
proof fn lemma_dec_value_mono(s: Seq<char>, k: int)
    requires
        all_digits(s),
        0 <= k <= s.len(),
    ensures
        dec_value(s) >= dec_value(s.take(k)),
    decreases s.len() - k,
{
    if k < s.len() {
        assert(s.take(k + 1).drop_last() =~= s.take(k));
        assert(s.take(k + 1).last() == s[k]);
        assert(all_digits(s.take(k)));
        lemma_dec_value_nonneg(s.take(k));
        assert(dec_value(s.take(k + 1)) >= dec_value(s.take(k)));
        lemma_dec_value_mono(s, k + 1);
        assert(s.take(s.len() as int) =~= s);
    } else {
        assert(s.take(s.len() as int) =~= s);
    }
}

/// Parses the decimal id that starts at `start`.  Returns the denoted
/// number exactly when everything from `start` on is digits and the number
/// fits an `i32`.
fn parse_id(cs: &Vec<char>, start: usize) -> (r: Option<i32>)
    requires
        start <= cs@.len(),
    ensures
        match r {
            Some(id) => {
                &&& all_digits(cs@.skip(start as int))
                &&& dec_value(cs@.skip(start as int)) == id as int
            },
            None => !(all_digits(cs@.skip(start as int)) && dec_value(cs@.skip(start as int))
                <= i32::MAX),
        },
{
    let ghost rest = cs@.skip(start as int);
    let mut acc: u64 = 0;
    let mut i: usize = start;
    while i < cs.len()
        invariant
            start <= i <= cs@.len(),
            rest == cs@.skip(start as int),
            all_digits(cs@.subrange(start as int, i as int)),
            acc as int == dec_value(cs@.subrange(start as int, i as int)),
            acc <= i32::MAX,
        decreases cs@.len() - i,
    {
        let c = cs[i];
        let u: u32 = c as u32;
        if u < 48 || u > 57 {
            proof {
                assert(rest[i - start] == cs@[i as int]);
                assert(!is_digit(rest[i - start]));
            }
            return None;
        }
        let d: u64 = (u - 48) as u64;
        acc = acc * 10 + d;
        proof {
            assert(cs@.subrange(start as int, i + 1).drop_last() =~= cs@.subrange(
                start as int,
                i as int,
            ));
            assert(cs@.subrange(start as int, i + 1).last() == cs@[i as int]);
            assert(is_digit(cs@[i as int]));
            assert forall|j: int| 0 <= j < i + 1 - start implies is_digit(
                #[trigger] cs@.subrange(start as int, i + 1)[j],
            ) by {
                if j < i - start {
                    assert(cs@.subrange(start as int, i as int)[j] == cs@[start + j]);
                }
            }
            assert(all_digits(cs@.subrange(start as int, i + 1)));
        }
        if acc > (i32::MAX as u64) {
            proof {
                if all_digits(rest) {
                    assert(rest.take(i + 1 - start) =~= cs@.subrange(start as int, i + 1));
                    lemma_dec_value_mono(rest, i + 1 - start);
                }
            }
            return None;
        }
        i += 1;
    }
    proof {
        assert(cs@.subrange(start as int, cs@.len() as int) =~= rest);
    }
    Some(acc as i32)
}

/// Decides which handler a request reaches.
pub fn match_route(m: Method, path: &str) -> (r: Route)
    ensures
        r == spec_route(m, path@),
{
    proof {
        reveal_strlit("/");
        reveal_strlit("/tasks");
        reveal_strlit("/tasks/");
    }
    let cs = chars_of(path);
    if cs.len() == 1 && cs[0] == '/' {
        proof {
            assert(path@ =~= "/"@);
        }
        match m {
            Method::Get => Route::Index,
            _ => Route::Unmatched,
        }
    } else if cs.len() == 6 && cs[0] == '/' && cs[1] == 't' && cs[2] == 'a' && cs[3] == 's'
        && cs[4] == 'k' && cs[5] == 's' {
        proof {
            assert(path@ =~= "/tasks"@);
        }
        match m {
            Method::Get => Route::TodoList,
            Method::Post => Route::TodoCreate,
            _ => Route::Unmatched,
        }
    } else if cs.len() > 7 && cs[0] == '/' && cs[1] == 't' && cs[2] == 'a' && cs[3] == 's'
        && cs[4] == 'k' && cs[5] == 's' && cs[6] == '/' {
        proof {
            assert(path@.take(7) =~= "/tasks/"@);
            assert(path@ != "/"@);
            assert(path@ != "/tasks"@);
        }
        match parse_id(&cs, 7) {
            Some(id) => {
                proof {
                    lemma_dec_value_nonneg(path@.skip(7));
                    assert(is_item_path(path@));
                }
                match m {
                    Method::Get => Route::TodoRead(id),
                    Method::Put => Route::TodoToggle(id),
                    Method::Delete => Route::TodoDelete(id),
                    _ => Route::Unmatched,
                }
            },
            None => {
                proof {
                    assert(!is_item_path(path@));
                }
                Route::Unmatched
            },
        }
    } else {
        proof {
            if path@ == "/"@ {
                assert(path@.len() == 1 && path@[0] == '/');
            }
            if path@ == "/tasks"@ {
                assert(path@.len() == 6);
            }
            if is_item_path(path@) {
                assert(path@[0] == "/tasks/"@[0]);
                assert(path@[1] == "/tasks/"@[1]);
                assert(path@[2] == "/tasks/"@[2]);
                assert(path@[3] == "/tasks/"@[3]);
                assert(path@[4] == "/tasks/"@[4]);
                assert(path@[5] == "/tasks/"@[5]);
                assert(path@[6] == "/tasks/"@[6]);
            }
        }
        Route::Unmatched
    }
}

} // verus!
