//! Verified JSON rendering of a task.
//!
//! `GET /tasks/{id}` answers with a JSON object mirroring the task entity.
//! The exact body is pinned down by [`json_of`]: decimal digits for the id,
//! the content as a JSON string (quote, backslash and control characters
//! escaped), and `true`/`false` for the flag.

use vstd::prelude::*;

use crate::text::{push_str_chars, string_from_chars};
use crate::todo::{Todo, TodoView};

verus! {

/// The decimal digit character for `d` (0 through 9).
pub open spec fn digit_char(d: int) -> char {
    ((48 + d) as u8) as char
}

/// The decimal digits of a non-negative number, most significant first.
pub open spec fn spec_digits(n: int) -> Seq<char>
    decreases n,
{
    if n < 10 {
        seq![digit_char(n)]
    } else {
        spec_digits(n / 10).push(digit_char(n % 10))
    }
}

/// The lower-case hexadecimal digit character for `d` (0 through 15).
pub open spec fn hex_char(d: int) -> char {
    if d < 10 {
        digit_char(d)
    } else {
        ((87 + d) as u8) as char
    }
}

/// How one character of content appears inside a JSON string: quotes and
/// backslashes get a backslash escape, control characters the `\u00XX`
/// form, everything else stands as itself.
pub open spec fn esc_char(c: char) -> Seq<char> {
    if c == '"' {
        seq!['\\', '"']
    } else if c == '\\' {
        seq!['\\', '\\']
    } else if (c as int) < 32 {
        seq!['\\', 'u', '0', '0', hex_char((c as int) / 16), hex_char((c as int) % 16)]
    } else {
        seq![c]
    }
}

/// A whole content string, escaped character by character.
pub open spec fn esc_string(s: Seq<char>) -> Seq<char>
    decreases s.len(),
{
    if s.len() == 0 {
        Seq::empty()
    } else {
        esc_string(s.drop_last()) + esc_char(s.last())
    }
}

/// The JSON spelling of a boolean.
pub open spec fn bool_chars(b: bool) -> Seq<char> {
    if b {
        "true"@
    } else {
        "false"@
    }
}

/// The JSON object for a task: `{"id":N,"content":"...","done":B}`.
pub open spec fn json_of(t: TodoView) -> Seq<char> {
    "{\"id\":"@ + spec_digits(t.id) + ",\"content\":\""@ + esc_string(t.content) + "\",\"done\":"@
        + bool_chars(t.done) + "}"@
}

/// The decimal digits of `n`, as characters.
fn digits_vec(n: i32) -> (v: Vec<char>)
    requires
        0 <= n,
    ensures
        v@ == spec_digits(n as int),
    decreases n,
{
    if n < 10 {
        let d: u8 = (48 + n) as u8;
        let mut v: Vec<char> = Vec::new();
        v.push(d as char);
        proof {
            assert(v@ =~= seq![digit_char(n as int)]);
        }
        v
    } else {
        let mut v = digits_vec(n / 10);
        let d: u8 = (48 + (n % 10)) as u8;
        v.push(d as char);
        v
    }
}

/// Appends the escaped form of the one character `c` to `out`.
fn push_esc_char(out: &mut Vec<char>, c: char)
    ensures
        final(out)@ == old(out)@ + esc_char(c),
{
    if c == '"' {
        out.push('\\');
        out.push('"');
        proof {
            assert(out@ =~= old(out)@ + esc_char(c));
        }
    } else if c == '\\' {
        out.push('\\');
        out.push('\\');
        proof {
            assert(out@ =~= old(out)@ + esc_char(c));
        }
    } else if (c as u32) < 32 {
        let code: u32 = c as u32;
        out.push('\\');
        out.push('u');
        out.push('0');
        out.push('0');
        let hi: u32 = code / 16;
        let lo: u32 = code % 16;
        let hi_char = if hi < 10 {
            (48 + hi as u8) as char
        } else {
            (87 + hi as u8) as char
        };
        let lo_char = if lo < 10 {
            (48 + lo as u8) as char
        } else {
            (87 + lo as u8) as char
        };
        out.push(hi_char);
        out.push(lo_char);
        proof {
            assert(hi as int == (c as int) / 16);
            assert(lo as int == (c as int) % 16);
            assert(hi_char == hex_char((c as int) / 16));
            assert(lo_char == hex_char((c as int) % 16));
            assert(out@ =~= old(out)@ + esc_char(c));
        }
    } else {
        out.push(c);
        proof {
            assert(out@ =~= old(out)@ + esc_char(c));
        }
    }
}

/// Appends the escaped form of `cs` to `out`.
fn push_escaped(out: &mut Vec<char>, cs: &Vec<char>)
    ensures
        final(out)@ == old(out)@ + esc_string(cs@),
{
    let mut i: usize = 0;
    while i < cs.len()
        invariant
            i <= cs@.len(),
            out@ == old(out)@ + esc_string(cs@.take(i as int)),
        decreases cs@.len() - i,
    {
        push_esc_char(out, cs[i]);
        proof {
            assert(cs@.take(i + 1).drop_last() =~= cs@.take(i as int));
            assert(cs@.take(i + 1).last() == cs@[i as int]);
            assert(esc_string(cs@.take(i + 1)) == esc_string(cs@.take(i as int)) + esc_char(
                cs@[i as int],
            ));
            assert(out@ =~= old(out)@ + esc_string(cs@.take(i + 1)));
        }
        i += 1;
    }
    proof {
        assert(cs@.take(cs@.len() as int) =~= cs@);
    }
}

/// Renders one task as its JSON object.
pub fn todo_json(t: &Todo) -> (r: String)
    requires
        0 <= t@.id,
    ensures
        r@ == json_of(t@),
{
    let mut out: Vec<char> = Vec::new();
    push_str_chars(&mut out, "{\"id\":");
    let mut digits = digits_vec(t.id);
    out.append(&mut digits);
    push_str_chars(&mut out, ",\"content\":\"");
    let mut content_chars: Vec<char> = Vec::new();
    push_str_chars(&mut content_chars, t.content.as_str());
    push_escaped(&mut out, &content_chars);
    push_str_chars(&mut out, "\",\"done\":");
    push_str_chars(&mut out, if t.done {
        "true"
    } else {
        "false"
    });
    push_str_chars(&mut out, "}");
    proof {
        assert(out@ =~= json_of(t@));
    }
    string_from_chars(out)
}

} // verus!
