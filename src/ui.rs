//! The layout of the two-column listing of tracked files; colouring and
//! printing are the caller's.

use vstd::prelude::*;

use crate::history::string_views;
use crate::text::{chars_of, string_of};

verus! {

/// The width of the alias column, in characters.
pub const NAME_WIDTH: usize = 15;

/// The width of the path column, in characters.
pub const VALUE_WIDTH: usize = 40;

/// `s` cut into consecutive pieces of `w` characters, the last one possibly
/// shorter; none for an empty `s`.
pub open spec fn chunks(s: Seq<char>, w: nat) -> Seq<Seq<char>>
    decreases s.len(),
{
    if s.len() == 0 || w == 0 {
        Seq::empty()
    } else if s.len() <= w {
        seq![s]
    } else {
        seq![s.take(w as int)] + chunks(s.skip(w as int), w)
    }
}

/// The width that wrapping at `width` uses: at least one character.
pub open spec fn line_width(width: usize) -> nat {
    if width == 0 {
        1
    } else {
        width as nat
    }
}

/// Splits `s` into lines of at most `width` characters (one character each
/// for a width of zero).
pub fn wrap_text(s: &str, width: usize) -> (r: Vec<String>)
    ensures
        string_views(r@) == chunks(s@, line_width(width)),
{
    let w: usize = if width == 0 { 1 } else { width };
    let chars = chars_of(s);
    let n = chars.len();
    let mut lines: Vec<String> = Vec::new();
    let mut start: usize = 0;
    assert(s@.skip(0) =~= s@);
    assert(string_views(lines@) =~= Seq::empty());
    while start < n
        invariant
            chars@ == s@,
            n == s@.len(),
            w == line_width(width),
            start <= n,
            string_views(lines@) + chunks(s@.skip(start as int), w as nat) == chunks(s@, w as nat),
        decreases n - start,
    {
        let rest = Ghost(s@.skip(start as int));
        let end: usize = if n - start <= w { n } else { start + w };
        let line = string_of(&chars, start, end);
        let ghost before = string_views(lines@);
        lines.push(line);
        proof {
            assert(string_views(lines@) =~= before.push(line@));
            if n - start <= w {
                assert(line@ =~= rest@);
                assert(s@.skip(end as int) =~= Seq::<char>::empty());
                assert(chunks(rest@, w as nat) == seq![rest@]);
                assert(before.push(line@) + chunks(s@.skip(end as int), w as nat) =~= before + chunks(rest@, w as nat));
            } else {
                assert(line@ =~= rest@.take(w as int));
                assert(rest@.skip(w as int) =~= s@.skip(end as int));
                assert(before.push(line@) + chunks(s@.skip(end as int), w as nat) =~= before + chunks(rest@, w as nat));
            }
        }
        start = end;
    }
    assert(s@.skip(n as int) =~= Seq::<char>::empty());
    assert(string_views(lines@) =~= string_views(lines@) + chunks(s@.skip(n as int), w as nat));
    lines
}

/// The piece at `i`, or an empty one past the end.
pub open spec fn piece_or_empty(p: Seq<Seq<char>>, i: int) -> Seq<char> {
    if i < p.len() {
        p[i]
    } else {
        Seq::empty()
    }
}

/// The rows of the listing of `name` and `value`: the name wrapped at
/// `NAME_WIDTH` beside the value wrapped at `VALUE_WIDTH`, as many rows as
/// the longer of the two needs, the shorter padded with empty cells.
pub fn table_rows(name: &str, value: &str) -> (r: Vec<(String, String)>)
    ensures
        ({
            let nl = chunks(name@, NAME_WIDTH as nat);
            let vl = chunks(value@, VALUE_WIDTH as nat);
            &&& r@.len() == if nl.len() >= vl.len() { nl.len() } else { vl.len() }
            &&& forall|i: int| 0 <= i < r@.len() ==> (#[trigger] r@[i]).0@ == piece_or_empty(nl, i)
                && r@[i].1@ == piece_or_empty(vl, i)
        }),
{
    let name_lines = wrap_text(name, NAME_WIDTH);
    let value_lines = wrap_text(value, VALUE_WIDTH);
    let rows = if name_lines.len() >= value_lines.len() { name_lines.len() } else { value_lines.len() };
    let ghost nl = chunks(name@, NAME_WIDTH as nat);
    let ghost vl = chunks(value@, VALUE_WIDTH as nat);
    assert(string_views(name_lines@) == nl);
    assert(string_views(value_lines@) == vl);
    let mut r: Vec<(String, String)> = Vec::new();
    let mut i: usize = 0;
    while i < rows
        invariant
            i <= rows,
            rows == if nl.len() >= vl.len() { nl.len() } else { vl.len() },
            string_views(name_lines@) == nl,
            string_views(value_lines@) == vl,
            r@.len() == i,
            forall|k: int| 0 <= k < i ==> (#[trigger] r@[k]).0@ == piece_or_empty(nl, k)
                && r@[k].1@ == piece_or_empty(vl, k),
        decreases rows - i,
    {
        let left = if i < name_lines.len() { name_lines[i].clone() } else { String::new() };
        let right = if i < value_lines.len() { value_lines[i].clone() } else { String::new() };
        proof {
            if i < name_lines.len() { assert(nl[i as int] == name_lines@[i as int]@); }
            if i < value_lines.len() { assert(vl[i as int] == value_lines@[i as int]@); }
        }
        r.push((left, right));
        i = i + 1;
    }
    r
}

} // verus!
