//! The history sidecar: one line per completed backup, appended in order.

use vstd::prelude::*;

use crate::config::{add_outcome, Config, PathProbe, TrackMap};
use crate::error::SyncError;
use crate::text::{chars_of, push_char, push_str, string_of};
use crate::timestamp::{local_now, Timestamp};

verus! {

/// The line recorded for a backup of `source` taken at `stamp`:
/// `[YYYY-MM-DD HH:MM:SS] <source>`.
pub open spec fn line_text(stamp: Timestamp, source: Seq<char>) -> Seq<char> {
    seq!['['] + stamp.text() + seq![']', ' '] + source
}

/// The pieces of `s` between newlines; there is always at least one.
pub open spec fn pieces(s: Seq<char>) -> Seq<Seq<char>>
    decreases s.len(),
{
    if s.len() == 0 {
        seq![Seq::empty()]
    } else {
        let p = pieces(s.drop_last());
        if s.last() == '\n' {
            p.push(Seq::empty())
        } else {
            p.update(p.len() - 1, p.last().push(s.last()))
        }
    }
}

/// A piece that a newline ends, without the carriage return of a CR LF ending.
pub open spec fn strip_cr(l: Seq<char>) -> Seq<char> {
    if l.len() > 0 && l.last() == '\r' {
        l.drop_last()
    } else {
        l
    }
}

/// The lines of `s`: the pieces between line endings, a line ending being a
/// newline or a carriage return followed by a newline; a line ending at the
/// very end closes the last line rather than opening an empty one, and a
/// carriage return with no newline after it stays in the line.
pub open spec fn lines_of(s: Seq<char>) -> Seq<Seq<char>> {
    let p = pieces(s);
    let ended = p.drop_last().map_values(|l: Seq<char>| strip_cr(l));
    if p.last().len() == 0 {
        ended
    } else {
        ended.push(p.last())
    }
}

/// The views of a vector of strings.
pub open spec fn string_views(v: Seq<String>) -> Seq<Seq<char>> {
    v.map_values(|l: String| l@)
}

/// A file name whose extension is `cmt`: it ends in `.cmt` after a
/// non-empty stem.
pub open spec fn is_sidecar_name(name: Seq<char>) -> bool {
    name.len() > 4 && name.subrange(name.len() - 4, name.len() as int) == ".cmt"@
}

/// What reading the history of `alias` gives, where `sidecar` is the text of
/// its sidecar if one was found: its lines; an empty history for a tracked
/// alias that has none yet; `NotFound` otherwise.
pub open spec fn history_outcome(m: TrackMap, alias: Seq<char>, sidecar: Option<Seq<char>>) -> Result<Seq<Seq<char>>, SyncError> {
    match sidecar {
        Some(text) => Ok(lines_of(text)),
        None => if m.contains_key(alias) {
            Ok(Seq::empty())
        } else {
            Err(SyncError::NotFound)
        },
    }
}

proof fn lemma_pieces_nonempty(s: Seq<char>)
    ensures
        pieces(s).len() >= 1,
    decreases s.len(),
{
    if s.len() > 0 {
        lemma_pieces_nonempty(s.drop_last());
    }
}

/// The line recorded for a backup of `source` taken at `stamp`.
pub fn history_line(stamp: &Timestamp, source: &str) -> (r: String)
    ensures
        r@ == line_text(*stamp, source@),
{
    let mut r = String::new();
    push_char(&mut r, '[');
    stamp.write_to(&mut r);
    push_char(&mut r, ']');
    push_char(&mut r, ' ');
    push_str(&mut r, source);
    assert(r@ =~= line_text(*stamp, source@));
    r
}

/// `text` stamped with the local time now: `[YYYY-MM-DD HH:MM:SS] <text>`
/// for a valid time; `None` when the clock gives no time.
pub fn stamped_line(text: &str) -> (r: Option<String>)
    ensures
        r matches Some(l) ==> exists|t: Timestamp| t.wf() && l@ == line_text(t, text@),
{
    match local_now() {
        Some(stamp) => {
            let r = history_line(&stamp, text);
            assert(stamp.wf() && r@ == line_text(stamp, text@));
            Some(r)
        },
        None => None,
    }
}

/// Splits sidecar text into its lines, in order, each kept verbatim but
/// for its line ending (a newline, or a carriage return and a newline).
pub fn split_lines(text: &str) -> (r: Vec<String>)
    ensures
        string_views(r@) == lines_of(text@),
{
    let chars = chars_of(text);
    let n = chars.len();
    let mut done: Vec<String> = Vec::new();
    let mut start: usize = 0;
    let mut i: usize = 0;
    proof {
        assert(text@.take(0) =~= Seq::<char>::empty());
        assert(pieces(Seq::<char>::empty()) =~= seq![Seq::<char>::empty()]);
        assert(string_views(done@) =~= seq![Seq::<char>::empty()].drop_last().map_values(|l: Seq<char>| strip_cr(l)));
        assert(text@.subrange(0, 0) =~= Seq::<char>::empty());
    }
    while i < n
        invariant
            n == chars@.len(),
            chars@ == text@,
            start <= i <= n,
            pieces(text@.take(i as int)).len() >= 1,
            string_views(done@) == pieces(text@.take(i as int)).drop_last().map_values(|l: Seq<char>| strip_cr(l)),
            pieces(text@.take(i as int)).last() == text@.subrange(start as int, i as int),
        decreases n - i,
    {
        let c = chars[i];
        let ghost prefix = text@.take(i as int);
        let ghost p = pieces(prefix);
        proof {
            lemma_pieces_nonempty(prefix);
            assert(text@.take(i + 1).drop_last() =~= prefix);
        }
        if c == '\n' {
            let end: usize = if i > start && chars[i - 1] == '\r' { i - 1 } else { i };
            let line = string_of(&chars, start, end);
            proof {
                let piece = text@.subrange(start as int, i as int);
                if i > start && chars@[i - 1] == '\r' {
                    assert(piece.last() == '\r');
                    assert(line@ =~= piece.drop_last());
                } else {
                    assert(line@ =~= piece);
                }
                assert(line@ == strip_cr(piece));
            }
            let ghost before = string_views(done@);
            done.push(line);
            start = i + 1;
            proof {
                let q = p.push(Seq::empty());
                assert(pieces(text@.take(i + 1)) == q);
                assert(q.drop_last() =~= p);
                assert(p =~= p.drop_last().push(p.last()));
                assert(string_views(done@) =~= before.push(line@));
                assert(p.map_values(|l: Seq<char>| strip_cr(l)) =~= p.drop_last().map_values(|l: Seq<char>| strip_cr(l)).push(strip_cr(p.last())));
                assert(text@.subrange(start as int, i + 1) =~= Seq::<char>::empty());
            }
        } else {
            proof {
                let q = p.update(p.len() - 1, p.last().push(c));
                assert(pieces(text@.take(i + 1)) == q);
                assert(q.drop_last() =~= p.drop_last());
                assert(text@.subrange(start as int, i + 1) =~= text@.subrange(start as int, i as int).push(c));
            }
        }
        i = i + 1;
    }
    assert(text@.take(n as int) =~= text@);
    if start < n {
        let line = string_of(&chars, start, n);
        let ghost before = string_views(done@);
        done.push(line);
        assert(string_views(done@) =~= before.push(line@));
    } else {
        assert(text@.subrange(start as int, n as int) =~= Seq::<char>::empty());
    }
    done
}

/// The name of the sidecar beside the backed-up file `file_name`.
pub fn sidecar_name(file_name: &str) -> (r: String)
    requires
        file_name@.len() > 0,
    ensures
        r@ == file_name@ + ".cmt"@,
        is_sidecar_name(r@),
{
    let mut r = String::new();
    push_str(&mut r, file_name);
    push_str(&mut r, ".cmt");
    proof {
        reveal_strlit(".cmt");
        assert(r@.subrange(r@.len() - 4, r@.len() as int) =~= ".cmt"@);
    }
    r
}

/// Whether `name` is the name of a history sidecar: its extension is `cmt`.
pub fn is_sidecar(name: &str) -> (r: bool)
    ensures
        r == is_sidecar_name(name@),
{
    let v = chars_of(name);
    let n = v.len();
    if n <= 4 {
        return false;
    }
    let r = v[n - 4] == '.' && v[n - 3] == 'c' && v[n - 2] == 'm' && v[n - 1] == 't';
    proof {
        reveal_strlit(".cmt");
        let tail = name@.subrange(n - 4, n as int);
        if r {
            assert(tail =~= ".cmt"@);
        } else {
            assert(tail[0] != ".cmt"@[0] || tail[1] != ".cmt"@[1] || tail[2] != ".cmt"@[2] || tail[3] != ".cmt"@[3]);
        }
    }
    r
}

/// The position of the first name in `names` that `wanted` says of whether
/// it is a sidecar.
fn first_where(names: &Vec<String>, wanted: bool) -> (r: Option<usize>)
    ensures
        r matches Some(i) ==> i < names@.len() && is_sidecar_name(names@[i as int]@) == wanted
            && forall|j: int| 0 <= j < i ==> is_sidecar_name(#[trigger] names@[j]@) != wanted,
        r is None ==> forall|j: int| 0 <= j < names@.len() ==> is_sidecar_name(#[trigger] names@[j]@) != wanted,
{
    let n = names.len();
    let mut i: usize = 0;
    while i < n
        invariant
            n == names@.len(),
            i <= n,
            forall|j: int| 0 <= j < i ==> is_sidecar_name(#[trigger] names@[j]@) != wanted,
        decreases n - i,
    {
        if is_sidecar(names[i].as_str()) == wanted {
            return Some(i);
        }
        i = i + 1;
    }
    None
}

/// Among the names in an alias's repository directory, the position of the
/// first sidecar.
pub fn find_sidecar(names: &Vec<String>) -> (r: Option<usize>)
    ensures
        r matches Some(i) ==> i < names@.len() && is_sidecar_name(names@[i as int]@)
            && forall|j: int| 0 <= j < i ==> !is_sidecar_name(#[trigger] names@[j]@),
        r is None ==> forall|j: int| 0 <= j < names@.len() ==> !is_sidecar_name(#[trigger] names@[j]@),
{
    first_where(names, true)
}

/// Among the names in an alias's repository directory, the position of the
/// first that is not a sidecar: the backed-up file.
pub fn find_data_file(names: &Vec<String>) -> (r: Option<usize>)
    ensures
        r matches Some(i) ==> i < names@.len() && !is_sidecar_name(names@[i as int]@)
            && forall|j: int| 0 <= j < i ==> is_sidecar_name(#[trigger] names@[j]@),
        r is None ==> forall|j: int| 0 <= j < names@.len() ==> is_sidecar_name(#[trigger] names@[j]@),
{
    first_where(names, false)
}

/// The entries of a profile's commit log, given its text if it exists: its
/// lines, or none when there is no log yet.
pub fn list_history(log: Option<&str>) -> (r: Vec<String>)
    ensures
        string_views(r@) == match log {
            Some(t) => lines_of(t@),
            None => Seq::<Seq<char>>::empty(),
        },
{
    match log {
        Some(t) => split_lines(t),
        None => {
            let v: Vec<String> = Vec::new();
            assert(string_views(v@) =~= Seq::empty());
            v
        },
    }
}

/// The diagnostic log line `[YYYY-MM-DD HH:MM:SS | profile] kind => action: message`.
pub open spec fn log_text(stamp: Timestamp, profile: Seq<char>, kind: Seq<char>, action: Seq<char>, message: Seq<char>) -> Seq<char> {
    seq!['['] + stamp.text() + seq![' ', '|', ' '] + profile + seq![']', ' '] + kind + seq![' ', '=', '>', ' ']
        + action + seq![':', ' '] + message
}

/// The diagnostic log line for an event; the profile is `default` when none
/// is given.
pub fn log_line(stamp: &Timestamp, profile: Option<&str>, kind: &str, action: &str, message: &str) -> (r: String)
    ensures
        r@ == log_text(*stamp, match profile { Some(p) => p@, None => "default"@ }, kind@, action@, message@),
{
    let p: &str = match profile {
        Some(p) => p,
        None => "default",
    };
    let mut r = String::new();
    push_char(&mut r, '[');
    stamp.write_to(&mut r);
    push_str(&mut r, " | ");
    push_str(&mut r, p);
    push_str(&mut r, "] ");
    push_str(&mut r, kind);
    push_str(&mut r, " => ");
    push_str(&mut r, action);
    push_str(&mut r, ": ");
    push_str(&mut r, message);
    proof {
        reveal_strlit(" | ");
        reveal_strlit("] ");
        reveal_strlit(" => ");
        reveal_strlit(": ");
    }
    assert(r@ =~= log_text(*stamp, p@, kind@, action@, message@));
    r
}

/// The diagnostic log line for an event happening now; `None` when the clock
/// gives no time.
pub fn log_line_now(profile: Option<&str>, kind: &str, action: &str, message: &str) -> (r: Option<String>)
    ensures
        r matches Some(l) ==> exists|t: Timestamp| t.wf()
            && l@ == log_text(t, match profile { Some(p) => p@, None => "default"@ }, kind@, action@, message@),
{
    match local_now() {
        Some(stamp) => {
            let r = log_line(&stamp, profile, kind, action, message);
            assert(stamp.wf() && r@ == log_text(stamp, match profile { Some(p) => p@, None => "default"@ }, kind@, action@, message@));
            Some(r)
        },
        None => None,
    }
}

/// The history of `alias`, given the text of its sidecar if one was found:
/// the sidecar's lines in file order; an empty list for a tracked alias that
/// has not been backed up; `NotFound` for an alias that has neither.
pub fn read_cmt(config: &Config, alias: &str, sidecar: Option<&str>) -> (r: Result<Vec<String>, SyncError>)
    requires
        config.tracking.wf(),
    ensures
        match history_outcome(config.tracking.spec_map(), alias@, match sidecar { Some(t) => Some(t@), None => None }) {
            Ok(lines) => r matches Ok(v) && string_views(v@) == lines,
            Err(e) => r == Err::<Vec<String>, SyncError>(e),
        },
{
    match sidecar {
        Some(text) => Ok(split_lines(text)),
        None => {
            if crate::config::is_tracked(config, alias) {
                let v: Vec<String> = Vec::new();
                assert(string_views(v@) =~= Seq::empty());
                Ok(v)
            } else {
                Err(SyncError::NotFound)
            }
        },
    }
}

/// Once an alias has been added, and before any backup has left a sidecar,
/// its history reads as empty rather than failing; an alias that was never
/// tracked and has no sidecar gives `NotFound`.
pub proof fn lemma_history_before_backup(m: TrackMap, path: String, alias: Seq<char>, never: Seq<char>)
    requires
        add_outcome(m, PathProbe::File(path), alias) is Ok,
        !m.contains_key(never),
        never != alias,
    ensures
        add_outcome(m, PathProbe::File(path), alias) matches Ok(m2) && {
            &&& history_outcome(m2, alias, None) == Ok::<Seq<Seq<char>>, SyncError>(Seq::empty())
            &&& history_outcome(m2, never, None) == Err::<Seq<Seq<char>>, SyncError>(SyncError::NotFound)
        },
{
}

/// The text of a sidecar holding `lines`, each ended by a newline.
pub open spec fn sidecar_text(lines: Seq<Seq<char>>) -> Seq<char>
    decreases lines.len(),
{
    if lines.len() == 0 {
        Seq::empty()
    } else {
        sidecar_text(lines.drop_last()) + lines.last() + seq!['\n']
    }
}

proof fn lemma_pieces_extend(s: Seq<char>, t: Seq<char>)
    requires
        !t.contains('\n'),
    ensures
        pieces(s + t) == pieces(s).update(pieces(s).len() - 1, pieces(s).last() + t),
    decreases t.len(),
{
    lemma_pieces_nonempty(s);
    if t.len() == 0 {
        assert(s + t =~= s);
        assert(pieces(s).last() + t =~= pieces(s).last());
        assert(pieces(s).update(pieces(s).len() - 1, pieces(s).last()) =~= pieces(s));
    } else {
        let u = t.drop_last();
        let c = t.last();
        assert(!u.contains('\n')) by {
            if u.contains('\n') {
                let k = choose|k: int| 0 <= k < u.len() && u[k] == '\n';
                assert(t[k] == '\n');
            }
        }
        lemma_pieces_extend(s, u);
        assert(c != '\n') by {
            assert(t[t.len() - 1] == c);
        }
        assert((s + t).drop_last() =~= s + u);
        assert((s + t).last() == c);
        lemma_pieces_nonempty(s + u);
        assert((pieces(s).last() + u).push(c) =~= pieces(s).last() + t);
        assert(pieces(s + t) =~= pieces(s).update(pieces(s).len() - 1, pieces(s).last() + t));
    }
}

proof fn lemma_pieces_of_sidecar(lines: Seq<Seq<char>>)
    requires
        forall|i: int| 0 <= i < lines.len() ==> !(#[trigger] lines[i]).contains('\n'),
    ensures
        pieces(sidecar_text(lines)) == lines.push(Seq::empty()),
    decreases lines.len(),
{
    if lines.len() == 0 {
        assert(pieces(Seq::<char>::empty()) =~= seq![Seq::<char>::empty()]);
        assert(lines.push(Seq::empty()) =~= seq![Seq::<char>::empty()]);
    } else {
        let init = lines.drop_last();
        let l = lines.last();
        assert forall|i: int| 0 <= i < init.len() implies !(#[trigger] init[i]).contains('\n') by {
            assert(init[i] == lines[i]);
        }
        lemma_pieces_of_sidecar(init);
        let base = sidecar_text(init);
        assert(!l.contains('\n')) by {
            assert(lines[lines.len() - 1] == l);
        }
        lemma_pieces_extend(base, l);
        let whole = sidecar_text(lines);
        assert(whole =~= (base + l).push('\n'));
        assert(whole.drop_last() =~= base + l);
        assert(whole.last() == '\n');
        assert(init.push(Seq::empty()).update(init.len() as int, Seq::<char>::empty() + l) =~= lines) by {
            assert(Seq::<char>::empty() + l =~= l);
        }
        assert(pieces(whole) =~= lines.push(Seq::empty()));
    }
}

/// A sidecar written one line per backup, each line ended by a newline and
/// holding none itself, nor ending in a carriage return, reads back as
/// exactly those lines, in the order in which they were appended.
pub proof fn lemma_sidecar_round_trip(lines: Seq<Seq<char>>)
    requires
        forall|i: int| 0 <= i < lines.len() ==> !(#[trigger] lines[i]).contains('\n'),
        forall|i: int| 0 <= i < lines.len() ==> strip_cr(#[trigger] lines[i]) == lines[i],
    ensures
        lines_of(sidecar_text(lines)) == lines,
{
    lemma_pieces_of_sidecar(lines);
    assert(lines.push(Seq::empty()).drop_last() =~= lines);
    assert(lines.map_values(|l: Seq<char>| strip_cr(l)) =~= lines);
}

} // verus!
