//! The target list: targets given directly, followed by the entries of an
//! optional newline-delimited list in which blank lines and lines starting
//! with `#` are ignored.

use vstd::prelude::*;
use vstd::string::*;
use crate::text::{trim, trim_bounds};

verus! {

/// The text of each string of a sequence.
pub open spec fn views(v: Seq<String>) -> Seq<Seq<char>> {
    v.map_values(|x: String| x@)
}

/// The pieces of `s` between newline characters (always at least one).
pub open spec fn split_lines(s: Seq<char>) -> Seq<Seq<char>>
    decreases s.len(),
{
    if s.len() == 0 {
        seq![Seq::empty()]
    } else if s.last() == '\n' {
        split_lines(s.drop_last()).push(Seq::empty())
    } else {
        let p = split_lines(s.drop_last());
        p.update(p.len() - 1, p.last().push(s.last()))
    }
}

/// A trimmed line that names a target: not blank, not a comment.
pub open spec fn is_entry(t: Seq<char>) -> bool {
    t.len() > 0 && t[0] != '#'
}

/// The trimmed lines that name targets, in order.
pub open spec fn entries_of_lines(lines: Seq<Seq<char>>) -> Seq<Seq<char>>
    decreases lines.len(),
{
    if lines.len() == 0 {
        Seq::empty()
    } else {
        let p = entries_of_lines(lines.drop_last());
        let t = trim(lines.last());
        if is_entry(t) {
            p.push(t)
        } else {
            p
        }
    }
}

/// The targets that a target list text names.
pub open spec fn file_entries(s: Seq<char>) -> Seq<Seq<char>> {
    entries_of_lines(split_lines(s))
}

/// Appends the trimmed line `s[from..to]` to `out` when it names a target.
fn push_entry(s: &str, from: usize, to: usize, out: &mut Vec<String>)
    requires
        from <= to <= s@.len(),
    ensures
        ({
            let t = trim(s@.subrange(from as int, to as int));
            views(final(out)@) == if is_entry(t) {
                views(old(out)@).push(t)
            } else {
                views(old(out)@)
            }
        }),
{
    let line = s.substring_char(from, to);
    let (a, b) = trim_bounds(line);
    if a < b && line.get_char(a) != '#' {
        let t = line.substring_char(a, b);
        out.push(String::from_str(t));
        assert(views(final(out)@) =~= views(old(out)@).push(t@));
    }
}

/// The targets named by a target list text: one per line, surrounding
/// whitespace removed, blank lines and `#` comments skipped.
pub fn parse_target_lines(s: &str) -> (r: Vec<String>)
    ensures
        views(r@) == file_entries(s@),
{
    let n = s.unicode_len();
    let mut out: Vec<String> = Vec::new();
    let mut st: usize = 0;
    let mut i: usize = 0;
    let ghost mut done: Seq<Seq<char>> = Seq::empty();
    assert(s@.take(0) =~= Seq::<char>::empty());
    assert(split_lines(s@.take(0)) =~= done.push(s@.subrange(0, 0)));
    while i < n
        invariant
            st <= i <= n == s@.len(),
            split_lines(s@.take(i as int)) == done.push(s@.subrange(st as int, i as int)),
            views(out@) == entries_of_lines(done),
        decreases n - i,
    {
        let c = s.get_char(i);
        assert(s@.take(i + 1).drop_last() =~= s@.take(i as int));
        assert(s@.take(i + 1).last() == c);
        if c == '\n' {
            push_entry(s, st, i, &mut out);
            proof {
                let line = s@.subrange(st as int, i as int);
                assert(done.push(line).drop_last() =~= done);
                done = done.push(line);
                assert(s@.subrange(i + 1, i + 1) =~= Seq::<char>::empty());
            }
            st = i + 1;
        } else {
            assert(s@.subrange(st as int, i + 1) =~= s@.subrange(st as int, i as int).push(c));
            assert(done.push(s@.subrange(st as int, i as int)).update(done.len() as int, s@.subrange(st as int, i + 1)) =~= done.push(s@.subrange(st as int, i + 1)));
        }
        i = i + 1;
    }
    push_entry(s, st, n, &mut out);
    proof {
        let line = s@.subrange(st as int, n as int);
        assert(s@.take(n as int) =~= s@);
        assert(done.push(line).drop_last() =~= done);
    }
    out
}

/// The full target list: the targets given directly, then those of the
/// optional target list text, in order.
pub fn collect_targets(direct: Vec<String>, list: Option<&str>) -> (r: Vec<String>)
    ensures
        views(r@) == views(direct@) + match list {
            Some(c) => file_entries(c@),
            None => Seq::empty(),
        },
{
    let mut r = direct;
    match list {
        Some(c) => {
            let mut extra = parse_target_lines(c);
            let ghost before = r@;
            let ghost e = extra@;
            r.append(&mut extra);
            assert(views(r@) =~= views(before) + views(e));
        },
        None => {
            assert(views(r@) =~= views(r@) + Seq::<Seq<char>>::empty());
        },
    }
    r
}

} // verus!
