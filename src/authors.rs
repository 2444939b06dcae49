//! Author identities read from the history engine's commit log and line
//! attribution outputs, and the most frequent of each.
use vstd::prelude::*;
use vstd::slice::slice_subrange;
use crate::tally::{mode_of, mode_view, strings_view, tally, FrequencyTable};
use crate::text::{chars_of, lines_of, non_empty_lines, non_empty_lines_of, split_lines, string_of, views_of};

verus! {

/// The commit log's identities: one per non-empty line.
pub open spec fn commit_ids(log: Seq<char>) -> Seq<Seq<char>> {
    non_empty_lines_of(log)
}

/// The text that opens each attribution line naming a committer.
pub open spec fn marker() -> Seq<char> {
    seq!['c', 'o', 'm', 'm', 'i', 't', 't', 'e', 'r', '-', 'm', 'a', 'i', 'l']
}

/// Whether line `l` begins with the marker.
pub open spec fn has_marker(l: Seq<char>) -> bool {
    l.len() >= marker().len() && l.take(marker().len() as int) == marker()
}

/// `s` without one leading `c`, if it starts with one.
pub open spec fn drop_leading(s: Seq<char>, c: char) -> Seq<char> {
    if s.len() > 0 && s[0] == c {
        s.skip(1)
    } else {
        s
    }
}

/// `s` without one trailing `c`, if it ends with one.
pub open spec fn drop_trailing(s: Seq<char>, c: char) -> Seq<char> {
    if s.len() > 0 && s.last() == c {
        s.drop_last()
    } else {
        s
    }
}

/// The identity on a marked line: what follows the marker and one space, with
/// one `<` taken off its start and one `>` off its end.
pub open spec fn marked_id(l: Seq<char>) -> Seq<char> {
    drop_trailing(drop_leading(drop_leading(l.skip(marker().len() as int), ' '), '<'), '>')
}

/// The identity of a marked line, `None` for any other line.
pub open spec fn blame_id(l: Seq<char>) -> Option<Seq<char>> {
    if has_marker(l) {
        Some(marked_id(l))
    } else {
        None
    }
}

/// The attribution output's identities: one per marked line.
pub open spec fn blame_ids(text: Seq<char>) -> Seq<Seq<char>> {
    lines_of(text).filter_map(|l: Seq<char>| blame_id(l))
}

/// Whether `l` begins with the marker.
fn starts_with_marker(l: &Vec<char>) -> (r: bool)
    ensures
        r == has_marker(l@),
{
    let m: Vec<char> = vec!['c', 'o', 'm', 'm', 'i', 't', 't', 'e', 'r', '-', 'm', 'a', 'i', 'l'];
    assert(m@ =~= marker());
    if l.len() < m.len() {
        return false;
    }
    let mut i: usize = 0;
    while i < m.len()
        invariant
            m@ == marker(),
            m.len() <= l.len(),
            i <= m.len(),
            forall|j: int| 0 <= j < i ==> l@[j] == m@[j],
        decreases m.len() - i,
    {
        if l[i] != m[i] {
            assert(l@.take(m.len() as int)[i as int] != marker()[i as int]);
            return false;
        }
        i = i + 1;
    }
    assert(l@.take(m.len() as int) =~= marker());
    true
}

/// The identity on a marked line.
fn marked_identity(l: &Vec<char>) -> (r: String)
    requires
        has_marker(l@),
    ensures
        r@ == marked_id(l@),
{
    let mut a: usize = 14;
    let mut b: usize = l.len();
    assert(l@.skip(14) =~= l@.subrange(14, b as int));
    if a < b && l[a] == ' ' {
        a = a + 1;
    }
    assert(drop_leading(l@.skip(14), ' ') =~= l@.subrange(a as int, b as int));
    if a < b && l[a] == '<' {
        a = a + 1;
    }
    let ghost mid = l@.subrange(a as int, b as int);
    assert(drop_leading(drop_leading(l@.skip(14), ' '), '<') =~= mid);
    if a < b && l[b - 1] == '>' {
        b = b - 1;
    }
    assert(drop_trailing(mid, '>') =~= l@.subrange(a as int, b as int));
    string_of(slice_subrange(l.as_slice(), a, b))
}

/// The identities of a commit log, one per non-empty line, in order.
pub fn commit_authors(log: &str) -> (r: Vec<String>)
    ensures
        strings_view(r@) == commit_ids(log@),
{
    non_empty_lines(log)
}

/// The identities of a line-attribution output, one per marked line, in order.
pub fn blame_authors(text: &str) -> (r: Vec<String>)
    ensures
        strings_view(r@) == blame_ids(text@),
{
    let t = chars_of(text);
    let lines = split_lines(&t);
    let ghost ls = views_of(lines@);
    let mut r: Vec<String> = Vec::new();
    let mut i: usize = 0;
    while i < lines.len()
        invariant
            ls == views_of(lines@),
            ls == lines_of(text@),
            i <= lines.len(),
            strings_view(r@) == ls.take(i as int).filter_map(|l: Seq<char>| blame_id(l)),
        decreases lines.len() - i,
    {
        assert(ls.take(i + 1).drop_last() =~= ls.take(i as int));
        assert(ls[i as int] == lines@[i as int]@);
        if starts_with_marker(&lines[i]) {
            let ghost before = r@;
            r.push(marked_identity(&lines[i]));
            assert(strings_view(r@) =~= strings_view(before) + seq![marked_id(ls[i as int])]);
        }
        i = i + 1;
    }
    assert(ls.take(i as int) =~= ls);
    r
}

/// The most frequent identity of a commit log, with its count; of several
/// equally frequent, the one met first. `None` when the log names nobody.
pub fn top_commit_author(log: &str) -> (r: Option<(String, usize)>)
    ensures
        mode_view(r) == mode_of(tally(commit_ids(log@))),
{
    let ids = commit_authors(log);
    FrequencyTable::from_occurrences(&ids).mode()
}

/// The identity credited with most lines of an attribution output, with its
/// count; of several equally frequent, the one met first. `None` when no line
/// names a committer.
pub fn top_blame_author(text: &str) -> (r: Option<(String, usize)>)
    ensures
        mode_view(r) == mode_of(tally(blame_ids(text@))),
{
    let ids = blame_authors(text);
    FrequencyTable::from_occurrences(&ids).mode()
}

} // verus!
