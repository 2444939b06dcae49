//! Ownership records of paths and the report lines they are rendered as.
use vstd::prelude::*;
use crate::authors::{blame_ids, commit_ids, top_blame_author, top_commit_author};
use crate::paths::selection;
use crate::tally::{mode_of, mode_view, strings_view, tally, Entry};
use crate::text::{chars_of, decimal, lines_of, push_decimal, scan_lines, string_of};

verus! {

/// The most frequent commit author of a log, or `None` where the log could not
/// be had (`log` is `None`) or names nobody.
pub open spec fn commit_result(log: Option<Seq<char>>) -> Option<Entry> {
    match log {
        None => None,
        Some(t) => mode_of(tally(commit_ids(t))),
    }
}

/// The committer credited with most lines of an attribution output, or `None`
/// where the output could not be had or names nobody.
pub open spec fn blame_result(blame: Option<Seq<char>>) -> Option<Entry> {
    match blame {
        None => None,
        Some(t) => mode_of(tally(blame_ids(t))),
    }
}

/// A selected entry as rendered: identity, a space, count; `?` for none.
pub open spec fn field_text(r: Option<Entry>) -> Seq<char> {
    match r {
        None => "?"@,
        Some(e) => e.0 + " "@ + decimal(e.1),
    }
}

/// The report line of a path and its two selected entries.
pub open spec fn record_text(path: Seq<char>, commit: Option<Entry>, blame: Option<Entry>) -> Seq<char> {
    path + " commits "@ + field_text(commit) + "  blame "@ + field_text(blame)
}

/// The report line of a path from its two query outputs.
pub open spec fn path_line(path: Seq<char>, log: Option<Seq<char>>, blame: Option<Seq<char>>) -> Seq<char> {
    record_text(path, commit_result(log), blame_result(blame))
}

/// The view of an optional text.
pub open spec fn opt_view(t: Option<String>) -> Option<Seq<char>> {
    match t {
        None => None,
        Some(s) => Some(s@),
    }
}

/// The report of `paths`, the i-th line from the i-th path and its outputs.
pub open spec fn report(
    paths: Seq<Seq<char>>,
    logs: Seq<Option<Seq<char>>>,
    blames: Seq<Option<Seq<char>>>,
) -> Seq<Seq<char>> {
    Seq::new(paths.len(), |i: int| path_line(paths[i], logs[i], blames[i]))
}

/// The owners found for one path: its most frequent commit author and the
/// committer credited with most of its lines, each with its count.
pub struct OwnershipRecord {
    pub path: String,
    pub top_commit_author: Option<(String, usize)>,
    pub top_blame_author: Option<(String, usize)>,
}

fn push_str(out: &mut Vec<char>, s: &str)
    ensures
        final(out)@ == old(out)@ + s@,
{
    let mut cs = chars_of(s);
    out.append(&mut cs);
}

fn push_field(out: &mut Vec<char>, r: &Option<(String, usize)>)
    ensures
        final(out)@ == old(out)@ + field_text(mode_view(*r)),
{
    match r {
        None => push_str(out, "?"),
        Some(p) => {
            push_str(out, p.0.as_str());
            push_str(out, " ");
            push_decimal(out, p.1);
        },
    }
    assert(final(out)@ =~= old(out)@ + field_text(mode_view(*r)));
}

impl OwnershipRecord {
    /// The record of `path` from the outputs of its two queries; a query whose
    /// output could not be had (`None`) leaves its field empty.
    pub fn from_outputs(path: String, log: Option<&str>, blame: Option<&str>) -> (r: OwnershipRecord)
        ensures
            r.path@ == path@,
            mode_view(r.top_commit_author) == commit_result(match log {
                None => None,
                Some(t) => Some(t@),
            }),
            mode_view(r.top_blame_author) == blame_result(match blame {
                None => None,
                Some(t) => Some(t@),
            }),
    {
        let top_commit_author = match log {
            None => None,
            Some(t) => top_commit_author(t),
        };
        let top_blame_author = match blame {
            None => None,
            Some(t) => top_blame_author(t),
        };
        OwnershipRecord { path, top_commit_author, top_blame_author }
    }

    /// The record's report line:
    /// `<path> commits <author> <count>  blame <author> <count>`, with `?` for
    /// an entry that is missing.
    pub fn render(&self) -> (r: String)
        ensures
            r@ == record_text(self.path@, mode_view(self.top_commit_author), mode_view(self.top_blame_author)),
    {
        let mut out: Vec<char> = Vec::new();
        push_str(&mut out, self.path.as_str());
        push_str(&mut out, " commits ");
        push_field(&mut out, &self.top_commit_author);
        push_str(&mut out, "  blame ");
        push_field(&mut out, &self.top_blame_author);
        assert(out@ =~= record_text(self.path@, mode_view(self.top_commit_author), mode_view(self.top_blame_author)));
        string_of(out.as_slice())
    }
}

/// The report of `paths`: for each path, in the order given, the line of its
/// record built from its log and attribution outputs of the same position.
pub fn report_lines(paths: &Vec<String>, logs: &Vec<Option<String>>, blames: &Vec<Option<String>>) -> (r: Vec<String>)
    requires
        logs.len() == paths.len(),
        blames.len() == paths.len(),
    ensures
        strings_view(r@) == report(
            strings_view(paths@),
            logs@.map_values(|t: Option<String>| opt_view(t)),
            blames@.map_values(|t: Option<String>| opt_view(t)),
        ),
{
    let ghost want = report(
        strings_view(paths@),
        logs@.map_values(|t: Option<String>| opt_view(t)),
        blames@.map_values(|t: Option<String>| opt_view(t)),
    );
    let mut r: Vec<String> = Vec::new();
    let mut i: usize = 0;
    while i < paths.len()
        invariant
            logs.len() == paths.len(),
            blames.len() == paths.len(),
            want == report(
                strings_view(paths@),
                logs@.map_values(|t: Option<String>| opt_view(t)),
                blames@.map_values(|t: Option<String>| opt_view(t)),
            ),
            i <= paths.len(),
            r@.len() == i,
            forall|j: int| 0 <= j < i ==> r@[j]@ == want[j],
        decreases paths.len() - i,
    {
        let log: Option<&str> = match &logs[i] {
            None => None,
            Some(t) => Some(t.as_str()),
        };
        let blame: Option<&str> = match &blames[i] {
            None => None,
            Some(t) => Some(t.as_str()),
        };
        let rec = OwnershipRecord::from_outputs(paths[i].clone(), log, blame);
        r.push(rec.render());
        i = i + 1;
    }
    assert(strings_view(r@) =~= want);
    r
}

/// The report keeps the order of its paths: it has one line per path, and
/// line i begins with path i, whenever each path's queries completed.
pub proof fn law_report_order(
    paths: Seq<Seq<char>>,
    logs: Seq<Option<Seq<char>>>,
    blames: Seq<Option<Seq<char>>>,
)
    requires
        logs.len() == paths.len(),
        blames.len() == paths.len(),
    ensures
        report(paths, logs, blames).len() == paths.len(),
        forall|i: int|
            0 <= i < paths.len() ==> #[trigger] report(paths, logs, blames)[i].take(paths[i].len() as int)
                == paths[i],
{
    assert forall|i: int| 0 <= i < paths.len() implies #[trigger] report(paths, logs, blames)[i].take(
        paths[i].len() as int,
    ) == paths[i] by {
        let line = report(paths, logs, blames)[i];
        assert(line == paths[i] + (" commits "@ + field_text(commit_result(logs[i])) + "  blame "@
            + field_text(blame_result(blames[i]))));
        assert(line.take(paths[i].len() as int) =~= paths[i]);
    }
}

/// Running twice over an unchanged repository gives the same report: where
/// the listing, the patterns and every query output are the same, so is each
/// line, and line i depends on the outputs for path i alone.
pub proof fn law_report_repeatable(
    listing: Seq<char>,
    excludes: Seq<Seq<char>>,
    only: Option<Seq<char>>,
    logs: Seq<Option<Seq<char>>>,
    blames: Seq<Option<Seq<char>>>,
    logs2: Seq<Option<Seq<char>>>,
    blames2: Seq<Option<Seq<char>>>,
)
    requires
        logs.len() == selection(listing, excludes, only).len(),
        blames.len() == logs.len(),
        logs2 == logs,
        blames2 == blames,
    ensures
        report(selection(listing, excludes, only), logs, blames) == report(
            selection(listing, excludes, only),
            logs2,
            blames2,
        ),
        forall|i: int|
            0 <= i < logs.len() ==> #[trigger] report(selection(listing, excludes, only), logs, blames)[i]
                == path_line(selection(listing, excludes, only)[i], logs[i], blames[i]),
{
}

/// A path whose log holds no lines has no commit author, and its line shows
/// the placeholder in that place.
pub proof fn law_empty_history(path: Seq<char>, blame: Option<Seq<char>>)
    ensures
        commit_result(Some(Seq::empty())) is None,
        path_line(path, Some(Seq::empty()), blame) == path + " commits "@ + "?"@ + "  blame "@
            + field_text(blame_result(blame)),
{
    let e = Seq::<char>::empty();
    assert(scan_lines(e) == (Seq::<Seq<char>>::empty(), Seq::<char>::empty()));
    assert(lines_of(e) =~= Seq::<Seq<char>>::empty());
    reveal(Seq::filter);
    assert(commit_ids(e) =~= Seq::<Seq<char>>::empty());
}

} // verus!
