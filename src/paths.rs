//! Tracked paths and their selection by glob patterns.
use vstd::prelude::*;
use crate::tally::strings_view;
use crate::text::{non_empty_lines, non_empty_lines_of};

verus! {

#[verifier::external_type_specification]
#[verifier::external_body]
pub struct ExPattern(glob::Pattern);

#[verifier::external_type_specification]
#[verifier::external_body]
pub struct ExPatternError(glob::PatternError);

/// Whether `glob::Pattern::new` accepts the pattern text `pattern`.
pub uninterp spec fn glob_compiles(pattern: Seq<char>) -> bool;

/// Whether the pattern compiled from the text `pattern` matches `path` under
/// `glob`'s default match options.
pub uninterp spec fn glob_matches(pattern: Seq<char>, path: Seq<char>) -> bool;

/// Relies on `glob::Pattern::new`: it compiles `pattern`, and whether it fails
/// depends on the pattern's characters alone.
#[verifier::external_body]
fn compile_glob(pattern: &str) -> (r: Result<glob::Pattern, glob::PatternError>)
    ensures
        r is Ok <==> glob_compiles(pattern@),
{
    glob::Pattern::new(pattern)
}

/// A compiled glob pattern together with the text it was compiled from.
pub struct GlobPattern {
    source: String,
    compiled: glob::Pattern,
}

/// A glob pattern that does not compile.
pub struct PatternCompileError {
    pub pattern: String,
}

impl View for GlobPattern {
    type V = Seq<char>;

    /// The text the pattern was compiled from.
    closed spec fn view(&self) -> Seq<char> {
        self.source@
    }
}

/// Relies on `glob::Pattern::matches` (default match options). The only way to
/// build a `GlobPattern` is `GlobPattern::new`, which compiles `source` into
/// `compiled`, so the answer depends on the pattern text and `path` alone.
#[verifier::external_body]
fn glob_test(p: &GlobPattern, path: &str) -> (r: bool)
    ensures
        r == glob_matches(p@, path@),
{
    p.compiled.matches(path)
}

impl GlobPattern {
    /// Compiles `pattern`.
    pub fn new(pattern: &str) -> (r: Result<GlobPattern, PatternCompileError>)
        ensures
            r is Ok <==> glob_compiles(pattern@),
            r matches Ok(g) ==> g@ == pattern@,
            r matches Err(e) ==> e.pattern@ == pattern@,
    {
        match compile_glob(pattern) {
            Ok(compiled) => Ok(GlobPattern { source: pattern.to_owned(), compiled }),
            Err(_) => Err(PatternCompileError { pattern: pattern.to_owned() }),
        }
    }

    /// Whether the pattern matches `path`.
    pub fn matches(&self, path: &str) -> (r: bool)
        ensures
            r == glob_matches(self@, path@),
    {
        glob_test(self, path)
    }
}

/// The texts of a sequence of patterns.
pub open spec fn globs_view(v: Seq<GlobPattern>) -> Seq<Seq<char>> {
    v.map_values(|g: GlobPattern| g@)
}

/// The texts of an optional pattern.
pub open spec fn glob_opt_view(g: Option<GlobPattern>) -> Option<Seq<char>> {
    match g {
        None => None,
        Some(p) => Some(p@),
    }
}

/// Compiles every pattern of `patterns`, or names the first that does not compile.
pub fn compile_all(patterns: &Vec<String>) -> (r: Result<Vec<GlobPattern>, PatternCompileError>)
    ensures
        r is Ok <==> forall|i: int| 0 <= i < patterns@.len() ==> glob_compiles(patterns@[i]@),
        r matches Ok(v) ==> globs_view(v@) == strings_view(patterns@),
        r matches Err(e) ==> exists|i: int|
            0 <= i < patterns@.len() && e.pattern@ == patterns@[i]@ && !glob_compiles(patterns@[i]@)
                && forall|j: int| 0 <= j < i ==> glob_compiles(patterns@[j]@),
{
    let mut v: Vec<GlobPattern> = Vec::new();
    let mut i: usize = 0;
    while i < patterns.len()
        invariant
            i <= patterns.len(),
            v@.len() == i,
            forall|j: int| 0 <= j < i ==> v@[j]@ == patterns@[j]@,
            forall|j: int| 0 <= j < i ==> glob_compiles(patterns@[j]@),
        decreases patterns.len() - i,
    {
        match GlobPattern::new(patterns[i].as_str()) {
            Ok(g) => {
                v.push(g);
            },
            Err(e) => {
                return Err(e);
            },
        }
        i = i + 1;
    }
    assert(globs_view(v@) =~= strings_view(patterns@));
    Ok(v)
}

/// The paths of a tracked-files listing: its non-empty lines, in order.
pub open spec fn listed_paths(listing: Seq<char>) -> Seq<Seq<char>> {
    non_empty_lines_of(listing)
}

/// Whether some pattern of `excludes` matches `path`.
pub open spec fn excluded(excludes: Seq<Seq<char>>, path: Seq<char>) -> bool {
    exists|i: int| 0 <= i < excludes.len() && glob_matches(excludes[i], path)
}

/// Whether `path` is kept: no exclude pattern matches it and, where there is a
/// path pattern `only`, that one matches it.
pub open spec fn selected(excludes: Seq<Seq<char>>, only: Option<Seq<char>>, path: Seq<char>) -> bool {
    &&& !excluded(excludes, path)
    &&& match only {
        None => true,
        Some(p) => glob_matches(p, path),
    }
}

/// The paths of `listing` that are kept, in the listing's order.
pub open spec fn selection(
    listing: Seq<char>,
    excludes: Seq<Seq<char>>,
    only: Option<Seq<char>>,
) -> Seq<Seq<char>> {
    listed_paths(listing).filter(|p: Seq<char>| selected(excludes, only, p))
}

/// Whether `path` is kept; the exclude patterns are tried first, and the
/// path pattern `only` when none of them matches.
pub fn is_selected(excludes: &Vec<GlobPattern>, only: &Option<GlobPattern>, path: &str) -> (r: bool)
    ensures
        r == selected(globs_view(excludes@), glob_opt_view(*only), path@),
{
    let ghost ex = globs_view(excludes@);
    let mut i: usize = 0;
    while i < excludes.len()
        invariant
            ex == globs_view(excludes@),
            i <= excludes.len(),
            forall|j: int| 0 <= j < i ==> !glob_matches(ex[j], path@),
        decreases excludes.len() - i,
    {
        assert(ex[i as int] == excludes@[i as int]@);
        if excludes[i].matches(path) {
            assert(excluded(ex, path@));
            return false;
        }
        i = i + 1;
    }
    match only {
        None => true,
        Some(p) => p.matches(path),
    }
}

/// The paths of a tracked-files listing that are kept, in the listing's order.
pub fn select_paths(listing: &str, excludes: &Vec<GlobPattern>, only: &Option<GlobPattern>) -> (r: Vec<String>)
    ensures
        strings_view(r@) == selection(listing@, globs_view(excludes@), glob_opt_view(*only)),
{
    let ghost ex = globs_view(excludes@);
    let ghost onl = glob_opt_view(*only);
    let all = non_empty_lines(listing);
    let ghost ls = strings_view(all@);
    assert(ls == listed_paths(listing@));
    let mut r: Vec<String> = Vec::new();
    let mut i: usize = 0;
    while i < all.len()
        invariant
            ls == strings_view(all@),
            ex == globs_view(excludes@),
            onl == glob_opt_view(*only),
            i <= all.len(),
            strings_view(r@) == ls.take(i as int).filter(|p: Seq<char>| selected(ex, onl, p)),
        decreases all.len() - i,
    {
        assert(ls.take(i + 1) =~= ls.take(i as int).push(ls[i as int]));
        proof {
            ls.take(i as int).lemma_filter_push(ls[i as int], |p: Seq<char>| selected(ex, onl, p));
        }
        if is_selected(excludes, only, all[i].as_str()) {
            let ghost before = r@;
            r.push(all[i].clone());
            assert(strings_view(r@) =~= strings_view(before).push(ls[i as int]));
        }
        i = i + 1;
    }
    assert(ls.take(i as int) =~= ls);
    r
}

/// An exclude pattern outranks the path pattern: a path that some exclude
/// pattern matches is never selected, whatever the path pattern matches.
pub proof fn law_exclude_precedence(
    listing: Seq<char>,
    excludes: Seq<Seq<char>>,
    only: Option<Seq<char>>,
    path: Seq<char>,
)
    requires
        excluded(excludes, path),
    ensures
        !selected(excludes, only, path),
        !selection(listing, excludes, only).contains(path),
{
    let sel = |p: Seq<char>| selected(excludes, only, p);
    if selection(listing, excludes, only).contains(path) {
        let i = choose|i: int| 0 <= i < selection(listing, excludes, only).len()
            && selection(listing, excludes, only)[i] == path;
        listed_paths(listing).lemma_filter_pred(sel, i);
    }
}

} // verus!
