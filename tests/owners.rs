use git_codeowners::authors::{blame_authors, commit_authors, top_blame_author, top_commit_author};
use git_codeowners::paths::{compile_all, is_selected, select_paths, GlobPattern};
use git_codeowners::report::{report_lines, OwnershipRecord};
use git_codeowners::tally::FrequencyTable;
use git_codeowners::text::{chars_of, non_empty_lines, push_decimal, split_lines};

fn glob(p: &str) -> GlobPattern {
    match GlobPattern::new(p) {
        Ok(g) => g,
        Err(_) => panic!("pattern should compile"),
    }
}

fn strings(v: &[&str]) -> Vec<String> {
    v.iter().map(|s| s.to_string()).collect()
}

#[test]
fn table_counts_add_up_and_mode_reaches_ceiling() {
    let ids = strings(&["a", "b", "a", "c", "a", "b", "d"]);
    let t = FrequencyTable::from_occurrences(&ids);
    assert_eq!(t.len(), 4);
    let (who, n) = t.mode().unwrap();
    assert_eq!(who, "a");
    assert_eq!(n, 3);
    // 7 occurrences of 4 identities: the mode counts at least 2
    assert!(n * 4 >= 7);
}

#[test]
fn table_of_nothing_has_no_mode() {
    let t = FrequencyTable::from_occurrences(&Vec::new());
    assert_eq!(t.len(), 0);
    assert!(t.mode().is_none());
}

#[test]
fn tie_goes_to_first_seen() {
    let ids = strings(&["b", "a", "a", "b"]);
    assert_eq!(FrequencyTable::from_occurrences(&ids).mode(), Some(("b".to_string(), 2)));
}

#[test]
fn add_counts_one_more() {
    let mut t = FrequencyTable::new();
    t.add("x".to_string());
    t.add("y".to_string());
    t.add("y".to_string());
    assert_eq!(t.len(), 2);
    assert_eq!(t.mode(), Some(("y".to_string(), 2)));
}

#[test]
fn lines_split_at_newlines_and_drop_carriage_returns() {
    let cs = chars_of("one\r\ntwo\n\nthree");
    let lines = split_lines(&cs);
    let got: Vec<String> = lines.iter().map(|l| l.iter().collect()).collect();
    assert_eq!(got, strings(&["one", "two", "", "three"]));
    assert_eq!(non_empty_lines("a\n\nb\n"), strings(&["a", "b"]));
    assert!(non_empty_lines("").is_empty());
}

#[test]
fn decimal_numerals() {
    let mut out = vec!['n'];
    push_decimal(&mut out, 0);
    push_decimal(&mut out, 1207);
    assert_eq!(out.iter().collect::<String>(), "n01207");
}

#[test]
fn commit_log_counts_non_empty_lines() {
    let log = "x@x.com\nx@x.com\n\ny@y.com\n";
    assert_eq!(commit_authors(log), strings(&["x@x.com", "x@x.com", "y@y.com"]));
    assert_eq!(top_commit_author(log), Some(("x@x.com".to_string(), 2)));
}

#[test]
fn empty_history_has_no_author() {
    assert_eq!(top_commit_author(""), None);
    assert_eq!(top_commit_author("\n\n"), None);
    let rec = OwnershipRecord::from_outputs("new.txt".to_string(), Some(""), Some(""));
    assert!(rec.top_commit_author.is_none());
    assert_eq!(rec.render(), "new.txt commits ?  blame ?");
}

#[test]
fn blame_counts_marked_lines_only() {
    let text = "abc123 1 1 1\n\
                author a@example.com\n\
                committer-mail <a@example.com>\n\
                \tfn main() {}\n\
                committer-mail <a@example.com>\n\
                summary mentions committer-mail <b@example.com>\n\
                author-mail <b@example.com>\n\
                committer-mail <b@example.com>\n\
                committer-mail <a@example.com>\n";
    assert_eq!(
        blame_authors(text),
        strings(&["a@example.com", "a@example.com", "b@example.com", "a@example.com"])
    );
    assert_eq!(top_blame_author(text), Some(("a@example.com".to_string(), 3)));
}

#[test]
fn blame_identity_brackets_are_optional() {
    let text = "committer-mail plain@example.com\ncommitter-mail <<two>>\ncommitter-mail\r\n";
    assert_eq!(blame_authors(text), strings(&["plain@example.com", "<two>", ""]));
}

#[test]
fn blame_without_committers_has_no_author() {
    assert_eq!(top_blame_author("author-mail <a@example.com>\n"), None);
}

#[test]
fn exclude_outranks_path_pattern() {
    let only = Some(glob("*.rs"));
    let excludes = vec![glob("skip_*.rs")];
    assert!(!is_selected(&excludes, &only, "skip_foo.rs"));
    assert!(is_selected(&excludes, &only, "foo.rs"));
    assert!(!is_selected(&excludes, &only, "foo.txt"));
    assert!(is_selected(&Vec::new(), &None, "anything"));
}

#[test]
fn selection_keeps_listing_order() {
    let listing = "src/b.rs\nskip_a.rs\nREADME.md\n\nsrc/a.rs\n";
    let excludes = vec![glob("skip_*")];
    let got = select_paths(listing, &excludes, &Some(glob("*.rs")));
    assert_eq!(got, strings(&["src/b.rs", "src/a.rs"]));
    let all = select_paths(listing, &Vec::new(), &None);
    assert_eq!(all, strings(&["src/b.rs", "skip_a.rs", "README.md", "src/a.rs"]));
}

#[test]
fn glob_pattern_matches_through_the_glob_crate() {
    let g = glob("c?t");
    assert!(g.matches("cat"));
    assert!(!g.matches("cart"));
    assert!(!glob("*.rs").matches("x.txt"));
}

#[test]
fn bad_pattern_is_reported() {
    assert!(GlobPattern::new("a[").is_err());
    match compile_all(&strings(&["*.rs", "a[", "***"])) {
        Ok(_) => panic!("should not compile"),
        Err(e) => assert_eq!(e.pattern, "a["),
    }
    assert_eq!(compile_all(&strings(&["*.rs", "docs/**"])).map(|v| v.len()).ok(), Some(2));
}

#[test]
fn concrete_repository_report() {
    let paths = select_paths("a.txt\nb.txt\n", &Vec::new(), &None);
    assert_eq!(paths, strings(&["a.txt", "b.txt"]));
    let logs = vec![Some("x@x.com\nx@x.com\ny@y.com\n".to_string()), Some(String::new())];
    let blames = vec![
        Some("committer-mail <x@x.com>\ncommitter-mail <x@x.com>\n".to_string()),
        None,
    ];
    let lines = report_lines(&paths, &logs, &blames);
    assert_eq!(lines[0], "a.txt commits x@x.com 2  blame x@x.com 2");
    assert_eq!(lines[1], "b.txt commits ?  blame ?");
}

#[test]
fn report_is_repeatable_and_ordered() {
    let paths = strings(&["z", "a", "m"]);
    let logs = vec![Some("p\n".to_string()), Some("q\nq\n".to_string()), None];
    let blames = vec![None, Some("committer-mail <r>\n".to_string()), None];
    let first = report_lines(&paths, &logs, &blames);
    let second = report_lines(&paths, &logs, &blames);
    assert_eq!(first, second);
    assert_eq!(first, strings(&["z commits p 1  blame ?", "a commits q 2  blame r 1", "m commits ?  blame ?"]));
}

#[test]
fn failed_query_leaves_field_empty() {
    let rec = OwnershipRecord::from_outputs("f".to_string(), None, Some("committer-mail <w@w>\n"));
    assert!(rec.top_commit_author.is_none());
    assert_eq!(rec.top_blame_author, Some(("w@w".to_string(), 1)));
    assert_eq!(rec.render(), "f commits ?  blame w@w 1");
}
