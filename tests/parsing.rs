use celerix_git::listing::{parse_name_status, parse_stash_list, parse_stash_selector};
use celerix_git::log::{parse_commit_record, parse_decorations, parse_log, FIELD_DELIMITER, RECORD_END};
use celerix_git::status::{parse_status, parse_status_line};
use celerix_git::text::{lines, parse_usize, split_by, split_whitespace, trim};

fn record(fields: &[&str]) -> String {
    fields.join(FIELD_DELIMITER)
}

#[test]
fn staged_only_line_gives_one_staged_entry() {
    let v = parse_status_line("A  src/new.rs");
    assert_eq!(v.len(), 1);
    assert!(v[0].is_staged);
    assert_eq!(v[0].path, "src/new.rs");
    assert_eq!(v[0].status, "A ");
}

#[test]
fn untracked_line_gives_one_unstaged_entry() {
    let v = parse_status_line("?? notes.txt");
    assert_eq!(v.len(), 1);
    assert!(!v[0].is_staged);
    assert_eq!(v[0].path, "notes.txt");
    assert_eq!(v[0].status, " ?");
}

#[test]
fn modified_twice_gives_two_entries() {
    let v = parse_status_line("MM lib.rs");
    assert_eq!(v.len(), 2);
    assert!(v[0].is_staged);
    assert!(!v[1].is_staged);
    assert_eq!(v[0].path, "lib.rs");
    assert_eq!(v[1].path, "lib.rs");
    assert_eq!(v[0].status, "M ");
    assert_eq!(v[1].status, " M");
}

#[test]
fn worktree_only_line_and_short_lines() {
    let v = parse_status(" M a.txt\nM\n\nD  gone.txt\r\n");
    assert_eq!(v.len(), 2);
    assert_eq!(v[0].status, " M");
    assert!(!v[0].is_staged);
    assert_eq!(v[1].path, "gone.txt");
    assert!(v[1].is_staged);
    assert!(parse_status("").is_empty());
}

#[test]
fn decorations_with_head_tag_and_branch() {
    let (branches, tags) = parse_decorations("HEAD -> main, tag: v1.0, release");
    assert_eq!(branches, vec!["main".to_string(), "release".to_string()]);
    assert_eq!(tags, vec!["v1.0".to_string()]);
}

#[test]
fn empty_decorations_give_no_names() {
    let (branches, tags) = parse_decorations("");
    assert!(branches.is_empty());
    assert!(tags.is_empty());
}

#[test]
fn record_with_empty_decoration() {
    let rec = record(&["abc123", "Ann", "ann@x.org", "1700000000", "Subject", "  body text \n", "p1 p2", ""]);
    let c = parse_commit_record(&rec).unwrap();
    assert_eq!(c.hash, "abc123");
    assert_eq!(c.author, "Ann");
    assert_eq!(c.author_email, "ann@x.org");
    assert_eq!(c.date, "1700000000");
    assert_eq!(c.message, "Subject");
    assert_eq!(c.body, "body text");
    assert_eq!(c.parents, vec!["p1".to_string(), "p2".to_string()]);
    assert!(c.branches.is_empty());
    assert!(c.tags.is_empty());
}

#[test]
fn short_records_are_dropped() {
    let good = record(&["h1", "A", "a@b", "1", "s", "", "", "HEAD -> main"]);
    let short = record(&["h2", "B", "b@c"]);
    let out = format!("{}{}\n{}{}\n", good, RECORD_END, short, RECORD_END);
    let v = parse_log(&out);
    assert_eq!(v.len(), 1);
    assert_eq!(v[0].hash, "h1");
    assert_eq!(v[0].branches, vec!["main".to_string()]);
    assert!(v[0].parents.is_empty());
}

#[test]
fn stash_list_lines() {
    let v = parse_stash_list("stash@{0}|WIP on main|refs/stash@{0}\nstash@{12}|fix|refs/stash@{12}\nnot a stash\n");
    assert_eq!(v.len(), 2);
    assert_eq!(v[0].index, 0);
    assert_eq!(v[0].message, "WIP on main");
    assert_eq!(v[0].branch, "refs/stash@{0}");
    assert_eq!(v[1].index, 12);
}

#[test]
fn unreadable_stash_index_is_zero() {
    assert_eq!(parse_stash_selector("stash@{x}"), 0);
    assert_eq!(parse_stash_selector("stash@{7}"), 7);
    assert_eq!(parse_stash_selector("stash@{99999999999999999999999}"), 0);
}

#[test]
fn name_status_lines() {
    let v = parse_name_status("M\tsrc/a.rs\nA\tb.txt\nX\n\n");
    assert_eq!(v.len(), 2);
    assert_eq!(v[0].status, "M");
    assert_eq!(v[0].path, "src/a.rs");
    assert_eq!(v[1].status, "A");
    assert_eq!(v[1].path, "b.txt");
}

#[test]
fn text_primitives() {
    assert_eq!(split_by("a,,b", ","), vec!["a".to_string(), "".to_string(), "b".to_string()]);
    assert_eq!(lines("x\r\ny\n"), vec!["x".to_string(), "y".to_string()]);
    assert_eq!(lines("x\ny"), vec!["x".to_string(), "y".to_string()]);
    assert_eq!(trim("\t hi \u{3000}"), "hi");
    assert_eq!(split_whitespace("  a  b\tc "), vec!["a".to_string(), "b".to_string(), "c".to_string()]);
    assert_eq!(parse_usize("+42"), Some(42));
    assert_eq!(parse_usize("4a"), None);
    assert_eq!(parse_usize(""), None);
    assert_eq!(parse_usize("18446744073709551615"), Some(usize::MAX));
    assert_eq!(parse_usize("18446744073709551616"), None);
}
