use celerix_git::args::{check_output, commit_args, decimal_string, stash_push_args, stash_ref, stash_save_commands, tag_args, CommandOutput};
use celerix_git::avatar::{
    after_avatar_fetch, avatar_from_cache, avatar_hash, avatar_urls, cache_file_name, data_url,
    data_url_from_encoded, mentions_github, normalize_email, AvatarNext,
};
use celerix_git::diff::{after_head_diff, after_status_query, after_worktree_diff, synthesize_creation_diff, DiffStep};
use celerix_git::model::{GitBranch, GitRemote, GitStatusFile};
use celerix_git::refs::{branches_from_refs, remote_branches_from_refs, remotes_from_sections, tags_from_refs};
use celerix_git::workflow::{
    after_push, checkout_remote_args, default_local_branch, delete_branch_args, discard_checkout_args,
    discard_clean_args, remote_delete_args, tag_push_args, upstream_push_args, PushNext,
};

fn out(success: bool, stdout: &str, stderr: &str) -> CommandOutput {
    CommandOutput { success, stdout: stdout.to_string(), stderr: stderr.to_string() }
}

fn remote(name: &str) -> GitRemote {
    GitRemote { name: name.to_string(), url: format!("git@host:{}.git", name) }
}

fn strings(v: &[&str]) -> Vec<String> {
    v.iter().map(|s| s.to_string()).collect()
}

#[test]
fn push_without_upstream_and_one_remote() {
    assert!(matches!(after_push(&out(false, "", "fatal: The current branch x has no upstream branch.")), PushNext::FindUpstream));
    let args = upstream_push_args(&Some("feature".to_string()), &vec![remote("origin")]).unwrap();
    assert_eq!(args, strings(&["push", "--set-upstream", "origin", "feature"]));
}

#[test]
fn push_without_upstream_and_no_remote() {
    let e = upstream_push_args(&Some("feature".to_string()), &vec![]).unwrap_err();
    assert_eq!(e, "No remotes configured to push to.");
}

#[test]
fn push_without_upstream_and_two_remotes() {
    let e = upstream_push_args(&Some("feature".to_string()), &vec![remote("a"), remote("b")]).unwrap_err();
    assert_eq!(e, "Branch 'feature' has no upstream. Please set it manually or choose a remote.");
    let e = upstream_push_args(&None, &vec![remote("a")]).unwrap_err();
    assert_eq!(e, "Could not determine current branch name");
}

#[test]
fn push_outcomes() {
    assert!(matches!(after_push(&out(true, "", "")), PushNext::Done));
    match after_push(&out(false, "", "rejected")) {
        PushNext::Failed(m) => assert_eq!(m, "Git push failed: rejected"),
        _ => panic!("expected a failure"),
    }
}

#[test]
fn deleting_current_branch_is_refused() {
    let e = delete_branch_args(&Some("main".to_string()), "main").unwrap_err();
    assert_eq!(e, "Cannot delete the currently active branch.");
    let a = delete_branch_args(&Some("main".to_string()), "old").unwrap();
    assert_eq!(a, strings(&["branch", "-D", "old"]));
    let a = delete_branch_args(&None, "main").unwrap();
    assert_eq!(a, strings(&["branch", "-D", "main"]));
}

#[test]
fn remote_deletes_skip_blank_lines() {
    let v = remote_delete_args("origin\n  \nupstream \n", "old");
    assert_eq!(v, vec![strings(&["push", "origin", "--delete", "old"]), strings(&["push", "upstream", "--delete", "old"])]);
}

fn entry(path: &str, status: &str, is_staged: bool) -> GitStatusFile {
    GitStatusFile { path: path.to_string(), status: status.to_string(), is_staged }
}

#[test]
fn discard_cleans_untracked_paths_only() {
    let files = strings(&["new.txt", "lib.rs"]);
    assert_eq!(discard_checkout_args(&files).unwrap(), strings(&["checkout", "--", "new.txt", "lib.rs"]));
    let after = vec![entry("new.txt", " ?", false), entry("other.txt", " ?", false), entry("lib.rs", " M", false)];
    assert_eq!(discard_clean_args(&files, &after).unwrap(), strings(&["clean", "-f", "--", "new.txt"]));
}

#[test]
fn discard_of_tracked_changes_runs_no_clean() {
    let files = strings(&["lib.rs"]);
    let after = vec![entry("lib.rs", "M ", true), entry("junk.txt", "??", false)];
    assert!(discard_clean_args(&files, &after).is_none());
    assert!(discard_checkout_args(&vec![]).is_none());
}

#[test]
fn tag_arguments_and_push_target() {
    assert_eq!(tag_args("v1", "abc", &Some("Release".to_string())), strings(&["tag", "-a", "v1", "-m", "Release", "abc"]));
    assert_eq!(tag_args("v1", "abc", &Some("  ".to_string())), strings(&["tag", "v1", "abc"]));
    assert_eq!(tag_args("v1", "abc", &None), strings(&["tag", "v1", "abc"]));
    assert_eq!(tag_push_args(true, &vec![], "v1").unwrap(), strings(&["push", "--tags"]));
    assert!(tag_push_args(false, &vec![], "v1").is_none());
    assert_eq!(tag_push_args(false, &vec![remote("fork"), remote("origin")], "v1").unwrap(), strings(&["push", "origin", "v1"]));
    assert_eq!(tag_push_args(false, &vec![remote("fork"), remote("up")], "v1").unwrap(), strings(&["push", "fork", "v1"]));
}

#[test]
fn commit_and_stash_arguments() {
    assert_eq!(commit_args("Fix", "", false), strings(&["commit", "-m", "Fix"]));
    assert_eq!(commit_args("Fix", "Details", true), strings(&["commit", "--amend", "-m", "Fix\n\nDetails"]));
    assert_eq!(stash_push_args(&Some("wip".to_string())), strings(&["stash", "push", "--staged", "-m", "wip"]));
    assert_eq!(stash_push_args(&Some(" ".to_string())), strings(&["stash", "push", "--staged"]));
    assert_eq!(stash_ref(3), "stash@{3}");
    assert_eq!(decimal_string(0), "0");
    assert_eq!(decimal_string(1907), "1907");
}

#[test]
fn output_checks() {
    assert!(check_output(&out(true, "", ""), "Git pull failed").is_ok());
    assert_eq!(check_output(&out(false, "", "boom"), "Git pull failed").unwrap_err(), "Git pull failed: boom");
}

#[test]
fn checkout_remote_branch_plans() {
    assert_eq!(default_local_branch("origin/feature/x"), "feature/x");
    assert_eq!(default_local_branch("plain"), "plain");
    let locals = vec![GitBranch { name: "main".to_string(), is_current: true }];
    assert_eq!(checkout_remote_args("origin/dev", &None, &locals).unwrap(), strings(&["checkout", "-b", "dev", "--track", "origin/dev"]));
    assert_eq!(checkout_remote_args("origin/main", &None, &locals).unwrap(), strings(&["checkout", "main"]));
    assert_eq!(checkout_remote_args("origin/x", &Some("main".to_string()), &locals).unwrap_err(), "Branch 'main' exists.");
}

#[test]
fn references_to_records() {
    let b = branches_from_refs(&strings(&["refs/heads/main", "refs/heads/dev"]), &Some("refs/heads/dev".to_string()));
    assert_eq!(b, vec![GitBranch { name: "main".to_string(), is_current: false }, GitBranch { name: "dev".to_string(), is_current: true }]);
    assert_eq!(remote_branches_from_refs(&strings(&["refs/remotes/origin/HEAD", "refs/remotes/origin/main"])), strings(&["origin/main"]));
    assert_eq!(tags_from_refs(&strings(&["refs/tags/v1"])), strings(&["v1"]));
    let r = remotes_from_sections(&vec![(Some("origin".to_string()), Some("u".to_string())), (None, Some("x".to_string())), (Some("".to_string()), None), (Some("up".to_string()), None)]);
    assert_eq!(r, vec![GitRemote { name: "origin".to_string(), url: "u".to_string() }, GitRemote { name: "up".to_string(), url: "".to_string() }]);
}

#[test]
fn remote_named_twice_is_listed_once() {
    let r = remotes_from_sections(&vec![(Some("origin".to_string()), Some("a".to_string())), (Some("origin".to_string()), Some("b".to_string()))]);
    assert_eq!(r, vec![GitRemote { name: "origin".to_string(), url: "a".to_string() }]);
}

#[test]
fn only_first_matching_reference_is_current() {
    let b = branches_from_refs(&strings(&["refs/heads/x", "refs/heads/x"]), &Some("refs/heads/x".to_string()));
    assert!(b[0].is_current);
    assert!(!b[1].is_current);
    let b = branches_from_refs(&strings(&["refs/heads/x"]), &None);
    assert!(!b[0].is_current);
}

#[test]
fn stash_save_sequence() {
    let c = stash_save_commands(&strings(&["a.txt", "b.txt"]), &Some("wip".to_string()));
    assert_eq!(c, vec![strings(&["add", "a.txt"]), strings(&["add", "b.txt"]), strings(&["stash", "push", "--staged", "-m", "wip"])]);
    assert!(stash_save_commands(&vec![], &None).is_empty());
}

#[test]
fn diff_chain_steps() {
    match after_head_diff(&out(true, "diff --git", "")) {
        DiffStep::Finish(Ok(d)) => assert_eq!(d, "diff --git"),
        _ => panic!("expected the head diff"),
    }
    assert!(matches!(after_head_diff(&out(true, "", "")), DiffStep::WorktreeDiff));
    assert!(matches!(after_worktree_diff(&out(false, "", "bad")), DiffStep::StatusQuery));
    assert!(matches!(after_status_query("?? new.txt\n", &out(true, "", "")), DiffStep::ReadFile));
    match after_status_query("", &out(false, "", "bad")) {
        DiffStep::Finish(Err(m)) => assert_eq!(m, "Git diff failed: bad"),
        _ => panic!("expected a failure"),
    }
    assert_eq!(synthesize_creation_diff("a.txt", "one\ntwo\n"), "--- /dev/null\n+++ b/a.txt\n+one\n+two\n");
}

#[test]
fn avatar_cache_hit_needs_no_fetch() {
    let hit = avatar_from_cache(&Some(vec![1, 2, 3, 4])).unwrap();
    assert_eq!(hit, "data:image/png;base64,AQIDBA==");
    assert!(avatar_from_cache(&None).is_none());
}

#[test]
fn avatar_key_and_urls() {
    assert_eq!(normalize_email("  Foo@Example.COM "), "foo@example.com");
    let h = avatar_hash("  Foo@Example.COM ");
    assert_eq!(h, "b48def645758b95537d4424c84d1a9ff");
    assert_eq!(cache_file_name(&h), "b48def645758b95537d4424c84d1a9ff.png");
    assert_eq!(data_url(&vec![1, 2, 3, 4]), "data:image/png;base64,AQIDBA==");
    assert_eq!(data_url_from_encoded("AQID"), "data:image/png;base64,AQID");
    assert!(mentions_github("origin\tgit@github.com:a/b.git (fetch)"));
    assert!(!mentions_github("origin\tgit@gitlab.com:a/b.git (fetch)"));
    let urls = avatar_urls(true, &Some("octo".to_string()), " jdoe ", "foo@example.com", &h);
    assert_eq!(urls, strings(&[
        "https://unavatar.io/github/octo?fallback=false",
        "https://unavatar.io/github/jdoe?fallback=false",
        "https://unavatar.io/foo@example.com?fallback=false",
        "https://www.gravatar.com/avatar/b48def645758b95537d4424c84d1a9ff?d=identicon&s=128",
    ]));
    let urls = avatar_urls(false, &None, "Jane Doe", "foo@example.com", &h);
    assert_eq!(urls.len(), 1);
}

#[test]
fn avatar_fetch_steps() {
    assert!(matches!(after_avatar_fetch(0, 2, None), AvatarNext::Fetch(1)));
    assert!(matches!(after_avatar_fetch(0, 2, Some(vec![])), AvatarNext::Fetch(1)));
    match after_avatar_fetch(1, 2, Some(vec![])) {
        AvatarNext::Save(b, u) => {
            assert!(b.is_empty());
            assert_eq!(u, "data:image/png;base64,");
        }
        _ => panic!("the identicon fallback takes any successful answer"),
    }
    match after_avatar_fetch(1, 2, None) {
        AvatarNext::Fail(m) => assert_eq!(m, "Failed to fetch avatar"),
        _ => panic!("expected a failure"),
    }
    match after_avatar_fetch(1, 2, Some(vec![1, 2, 3])) {
        AvatarNext::Save(b, u) => {
            assert_eq!(b, vec![1, 2, 3]);
            assert_eq!(u, "data:image/png;base64,AQID");
        }
        _ => panic!("expected an image"),
    }
}
