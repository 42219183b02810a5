//! The fallback chain that produces a diff for one file: against the last
//! commit, then against the index, then, for an untracked file, a diff that
//! adds every line of its content.
use vstd::prelude::*;
use crate::args::{failure_message, failure_text, CommandOutput};
use crate::text::{has_prefix, lines, lines_spec, starts_with, views};

verus! {

/// What to do next while resolving a file's diff.
pub enum DiffStep {
    /// Run `diff -- <file>`, against the index.
    WorktreeDiff,
    /// Run `status --porcelain <file>` to learn whether it is untracked.
    StatusQuery,
    /// Read the file's content and synthesize a diff from it.
    ReadFile,
    /// The answer.
    Finish(Result<String, String>),
}

/// After `diff HEAD -- <file>`: its text when it ran and found changes.
pub fn after_head_diff(out: &CommandOutput) -> (r: DiffStep)
    ensures
        out.success && out.stdout@.len() > 0 ==> (r matches DiffStep::Finish(Ok(d)) && d@ == out.stdout@),
        !(out.success && out.stdout@.len() > 0) ==> r is WorktreeDiff,
{
    if out.success && out.stdout.as_str().unicode_len() > 0 {
        DiffStep::Finish(Ok(out.stdout.clone()))
    } else {
        DiffStep::WorktreeDiff
    }
}

/// After `diff -- <file>`: its text when it ran and found changes.
pub fn after_worktree_diff(out: &CommandOutput) -> (r: DiffStep)
    ensures
        out.success && out.stdout@.len() > 0 ==> (r matches DiffStep::Finish(Ok(d)) && d@ == out.stdout@),
        !(out.success && out.stdout@.len() > 0) ==> r is StatusQuery,
{
    if out.success && out.stdout.as_str().unicode_len() > 0 {
        DiffStep::Finish(Ok(out.stdout.clone()))
    } else {
        DiffStep::StatusQuery
    }
}

/// After the status query: an untracked file is read; otherwise the
/// index diff stands, empty, or its failure is reported.
pub fn after_status_query(status_stdout: &str, worktree: &CommandOutput) -> (r: DiffStep)
    ensures
        has_prefix(status_stdout@, "??"@) ==> r is ReadFile,
        !has_prefix(status_stdout@, "??"@) && worktree.success ==> (r matches DiffStep::Finish(Ok(d))
            && d@ == worktree.stdout@),
        !has_prefix(status_stdout@, "??"@) && !worktree.success ==> (r matches DiffStep::Finish(Err(m))
            && m@ == failure_text("Git diff failed"@, worktree.stderr@)),
{
    if starts_with(status_stdout, "??") {
        DiffStep::ReadFile
    } else if worktree.success {
        DiffStep::Finish(Ok(worktree.stdout.clone()))
    } else {
        DiffStep::Finish(Err(failure_message("Git diff failed", worktree.stderr.as_str())))
    }
}

/// Each line prefixed with `+` and ended with a newline.
pub open spec fn added_lines(ls: Seq<Seq<char>>) -> Seq<char>
    decreases ls.len(),
{
    if ls.len() == 0 {
        Seq::empty()
    } else {
        added_lines(ls.drop_last()) + "+"@ + ls.last() + "\n"@
    }
}

/// The diff that creates `path` with `content`.
pub open spec fn creation_diff(path: Seq<char>, content: Seq<char>) -> Seq<char> {
    "--- /dev/null\n+++ b/"@ + path + "\n"@ + added_lines(lines_spec(content))
}

pub fn synthesize_creation_diff(file_path: &str, content: &str) -> (r: String)
    ensures
        r@ == creation_diff(file_path@, content@),
{
    let mut d = String::from_str("--- /dev/null\n+++ b/");
    d.append(file_path);
    d.append("\n");
    let ghost head = d@;
    let ls = lines(content);
    let ghost lv = views(ls@);
    let mut i: usize = 0;
    assert(lv.subrange(0, 0) =~= Seq::<Seq<char>>::empty());
    assert(d@ =~= head + added_lines(lv.subrange(0, 0)));
    while i < ls.len()
        invariant
            lv == views(ls@),
            lv == lines_spec(content@),
            i <= ls@.len(),
            d@ == head + added_lines(lv.subrange(0, i as int)),
        decreases ls.len() - i,
    {
        assert(ls@[i as int]@ == lv[i as int]);
        assert(lv.subrange(0, i + 1).drop_last() =~= lv.subrange(0, i as int));
        d.append("+");
        d.append(ls[i].as_str());
        d.append("\n");
        i += 1;
        assert(d@ =~= head + added_lines(lv.subrange(0, i as int)));
    }
    assert(lv.subrange(0, i as int) =~= lv);
    d
}

/// After reading the untracked file: the diff that creates it, or the
/// read's failure.
pub fn diff_from_content(file_path: &str, content: &Result<String, String>) -> (r: Result<String, String>)
    ensures
        content matches Ok(c) ==> (r matches Ok(d) && d@ == creation_diff(file_path@, c@)),
        content matches Err(e) ==> (r matches Err(m) && m@ == e@),
{
    match content {
        Ok(c) => Ok(synthesize_creation_diff(file_path, c.as_str())),
        Err(e) => Err(e.clone()),
    }
}

} // verus!
