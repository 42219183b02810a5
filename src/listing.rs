//! Parsing of `git stash list` and `git show --name-status` output.
use vstd::prelude::*;
use crate::args::{check_output, failure_text, CommandOutput};
use crate::model::{CommitFileView, GitCommitFile, GitStash, StashView};
use crate::text::{
    lines, lines_spec, parse_usize, parse_usize_spec, split_by, split_spec, split_whitespace,
    strip_prefixes, strip_suffixes, trim_end_matches, trim_start_matches, views, words_spec,
};

verus! {

/// The `--format=` argument whose output `parse_stash_list` reads: the
/// short selector, the subject and the long selector, separated by `|`.
pub const STASH_FORMAT: &'static str = "--format=%gd|%s|%gD";

/// The index a stash selector such as `stash@{3}` names; 0 when the number
/// cannot be read.
pub open spec fn selector_index(sel: Seq<char>) -> usize {
    match parse_usize_spec(strip_suffixes(strip_prefixes(sel, "stash@{"@), "}"@)) {
        Some(n) => n,
        None => 0,
    }
}

/// The stash one line describes, if it has at least three fields.
pub open spec fn stash_line(l: Seq<char>) -> Option<StashView> {
    let parts = split_spec(l, seq!['|']);
    if parts.len() < 3 {
        None
    } else {
        Some(StashView { index: selector_index(parts[0]), message: parts[1], branch: parts[2] })
    }
}

pub open spec fn stash_entries(ls: Seq<Seq<char>>) -> Seq<StashView>
    decreases ls.len(),
{
    if ls.len() == 0 {
        Seq::empty()
    } else {
        stash_entries(ls.drop_last()) + match stash_line(ls.last()) {
            Some(s) => seq![s],
            None => Seq::empty(),
        }
    }
}

pub open spec fn stash_views(v: Seq<GitStash>) -> Seq<StashView> {
    v.map_values(|s: GitStash| s@)
}

/// Reads the index out of a stash selector.
pub fn parse_stash_selector(sel: &str) -> (r: usize)
    ensures
        r == selector_index(sel@),
{
    let a = trim_start_matches(sel, "stash@{");
    let b = trim_end_matches(a.as_str(), "}");
    match parse_usize(b.as_str()) {
        Some(n) => n,
        None => 0,
    }
}

/// Parses one line of the stash list.
pub fn parse_stash_line(line: &str) -> (r: Option<GitStash>)
    ensures
        r.is_some() == stash_line(line@).is_some(),
        r.is_some() ==> r.unwrap()@ == stash_line(line@).unwrap(),
{
    proof {
        reveal_strlit("|");
        assert("|"@ =~= seq!['|']);
    }
    let parts = split_by(line, "|");
    if parts.len() < 3 {
        return None;
    }
    let ghost pv = views(parts@);
    assert(forall|k: int| 0 <= k < 3 ==> parts@[k]@ == #[trigger] pv[k]);
    let index = parse_stash_selector(parts[0].as_str());
    Some(GitStash { index, message: parts[1].clone(), branch: parts[2].clone() })
}

/// Parses the output of `git stash list` written with `STASH_FORMAT`.
pub fn parse_stash_list(stdout: &str) -> (r: Vec<GitStash>)
    ensures
        stash_views(r@) == stash_entries(lines_spec(stdout@)),
{
    let ls = lines(stdout);
    let ghost lv = views(ls@);
    let mut r: Vec<GitStash> = Vec::new();
    let mut i: usize = 0;
    assert(lv.subrange(0, 0) =~= Seq::<Seq<char>>::empty());
    assert(stash_views(r@) =~= Seq::<StashView>::empty());
    while i < ls.len()
        invariant
            lv == views(ls@),
            lv == lines_spec(stdout@),
            i <= ls@.len(),
            stash_views(r@) == stash_entries(lv.subrange(0, i as int)),
        decreases ls.len() - i,
    {
        assert(ls@[i as int]@ == lv[i as int]);
        assert(lv.subrange(0, i + 1).drop_last() =~= lv.subrange(0, i as int));
        let ghost old_r = r@;
        match parse_stash_line(ls[i].as_str()) {
            Some(s) => {
                r.push(s);
                assert(stash_views(r@) =~= stash_views(old_r).push(s@));
            },
            None => {
                assert(stash_views(r@) =~= stash_views(old_r) + Seq::<StashView>::empty());
            },
        }
        i += 1;
    }
    assert(lv.subrange(0, i as int) =~= lv);
    r
}

/// The file one name-status line describes: its first word is the status,
/// its second the path.
pub open spec fn name_status_line(l: Seq<char>) -> Option<CommitFileView> {
    let w = words_spec(l);
    if w.len() < 2 {
        None
    } else {
        Some(CommitFileView { path: w[1], status: w[0] })
    }
}

pub open spec fn name_status_entries(ls: Seq<Seq<char>>) -> Seq<CommitFileView>
    decreases ls.len(),
{
    if ls.len() == 0 {
        Seq::empty()
    } else {
        name_status_entries(ls.drop_last()) + match name_status_line(ls.last()) {
            Some(f) => seq![f],
            None => Seq::empty(),
        }
    }
}

pub open spec fn commit_file_views(v: Seq<GitCommitFile>) -> Seq<CommitFileView> {
    v.map_values(|f: GitCommitFile| f@)
}

/// Parses one line of `git show --name-status`.
pub fn parse_name_status_line(line: &str) -> (r: Option<GitCommitFile>)
    ensures
        r.is_some() == name_status_line(line@).is_some(),
        r.is_some() ==> r.unwrap()@ == name_status_line(line@).unwrap(),
{
    let w = split_whitespace(line);
    if w.len() < 2 {
        return None;
    }
    let ghost wv = views(w@);
    assert(forall|k: int| 0 <= k < 2 ==> w@[k]@ == #[trigger] wv[k]);
    Some(GitCommitFile { status: w[0].clone(), path: w[1].clone() })
}

/// Parses the output of `git show --name-status --format=`.
pub fn parse_name_status(stdout: &str) -> (r: Vec<GitCommitFile>)
    ensures
        commit_file_views(r@) == name_status_entries(lines_spec(stdout@)),
{
    let ls = lines(stdout);
    let ghost lv = views(ls@);
    let mut r: Vec<GitCommitFile> = Vec::new();
    let mut i: usize = 0;
    assert(lv.subrange(0, 0) =~= Seq::<Seq<char>>::empty());
    assert(commit_file_views(r@) =~= Seq::<CommitFileView>::empty());
    while i < ls.len()
        invariant
            lv == views(ls@),
            lv == lines_spec(stdout@),
            i <= ls@.len(),
            commit_file_views(r@) == name_status_entries(lv.subrange(0, i as int)),
        decreases ls.len() - i,
    {
        assert(ls@[i as int]@ == lv[i as int]);
        assert(lv.subrange(0, i + 1).drop_last() =~= lv.subrange(0, i as int));
        let ghost old_r = r@;
        match parse_name_status_line(ls[i].as_str()) {
            Some(f) => {
                r.push(f);
                assert(commit_file_views(r@) =~= commit_file_views(old_r).push(f@));
            },
            None => {
                assert(commit_file_views(r@) =~= commit_file_views(old_r) + Seq::<CommitFileView>::empty());
            },
        }
        i += 1;
    }
    assert(lv.subrange(0, i as int) =~= lv);
    r
}

/// The stashes that a finished `git stash list` reports, or its failure.
pub fn stashes_from_output(out: &CommandOutput) -> (r: Result<Vec<GitStash>, String>)
    ensures
        r is Ok <==> out.success,
        r matches Ok(v) ==> stash_views(v@) == stash_entries(lines_spec(out.stdout@)),
        r matches Err(m) ==> m@ == failure_text("Git stash list failed"@, out.stderr@),
{
    check_output(out, "Git stash list failed")?;
    Ok(parse_stash_list(out.stdout.as_str()))
}

/// The files that a finished `git show --name-status` reports, or its
/// failure.
pub fn commit_files_from_output(out: &CommandOutput) -> (r: Result<Vec<GitCommitFile>, String>)
    ensures
        r is Ok <==> out.success,
        r matches Ok(v) ==> commit_file_views(v@) == name_status_entries(lines_spec(out.stdout@)),
        r matches Err(m) ==> m@ == failure_text("Git show failed"@, out.stderr@),
{
    check_output(out, "Git show failed")?;
    Ok(parse_name_status(out.stdout.as_str()))
}

} // verus!
