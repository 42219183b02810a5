//! Parsing of `git status --porcelain` output.
use vstd::prelude::*;
use crate::args::{check_output, failure_text, CommandOutput};
use crate::model::{GitStatusFile, StatusFileView};
use crate::text::{lines, lines_spec};

verus! {

/// The entries that one porcelain line yields: a staged one when the index
/// letter is set and is not the untracked marker, an unstaged one when the
/// working-tree letter is set or both letters are the untracked marker.
pub open spec fn line_entries(l: Seq<char>) -> Seq<StatusFileView> {
    if l.len() < 4 {
        Seq::empty()
    } else {
        let x = l[0];
        let y = l[1];
        let p = l.subrange(3, l.len() as int);
        let staged: Seq<StatusFileView> = if x != ' ' && x != '?' {
            seq![StatusFileView { path: p, status: seq![x, ' '], is_staged: true }]
        } else {
            Seq::empty()
        };
        let unstaged: Seq<StatusFileView> = if y != ' ' || (x == '?' && y == '?') {
            seq![StatusFileView { path: p, status: seq![' ', y], is_staged: false }]
        } else {
            Seq::empty()
        };
        staged + unstaged
    }
}

/// The entries of all lines, in order.
pub open spec fn status_entries(ls: Seq<Seq<char>>) -> Seq<StatusFileView>
    decreases ls.len(),
{
    if ls.len() == 0 {
        Seq::empty()
    } else {
        status_entries(ls.drop_last()) + line_entries(ls.last())
    }
}

pub open spec fn status_views(v: Seq<GitStatusFile>) -> Seq<StatusFileView> {
    v.map_values(|e: GitStatusFile| e@)
}

/// Appends the entries of one porcelain line to `r`.
fn push_line_entries(line: &str, r: &mut Vec<GitStatusFile>)
    ensures
        status_views(final(r)@) == status_views(old(r)@) + line_entries(line@),
{
    let ghost start = r@;
    let n = line.unicode_len();
    if n < 4 {
        assert(status_views(r@) =~= status_views(start) + line_entries(line@));
        return;
    }
    let x = line.get_char(0);
    let y = line.get_char(1);
    let p = line.substring_char(3, n);
    proof {
        reveal_strlit(" ");
    }
    if x != ' ' && x != '?' {
        let code = String::from_str(line.substring_char(0, 1)).concat(" ");
        assert(code@ =~= seq![x, ' ']);
        let e = GitStatusFile { path: String::from_str(p), status: code, is_staged: true };
        let ghost mid = r@;
        r.push(e);
        assert(status_views(r@) =~= status_views(mid).push(e@));
    }
    if y != ' ' || (x == '?' && y == '?') {
        let code = String::from_str(" ").concat(line.substring_char(1, 2));
        assert(code@ =~= seq![' ', y]);
        let e = GitStatusFile { path: String::from_str(p), status: code, is_staged: false };
        let ghost mid = r@;
        r.push(e);
        assert(status_views(r@) =~= status_views(mid).push(e@));
    }
    assert(status_views(r@) =~= status_views(start) + line_entries(line@));
}

/// Parses one porcelain line.
pub fn parse_status_line(line: &str) -> (r: Vec<GitStatusFile>)
    ensures
        status_views(r@) == line_entries(line@),
{
    let mut r: Vec<GitStatusFile> = Vec::new();
    push_line_entries(line, &mut r);
    assert(status_views(r@) =~= line_entries(line@));
    r
}

/// Parses the whole output of `git status --porcelain`.
pub fn parse_status(stdout: &str) -> (r: Vec<GitStatusFile>)
    ensures
        status_views(r@) == status_entries(lines_spec(stdout@)),
{
    let ls = lines(stdout);
    let ghost lv = lines_spec(stdout@);
    let mut r: Vec<GitStatusFile> = Vec::new();
    let mut i: usize = 0;
    assert(lv.subrange(0, 0) =~= Seq::<Seq<char>>::empty());
    assert(status_views(r@) =~= Seq::<StatusFileView>::empty());
    while i < ls.len()
        invariant
            lv == lines_spec(stdout@),
            ls@.map_values(|x: String| x@) == lv,
            i <= ls@.len(),
            status_views(r@) == status_entries(lv.subrange(0, i as int)),
        decreases ls.len() - i,
    {
        assert(ls@[i as int]@ == lv[i as int]);
        push_line_entries(ls[i].as_str(), &mut r);
        assert(lv.subrange(0, i + 1).drop_last() =~= lv.subrange(0, i as int));
        i += 1;
    }
    assert(lv.subrange(0, i as int) =~= lv);
    r
}

/// A line whose index letter is set and is not the untracked marker, and
/// whose working-tree letter is blank, yields exactly one entry, a staged one.
pub proof fn lemma_index_only_line_is_staged(l: Seq<char>)
    requires
        l.len() >= 4,
        l[0] != ' ',
        l[0] != '?',
        l[1] == ' ',
    ensures
        line_entries(l).len() == 1,
        line_entries(l)[0].is_staged,
        line_entries(l)[0].path == l.subrange(3, l.len() as int),
{
}

/// An untracked line yields exactly one entry, an unstaged one for its path.
pub proof fn lemma_untracked_line_is_unstaged(l: Seq<char>)
    requires
        l.len() >= 4,
        l[0] == '?',
        l[1] == '?',
    ensures
        line_entries(l).len() == 1,
        !line_entries(l)[0].is_staged,
        line_entries(l)[0].path == l.subrange(3, l.len() as int),
{
}

/// A path modified both in the index and in the working tree yields two
/// entries for that path, the staged one first.
pub proof fn lemma_modified_twice_gives_two_entries(l: Seq<char>)
    requires
        l.len() >= 4,
        l[0] == 'M',
        l[1] == 'M',
    ensures
        line_entries(l).len() == 2,
        line_entries(l)[0].is_staged,
        !line_entries(l)[1].is_staged,
        line_entries(l)[0].path == l.subrange(3, l.len() as int),
        line_entries(l)[1].path == l.subrange(3, l.len() as int),
{
}

/// The status entries that a finished `git status --porcelain` reports, or
/// its failure.
pub fn status_from_output(out: &CommandOutput) -> (r: Result<Vec<GitStatusFile>, String>)
    ensures
        r is Ok <==> out.success,
        r matches Ok(v) ==> status_views(v@) == status_entries(lines_spec(out.stdout@)),
        r matches Err(m) ==> m@ == failure_text("Git status failed"@, out.stderr@),
{
    check_output(out, "Git status failed")?;
    Ok(parse_status(out.stdout.as_str()))
}

} // verus!
