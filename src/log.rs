//! Parsing of `git log` output written with a field delimiter and a record
//! terminator, and of the ref decorations in it.
use vstd::prelude::*;
use crate::args::{check_output, failure_text, CommandOutput};
use crate::model::{CommitView, GitCommit};
use crate::text::{
    has_prefix, split_by, split_spec, split_whitespace, starts_with, strip_prefix_or_keep, trim,
    trim_spec, views, words_spec,
};

verus! {

/// Separates the fields of one record.
pub const FIELD_DELIMITER: &'static str = "----------COMMIT-PART----------";

/// Ends each record.
pub const RECORD_END: &'static str = "----------COMMIT-END----------";

/// Marks the branch that HEAD points at in a decoration.
pub const HEAD_MARKER: &'static str = "HEAD -> ";

/// Marks a tag in a decoration.
pub const TAG_MARKER: &'static str = "tag: ";

/// The `--pretty=format:` argument whose output `parse_log` reads: hash,
/// author name, author email, author date, subject, body, parents and
/// decorations.
pub open spec fn log_format_spec() -> Seq<char> {
    let d = FIELD_DELIMITER@;
    "--pretty=format:%H"@ + d + "%an"@ + d + "%ae"@ + d + "%at"@ + d + "%s"@ + d + "%b"@ + d + "%P"@ + d
        + "%D"@ + RECORD_END@
}

pub fn log_format() -> (r: String)
    ensures
        r@ == log_format_spec(),
{
    let mut r = String::from_str("--pretty=format:%H");
    r.append(FIELD_DELIMITER);
    r.append("%an");
    r.append(FIELD_DELIMITER);
    r.append("%ae");
    r.append(FIELD_DELIMITER);
    r.append("%at");
    r.append(FIELD_DELIMITER);
    r.append("%s");
    r.append(FIELD_DELIMITER);
    r.append("%b");
    r.append(FIELD_DELIMITER);
    r.append("%P");
    r.append(FIELD_DELIMITER);
    r.append("%D");
    r.append(RECORD_END);
    r
}

/// The branch a trimmed decoration token names, if it names one.
pub open spec fn token_branch(r: Seq<char>) -> Seq<Seq<char>> {
    if has_prefix(r, HEAD_MARKER@) {
        seq![r.subrange(HEAD_MARKER@.len() as int, r.len() as int)]
    } else if has_prefix(r, TAG_MARKER@) {
        Seq::empty()
    } else {
        seq![r]
    }
}

/// The tag a trimmed decoration token names, if it names one.
pub open spec fn token_tag(r: Seq<char>) -> Seq<Seq<char>> {
    if !has_prefix(r, HEAD_MARKER@) && has_prefix(r, TAG_MARKER@) {
        seq![r.subrange(TAG_MARKER@.len() as int, r.len() as int)]
    } else {
        Seq::empty()
    }
}

pub open spec fn tokens_branches(ts: Seq<Seq<char>>) -> Seq<Seq<char>>
    decreases ts.len(),
{
    if ts.len() == 0 {
        Seq::empty()
    } else {
        tokens_branches(ts.drop_last()) + token_branch(trim_spec(ts.last()))
    }
}

pub open spec fn tokens_tags(ts: Seq<Seq<char>>) -> Seq<Seq<char>>
    decreases ts.len(),
{
    if ts.len() == 0 {
        Seq::empty()
    } else {
        tokens_tags(ts.drop_last()) + token_tag(trim_spec(ts.last()))
    }
}

/// Branches and tags named by a decoration field: nothing for an empty
/// field, else one name per comma-separated token.
pub open spec fn decorations(f: Seq<char>) -> (Seq<Seq<char>>, Seq<Seq<char>>) {
    if f.len() == 0 {
        (Seq::empty(), Seq::empty())
    } else {
        let ts = split_spec(f, seq![',']);
        (tokens_branches(ts), tokens_tags(ts))
    }
}

/// Splits a decoration field into branch names and tag names.
pub fn parse_decorations(field: &str) -> (r: (Vec<String>, Vec<String>))
    ensures
        views(r.0@) == decorations(field@).0,
        views(r.1@) == decorations(field@).1,
{
    let mut branches: Vec<String> = Vec::new();
    let mut tags: Vec<String> = Vec::new();
    if field.unicode_len() == 0 {
        assert(views(branches@) =~= Seq::<Seq<char>>::empty());
        assert(views(tags@) =~= Seq::<Seq<char>>::empty());
        return (branches, tags);
    }
    proof {
        reveal_strlit(",");
        assert(","@ =~= seq![',']);
    }
    let ts = split_by(field, ",");
    let ghost tv = views(ts@);
    let mut i: usize = 0;
    assert(tv.subrange(0, 0) =~= Seq::<Seq<char>>::empty());
    assert(views(branches@) =~= Seq::<Seq<char>>::empty());
    assert(views(tags@) =~= Seq::<Seq<char>>::empty());
    while i < ts.len()
        invariant
            tv == views(ts@),
            tv == split_spec(field@, seq![',']),
            field@.len() > 0,
            i <= ts@.len(),
            views(branches@) == tokens_branches(tv.subrange(0, i as int)),
            views(tags@) == tokens_tags(tv.subrange(0, i as int)),
        decreases ts.len() - i,
    {
        let r = trim(ts[i].as_str());
        assert(ts@[i as int]@ == tv[i as int]);
        let ghost ob = views(branches@);
        let ghost ot = views(tags@);
        if starts_with(r.as_str(), HEAD_MARKER) {
            let b = strip_prefix_or_keep(r.as_str(), HEAD_MARKER);
            branches.push(b);
            assert(views(branches@) =~= ob + token_branch(r@));
            assert(views(tags@) =~= ot + token_tag(r@));
        } else if starts_with(r.as_str(), TAG_MARKER) {
            let t = strip_prefix_or_keep(r.as_str(), TAG_MARKER);
            tags.push(t);
            assert(views(branches@) =~= ob + token_branch(r@));
            assert(views(tags@) =~= ot + token_tag(r@));
        } else {
            branches.push(r);
            assert(views(branches@) =~= ob + token_branch(r@));
            assert(views(tags@) =~= ot + token_tag(r@));
        }
        assert(tv.subrange(0, i + 1).drop_last() =~= tv.subrange(0, i as int));
        i += 1;
    }
    assert(tv.subrange(0, i as int) =~= tv);
    (branches, tags)
}

/// The commit one record describes: the record is trimmed and split into
/// fields; with fewer than eight there is none.
pub open spec fn record_commit(rec: Seq<char>) -> Option<CommitView> {
    let parts = split_spec(trim_spec(rec), FIELD_DELIMITER@);
    if parts.len() < 8 {
        None
    } else {
        Some(
            CommitView {
                hash: parts[0],
                author: parts[1],
                author_email: parts[2],
                date: parts[3],
                message: parts[4],
                body: trim_spec(parts[5]),
                parents: words_spec(parts[6]),
                branches: decorations(parts[7]).0,
                tags: decorations(parts[7]).1,
            },
        )
    }
}

/// The commits of all records, in order, records without one skipped.
pub open spec fn log_commits(recs: Seq<Seq<char>>) -> Seq<CommitView>
    decreases recs.len(),
{
    if recs.len() == 0 {
        Seq::empty()
    } else {
        log_commits(recs.drop_last()) + match record_commit(recs.last()) {
            Some(c) => seq![c],
            None => Seq::empty(),
        }
    }
}

pub open spec fn commit_views(v: Seq<GitCommit>) -> Seq<CommitView> {
    v.map_values(|c: GitCommit| c@)
}

/// Parses one record.
pub fn parse_commit_record(rec: &str) -> (r: Option<GitCommit>)
    ensures
        r.is_some() == record_commit(rec@).is_some(),
        r.is_some() ==> r.unwrap()@ == record_commit(rec@).unwrap(),
{
    let t = trim(rec);
    proof {
        reveal_strlit("----------COMMIT-PART----------");
    }
    let parts = split_by(t.as_str(), FIELD_DELIMITER);
    if parts.len() < 8 {
        return None;
    }
    let ghost pv = views(parts@);
    assert(forall|k: int| 0 <= k < 8 ==> parts@[k]@ == #[trigger] pv[k]);
    let (branches, tags) = parse_decorations(parts[7].as_str());
    let parents = split_whitespace(parts[6].as_str());
    let c = GitCommit {
        hash: parts[0].clone(),
        author: parts[1].clone(),
        author_email: parts[2].clone(),
        message: parts[4].clone(),
        body: trim(parts[5].as_str()),
        date: parts[3].clone(),
        parents,
        branches,
        tags,
    };
    assert(c@ == record_commit(rec@).unwrap());
    Some(c)
}

/// Parses the whole output of `git log` written with `log_format`.
pub fn parse_log(stdout: &str) -> (r: Vec<GitCommit>)
    ensures
        commit_views(r@) == log_commits(split_spec(stdout@, RECORD_END@)),
{
    proof {
        reveal_strlit("----------COMMIT-END----------");
    }
    let recs = split_by(stdout, RECORD_END);
    let ghost rv = views(recs@);
    let mut r: Vec<GitCommit> = Vec::new();
    let mut i: usize = 0;
    assert(rv.subrange(0, 0) =~= Seq::<Seq<char>>::empty());
    assert(commit_views(r@) =~= Seq::<CommitView>::empty());
    while i < recs.len()
        invariant
            rv == views(recs@),
            rv == split_spec(stdout@, RECORD_END@),
            i <= recs@.len(),
            commit_views(r@) == log_commits(rv.subrange(0, i as int)),
        decreases recs.len() - i,
    {
        assert(recs@[i as int]@ == rv[i as int]);
        assert(rv.subrange(0, i + 1).drop_last() =~= rv.subrange(0, i as int));
        let ghost old_r = r@;
        match parse_commit_record(recs[i].as_str()) {
            Some(c) => {
                r.push(c);
                assert(commit_views(r@) =~= commit_views(old_r).push(c@));
            },
            None => {
                assert(commit_views(r@) =~= commit_views(old_r) + Seq::<CommitView>::empty());
            },
        }
        i += 1;
    }
    assert(rv.subrange(0, i as int) =~= rv);
    r
}

/// A record whose decoration field is empty yields a commit with no
/// branches and no tags.
pub proof fn lemma_empty_decoration_gives_no_names(rec: Seq<char>)
    requires
        record_commit(rec).is_some(),
        split_spec(trim_spec(rec), FIELD_DELIMITER@)[7].len() == 0,
    ensures
        record_commit(rec).unwrap().branches.len() == 0,
        record_commit(rec).unwrap().tags.len() == 0,
{
}

/// The arguments of the `git log` run whose output `parse_log` reads: the
/// latest hundred commits of all references.
pub fn log_args() -> (r: Vec<String>)
    ensures
        r@.len() == 5,
        r@[0]@ == "log"@,
        r@[1]@ == "--all"@,
        r@[2]@ == "-n"@,
        r@[3]@ == "100"@,
        r@[4]@ == log_format_spec(),
{
    let mut r: Vec<String> = Vec::new();
    r.push(String::from_str("log"));
    r.push(String::from_str("--all"));
    r.push(String::from_str("-n"));
    r.push(String::from_str("100"));
    r.push(log_format());
    r
}

/// The commits that a finished `git log` reports, or its failure.
pub fn commits_from_output(out: &CommandOutput) -> (r: Result<Vec<GitCommit>, String>)
    ensures
        r is Ok <==> out.success,
        r matches Ok(v) ==> commit_views(v@) == log_commits(split_spec(out.stdout@, RECORD_END@)),
        r matches Err(m) ==> m@ == failure_text("Git log failed"@, out.stderr@),
{
    check_output(out, "Git log failed")?;
    Ok(parse_log(out.stdout.as_str()))
}

} // verus!
