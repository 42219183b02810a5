//! Branches, remote branches, tags and remotes, read from the repository's
//! references and configuration through gix.
use vstd::prelude::*;
use crate::model::{BranchView, GitBranch, GitRemote, RemoteView};
use crate::text::{ends_with, has_prefix, has_suffix, strip_prefix_or_keep, views};

verus! {

#[verifier::external_type_specification]
#[verifier::external_body]
pub struct ExRepository(gix::Repository);

pub const LOCAL_PREFIX: &'static str = "refs/heads/";

pub const REMOTE_PREFIX: &'static str = "refs/remotes/";

pub const TAG_PREFIX: &'static str = "refs/tags/";

/// Relies on gix::open: opens the repository whose directory is `path`.
#[verifier::external_body]
fn open_repository(path: &str) -> (r: Result<gix::Repository, String>) {
    gix::open(path).map_err(|e| e.to_string())
}

/// Relies on gix::discover: opens the repository that contains `path`.
#[verifier::external_body]
fn discover_repository(path: &str) -> (r: Result<gix::Repository, String>) {
    gix::discover(path).map_err(|e| e.to_string())
}

/// Relies on gix::Repository::head and gix::Head::referent_name: the full
/// name of the reference HEAD points at, none when HEAD is detached.
#[verifier::external_body]
fn head_referent(repo: &gix::Repository) -> (r: Result<Option<String>, String>) {
    let head = repo.head().map_err(|e| e.to_string())?;
    Ok(head.referent_name().map(|n| n.as_bstr().to_string()))
}

/// Relies on gix's `references().local_branches()`: the full names of the
/// references under `refs/heads/`.
#[verifier::external_body]
fn local_reference_names(repo: &gix::Repository) -> (r: Result<Vec<String>, String>)
    ensures
        r matches Ok(v) ==> forall|i: int| 0 <= i < v@.len() ==> has_prefix(#[trigger] v@[i]@, LOCAL_PREFIX@),
{
    let platform = repo.references().map_err(|e| e.to_string())?;
    let mut names = Vec::new();
    for res in platform.local_branches().map_err(|e| e.to_string())? {
        names.push(res.map_err(|e| e.to_string())?.name().as_bstr().to_string());
    }
    Ok(names)
}

/// Relies on gix's `references().remote_branches()`: the full names of the
/// references under `refs/remotes/`.
#[verifier::external_body]
fn remote_reference_names(repo: &gix::Repository) -> (r: Result<Vec<String>, String>)
    ensures
        r matches Ok(v) ==> forall|i: int| 0 <= i < v@.len() ==> has_prefix(#[trigger] v@[i]@, REMOTE_PREFIX@),
{
    let platform = repo.references().map_err(|e| e.to_string())?;
    let mut names = Vec::new();
    for res in platform.remote_branches().map_err(|e| e.to_string())? {
        names.push(res.map_err(|e| e.to_string())?.name().as_bstr().to_string());
    }
    Ok(names)
}

/// Relies on gix's `references().tags()`: the full names of the references
/// under `refs/tags/`.
#[verifier::external_body]
fn tag_reference_names(repo: &gix::Repository) -> (r: Result<Vec<String>, String>)
    ensures
        r matches Ok(v) ==> forall|i: int| 0 <= i < v@.len() ==> has_prefix(#[trigger] v@[i]@, TAG_PREFIX@),
{
    let platform = repo.references().map_err(|e| e.to_string())?;
    let mut names = Vec::new();
    for res in platform.tags().map_err(|e| e.to_string())? {
        names.push(res.map_err(|e| e.to_string())?.name().as_bstr().to_string());
    }
    Ok(names)
}

/// Relies on gix_config::File::sections_by_name on the configuration
/// snapshot: for each `remote` section in file order, its subsection name
/// and its `url` value.
#[verifier::external_body]
fn remote_sections(repo: &gix::Repository) -> (r: Vec<(Option<String>, Option<String>)>) {
    let config = repo.config_snapshot();
    let mut out = Vec::new();
    if let Some(sections) = config.sections_by_name("remote") {
        for section in sections {
            let name = section.header().subsection_name().map(|n| n.to_string());
            out.push((name, section.value("url").map(|v| v.to_string())));
        }
    }
    out
}

/// Opens the repository at `path`, or else the one that contains it.
pub fn open_or_discover(path: &str) -> (r: Result<gix::Repository, String>) {
    match open_repository(path) {
        Ok(repo) => Ok(repo),
        Err(_) => discover_repository(path),
    }
}

/// `full` without the namespace `prefix`, or `full` itself outside it.
pub open spec fn short_name(full: Seq<char>, prefix: Seq<char>) -> Seq<char> {
    if has_prefix(full, prefix) { full.subrange(prefix.len() as int, full.len() as int) } else { full }
}

/// Whether the reference at position `i` is the current branch: it is
/// what HEAD points at, and no earlier reference has the same name.
pub open spec fn is_current_at(fulls: Seq<Seq<char>>, i: int, head: Option<Seq<char>>) -> bool {
    head == Some(fulls[i]) && forall|k: int| 0 <= k < i ==> fulls[k] != fulls[i]
}

/// The branch record for the reference at position `i`.
pub open spec fn branch_at(fulls: Seq<Seq<char>>, i: int, head: Option<Seq<char>>) -> BranchView {
    BranchView { name: short_name(fulls[i], LOCAL_PREFIX@), is_current: is_current_at(fulls, i, head) }
}

pub open spec fn opt_view(o: Option<String>) -> Option<Seq<char>> {
    match o {
        Some(s) => Some(s@),
        None => None,
    }
}

/// At most one branch record is current.
pub open spec fn at_most_one_current(v: Seq<GitBranch>) -> bool {
    forall|i: int, j: int|
        0 <= i < v.len() && 0 <= j < v.len() && (#[trigger] v[i]).is_current && (#[trigger] v[j]).is_current
            ==> i == j
}

/// Local branch records for the given full reference names: each name
/// without its namespace; the first one that HEAD points at is current.
pub fn branches_from_refs(full_names: &Vec<String>, head: &Option<String>) -> (r: Vec<GitBranch>)
    ensures
        r@.len() == full_names@.len(),
        forall|i: int| 0 <= i < r@.len() ==> #[trigger] r@[i]@ == branch_at(views(full_names@), i, opt_view(*head)),
        at_most_one_current(r@),
{
    let ghost fv = views(full_names@);
    let ghost h = opt_view(*head);
    let mut r: Vec<GitBranch> = Vec::new();
    let mut found = false;
    let mut i: usize = 0;
    while i < full_names.len()
        invariant
            fv == views(full_names@),
            h == opt_view(*head),
            i <= full_names@.len(),
            r@.len() == i,
            found <==> exists|k: int| 0 <= k < i && h == Some(#[trigger] fv[k]),
            forall|k: int| 0 <= k < i ==> #[trigger] r@[k]@ == branch_at(fv, k, h),
        decreases full_names.len() - i,
    {
        let full = &full_names[i];
        assert(fv[i as int] == full@);
        let matches_head = match head {
            Some(hd) => *hd == *full,
            None => false,
        };
        let is_current = matches_head && !found;
        proof {
            if is_current {
                assert forall|k: int| 0 <= k < i implies fv[k] != fv[i as int] by {
                    if fv[k] == fv[i as int] {
                        assert(h == Some(fv[k]));
                    }
                }
            }
            if matches_head && found {
                let k = choose|k: int| 0 <= k < i && h == Some(#[trigger] fv[k]);
                assert(fv[k] == fv[i as int]);
            }
        }
        let name = strip_prefix_or_keep(full.as_str(), LOCAL_PREFIX);
        r.push(GitBranch { name, is_current });
        found = found || matches_head;
        i += 1;
    }
    proof {
        assert forall|a: int, b: int|
            0 <= a < r@.len() && 0 <= b < r@.len() && (#[trigger] r@[a]).is_current && (#[trigger] r@[b]).is_current
            implies a == b by {
            assert(r@[a]@ == branch_at(fv, a, h));
            assert(r@[b]@ == branch_at(fv, b, h));
            if a < b {
                assert(fv[a] == fv[b]);
            }
            if b < a {
                assert(fv[a] == fv[b]);
            }
        }
    }
    r
}

/// The short name of the branch HEAD points at, given its full name.
pub fn current_branch_name(head: &Option<String>) -> (r: Option<String>)
    ensures
        opt_view(r) == match opt_view(*head) {
            Some(h) => Some(short_name(h, LOCAL_PREFIX@)),
            None => None,
        },
{
    match head {
        Some(h) => Some(strip_prefix_or_keep(h.as_str(), LOCAL_PREFIX)),
        None => None,
    }
}

/// The remote branch names that the full names give: each without its
/// namespace, a remote's own `HEAD` left out.
pub open spec fn remote_branch_list(fulls: Seq<Seq<char>>) -> Seq<Seq<char>>
    decreases fulls.len(),
{
    if fulls.len() == 0 {
        Seq::empty()
    } else {
        let n = short_name(fulls.last(), REMOTE_PREFIX@);
        remote_branch_list(fulls.drop_last()) + if has_suffix(n, "/HEAD"@) {
            Seq::empty()
        } else {
            seq![n]
        }
    }
}

pub fn remote_branches_from_refs(full_names: &Vec<String>) -> (r: Vec<String>)
    ensures
        views(r@) == remote_branch_list(views(full_names@)),
{
    let ghost fv = views(full_names@);
    let mut r: Vec<String> = Vec::new();
    let mut i: usize = 0;
    assert(fv.subrange(0, 0) =~= Seq::<Seq<char>>::empty());
    assert(views(r@) =~= Seq::<Seq<char>>::empty());
    while i < full_names.len()
        invariant
            fv == views(full_names@),
            i <= full_names@.len(),
            views(r@) == remote_branch_list(fv.subrange(0, i as int)),
        decreases full_names.len() - i,
    {
        assert(full_names@[i as int]@ == fv[i as int]);
        assert(fv.subrange(0, i + 1).drop_last() =~= fv.subrange(0, i as int));
        let name = strip_prefix_or_keep(full_names[i].as_str(), REMOTE_PREFIX);
        let ghost old_r = r@;
        if !ends_with(name.as_str(), "/HEAD") {
            r.push(name);
            assert(views(r@) =~= views(old_r).push(name@));
        } else {
            assert(views(r@) =~= views(old_r) + Seq::<Seq<char>>::empty());
        }
        i += 1;
    }
    assert(fv.subrange(0, i as int) =~= fv);
    r
}

/// Tag names for the given full reference names, each without its namespace.
pub fn tags_from_refs(full_names: &Vec<String>) -> (r: Vec<String>)
    ensures
        r@.len() == full_names@.len(),
        forall|i: int| 0 <= i < r@.len() ==> #[trigger] r@[i]@ == short_name(full_names@[i]@, TAG_PREFIX@),
{
    let mut r: Vec<String> = Vec::new();
    let mut i: usize = 0;
    while i < full_names.len()
        invariant
            i <= full_names@.len(),
            r@.len() == i,
            forall|k: int| 0 <= k < i ==> #[trigger] r@[k]@ == short_name(full_names@[k]@, TAG_PREFIX@),
        decreases full_names.len() - i,
    {
        r.push(strip_prefix_or_keep(full_names[i].as_str(), TAG_PREFIX));
        i += 1;
    }
    r
}

/// The names of some remote records, in order.
pub open spec fn remote_names(v: Seq<RemoteView>) -> Seq<Seq<char>> {
    v.map_values(|r: RemoteView| r.name)
}

/// The remotes that configuration sections describe: a section without a
/// name, or with an empty one, is skipped; a name already listed keeps the
/// entry of its first section; a missing URL reads as empty.
pub open spec fn remote_list(secs: Seq<(Option<Seq<char>>, Option<Seq<char>>)>) -> Seq<RemoteView>
    decreases secs.len(),
{
    if secs.len() == 0 {
        Seq::empty()
    } else {
        let (n, u) = secs.last();
        let prev = remote_list(secs.drop_last());
        match n {
            Some(name) if name.len() > 0 && !remote_names(prev).contains(name) => prev.push(
                RemoteView { name, url: match u { Some(x) => x, None => Seq::empty() } },
            ),
            _ => prev,
        }
    }
}

/// Remote names are pairwise distinct.
pub open spec fn distinct_remote_names(v: Seq<RemoteView>) -> bool {
    forall|i: int, j: int| 0 <= i < v.len() && 0 <= j < v.len() && i != j ==> (#[trigger] v[i]).name != (#[trigger] v[j]).name
}

pub open spec fn section_views(v: Seq<(Option<String>, Option<String>)>) -> Seq<(Option<Seq<char>>, Option<Seq<char>>)> {
    v.map_values(|p: (Option<String>, Option<String>)| (opt_view(p.0), opt_view(p.1)))
}

pub open spec fn remote_views(v: Seq<GitRemote>) -> Seq<RemoteView> {
    v.map_values(|r: GitRemote| r@)
}

fn has_remote_named(v: &Vec<GitRemote>, name: &String) -> (r: bool)
    ensures
        r == remote_names(remote_views(v@)).contains(name@),
{
    let ghost names = remote_names(remote_views(v@));
    let mut i: usize = 0;
    while i < v.len() && !(v[i].name == *name)
        invariant
            names == remote_names(remote_views(v@)),
            i <= v@.len(),
            forall|k: int| 0 <= k < i ==> names[k] != name@,
        decreases v.len() - i,
    {
        assert(names[i as int] == v@[i as int].name@);
        i += 1;
    }
    if i < v.len() {
        assert(names[i as int] == v@[i as int].name@);
        true
    } else {
        proof {
            if names.contains(name@) {
                let k = choose|k: int| 0 <= k < names.len() && names[k] == name@;
                assert(names[k] != name@);
            }
        }
        false
    }
}

pub fn remotes_from_sections(sections: &Vec<(Option<String>, Option<String>)>) -> (r: Vec<GitRemote>)
    ensures
        remote_views(r@) == remote_list(section_views(sections@)),
        distinct_remote_names(remote_views(r@)),
{
    let ghost sv = section_views(sections@);
    let mut r: Vec<GitRemote> = Vec::new();
    let mut i: usize = 0;
    assert(sv.subrange(0, 0) =~= Seq::<(Option<Seq<char>>, Option<Seq<char>>)>::empty());
    assert(remote_views(r@) =~= Seq::<RemoteView>::empty());
    while i < sections.len()
        invariant
            sv == section_views(sections@),
            i <= sections@.len(),
            remote_views(r@) == remote_list(sv.subrange(0, i as int)),
        decreases sections.len() - i,
    {
        assert(sv.subrange(0, i + 1).drop_last() =~= sv.subrange(0, i as int));
        let (n, u) = &sections[i];
        assert(sv[i as int] == (opt_view(*n), opt_view(*u)));
        let ghost old_r = r@;
        match n {
            Some(name) if name.as_str().unicode_len() > 0 && !has_remote_named(&r, name) => {
                let url = match u {
                    Some(x) => x.clone(),
                    None => String::new(),
                };
                let e = GitRemote { name: name.clone(), url };
                r.push(e);
                assert(remote_views(r@) =~= remote_views(old_r).push(e@));
            },
            _ => {},
        }
        i += 1;
    }
    assert(sv.subrange(0, i as int) =~= sv);
    proof {
        lemma_remote_list_distinct(sv);
    }
    r
}

/// The local branches of the repository at `path`; the one HEAD points at
/// is marked current, and no other.
pub fn get_git_branches(path: String) -> (r: Result<Vec<GitBranch>, String>)
    ensures
        r matches Ok(v) ==> at_most_one_current(v@),
{
    let repo = open_or_discover(path.as_str())?;
    let fulls = local_reference_names(&repo)?;
    let head = head_referent(&repo)?;
    Ok(branches_from_refs(&fulls, &head))
}

/// The remote-tracking branches of the repository at `path`, such as
/// `origin/main`.
pub fn get_git_remote_branches(path: String) -> (r: Result<Vec<String>, String>)
    ensures
        r matches Ok(v) ==> forall|i: int| 0 <= i < v@.len() ==> !has_suffix(#[trigger] v@[i]@, "/HEAD"@),
{
    let repo = open_or_discover(path.as_str())?;
    let fulls = remote_reference_names(&repo)?;
    let r = remote_branches_from_refs(&fulls);
    proof {
        lemma_remote_list_has_no_head(views(fulls@));
        assert forall|i: int| 0 <= i < r@.len() implies !has_suffix(#[trigger] r@[i]@, "/HEAD"@) by {
            assert(views(r@)[i] == r@[i]@);
        }
    }
    Ok(r)
}

/// The tags of the repository at `path`, by short name.
pub fn get_git_tags(path: String) -> (r: Result<Vec<String>, String>) {
    let repo = open_or_discover(path.as_str())?;
    let fulls = tag_reference_names(&repo)?;
    Ok(tags_from_refs(&fulls))
}

/// The remotes configured for the repository at `path`, each with a
/// non-empty name.
pub fn get_git_remotes(path: String) -> (r: Result<Vec<GitRemote>, String>)
    ensures
        r matches Ok(v) ==> forall|i: int| 0 <= i < v@.len() ==> (#[trigger] v@[i]).name@.len() > 0,
        r matches Ok(v) ==> distinct_remote_names(remote_views(v@)),
{
    let repo = open_or_discover(path.as_str())?;
    let sections = remote_sections(&repo);
    let r = remotes_from_sections(&sections);
    proof {
        lemma_remote_list_names_nonempty(section_views(sections@));
        assert forall|i: int| 0 <= i < r@.len() implies (#[trigger] r@[i]).name@.len() > 0 by {
            assert(remote_views(r@)[i] == r@[i]@);
        }
    }
    Ok(r)
}

/// The short name of the branch HEAD of the repository at `path` points
/// at; none when HEAD is detached.
pub fn current_branch_of(path: &str) -> (r: Result<Option<String>, String>) {
    let repo = open_or_discover(path)?;
    let head = head_referent(&repo)?;
    Ok(current_branch_name(&head))
}

pub proof fn lemma_remote_list_has_no_head(fulls: Seq<Seq<char>>)
    ensures
        forall|i: int| 0 <= i < remote_branch_list(fulls).len()
            ==> !has_suffix(#[trigger] remote_branch_list(fulls)[i], "/HEAD"@),
    decreases fulls.len(),
{
    if fulls.len() > 0 {
        lemma_remote_list_has_no_head(fulls.drop_last());
        let a = remote_branch_list(fulls.drop_last());
        let l = remote_branch_list(fulls);
        assert forall|i: int| 0 <= i < l.len() implies !has_suffix(#[trigger] l[i], "/HEAD"@) by {
            if i < a.len() {
                assert(l[i] == a[i]);
            }
        }
    }
}

pub proof fn lemma_remote_list_names_nonempty(secs: Seq<(Option<Seq<char>>, Option<Seq<char>>)>)
    ensures
        forall|i: int| 0 <= i < remote_list(secs).len() ==> (#[trigger] remote_list(secs)[i]).name.len() > 0,
    decreases secs.len(),
{
    if secs.len() > 0 {
        lemma_remote_list_names_nonempty(secs.drop_last());
        let a = remote_list(secs.drop_last());
        let l = remote_list(secs);
        assert forall|i: int| 0 <= i < l.len() implies (#[trigger] l[i]).name.len() > 0 by {
            if i < a.len() {
                assert(l[i] == a[i]);
            }
        }
    }
}

/// The remotes that configuration sections give have distinct names.
pub proof fn lemma_remote_list_distinct(secs: Seq<(Option<Seq<char>>, Option<Seq<char>>)>)
    ensures
        distinct_remote_names(remote_list(secs)),
    decreases secs.len(),
{
    if secs.len() > 0 {
        lemma_remote_list_distinct(secs.drop_last());
        let a = remote_list(secs.drop_last());
        let l = remote_list(secs);
        if l.len() > a.len() {
            assert forall|i: int, j: int| 0 <= i < l.len() && 0 <= j < l.len() && i != j
                implies (#[trigger] l[i]).name != (#[trigger] l[j]).name by {
                if i < a.len() && j < a.len() {
                    assert(l[i] == a[i] && l[j] == a[j]);
                } else if i < a.len() {
                    assert(l[i] == a[i]);
                    assert(remote_names(a)[i] == a[i].name);
                } else {
                    assert(l[j] == a[j]);
                    assert(remote_names(a)[j] == a[j].name);
                }
            }
        }
    }
}

} // verus!
