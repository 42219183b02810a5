//! The decisions of the multi-step operations. Each function takes what the
//! previous step reported and says what to do next; the caller runs the
//! `git` tool in between.
use vstd::prelude::*;
use crate::args::{arg_list_views, check_output, failure_message, failure_text, CommandOutput};
use crate::model::{GitBranch, GitRemote, GitStatusFile, RemoteView, StatusFileView};
use crate::refs::{opt_view, remote_views};
use crate::status::status_views;
use crate::text::{contains, contains_seq, lines, lines_spec, trim, trim_spec, views};

verus! {

pub open spec fn result_view(r: Result<Vec<String>, String>) -> Result<Seq<Seq<char>>, Seq<char>> {
    match r {
        Ok(v) => Ok(views(v@)),
        Err(m) => Err(m@),
    }
}

pub open spec fn option_view(r: Option<Vec<String>>) -> Option<Seq<Seq<char>>> {
    match r {
        Some(v) => Some(views(v@)),
        None => None,
    }
}

/// What to do after a plain `push`.
pub enum PushNext {
    /// The push went through.
    Done,
    /// The push failed for a reason other than a missing upstream.
    Failed(String),
    /// The branch has no upstream: find the branch and the remote, then
    /// push with `--set-upstream`.
    FindUpstream,
}

pub fn after_push(out: &CommandOutput) -> (r: PushNext)
    ensures
        out.success ==> r is Done,
        !out.success && contains_seq(out.stderr@, "no upstream branch"@) ==> r is FindUpstream,
        !out.success && !contains_seq(out.stderr@, "no upstream branch"@) ==> (r matches PushNext::Failed(m)
            && m@ == failure_text("Git push failed"@, out.stderr@)),
{
    if out.success {
        PushNext::Done
    } else if contains(out.stderr.as_str(), "no upstream branch") {
        PushNext::FindUpstream
    } else {
        PushNext::Failed(failure_message("Git push failed", out.stderr.as_str()))
    }
}

/// The upstream-setting push for the current branch: possible only when
/// HEAD names a branch and exactly one remote is configured.
pub open spec fn upstream_plan(current: Option<Seq<char>>, remotes: Seq<RemoteView>) -> Result<Seq<Seq<char>>, Seq<char>> {
    match current {
        None => Err("Could not determine current branch name"@),
        Some(b) => if remotes.len() == 1 {
            Ok(seq!["push"@, "--set-upstream"@, remotes[0].name, b])
        } else if remotes.len() == 0 {
            Err("No remotes configured to push to."@)
        } else {
            Err("Branch '"@ + b + "' has no upstream. Please set it manually or choose a remote."@)
        },
    }
}

pub fn upstream_push_args(current: &Option<String>, remotes: &Vec<GitRemote>) -> (r: Result<Vec<String>, String>)
    ensures
        result_view(r) == upstream_plan(opt_view(*current), remote_views(remotes@)),
{
    match current {
        None => Err(String::from_str("Could not determine current branch name")),
        Some(b) => {
            if remotes.len() == 1 {
                let mut v: Vec<String> = Vec::new();
                v.push(String::from_str("push"));
                v.push(String::from_str("--set-upstream"));
                v.push(remotes[0].name.clone());
                v.push(b.clone());
                assert(remote_views(remotes@)[0] == remotes@[0]@);
                assert(views(v@) =~= seq!["push"@, "--set-upstream"@, remotes@[0].name@, b@]);
                Ok(v)
            } else if remotes.len() == 0 {
                Err(String::from_str("No remotes configured to push to."))
            } else {
                let mut m = String::from_str("Branch '");
                m.append(b.as_str());
                m.append("' has no upstream. Please set it manually or choose a remote.");
                Err(m)
            }
        },
    }
}

pub fn after_upstream_push(out: &CommandOutput) -> (r: Result<(), String>)
    ensures
        r is Ok <==> out.success,
        r matches Err(m) ==> m@ == failure_text("Git push --set-upstream failed"@, out.stderr@),
{
    check_output(out, "Git push --set-upstream failed")
}

/// A branch without an upstream is pushed to the one configured remote when
/// there is exactly one; with none the push fails for want of a remote, and
/// with several it fails naming the branch.
pub proof fn lemma_upstream_push(branch: Seq<char>, remotes: Seq<RemoteView>)
    ensures
        remotes.len() == 1 ==> upstream_plan(Some(branch), remotes)
            == Ok::<Seq<Seq<char>>, Seq<char>>(seq!["push"@, "--set-upstream"@, remotes[0].name, branch]),
        remotes.len() == 0 ==> upstream_plan(Some(branch), remotes)
            == Err::<Seq<Seq<char>>, Seq<char>>("No remotes configured to push to."@),
        remotes.len() >= 2 ==> upstream_plan(Some(branch), remotes)
            == Err::<Seq<Seq<char>>, Seq<char>>(
                "Branch '"@ + branch + "' has no upstream. Please set it manually or choose a remote."@,
            ),
{
}

/// Deleting a branch: refused for the branch HEAD points at, else a forced
/// local delete.
pub open spec fn delete_plan(current: Option<Seq<char>>, branch: Seq<char>) -> Result<Seq<Seq<char>>, Seq<char>> {
    if current == Some(branch) {
        Err("Cannot delete the currently active branch."@)
    } else {
        Ok(seq!["branch"@, "-D"@, branch])
    }
}

pub fn delete_branch_args(current: &Option<String>, branch_name: &str) -> (r: Result<Vec<String>, String>)
    ensures
        result_view(r) == delete_plan(opt_view(*current), branch_name@),
{
    let is_current = match current {
        Some(c) => {
            let b = String::from_str(branch_name);
            *c == b
        },
        None => false,
    };
    if is_current {
        return Err(String::from_str("Cannot delete the currently active branch."));
    }
    let mut v: Vec<String> = Vec::new();
    v.push(String::from_str("branch"));
    v.push(String::from_str("-D"));
    v.push(String::from_str(branch_name));
    assert(views(v@) =~= seq!["branch"@, "-D"@, branch_name@]);
    Ok(v)
}

/// The branch that HEAD points at is never deleted: the plan is an error and
/// holds no command.
pub proof fn lemma_current_branch_not_deleted(current: Option<Seq<char>>, branch: Seq<char>)
    requires
        current == Some(branch),
    ensures
        delete_plan(current, branch) is Err,
{
}

pub fn after_local_delete(out: &CommandOutput, branch_name: &str) -> (r: Result<(), String>)
    ensures
        r is Ok <==> out.success,
        r matches Err(m) ==> m@ == "Failed to delete local branch '"@ + branch_name@ + "': "@ + out.stderr@,
{
    if out.success {
        Ok(())
    } else {
        let mut m = String::from_str("Failed to delete local branch '");
        m.append(branch_name);
        m.append("': ");
        m.append(out.stderr.as_str());
        Err(m)
    }
}

/// One `push <remote> --delete <branch>` per non-blank line of `git remote`.
pub open spec fn remote_deletes(ls: Seq<Seq<char>>, branch: Seq<char>) -> Seq<Seq<Seq<char>>>
    decreases ls.len(),
{
    if ls.len() == 0 {
        Seq::empty()
    } else {
        let r = trim_spec(ls.last());
        remote_deletes(ls.drop_last(), branch) + if r.len() == 0 {
            Seq::empty()
        } else {
            seq![seq!["push"@, r, "--delete"@, branch]]
        }
    }
}

pub fn remote_delete_args(remotes_stdout: &str, branch_name: &str) -> (r: Vec<Vec<String>>)
    ensures
        arg_list_views(r@) == remote_deletes(lines_spec(remotes_stdout@), branch_name@),
{
    let ls = lines(remotes_stdout);
    let ghost lv = views(ls@);
    let mut r: Vec<Vec<String>> = Vec::new();
    let mut i: usize = 0;
    assert(lv.subrange(0, 0) =~= Seq::<Seq<char>>::empty());
    assert(arg_list_views(r@) =~= Seq::<Seq<Seq<char>>>::empty());
    while i < ls.len()
        invariant
            lv == views(ls@),
            lv == lines_spec(remotes_stdout@),
            i <= ls@.len(),
            arg_list_views(r@) == remote_deletes(lv.subrange(0, i as int), branch_name@),
        decreases ls.len() - i,
    {
        assert(ls@[i as int]@ == lv[i as int]);
        assert(lv.subrange(0, i + 1).drop_last() =~= lv.subrange(0, i as int));
        let remote = trim(ls[i].as_str());
        let ghost old_r = r@;
        if remote.as_str().unicode_len() > 0 {
            let mut a: Vec<String> = Vec::new();
            a.push(String::from_str("push"));
            a.push(remote);
            a.push(String::from_str("--delete"));
            a.push(String::from_str(branch_name));
            assert(views(a@) =~= seq!["push"@, trim_spec(lv[i as int]), "--delete"@, branch_name@]);
            r.push(a);
            assert(arg_list_views(r@) =~= arg_list_views(old_r).push(views(a@)));
        } else {
            assert(arg_list_views(r@) =~= arg_list_views(old_r) + Seq::<Seq<Seq<char>>>::empty());
        }
        i += 1;
    }
    assert(lv.subrange(0, i as int) =~= lv);
    r
}

/// The status code of an entry for an untracked path.
pub open spec fn marks_untracked(code: Seq<char>) -> bool {
    code == " ?"@ || code == "??"@
}

/// Whether `st` reports `f` as untracked.
pub open spec fn reported_untracked(f: Seq<char>, st: Seq<StatusFileView>) -> bool {
    exists|i: int| 0 <= i < st.len() && (#[trigger] st[i]).path == f && marks_untracked(st[i].status)
}

/// The requested paths, in order, that `st` reports as untracked.
pub open spec fn untracked_subset(files: Seq<Seq<char>>, st: Seq<StatusFileView>) -> Seq<Seq<char>>
    decreases files.len(),
{
    if files.len() == 0 {
        Seq::empty()
    } else {
        untracked_subset(files.drop_last(), st) + if reported_untracked(files.last(), st) {
            seq![files.last()]
        } else {
            Seq::empty()
        }
    }
}

fn is_reported_untracked(f: &String, status: &Vec<GitStatusFile>) -> (r: bool)
    ensures
        r == reported_untracked(f@, status_views(status@)),
{
    proof {
        reveal_strlit(" ?");
        reveal_strlit("??");
    }
    let ghost st = status_views(status@);
    let mut i: usize = 0;
    while i < status.len()
        invariant
            st == status_views(status@),
            i <= status@.len(),
            forall|k: int| 0 <= k < i ==> !((#[trigger] st[k]).path == f@ && marks_untracked(st[k].status)),
        decreases status.len() - i,
    {
        let e = &status[i];
        assert(st[i as int] == e@);
        let a = String::from_str(" ?");
        let b = String::from_str("??");
        if e.path == *f && (e.status == a || e.status == b) {
            return true;
        }
        i += 1;
    }
    false
}

pub fn untracked_among(files: &Vec<String>, status: &Vec<GitStatusFile>) -> (r: Vec<String>)
    ensures
        views(r@) == untracked_subset(views(files@), status_views(status@)),
{
    let ghost fv = views(files@);
    let ghost st = status_views(status@);
    let mut r: Vec<String> = Vec::new();
    let mut i: usize = 0;
    assert(fv.subrange(0, 0) =~= Seq::<Seq<char>>::empty());
    assert(views(r@) =~= Seq::<Seq<char>>::empty());
    while i < files.len()
        invariant
            fv == views(files@),
            st == status_views(status@),
            i <= files@.len(),
            views(r@) == untracked_subset(fv.subrange(0, i as int), st),
        decreases files.len() - i,
    {
        assert(files@[i as int]@ == fv[i as int]);
        assert(fv.subrange(0, i + 1).drop_last() =~= fv.subrange(0, i as int));
        let ghost old_r = r@;
        if is_reported_untracked(&files[i], status) {
            r.push(files[i].clone());
            assert(views(r@) =~= views(old_r).push(fv[i as int]));
        } else {
            assert(views(r@) =~= views(old_r) + Seq::<Seq<char>>::empty());
        }
        i += 1;
    }
    assert(fv.subrange(0, i as int) =~= fv);
    r
}

/// `prefix` followed by each path.
pub open spec fn with_paths(prefix: Seq<Seq<char>>, paths: Seq<Seq<char>>) -> Seq<Seq<char>> {
    prefix + paths
}

fn append_paths(r: &mut Vec<String>, paths: &Vec<String>)
    ensures
        views(final(r)@) == views(old(r)@) + views(paths@),
{
    let ghost start = views(r@);
    let mut i: usize = 0;
    assert(views(paths@).subrange(0, 0) =~= Seq::<Seq<char>>::empty());
    assert(views(r@) =~= start + views(paths@).subrange(0, 0));
    while i < paths.len()
        invariant
            i <= paths@.len(),
            views(r@) == start + views(paths@).subrange(0, i as int),
        decreases paths.len() - i,
    {
        let ghost mid = r@;
        r.push(paths[i].clone());
        assert(views(r@) =~= views(mid).push(paths@[i as int]@));
        i += 1;
        assert(views(paths@).subrange(0, i as int) =~= views(paths@).subrange(0, i - 1).push(paths@[i - 1]@));
    }
    assert(views(paths@).subrange(0, i as int) =~= views(paths@));
}

/// `checkout -- <files>`, which restores tracked paths from the index;
/// nothing when no path is given.
pub fn discard_checkout_args(files: &Vec<String>) -> (r: Option<Vec<String>>)
    ensures
        option_view(r) == if files@.len() == 0 {
            None
        } else {
            Some(with_paths(seq!["checkout"@, "--"@], views(files@)))
        },
{
    if files.len() == 0 {
        return None;
    }
    let mut r: Vec<String> = Vec::new();
    r.push(String::from_str("checkout"));
    r.push(String::from_str("--"));
    assert(views(r@) =~= seq!["checkout"@, "--"@]);
    append_paths(&mut r, files);
    Some(r)
}

/// `clean -f -- <paths>` for the requested paths still reported untracked
/// after the checkout; nothing when there are none.
pub fn discard_clean_args(files: &Vec<String>, status_after: &Vec<GitStatusFile>) -> (r: Option<Vec<String>>)
    ensures
        option_view(r) == if untracked_subset(views(files@), status_views(status_after@)).len() == 0 {
            None
        } else {
            Some(with_paths(seq!["clean"@, "-f"@, "--"@], untracked_subset(views(files@), status_views(status_after@))))
        },
{
    let untracked = untracked_among(files, status_after);
    if untracked.len() == 0 {
        return None;
    }
    let mut r: Vec<String> = Vec::new();
    r.push(String::from_str("clean"));
    r.push(String::from_str("-f"));
    r.push(String::from_str("--"));
    assert(views(r@) =~= seq!["clean"@, "-f"@, "--"@]);
    append_paths(&mut r, &untracked);
    Some(r)
}

pub proof fn lemma_untracked_subset_members(files: Seq<Seq<char>>, st: Seq<StatusFileView>, f: Seq<char>)
    ensures
        untracked_subset(files, st).contains(f) <==> (files.contains(f) && reported_untracked(f, st)),
    decreases files.len(),
{
    if files.len() > 0 {
        let a = untracked_subset(files.drop_last(), st);
        lemma_untracked_subset_members(files.drop_last(), st, f);
        let l = untracked_subset(files, st);
        if l.contains(f) {
            let i = choose|i: int| 0 <= i < l.len() && l[i] == f;
            if i < a.len() {
                assert(a[i] == l[i]);
                let j = choose|j: int| 0 <= j < files.drop_last().len() && files.drop_last()[j] == f;
                assert(files[j] == f);
            } else {
                assert(files[files.len() - 1] == f);
            }
        }
        if files.contains(f) && reported_untracked(f, st) {
            let j = choose|j: int| 0 <= j < files.len() && files[j] == f;
            if j < files.len() - 1 {
                assert(files.drop_last()[j] == f);
                let i = choose|i: int| 0 <= i < a.len() && a[i] == f;
                assert(l[i] == f);
            } else {
                assert(l[l.len() - 1] == f);
            }
        }
    }
}

/// Discarding cleans exactly the requested paths that the status taken after
/// the checkout reports untracked: such a path is cleaned, a path reported
/// only with tracked changes is not, and without untracked paths no clean
/// runs at all. Every requested path goes to the checkout.
pub proof fn lemma_discard_cleans_only_untracked(files: Seq<Seq<char>>, st: Seq<StatusFileView>, f: Seq<char>)
    ensures
        files.contains(f) && reported_untracked(f, st) ==> untracked_subset(files, st).contains(f),
        !reported_untracked(f, st) ==> !untracked_subset(files, st).contains(f),
        (forall|g: Seq<char>| files.contains(g) ==> !reported_untracked(g, st))
            ==> untracked_subset(files, st).len() == 0,
        files.contains(f) ==> with_paths(seq!["checkout"@, "--"@], files).contains(f),
{
    lemma_untracked_subset_members(files, st, f);
    let u = untracked_subset(files, st);
    if forall|g: Seq<char>| files.contains(g) ==> !reported_untracked(g, st) {
        if u.len() > 0 {
            lemma_untracked_subset_members(files, st, u[0]);
            assert(u.contains(u[0]));
        }
    }
    if files.contains(f) {
        let j = choose|j: int| 0 <= j < files.len() && files[j] == f;
        assert(with_paths(seq!["checkout"@, "--"@], files)[j + 2] == f);
    }
}

/// The push that follows a new tag: all tags, or only the new one to the
/// remote named `origin` when there is one, else to the first remote; none
/// when no remote is configured.
pub open spec fn tag_push_plan(push_all: bool, remotes: Seq<RemoteView>, tag: Seq<char>) -> Option<Seq<Seq<char>>> {
    if push_all {
        Some(seq!["push"@, "--tags"@])
    } else if remotes.len() == 0 {
        None
    } else {
        let target = if exists|i: int| 0 <= i < remotes.len() && (#[trigger] remotes[i]).name == "origin"@ {
            "origin"@
        } else {
            remotes[0].name
        };
        Some(seq!["push"@, target, tag])
    }
}

pub fn tag_push_args(push_all: bool, remotes: &Vec<GitRemote>, tag_name: &str) -> (r: Option<Vec<String>>)
    ensures
        option_view(r) == tag_push_plan(push_all, remote_views(remotes@), tag_name@),
{
    let mut v: Vec<String> = Vec::new();
    v.push(String::from_str("push"));
    if push_all {
        v.push(String::from_str("--tags"));
        assert(views(v@) =~= seq!["push"@, "--tags"@]);
        return Some(v);
    }
    if remotes.len() == 0 {
        return None;
    }
    let ghost rv = remote_views(remotes@);
    let origin = String::from_str("origin");
    let mut i: usize = 0;
    while i < remotes.len() && !(remotes[i].name == origin)
        invariant
            rv == remote_views(remotes@),
            origin@ == "origin"@,
            i <= remotes@.len(),
            forall|k: int| 0 <= k < i ==> (#[trigger] rv[k]).name != "origin"@,
        decreases remotes.len() - i,
    {
        assert(rv[i as int] == remotes@[i as int]@);
        i += 1;
    }
    let found = i < remotes.len();
    if found {
        assert(rv[i as int] == remotes@[i as int]@);
    }
    if found {
        v.push(origin);
    } else {
        assert(rv[0] == remotes@[0]@);
        v.push(remotes[0].name.clone());
    }
    v.push(String::from_str(tag_name));
    proof {
        let target = if exists|k: int| 0 <= k < rv.len() && (#[trigger] rv[k]).name == "origin"@ {
            "origin"@
        } else {
            rv[0].name
        };
        if !found {
            assert(!exists|k: int| 0 <= k < rv.len() && (#[trigger] rv[k]).name == "origin"@);
        } else {
            assert(rv[i as int].name == "origin"@);
        }
        assert(views(v@) =~= seq!["push"@, target, tag_name@]);
    }
    Some(v)
}

/// The index of the first `/` of `s`, if any.
pub open spec fn first_slash(s: Seq<char>) -> Option<int> {
    if exists|i: int| 0 <= i < s.len() && s[i] == '/' {
        Some(choose|i: int| 0 <= i < s.len() && s[i] == '/' && forall|k: int| 0 <= k < i ==> s[k] != '/')
    } else {
        None
    }
}

/// The local name a remote branch such as `origin/feature/x` is checked out
/// under by default: what follows its first `/`.
pub open spec fn default_local_name(rb: Seq<char>) -> Seq<char> {
    match first_slash(rb) {
        Some(i) => rb.subrange(i + 1, rb.len() as int),
        None => rb,
    }
}

pub fn default_local_branch(remote_branch: &str) -> (r: String)
    ensures
        r@ == default_local_name(remote_branch@),
{
    let n = remote_branch.unicode_len();
    let mut i: usize = 0;
    while i < n && remote_branch.get_char(i) != '/'
        invariant
            n == remote_branch@.len(),
            i <= n,
            forall|k: int| 0 <= k < i ==> remote_branch@[k] != '/',
        decreases n - i,
    {
        i += 1;
    }
    let ghost s = remote_branch@;
    if i < n {
        proof {
            assert(s[i as int] == '/');
            let j = choose|j: int| 0 <= j < s.len() && s[j] == '/' && forall|k: int| 0 <= k < j ==> s[k] != '/';
            if j < i {
                assert(s[j] != '/');
            }
            if j > i {
                assert(s[i as int] != '/');
            }
            assert(j == i);
        }
        String::from_str(remote_branch.substring_char(i + 1, n))
    } else {
        assert(!exists|j: int| 0 <= j < s.len() && s[j] == '/');
        String::from_str(remote_branch)
    }
}

/// The local name to check a remote branch out under.
pub open spec fn target_local_name(rb: Seq<char>, new_name: Option<Seq<char>>) -> Seq<char> {
    match new_name {
        Some(n) => n,
        None => default_local_name(rb),
    }
}

/// Checking out a remote branch: when a local branch of the target name
/// exists, it is switched to, unless a new name was asked for, which is an
/// error; otherwise a new tracking branch is made.
pub open spec fn checkout_remote_plan(rb: Seq<char>, new_name: Option<Seq<char>>, locals: Seq<Seq<char>>) -> Result<Seq<Seq<char>>, Seq<char>> {
    let t = target_local_name(rb, new_name);
    if locals.contains(t) {
        if new_name is Some {
            Err("Branch '"@ + t + "' exists."@)
        } else {
            Ok(seq!["checkout"@, t])
        }
    } else {
        Ok(seq!["checkout"@, "-b"@, t, "--track"@, rb])
    }
}

pub open spec fn branch_names(v: Seq<GitBranch>) -> Seq<Seq<char>> {
    v.map_values(|b: GitBranch| b.name@)
}

pub fn checkout_remote_args(remote_branch: &str, new_branch_name: &Option<String>, local_branches: &Vec<GitBranch>) -> (r: Result<Vec<String>, String>)
    ensures
        result_view(r) == checkout_remote_plan(remote_branch@, opt_view(*new_branch_name), branch_names(local_branches@)),
{
    let target = match new_branch_name {
        Some(n) => n.clone(),
        None => default_local_branch(remote_branch),
    };
    let ghost t = target_local_name(remote_branch@, opt_view(*new_branch_name));
    assert(target@ == t);
    let ghost names = branch_names(local_branches@);
    let mut i: usize = 0;
    while i < local_branches.len() && !(local_branches[i].name == target)
        invariant
            names == branch_names(local_branches@),
            i <= local_branches@.len(),
            forall|k: int| 0 <= k < i ==> names[k] != target@,
        decreases local_branches.len() - i,
    {
        i += 1;
    }
    let exists = i < local_branches.len();
    proof {
        if exists {
            assert(names[i as int] == t);
        } else {
            assert(!names.contains(t)) by {
                if names.contains(t) {
                    let k = choose|k: int| 0 <= k < names.len() && names[k] == t;
                    assert(names[k] != target@);
                }
            }
        }
    }
    let mut v: Vec<String> = Vec::new();
    v.push(String::from_str("checkout"));
    if exists {
        if new_branch_name.is_some() {
            let mut m = String::from_str("Branch '");
            m.append(target.as_str());
            m.append("' exists.");
            return Err(m);
        }
        v.push(target);
        assert(views(v@) =~= seq!["checkout"@, t]);
    } else {
        v.push(String::from_str("-b"));
        v.push(target);
        v.push(String::from_str("--track"));
        v.push(String::from_str(remote_branch));
        assert(views(v@) =~= seq!["checkout"@, "-b"@, t, "--track"@, remote_branch@]);
    }
    Ok(v)
}

} // verus!
