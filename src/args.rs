//! The argument lists handed to the `git` tool, and how its outcome is read.
use vstd::prelude::*;
use crate::refs::opt_view;
use crate::text::{trim, trim_spec, views};

verus! {

/// What a finished `git` process reported.
#[derive(Debug, Clone, PartialEq, Eq)]
pub struct CommandOutput {
    /// Whether the process exited with status zero.
    pub success: bool,
    pub stdout: String,
    pub stderr: String,
}

/// `"{what}: {stderr}"`.
pub open spec fn failure_text(what: Seq<char>, stderr: Seq<char>) -> Seq<char> {
    what + ": "@ + stderr
}

pub fn failure_message(what: &str, stderr: &str) -> (r: String)
    ensures
        r@ == failure_text(what@, stderr@),
{
    let mut r = String::from_str(what);
    r.append(": ");
    r.append(stderr);
    r
}

/// Succeeds exactly when the process did; else reports `what` failed, with
/// the tool's error text.
pub fn check_output(out: &CommandOutput, what: &str) -> (r: Result<(), String>)
    ensures
        r is Ok <==> out.success,
        r matches Err(m) ==> m@ == failure_text(what@, out.stderr@),
{
    if out.success {
        Ok(())
    } else {
        Err(failure_message(what, out.stderr.as_str()))
    }
}

/// The commit message: the subject alone, or subject, blank line and body.
pub open spec fn commit_message(subject: Seq<char>, body: Seq<char>) -> Seq<char> {
    if body.len() == 0 { subject } else { subject + "\n\n"@ + body }
}

pub fn commit_args(subject: &str, body: &str, amend: bool) -> (r: Vec<String>)
    ensures
        views(r@) == if amend {
            seq!["commit"@, "--amend"@, "-m"@, commit_message(subject@, body@)]
        } else {
            seq!["commit"@, "-m"@, commit_message(subject@, body@)]
        },
{
    let mut r: Vec<String> = Vec::new();
    r.push(String::from_str("commit"));
    if amend {
        r.push(String::from_str("--amend"));
    }
    r.push(String::from_str("-m"));
    let message = if body.unicode_len() == 0 {
        String::from_str(subject)
    } else {
        let mut m = String::from_str(subject);
        m.append("\n\n");
        m.append(body);
        m
    };
    r.push(message);
    proof {
        if amend {
            assert(views(r@) =~= seq!["commit"@, "--amend"@, "-m"@, commit_message(subject@, body@)]);
        } else {
            assert(views(r@) =~= seq!["commit"@, "-m"@, commit_message(subject@, body@)]);
        }
    }
    r
}

/// The decimal digits of `n`, most significant first.
pub open spec fn decimal(n: nat) -> Seq<char>
    decreases n,
{
    if n < 10 {
        seq![digit_char(n)]
    } else {
        decimal(n / 10).push(digit_char(n % 10))
    }
}

pub open spec fn digit_char(d: nat) -> char {
    "0123456789"@[d as int]
}

/// Writes `n` in decimal.
pub fn decimal_string(n: usize) -> (r: String)
    ensures
        r@ == decimal(n as nat),
    decreases n,
{
    proof {
        reveal_strlit("0123456789");
    }
    let digits = "0123456789";
    if n < 10 {
        let r = String::from_str(digits.substring_char(n, n + 1));
        assert(r@ =~= seq![digit_char(n as nat)]);
        r
    } else {
        let mut r = decimal_string(n / 10);
        let d = n % 10;
        let ghost before = r@;
        r.append(digits.substring_char(d, d + 1));
        assert(r@ =~= before.push(digit_char((n % 10) as nat)));
        r
    }
}

/// The selector `stash@{index}`.
pub fn stash_ref(index: usize) -> (r: String)
    ensures
        r@ == "stash@{"@ + decimal(index as nat) + "}"@,
{
    let mut r = String::from_str("stash@{");
    r.append(decimal_string(index).as_str());
    r.append("}");
    r
}

/// `stash push --staged`, with `-m` and the message when one is given that
/// is not blank.
pub open spec fn stash_push_spec(message: Option<Seq<char>>) -> Seq<Seq<char>> {
    match message {
        Some(m) if trim_spec(m).len() > 0 => seq!["stash"@, "push"@, "--staged"@, "-m"@, m],
        _ => seq!["stash"@, "push"@, "--staged"@],
    }
}

pub fn stash_push_args(message: &Option<String>) -> (r: Vec<String>)
    ensures
        views(r@) == stash_push_spec(opt_view(*message)),
{
    let mut r: Vec<String> = Vec::new();
    r.push(String::from_str("stash"));
    r.push(String::from_str("push"));
    r.push(String::from_str("--staged"));
    match message {
        Some(m) => {
            if trim(m.as_str()).as_str().unicode_len() > 0 {
                r.push(String::from_str("-m"));
                r.push(m.clone());
                assert(views(r@) =~= seq!["stash"@, "push"@, "--staged"@, "-m"@, m@]);
            } else {
                assert(views(r@) =~= seq!["stash"@, "push"@, "--staged"@]);
            }
        },
        None => {
            assert(views(r@) =~= seq!["stash"@, "push"@, "--staged"@]);
        },
    }
    r
}

/// `checkout -b name start` when the new branch is to be checked out, else
/// `branch name start`.
pub fn create_branch_args(branch_name: &str, start_point: &str, checkout: bool) -> (r: Vec<String>)
    ensures
        views(r@) == if checkout {
            seq!["checkout"@, "-b"@, branch_name@, start_point@]
        } else {
            seq!["branch"@, branch_name@, start_point@]
        },
{
    let mut r: Vec<String> = Vec::new();
    if checkout {
        r.push(String::from_str("checkout"));
        r.push(String::from_str("-b"));
    } else {
        r.push(String::from_str("branch"));
    }
    r.push(String::from_str(branch_name));
    r.push(String::from_str(start_point));
    proof {
        if checkout {
            assert(views(r@) =~= seq!["checkout"@, "-b"@, branch_name@, start_point@]);
        } else {
            assert(views(r@) =~= seq!["branch"@, branch_name@, start_point@]);
        }
    }
    r
}

/// An annotated tag when a message that is not blank is given, else a
/// lightweight one.
pub fn tag_args(tag_name: &str, commit_hash: &str, message: &Option<String>) -> (r: Vec<String>)
    ensures
        views(r@) == match *message {
            Some(m) if trim_spec(m@).len() > 0 => seq!["tag"@, "-a"@, tag_name@, "-m"@, m@, commit_hash@],
            _ => seq!["tag"@, tag_name@, commit_hash@],
        },
{
    let mut r: Vec<String> = Vec::new();
    r.push(String::from_str("tag"));
    let annotated = match message {
        Some(m) => trim(m.as_str()).as_str().unicode_len() > 0,
        None => false,
    };
    if annotated {
        let m = message.as_ref().unwrap();
        r.push(String::from_str("-a"));
        r.push(String::from_str(tag_name));
        r.push(String::from_str("-m"));
        r.push(m.clone());
        r.push(String::from_str(commit_hash));
        assert(views(r@) =~= seq!["tag"@, "-a"@, tag_name@, "-m"@, m@, commit_hash@]);
    } else {
        r.push(String::from_str(tag_name));
        r.push(String::from_str(commit_hash));
        assert(views(r@) =~= seq!["tag"@, tag_name@, commit_hash@]);
    }
    r
}

pub open spec fn arg_list_views(v: Seq<Vec<String>>) -> Seq<Seq<Seq<char>>> {
    v.map_values(|a: Vec<String>| views(a@))
}

/// Stashing some paths: each is staged with `add`, in order, then the
/// staged content alone is stashed; nothing at all when no path is given.
pub open spec fn stash_save_plan(files: Seq<Seq<char>>, message: Option<Seq<char>>) -> Seq<Seq<Seq<char>>> {
    if files.len() == 0 {
        Seq::empty()
    } else {
        files.map_values(|f: Seq<char>| seq!["add"@, f]).push(stash_push_spec(message))
    }
}

pub fn stash_save_commands(files: &Vec<String>, message: &Option<String>) -> (r: Vec<Vec<String>>)
    ensures
        arg_list_views(r@) == stash_save_plan(views(files@), opt_view(*message)),
{
    let mut r: Vec<Vec<String>> = Vec::new();
    if files.len() == 0 {
        assert(arg_list_views(r@) =~= Seq::<Seq<Seq<char>>>::empty());
        return r;
    }
    let ghost fv = views(files@);
    let ghost adds = fv.map_values(|f: Seq<char>| seq!["add"@, f]);
    let mut i: usize = 0;
    assert(arg_list_views(r@) =~= adds.subrange(0, 0));
    while i < files.len()
        invariant
            fv == views(files@),
            adds == fv.map_values(|f: Seq<char>| seq!["add"@, f]),
            i <= files@.len(),
            arg_list_views(r@) == adds.subrange(0, i as int),
        decreases files.len() - i,
    {
        let mut a: Vec<String> = Vec::new();
        a.push(String::from_str("add"));
        a.push(files[i].clone());
        assert(views(a@) =~= seq!["add"@, fv[i as int]]);
        let ghost old_r = r@;
        r.push(a);
        assert(arg_list_views(r@) =~= arg_list_views(old_r).push(views(a@)));
        i += 1;
        assert(arg_list_views(r@) =~= adds.subrange(0, i as int));
    }
    assert(adds.subrange(0, i as int) =~= adds);
    let last = stash_push_args(message);
    let ghost old_r = r@;
    r.push(last);
    assert(arg_list_views(r@) =~= arg_list_views(old_r).push(views(last@)));
    r
}

} // verus!
