//! Workflows that combine several git helpers into one plan of commands.
use vstd::prelude::*;

use crate::git::{
    chosen_master, chosen_remote, detect_master_branch, detect_upstream_remote,
    has_working_changes, lines_of, remote_branches, trimmed_lines, GitError,
};

verus! {

/// `names` joined with `sep` between each two of them.
pub open spec fn joined(names: Seq<Seq<char>>, sep: Seq<char>) -> Seq<char>
    decreases names.len(),
{
    if names.len() == 0 {
        Seq::empty()
    } else if names.len() == 1 {
        names[0]
    } else {
        joined(names.drop_last(), sep) + sep + names.last()
    }
}

/// The git commands that start a development branch named
/// `<prefix>/<names joined by '-'>` at the main line of the chosen remote:
/// fetch (and prune) the remote, create the branch, and reset it hard to the
/// remote's main line. There is no plan while the working copy has changes,
/// without a remote, or without a main line.
pub open spec fn development_plan(
    prefix: Seq<char>,
    names: Seq<Seq<char>>,
    diff_succeeded: bool,
    remotes: Seq<Seq<char>>,
    branch_lines: Seq<Seq<char>>,
) -> Result<Seq<Seq<Seq<char>>>, GitError> {
    if !diff_succeeded {
        Err(GitError::WorkingCopyHasChanges)
    } else {
        match chosen_remote(remotes) {
            None => Err(GitError::NoUpstreamRemote),
            Some(upstream) => match chosen_master(remote_branches(branch_lines, upstream@)) {
                None => Err(GitError::NoMasterBranch),
                Some(main) => Ok(
                    seq![
                        seq!["fetch"@, upstream@, "-p"@],
                        seq!["checkout"@, "-b"@, prefix + seq!['/'] + joined(names, seq!['-'])],
                        seq!["reset"@, "--hard"@, upstream@ + seq!['/'] + main@],
                    ],
                ),
            },
        }
    }
}

/// Appends `names` joined by `-` to `out`.
fn append_joined(out: &mut String, names: &Vec<String>)
    ensures
        final(out)@ == old(out)@ + joined(names.deep_view(), seq!['-']),
{
    let ghost all = names.deep_view();
    let mut i: usize = 0;
    while i < names.len()
        invariant
            all == names.deep_view(),
            i <= names.len(),
            out@ == old(out)@ + joined(all.subrange(0, i as int), seq!['-']),
        decreases names.len() - i,
    {
        let ghost before = out@;
        proof {
            reveal_strlit("-");
        }
        assert(all.subrange(0, i + 1).drop_last() =~= all.subrange(0, i as int));
        assert(all.subrange(0, i + 1).last() == all[i as int]);
        assert(names[i as int]@ == all[i as int]);
        if i > 0 {
            out.append("-");
        }
        out.append(names[i].as_str());
        proof {
            if i == 0 {
                assert(joined(all.subrange(0, 1), seq!['-']) == all[0]);
                assert(joined(all.subrange(0, 0), seq!['-']) == Seq::<char>::empty());
                assert(out@ =~= before + all[0]);
            } else {
                assert(joined(all.subrange(0, i + 1), seq!['-']) == joined(
                    all.subrange(0, i as int),
                    seq!['-'],
                ) + seq!['-'] + all[i as int]);
                assert(out@ =~= before + seq!['-'] + all[i as int]);
            }
            assert(out@ =~= old(out)@ + joined(all.subrange(0, i + 1), seq!['-']));
        }
        i = i + 1;
    }
    assert(all.subrange(0, i as int) =~= all);
}

/// `a` followed by `/` and `b`.
fn slash_joined(a: &str, b: &str) -> (r: String)
    ensures
        r@ == a@ + seq!['/'] + b@,
{
    proof {
        reveal_strlit("/");
        assert("/"@ =~= seq!['/']);
    }
    let mut out = String::from_str(a);
    out.append("/");
    out.append(b);
    out
}

/// Plans a new development branch `<prefix>/<names joined by '-'>` that
/// starts at the main line of the upstream remote. Takes whether
/// `git diff --exit-code` succeeded and the outputs of `git remote` and
/// `git branch --list -r`; returns the git commands to run, in order.
pub fn checkout_new_development_branch(
    prefix: &str,
    names: Vec<String>,
    diff_succeeded: bool,
    remote_output: &str,
    branch_output: &str,
) -> (r: Result<Vec<Vec<String>>, GitError>)
    ensures
        match development_plan(
            prefix@,
            names.deep_view(),
            diff_succeeded,
            trimmed_lines(remote_output@),
            lines_of(branch_output@),
        ) {
            Ok(plan) => r matches Ok(commands) && commands.deep_view() == plan,
            Err(e) => r == Err::<Vec<Vec<String>>, GitError>(e),
        },
{
    if has_working_changes(diff_succeeded) {
        return Err(GitError::WorkingCopyHasChanges);
    }
    let upstream = match detect_upstream_remote(remote_output) {
        Ok(name) => name,
        Err(e) => return Err(e),
    };
    let main_branch = match detect_master_branch(upstream, branch_output) {
        Ok(name) => name,
        Err(e) => return Err(e),
    };
    let mut fetch: Vec<String> = Vec::new();
    fetch.push(String::from_str("fetch"));
    fetch.push(String::from_str(upstream));
    fetch.push(String::from_str("-p"));
    let mut branch_name = String::from_str(prefix);
    branch_name.append("/");
    append_joined(&mut branch_name, &names);
    let mut checkout: Vec<String> = Vec::new();
    checkout.push(String::from_str("checkout"));
    checkout.push(String::from_str("-b"));
    checkout.push(branch_name);
    let mut reset: Vec<String> = Vec::new();
    reset.push(String::from_str("reset"));
    reset.push(String::from_str("--hard"));
    reset.push(slash_joined(upstream, main_branch));
    let mut commands: Vec<Vec<String>> = Vec::new();
    commands.push(fetch);
    commands.push(checkout);
    commands.push(reset);
    proof {
        reveal_strlit("/");
        assert("/"@ =~= seq!['/']);
        let plan = development_plan(
            prefix@,
            names.deep_view(),
            diff_succeeded,
            trimmed_lines(remote_output@),
            lines_of(branch_output@),
        )->Ok_0;
        assert(fetch.deep_view() =~= plan[0]);
        assert(checkout.deep_view() =~= plan[1]);
        assert(reset.deep_view() =~= plan[2]);
        assert(commands.deep_view() =~= development_plan(
            prefix@,
            names.deep_view(),
            diff_succeeded,
            trimmed_lines(remote_output@),
            lines_of(branch_output@),
        )->Ok_0);
    }
    Ok(commands)
}

} // verus!
