//! Branch operations: checkout, create, delete (one or several, forcing
//! unmerged ones after confirmation), rename and spin-off.
use vstd::prelude::*;

use super::{extend_strings, strings, str_views, views, Arg, GitCommand};
use crate::error::Error;
use crate::item_data::{ItemData, Ref};

verus! {

/// The branch menu has no flags.
pub fn init_args() -> (v: Vec<Arg>)
    ensures
        v@.len() == 0,
{
    Vec::new()
}

/// `git checkout <rev>`.
pub fn checkout(rev: &str) -> (c: GitCommand)
    ensures
        c.argv() == seq!["checkout"@, rev@],
        c.input is Nothing,
        c.env@.len() == 0,
{
    let args = strings(&["checkout", rev]);
    proof {
        assert(str_views(seq!["checkout", rev]) =~= seq!["checkout"@, rev@]);
    }
    GitCommand::new(args)
}

/// `git checkout -b <branch> <start>`, once a branch name was given.
pub fn checkout_new_branch(branch_name: &str, start_point: &str) -> (r: Result<GitCommand, Error>)
    ensures
        branch_name@.len() == 0 ==> r matches Err(Error::BranchNameRequired),
        branch_name@.len() > 0 ==> (r matches Ok(c) && c.argv() == seq![
            "checkout"@,
            "-b"@,
            branch_name@,
            start_point@,
        ] && c.input is Nothing && c.env@.len() == 0),
{
    if branch_name.is_empty() {
        return Err(Error::BranchNameRequired);
    }
    let args = strings(&["checkout", "-b", branch_name, start_point]);
    proof {
        assert(str_views(seq!["checkout", "-b", branch_name, start_point]) =~= seq![
            "checkout"@,
            "-b"@,
            branch_name@,
            start_point@,
        ]);
    }
    Ok(GitCommand::new(args))
}

/// Whether deleting `branch_names` is refused, and with which error: none
/// given, an empty name (first in list order), or the current branch.
pub open spec fn delete_refusal(current_branch: Seq<char>, branch_names: Seq<Seq<char>>) -> Option<
    Error,
> {
    if branch_names.len() == 0 {
        Some(Error::BranchNameRequired)
    } else {
        first_bad_name(current_branch, branch_names)
    }
}

/// The error for the first name that is empty or the current branch.
pub open spec fn first_bad_name(current_branch: Seq<char>, names: Seq<Seq<char>>) -> Option<Error>
    decreases names.len(),
{
    if names.len() == 0 {
        None
    } else if names[0].len() == 0 {
        Some(Error::BranchNameRequired)
    } else if names[0] == current_branch {
        Some(Error::CannotDeleteCurrentBranch)
    } else {
        first_bad_name(current_branch, names.drop_first())
    }
}

/// A deletion to run: whether the user must first confirm deleting an
/// unmerged branch, and the command (which forces when so).
pub struct DeletePlan {
    pub confirm_unmerged: bool,
    pub command: GitCommand,
}

/// The arguments of `git branch -d [-f] <names...>`.
pub open spec fn delete_argv(names: Seq<Seq<char>>, force: bool) -> Seq<Seq<char>> {
    seq!["branch"@, "-d"@] + (if force {
        seq!["-f"@]
    } else {
        seq![]
    }) + names
}

/// Whether some of `n` branches is not known to be merged: `merged[i]` is
/// what git reports of branch `i`; a branch it says nothing of counts as
/// not merged.
pub open spec fn some_unmerged(n: int, merged: Seq<bool>) -> bool {
    exists|k: int| 0 <= k < n && !#[trigger] known_merged(merged, k)
}

/// Whether git reports branch `k` as merged.
pub open spec fn known_merged(merged: Seq<bool>, k: int) -> bool {
    0 <= k < merged.len() && merged[k]
}

/// Deleting branches: refused for no names, an empty name or the current
/// branch; otherwise `git branch -d`, with `-f` after confirmation when one
/// of them is not known to be merged (see [`some_unmerged`]).
pub fn delete_many(current_branch: &str, branch_names: &Vec<String>, merged: &Vec<bool>) -> (r:
    Result<DeletePlan, Error>)
    ensures
        delete_refusal(current_branch@, views(branch_names@)) matches Some(e) ==> r == Err::<
            DeletePlan,
            Error,
        >(e),
        delete_refusal(current_branch@, views(branch_names@)) is None ==> (r matches Ok(p)
            && p.confirm_unmerged == some_unmerged(branch_names@.len() as int, merged@)
            && p.command.argv() == delete_argv(
            views(branch_names@),
            some_unmerged(branch_names@.len() as int, merged@),
        ) && p.command.input is Nothing && p.command.env@.len() == 0),
        delete_refusal(current_branch@, views(branch_names@)) is None ==> (r matches Ok(p)
            && p.confirm_unmerged == (merged@.len() < branch_names@.len() || exists|i: int|
            0 <= i < branch_names@.len() && i < merged@.len() && !#[trigger] merged@[i])),
{
    if branch_names.len() == 0 {
        return Err(Error::BranchNameRequired);
    }
    let mut i: usize = 0;
    assert(views(branch_names@).skip(0) =~= views(branch_names@));
    while i < branch_names.len()
        invariant
            i <= branch_names@.len(),
            branch_names@.len() > 0,
            delete_refusal(current_branch@, views(branch_names@)) == first_bad_name(
                current_branch@,
                views(branch_names@).skip(i as int),
            ),
        decreases branch_names@.len() - i,
    {
        let ghost rest = views(branch_names@).skip(i as int);
        assert(rest[0] == branch_names@[i as int]@);
        if branch_names[i].as_str().is_empty() {
            return Err(Error::BranchNameRequired);
        }
        if crate::text::same_text(current_branch, branch_names[i].as_str()) {
            return Err(Error::CannotDeleteCurrentBranch);
        }
        assert(rest.drop_first() =~= views(branch_names@).skip(i + 1));
        i = i + 1;
    }
    let mut has_unmerged = false;
    let mut j: usize = 0;
    while j < branch_names.len()
        invariant
            j <= branch_names@.len(),
            has_unmerged == some_unmerged(j as int, merged@),
        decreases branch_names@.len() - j,
    {
        let known = j < merged.len() && merged[j];
        if !known {
            has_unmerged = true;
        }
        assert(known_merged(merged@, j as int) == known);
        assert(some_unmerged(j + 1, merged@) == (some_unmerged(j as int, merged@) || !known));
        j = j + 1;
    }
    let mut args = strings(&["branch", "-d"]);
    assert(str_views(seq!["branch", "-d"]) =~= seq!["branch"@, "-d"@]);
    let ghost base = views(args@);
    if has_unmerged {
        args.push("-f".to_owned());
        assert(views(args@) =~= base.push("-f"@));
    }
    let ghost prefix = views(args@);
    assert(prefix =~= seq!["branch"@, "-d"@] + (if has_unmerged {
        seq!["-f"@]
    } else {
        seq![]
    }));
    extend_strings(&mut args, branch_names);
    proof {
        lemma_some_unmerged(views(branch_names@), merged@);
    }
    Ok(DeletePlan { confirm_unmerged: has_unmerged, command: GitCommand::new(args) })
}

/// The first name that is empty or the current branch decides the error;
/// with no such name there is none.
proof fn lemma_first_bad_name(current_branch: Seq<char>, names: Seq<Seq<char>>)
    ensures
        (first_bad_name(current_branch, names) is None) == (forall|i: int|
            0 <= i < names.len() ==> (#[trigger] names[i]).len() > 0 && names[i] != current_branch),
        forall|i: int|
            0 <= i < names.len() && ((#[trigger] names[i]).len() == 0 || names[i] == current_branch)
                && (forall|j: int| 0 <= j < i ==> names[j].len() > 0 && names[j] != current_branch)
                ==> first_bad_name(current_branch, names) == Some(
                if names[i].len() == 0 {
                    Error::BranchNameRequired
                } else {
                    Error::CannotDeleteCurrentBranch
                },
            ),
    decreases names.len(),
{
    if names.len() > 0 {
        let rest = names.drop_first();
        lemma_first_bad_name(current_branch, rest);
        assert forall|i: int| 0 <= i < rest.len() implies rest[i] == names[i + 1] by {}
        if names[0].len() > 0 && names[0] != current_branch {
            if first_bad_name(current_branch, rest) is None {
                assert forall|i: int| 0 <= i < names.len() implies (#[trigger] names[i]).len() > 0
                    && names[i] != current_branch by {
                    if i > 0 {
                        assert(rest[i - 1] == names[i]);
                    }
                }
            } else {
                let k = choose|k: int|
                    0 <= k < rest.len() && !((#[trigger] rest[k]).len() > 0 && rest[k] != current_branch);
                assert(names[k + 1] == rest[k]);
            }
            assert forall|i: int|
                0 <= i < names.len() && ((#[trigger] names[i]).len() == 0 || names[i] == current_branch)
                    && (forall|j: int| 0 <= j < i ==> names[j].len() > 0 && names[j] != current_branch)
                    implies first_bad_name(current_branch, names) == Some(
                if names[i].len() == 0 {
                    Error::BranchNameRequired
                } else {
                    Error::CannotDeleteCurrentBranch
                },
            ) by {
                assert(i > 0);
                assert(rest[i - 1] == names[i]);
                assert forall|j: int| 0 <= j < i - 1 implies rest[j].len() > 0 && rest[j] != current_branch by {
                    assert(rest[j] == names[j + 1]);
                }
            }
        } else {
            assert(first_bad_name(current_branch, names) is Some);
        }
    }
}

/// Deleting branches is refused exactly when no name is given, or one of
/// the names is empty or the current branch; the first such name, in list
/// order, decides the error: an empty one that a name is required, the
/// current branch that it cannot be deleted.
pub proof fn law_delete_refused_exactly(current_branch: Seq<char>, names: Seq<Seq<char>>)
    ensures
        (delete_refusal(current_branch, names) is None) == (names.len() > 0 && forall|i: int|
            0 <= i < names.len() ==> (#[trigger] names[i]).len() > 0 && names[i] != current_branch),
        names.len() == 0 ==> delete_refusal(current_branch, names) == Some(Error::BranchNameRequired),
        forall|i: int|
            0 <= i < names.len() && ((#[trigger] names[i]).len() == 0 || names[i] == current_branch)
                && (forall|j: int| 0 <= j < i ==> names[j].len() > 0 && names[j] != current_branch)
                ==> delete_refusal(current_branch, names) == Some(
                if names[i].len() == 0 {
                    Error::BranchNameRequired
                } else {
                    Error::CannotDeleteCurrentBranch
                },
            ),
{
    lemma_first_bad_name(current_branch, names);
}

/// Some of the branches `names` is unmerged exactly when git reports on
/// fewer branches than there are, or reports one of them as not merged.
proof fn lemma_some_unmerged(names: Seq<Seq<char>>, merged: Seq<bool>)
    ensures
        some_unmerged(names.len() as int, merged) == (merged.len() < names.len() || exists|i: int|
            0 <= i < names.len() && i < merged.len() && !#[trigger] merged[i]),
{
    let n = names.len() as int;
    if some_unmerged(n, merged) {
        let k = choose|k: int| 0 <= k < n && !#[trigger] known_merged(merged, k);
        if k < merged.len() {
            assert(!merged[k]);
        }
    } else {
        if merged.len() < names.len() {
            assert(!known_merged(merged, n - 1));
        }
        assert forall|i: int| 0 <= i < n && i < merged.len() implies #[trigger] merged[i] by {
            assert(known_merged(merged, i));
        }
    }
}

/// Deleting several branches is forced, after confirmation, as soon as any
/// one of them, wherever it stands among them, is not reported as merged,
/// or git reports on fewer branches than were named (one it says nothing
/// of counts as not merged); when every one is reported as merged, nothing
/// is forced or confirmed. The command is `git branch -d`, then `-f` when
/// forced, then the names in order.
pub proof fn law_delete_forced_by_any_unmerged(
    current_branch: Seq<char>,
    names: Seq<Seq<char>>,
    merged: Seq<bool>,
    p: DeletePlan,
)
    requires
        delete_refusal(current_branch, names) is None,
        p.confirm_unmerged == some_unmerged(names.len() as int, merged),
        p.command.argv() == delete_argv(names, some_unmerged(names.len() as int, merged)),
    ensures
        p.confirm_unmerged == (merged.len() < names.len() || exists|i: int|
            0 <= i < names.len() && i < merged.len() && !#[trigger] merged[i]),
        forall|i: int|
            0 <= i < names.len() && i < merged.len() && !#[trigger] merged[i] ==> p.confirm_unmerged
                && p.command.argv()[2] == "-f"@,
        merged.len() < names.len() ==> p.confirm_unmerged && p.command.argv()[2] == "-f"@,
        (names.len() <= merged.len() && forall|i: int| 0 <= i < names.len() ==> #[trigger] merged[i])
            ==> (!p.confirm_unmerged && p.command.argv() == seq!["branch"@, "-d"@] + names),
        p.command.argv() == seq!["branch"@, "-d"@] + (if p.confirm_unmerged {
            seq!["-f"@]
        } else {
            seq![]
        }) + names,
{
    lemma_some_unmerged(names, merged);
    if p.confirm_unmerged {
        assert(p.command.argv()[2] == "-f"@);
    } else {
        assert(seq!["branch"@, "-d"@] + seq![] =~= seq!["branch"@, "-d"@]);
    }
}

/// Deleting one branch (see [`delete_many`]).
pub fn delete(current_branch: &str, branch_name: &str, merged: bool) -> (r: Result<DeletePlan, Error>)
    ensures
        branch_name@.len() == 0 ==> r matches Err(Error::BranchNameRequired),
        branch_name@.len() > 0 && branch_name@ == current_branch@ ==> r matches Err(
            Error::CannotDeleteCurrentBranch,
        ),
        branch_name@.len() > 0 && branch_name@ != current_branch@ ==> (r matches Ok(p)
            && p.confirm_unmerged == !merged && p.command.argv() == delete_argv(
            seq![branch_name@],
            !merged,
        )),
{
    let names = vec![branch_name.to_owned()];
    let flags = vec![merged];
    proof {
        assert(views(names@) =~= seq![branch_name@]);
        assert(views(names@).drop_first() =~= Seq::<Seq<char>>::empty());
        assert(first_bad_name(current_branch@, views(names@).drop_first()) is None);
        assert(views(names@)[0] == branch_name@);
        if !merged {
            assert(!known_merged(flags@, 0));
        }
    }
    delete_many(current_branch, &names, &flags)
}

/// `git branch -m <old> <new>`.
pub fn rename(old_name: &str, new_name: &str) -> (c: GitCommand)
    ensures
        c.argv() == seq!["branch"@, "-m"@, old_name@, new_name@],
        c.input is Nothing,
{
    let args = strings(&["branch", "-m", old_name, new_name]);
    proof {
        assert(str_views(seq!["branch", "-m", old_name, new_name]) =~= seq![
            "branch"@,
            "-m"@,
            old_name@,
            new_name@,
        ]);
    }
    GitCommand::new(args)
}

/// Renaming, once the new name was asked for: an empty one is refused.
pub fn rename_to(old_name: &str, new_name: &str) -> (r: Result<GitCommand, Error>)
    ensures
        new_name@.len() == 0 ==> r matches Err(Error::BranchNameRequired),
        new_name@.len() > 0 ==> (r matches Ok(c) && c.argv() == seq![
            "branch"@,
            "-m"@,
            old_name@,
            new_name@,
        ]),
{
    if new_name.is_empty() {
        return Err(Error::BranchNameRequired);
    }
    Ok(rename(old_name, new_name))
}

/// The name offered for a spin-off: the branch the cursor is on, if any.
pub open spec fn spec_spinoff_default(target: ItemData) -> Option<Seq<char>> {
    match target {
        ItemData::Reference { kind: Ref::Head(branch), .. } => Some(branch@),
        _ => None,
    }
}

pub fn spinoff_default(target: &ItemData) -> (r: Option<String>)
    ensures
        match r {
            Some(s) => spec_spinoff_default(*target) == Some(s@),
            None => spec_spinoff_default(*target) is None,
        },
{
    match target {
        ItemData::Reference { kind: Ref::Head(branch), .. } => Some(branch.clone()),
        _ => None,
    }
}

/// Spinning off starts by checking out the new branch, unless the name is
/// empty, names an existing branch, or is the current branch.
pub fn spinoff_checkout(new_branch_name: &str, exists: bool, current_branch_name: &str) -> (r:
    Result<GitCommand, Error>)
    ensures
        new_branch_name@.len() == 0 ==> r matches Err(Error::BranchNameRequired),
        new_branch_name@.len() > 0 && exists ==> (r matches Err(Error::SpinoffBranchExists(n))
            && n@ == new_branch_name@),
        new_branch_name@.len() > 0 && !exists && new_branch_name@ == current_branch_name@ ==> r matches Err(
            Error::CannotSpinoffCurrentBranch,
        ),
        new_branch_name@.len() > 0 && !exists && new_branch_name@ != current_branch_name@ ==> (r matches Ok(
            c,
        ) && c.argv() == seq!["checkout"@, "-b"@, new_branch_name@] && c.input is Nothing
            && c.env@.len() == 0),
{
    if new_branch_name.is_empty() {
        return Err(Error::BranchNameRequired);
    }
    if exists {
        return Err(Error::SpinoffBranchExists(new_branch_name.to_owned()));
    }
    if crate::text::same_text(current_branch_name, new_branch_name) {
        return Err(Error::CannotSpinoffCurrentBranch);
    }
    let args = strings(&["checkout", "-b", new_branch_name]);
    proof {
        assert(str_views(seq!["checkout", "-b", new_branch_name]) =~= seq![
            "checkout"@,
            "-b"@,
            new_branch_name@,
        ]);
    }
    Ok(GitCommand::new(args))
}

/// What spinning off does to the branch that was current, once the new one
/// is checked out.
#[derive(Debug)]
pub enum SpinoffReset {
    /// It is left as is: it has no upstream, or is level with it.
    NotChanged,
    /// It is reset to the merge base of `base` and `upstream`.
    ToMergeBase { base: String, upstream: String },
}

/// The view of an optional string.
pub open spec fn opt_view(o: Option<String>) -> Option<Seq<char>> {
    match o {
        Some(s) => Some(s@),
        None => None,
    }
}

/// The reset a spin-off needs, from the commit the current branch points at
/// (`base`) and its upstream: `None` when it has none, else what the upstream
/// reference points at.
pub fn spinoff_reset(base: Option<String>, upstream: Option<Option<String>>) -> (r: Result<
    SpinoffReset,
    Error,
>)
    ensures
        upstream is None ==> r matches Ok(SpinoffReset::NotChanged),
        upstream is Some && opt_view(upstream->0) == opt_view(base) ==> r matches Ok(
            SpinoffReset::NotChanged,
        ),
        upstream is Some && opt_view(upstream->0) != opt_view(base) && base is None ==> r matches Err(
            Error::BaseCommitOid,
        ),
        upstream is Some && opt_view(upstream->0) != opt_view(base) && base is Some
            && upstream->0 is None ==> r matches Err(Error::UpstreamCommitOid),
        upstream is Some && opt_view(upstream->0) != opt_view(base) && base is Some
            && upstream->0 is Some ==> (r matches Ok(SpinoffReset::ToMergeBase { base: b, upstream: up })
            && b@ == base->0@ && up@ == upstream->0->0@),
{
    match upstream {
        None => Ok(SpinoffReset::NotChanged),
        Some(u) => {
            let same = match (&base, &u) {
                (None, None) => true,
                (Some(x), Some(y)) => crate::text::same_text(x.as_str(), y.as_str()),
                _ => false,
            };
            if same {
                return Ok(SpinoffReset::NotChanged);
            }
            match base {
                None => Err(Error::BaseCommitOid),
                Some(b) => match u {
                    None => Err(Error::UpstreamCommitOid),
                    Some(up) => Ok(SpinoffReset::ToMergeBase { base: b, upstream: up }),
                },
            }
        },
    }
}

/// The arguments that reset `branch` to `merge_base`.
pub open spec fn reset_argv(branch: Seq<char>, merge_base: Seq<char>) -> Seq<Seq<char>> {
    seq![
        "update-ref"@,
        "-m"@,
        "\"reset: moving to "@ + merge_base + "\""@,
        "refs/heads/"@ + branch,
        merge_base,
    ]
}

/// Resetting the former branch to the merge base, and the message reporting it.
pub fn spinoff_reset_command(current_branch_name: &str, merge_base: &str) -> (r: (GitCommand, String))
    ensures
        r.0.argv() == reset_argv(current_branch_name@, merge_base@),
        r.0.input is Nothing,
        r.0.env@.len() == 0,
        r.1@ == "Branch "@ + current_branch_name@ + " was reset to "@ + merge_base@,
{
    let mut reflog = "\"reset: moving to ".to_owned();
    reflog.append(merge_base);
    reflog.append("\"");
    let mut refname = "refs/heads/".to_owned();
    refname.append(current_branch_name);
    let mut args = strings(&["update-ref", "-m"]);
    assert(str_views(seq!["update-ref", "-m"]) =~= seq!["update-ref"@, "-m"@]);
    let ghost a0 = views(args@);
    let ghost r1 = reflog@;
    let ghost r2 = refname@;
    args.push(reflog);
    args.push(refname);
    args.push(merge_base.to_owned());
    proof {
        assert(views(args@) =~= a0.push(r1).push(r2).push(merge_base@));
        assert(views(args@) =~= reset_argv(current_branch_name@, merge_base@));
    }
    let mut info = "Branch ".to_owned();
    info.append(current_branch_name);
    info.append(" was reset to ");
    info.append(merge_base);
    (GitCommand::new(args), info)
}

/// The message when the former branch is left as is.
pub fn spinoff_not_changed(current_branch_name: &str) -> (s: String)
    ensures
        s@ == "Branch "@ + current_branch_name@ + " not changed"@,
{
    let mut s = "Branch ".to_owned();
    s.append(current_branch_name);
    s.append(" not changed");
    s
}

} // verus!
