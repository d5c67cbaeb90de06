//! The operations a user starts from a menu, as the git commands they run
//! and the decisions that lead to them.
use vstd::prelude::*;

use crate::diff::{Diff, PatchMode};
use std::rc::Rc;

pub mod ai_commit;
pub mod branch;
pub mod commit;
pub mod discard;
pub mod gitignore;
pub mod spinoff;
pub mod unstage;

verus! {

/// The operations of the menus.
#[derive(Clone, Copy, Debug, PartialEq, Eq, Structural)]
pub enum Op {
    Checkout,
    CheckoutNewBranch,
    Delete,
    MarkDelete,
    ExecuteDeletes,
    Rename,
    Spinoff,
    Commit,
    CommitAi,
    CommitAmend,
    CommitExtend,
    CommitFixup,
    CommitInstantFixup,
    Discard,
    GitignoreInTopdir,
    GitignoreInSubdir,
    GitignoreInGitdir,
    GitignoreOnSystem,
    Unstage,
    UnstageAll,
}

/// The label an operation has in its menu.
pub open spec fn op_label(op: Op) -> Seq<char> {
    match op {
        Op::Checkout => "Checkout branch/revision"@,
        Op::CheckoutNewBranch => "Checkout new branch"@,
        Op::Delete => "Delete branch"@,
        Op::MarkDelete => "Mark branch for deletion"@,
        Op::ExecuteDeletes => "Delete marked branches"@,
        Op::Rename => "Rename branch"@,
        Op::Spinoff => "Spinoff branch"@,
        Op::Commit => "Commit"@,
        Op::CommitAi => "generate"@,
        Op::CommitAmend => "amend"@,
        Op::CommitExtend => "extend"@,
        Op::CommitFixup => "fixup"@,
        Op::CommitInstantFixup => "instant fixup"@,
        Op::Discard => "Discard"@,
        Op::GitignoreInTopdir => "shared at top level (.gitignore)"@,
        Op::GitignoreInSubdir => "shared in subdirectory (path/to/.gitignore)"@,
        Op::GitignoreInGitdir => "private for this repository (.git/info/exclude)"@,
        Op::GitignoreOnSystem => "private for all repositories (core.excludesFile)"@,
        Op::Unstage => "Unstage"@,
        Op::UnstageAll => "Unstage all"@,
    }
}

/// Whether an operation acts on the item under the cursor (or the marked
/// range) rather than asking what to act on.
pub open spec fn op_targets(op: Op) -> bool {
    match op {
        Op::Checkout => false,
        Op::CheckoutNewBranch => false,
        Op::Delete => false,
        Op::MarkDelete => true,
        Op::ExecuteDeletes => false,
        Op::Rename => false,
        Op::Spinoff => false,
        Op::Commit => false,
        Op::CommitAi => false,
        Op::CommitAmend => false,
        Op::CommitExtend => false,
        Op::CommitFixup => true,
        Op::CommitInstantFixup => true,
        Op::Discard => true,
        Op::GitignoreInTopdir => false,
        Op::GitignoreInSubdir => false,
        Op::GitignoreInGitdir => false,
        Op::GitignoreOnSystem => false,
        Op::Unstage => true,
        Op::UnstageAll => false,
    }
}

impl Op {
    pub fn display(&self) -> (s: String)
        ensures
            s@ == op_label(*self),
    {
        let s = match self {
            Op::Checkout => "Checkout branch/revision",
            Op::CheckoutNewBranch => "Checkout new branch",
            Op::Delete => "Delete branch",
            Op::MarkDelete => "Mark branch for deletion",
            Op::ExecuteDeletes => "Delete marked branches",
            Op::Rename => "Rename branch",
            Op::Spinoff => "Spinoff branch",
            Op::Commit => "Commit",
            Op::CommitAi => "generate",
            Op::CommitAmend => "amend",
            Op::CommitExtend => "extend",
            Op::CommitFixup => "fixup",
            Op::CommitInstantFixup => "instant fixup",
            Op::Discard => "Discard",
            Op::GitignoreInTopdir => "shared at top level (.gitignore)",
            Op::GitignoreInSubdir => "shared in subdirectory (path/to/.gitignore)",
            Op::GitignoreInGitdir => "private for this repository (.git/info/exclude)",
            Op::GitignoreOnSystem => "private for all repositories (core.excludesFile)",
            Op::Unstage => "Unstage",
            Op::UnstageAll => "Unstage all",
        };
        s.to_owned()
    }

    pub fn is_target_op(&self) -> (b: bool)
        ensures
            b == op_targets(*self),
    {
        match self {
            Op::Checkout => false,
            Op::CheckoutNewBranch => false,
            Op::Delete => false,
            Op::MarkDelete => true,
            Op::ExecuteDeletes => false,
            Op::Rename => false,
            Op::Spinoff => false,
            Op::Commit => false,
            Op::CommitAi => false,
            Op::CommitAmend => false,
            Op::CommitExtend => false,
            Op::CommitFixup => true,
            Op::CommitInstantFixup => true,
            Op::Discard => true,
            Op::GitignoreInTopdir => false,
            Op::GitignoreInSubdir => false,
            Op::GitignoreInGitdir => false,
            Op::GitignoreOnSystem => false,
            Op::Unstage => true,
            Op::UnstageAll => false,
        }
    }
}

/// A flag of an operation's menu: the argument, what it does, and whether it
/// starts out set.
#[derive(Debug)]
pub struct Arg {
    pub arg: String,
    pub display: String,
    pub default: bool,
}

impl Arg {
    pub fn new_flag(arg: &str, display: &str, default: bool) -> (a: Arg)
        ensures
            a.arg@ == arg@,
            a.display@ == display@,
            a.default == default,
    {
        Arg { arg: arg.to_owned(), display: display.to_owned(), default }
    }
}

/// What a command reads on its standard input.
pub enum Input {
    Nothing,
    Text(String),
    /// The patch of lines `start..end` of a hunk, made from the diff the
    /// lines were shown from.
    LinePatch { diff: Rc<Diff>, file_i: usize, hunk_i: usize, start: usize, end: usize, mode: PatchMode },
}

/// A git command: its arguments (after `git`), its input, and environment
/// variables set for it.
pub struct GitCommand {
    pub args: Vec<String>,
    pub input: Input,
    pub env: Vec<(String, String)>,
}

/// The views of a list of strings.
pub open spec fn views(v: Seq<String>) -> Seq<Seq<char>> {
    v.map_values(|s: String| s@)
}

/// The views of a list of string slices.
pub open spec fn str_views(v: Seq<&str>) -> Seq<Seq<char>> {
    v.map_values(|s: &str| s@)
}

impl GitCommand {
    /// The arguments, as character sequences.
    pub open spec fn argv(&self) -> Seq<Seq<char>> {
        views(self.args@)
    }

    /// A command with no input and no environment.
    pub fn new(args: Vec<String>) -> (c: GitCommand)
        ensures
            c.args == args,
            c.input is Nothing,
            c.env@.len() == 0,
    {
        GitCommand { args, input: Input::Nothing, env: Vec::new() }
    }
}

/// Owned copies of `parts`.
pub fn strings(parts: &[&str]) -> (v: Vec<String>)
    ensures
        views(v@) == str_views(parts@),
{
    let mut v: Vec<String> = Vec::new();
    let mut i: usize = 0;
    while i < parts.len()
        invariant
            i <= parts@.len(),
            views(v@) == str_views(parts@.take(i as int)),
        decreases parts@.len() - i,
    {
        let ghost before = v@;
        v.push(parts[i].to_owned());
        proof {
            assert(parts@.take(i + 1) =~= parts@.take(i as int).push(parts@[i as int]));
            assert(views(v@) =~= views(before).push(parts@[i as int]@));
            assert(str_views(parts@.take(i + 1)) =~= str_views(parts@.take(i as int)).push(
                parts@[i as int]@,
            ));
        }
        i = i + 1;
    }
    assert(parts@.take(parts@.len() as int) =~= parts@);
    v
}

/// `v` with copies of `more` appended.
pub fn extend_strings(v: &mut Vec<String>, more: &Vec<String>)
    ensures
        views(final(v)@) == views(old(v)@) + views(more@),
{
    let ghost start = views(v@);
    let mut i: usize = 0;
    while i < more.len()
        invariant
            i <= more@.len(),
            views(v@) == start + views(more@.take(i as int)),
        decreases more@.len() - i,
    {
        let ghost before = v@;
        v.push(more[i].clone());
        proof {
            assert(more@.take(i + 1) =~= more@.take(i as int).push(more@[i as int]));
            assert(views(v@) =~= views(before).push(more@[i as int]@));
            assert(views(more@.take(i + 1)) =~= views(more@.take(i as int)).push(more@[i as int]@));
        }
        i = i + 1;
    }
    assert(more@.take(more@.len() as int) =~= more@);
}

/// Whether discarding asks for confirmation under the configured option:
/// it does for `Line`, `Hunk` and `File`, not for `Never`.
pub open spec fn confirms_discard(option: crate::config::ConfirmDiscardOption) -> bool {
    option.spec_rank() <= crate::config::ConfirmDiscardOption::File.spec_rank()
}

} // verus!
