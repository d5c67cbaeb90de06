//! Commit operations: commit, amend, extend, fixup, instant fixup, and a
//! commit whose message an AI backend drafts.
use vstd::prelude::*;

use super::{extend_strings, strings, str_views, views, Arg, GitCommand};
use crate::ai::AiError;
use crate::config::AiConfig;
use crate::text::trim;

verus! {

/// The flags of the commit menu, all unset at first.
pub fn init_args() -> (v: Vec<Arg>)
    ensures
        v@.len() == 6,
        v@[0].arg@ == "--all"@ && v@[0].display@ == "Stage all modified and deleted files"@,
        v@[1].arg@ == "--allow-empty"@ && v@[1].display@ == "Allow empty commit"@,
        v@[2].arg@ == "--verbose"@ && v@[2].display@ == "Show diff of changes to be committed"@,
        v@[3].arg@ == "--no-verify"@ && v@[3].display@ == "Disable hooks"@,
        v@[4].arg@ == "--reset-author"@ && v@[4].display@
            == "Claim authorship and reset author date"@,
        v@[5].arg@ == "--signoff"@ && v@[5].display@ == "Add Signed-off-by line"@,
        forall|i: int| 0 <= i < 6 ==> !(#[trigger] v@[i]).default,
{
    let mut v = Vec::new();
    v.push(Arg::new_flag("--all", "Stage all modified and deleted files", false));
    v.push(Arg::new_flag("--allow-empty", "Allow empty commit", false));
    v.push(Arg::new_flag("--verbose", "Show diff of changes to be committed", false));
    v.push(Arg::new_flag("--no-verify", "Disable hooks", false));
    v.push(Arg::new_flag("--reset-author", "Claim authorship and reset author date", false));
    v.push(Arg::new_flag("--signoff", "Add Signed-off-by line", false));
    v
}

/// `git <base...> <menu args...>`.
fn with_args(base: &[&str], args: &Vec<String>) -> (c: GitCommand)
    ensures
        c.argv() == str_views(base@) + views(args@),
        c.input is Nothing,
        c.env@.len() == 0,
{
    let mut v = strings(base);
    extend_strings(&mut v, args);
    GitCommand::new(v)
}

/// `git commit <args>`.
pub fn commit(args: &Vec<String>) -> (c: GitCommand)
    ensures
        c.argv() == seq!["commit"@] + views(args@),
{
    let c = with_args(&["commit"], args);
    assert(str_views(seq!["commit"]) =~= seq!["commit"@]);
    c
}

/// `git commit --amend <args>`.
pub fn commit_amend(args: &Vec<String>) -> (c: GitCommand)
    ensures
        c.argv() == seq!["commit"@, "--amend"@] + views(args@),
{
    let c = with_args(&["commit", "--amend"], args);
    assert(str_views(seq!["commit", "--amend"]) =~= seq!["commit"@, "--amend"@]);
    c
}

/// `git commit --amend --no-edit <args>`.
pub fn commit_extend(args: &Vec<String>) -> (c: GitCommand)
    ensures
        c.argv() == seq!["commit"@, "--amend"@, "--no-edit"@] + views(args@),
{
    let c = with_args(&["commit", "--amend", "--no-edit"], args);
    assert(str_views(seq!["commit", "--amend", "--no-edit"]) =~= seq![
        "commit"@,
        "--amend"@,
        "--no-edit"@,
    ]);
    c
}

/// `git commit --fixup <rev> <args>`.
pub fn commit_fixup_cmd(args: &Vec<String>, rev: &str) -> (c: GitCommand)
    ensures
        c.argv() == seq!["commit"@, "--fixup"@, rev@] + views(args@),
        c.input is Nothing,
        c.env@.len() == 0,
{
    let c = with_args(&["commit", "--fixup", rev], args);
    assert(str_views(seq!["commit", "--fixup", rev]) =~= seq!["commit"@, "--fixup"@, rev@]);
    c
}

/// The parent of a revision (`<rev>^`).
pub fn parent(reference: &str) -> (p: String)
    ensures
        p@ == reference@ + "^"@,
{
    let mut p = reference.to_owned();
    p.append("^");
    p
}

/// Squashing the fixups onto `rev`: a non-interactive autosquash rebase from
/// its parent (the sequence editor is `:`, which accepts the plan as is).
pub fn rebase_autosquash_cmd(rev: &str) -> (c: GitCommand)
    ensures
        c.argv() == seq![
            "rebase"@,
            "-i"@,
            "-q"@,
            "--autostash"@,
            "--keep-empty"@,
            "--autosquash"@,
            rev@ + "^"@,
        ],
        c.input is Nothing,
        c.env@.len() == 1,
        c.env@[0].0@ == "GIT_SEQUENCE_EDITOR"@,
        c.env@[0].1@ == ":"@,
{
    let mut args = strings(&["rebase", "-i", "-q", "--autostash", "--keep-empty", "--autosquash"]);
    let ghost prefix = views(args@);
    args.push(parent(rev));
    proof {
        assert(str_views(seq!["rebase", "-i", "-q", "--autostash", "--keep-empty", "--autosquash"])
            =~= seq!["rebase"@, "-i"@, "-q"@, "--autostash"@, "--keep-empty"@, "--autosquash"@]);
        assert(views(args@) =~= prefix.push(rev@ + "^"@));
    }
    let mut env: Vec<(String, String)> = Vec::new();
    env.push(("GIT_SEQUENCE_EDITOR".to_owned(), ":".to_owned()));
    GitCommand { args, input: super::Input::Nothing, env }
}

/// Why no AI commit is started.
#[derive(Debug, PartialEq, Eq, Structural)]
pub enum AiCommitRefusal {
    /// The action is switched off in the configuration.
    Disabled,
    /// Nothing is staged.
    NothingStaged,
}

/// An AI commit starts only when enabled and something is staged.
pub fn ai_commit_refusal(config: &AiConfig, staged_diff: &str) -> (r: Option<AiCommitRefusal>)
    ensures
        !config.enabled ==> r == Some(AiCommitRefusal::Disabled),
        config.enabled && trim(staged_diff@).len() == 0 ==> r == Some(
            AiCommitRefusal::NothingStaged,
        ),
        config.enabled && trim(staged_diff@).len() > 0 ==> r is None,
{
    if !config.enabled {
        return Some(AiCommitRefusal::Disabled);
    }
    if crate::text::is_blank(staged_diff) {
        return Some(AiCommitRefusal::NothingStaged);
    }
    None
}

/// The message shown for a refusal.
pub fn ai_commit_refusal_message(refusal: &AiCommitRefusal) -> (s: &'static str)
    ensures
        *refusal == AiCommitRefusal::Disabled ==> s@
            == "AI commit is disabled. Set `[ai] enabled = true` in your config."@,
        *refusal == AiCommitRefusal::NothingStaged ==> s@
            == "No staged changes to generate a commit message from"@,
{
    match refusal {
        AiCommitRefusal::Disabled => "AI commit is disabled. Set `[ai] enabled = true` in your config.",
        AiCommitRefusal::NothingStaged => "No staged changes to generate a commit message from",
    }
}

/// The keys a repository's prompt is looked up by: `owner/repo` of its
/// `origin` remote, then its working directory's name, each where known.
pub open spec fn spec_prompt_keys(owner_repo: Option<Seq<char>>, name: Option<Seq<char>>) -> Seq<
    Seq<char>,
> {
    (match owner_repo {
        Some(o) => seq![o],
        None => seq![],
    }) + (match name {
        Some(n) => seq![n],
        None => seq![],
    })
}

pub fn prompt_keys(owner_repo: Option<String>, name: Option<String>) -> (v: Vec<String>)
    ensures
        views(v@) == spec_prompt_keys(
            match owner_repo {
                Some(o) => Some(o@),
                None => None,
            },
            match name {
                Some(n) => Some(n@),
                None => None,
            },
        ),
{
    let mut v: Vec<String> = Vec::new();
    match owner_repo {
        Some(o) => v.push(o),
        None => {},
    }
    match name {
        Some(n) => v.push(n),
        None => {},
    }
    assert(views(v@) =~= spec_prompt_keys(
        match owner_repo {
            Some(o) => Some(o@),
            None => None,
        },
        match name {
            Some(n) => Some(n@),
            None => None,
        },
    ));
    v
}

/// The commit to run with what the backend produced: with `-m <message>
/// --edit` when it drafted one, else `--edit` alone, and the error to show
/// (the backend's, noting that the editor opens without a draft).
pub fn ai_commit_command(generated: Result<String, AiError>, args: &Vec<String>) -> (r: (
    GitCommand,
    Option<String>,
))
    ensures
        r.0.input is Nothing,
        r.0.env@.len() == 0,
        generated matches Ok(m) ==> r.0.argv() == seq!["commit"@, "-m"@, m@, "--edit"@] + views(
            args@,
        ) && r.1 is None,
        generated matches Err(e) ==> r.0.argv() == seq!["commit"@, "--edit"@] + views(args@) && (
        r.1 matches Some(msg) && msg@ == e.text() + "; opening editor without a draft"@),
{
    match generated {
        Ok(message) => {
            let mut v = strings(&["commit", "-m"]);
            v.push(message);
            v.push("--edit".to_owned());
            let ghost prefix = views(v@);
            extend_strings(&mut v, args);
            proof {
                assert(str_views(seq!["commit", "-m"]) =~= seq!["commit"@, "-m"@]);
                assert(prefix =~= seq!["commit"@, "-m"@, message@, "--edit"@]);
            }
            (GitCommand::new(v), None)
        },
        Err(e) => {
            let mut v = strings(&["commit", "--edit"]);
            extend_strings(&mut v, args);
            assert(str_views(seq!["commit", "--edit"]) =~= seq!["commit"@, "--edit"@]);
            let mut msg = e.message();
            msg.append("; opening editor without a draft");
            (GitCommand::new(v), Some(msg))
        },
    }
}

} // verus!
