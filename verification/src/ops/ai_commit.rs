//! Committing with a message drafted by the AI backend, as the steps
//! between git, the backend and the editor: each step takes what the last
//! action brought back and says what to do next.
use vstd::prelude::*;

use super::commit::{ai_commit_command, ai_commit_refusal, ai_commit_refusal_message, prompt_keys, spec_prompt_keys};
use super::{str_views, views, GitCommand};
use crate::ai::{commit_message_request, request_for, AiError, AiRequest};
use crate::config::{owner_repo, owner_repo_from_url, prompt_choice, AiConfig};
use crate::text::trim;

verus! {

/// Where an AI commit stands.
pub enum AiCommitState {
    /// Waiting for the staged diff.
    ReadingDiff,
    /// Waiting for what names the repository; `diff` is the staged diff.
    ReadingRepo { diff: String },
    /// Waiting for the backend's message.
    Generating,
    Done,
}

/// What the last action brought back.
pub enum AiCommitEvent {
    /// The staged diff.
    StagedDiff(String),
    /// The URL of the `origin` remote and the name of the working
    /// directory, where known.
    Repo { origin_url: Option<String>, workdir_name: Option<String> },
    /// What the backend produced.
    Generated(Result<String, AiError>),
}

/// What to do next.
pub enum AiCommitAction {
    ReadStagedDiff,
    ReadRepo,
    /// Say that a message is being generated, then send the request; when
    /// no request could be made, its error is what the backend produced.
    Generate(Result<AiRequest, AiError>),
    /// Show `error`, if any, and run the commit in the editor.
    Commit { command: GitCommand, error: Option<String> },
    /// Show the error and stop.
    ShowError(String),
    /// Nothing: the event does not belong to this step.
    Nothing,
}

/// An AI commit starts by reading the staged diff, unless it is disabled.
pub fn ai_commit_start(config: &AiConfig) -> (r: (AiCommitState, AiCommitAction))
    ensures
        config.enabled ==> r.0 is ReadingDiff && r.1 is ReadStagedDiff,
        !config.enabled ==> r.0 is Done && (r.1 matches AiCommitAction::ShowError(m) && m@
            == "AI commit is disabled. Set `[ai] enabled = true` in your config."@),
{
    if !config.enabled {
        let refusal = super::commit::AiCommitRefusal::Disabled;
        return (AiCommitState::Done, AiCommitAction::ShowError(ai_commit_refusal_message(&refusal).to_owned()));
    }
    (AiCommitState::ReadingDiff, AiCommitAction::ReadStagedDiff)
}

/// The view of an optional string.
pub open spec fn opt_seq(o: Option<String>) -> Option<Seq<char>> {
    match o {
        Some(s) => Some(s@),
        None => None,
    }
}

/// The keys the prompt is looked up by: `owner/repo` of the origin URL,
/// then the working directory's name, each where known.
pub open spec fn repo_keys(origin_url: Option<String>, workdir_name: Option<String>) -> Seq<Seq<char>> {
    spec_prompt_keys(
        match origin_url {
            Some(u) => owner_repo(u@),
            None => None,
        },
        opt_seq(workdir_name),
    )
}

/// The step of an AI commit: what each event leads to in the state that
/// waits for it; any other event leaves the state as it is.
pub open spec fn ai_commit_transition(
    config: &AiConfig,
    args: Seq<Seq<char>>,
    state: AiCommitState,
    event: AiCommitEvent,
    r: (AiCommitState, AiCommitAction),
) -> bool {
    match (state, event) {
        // The staged diff: nothing staged stops, else the repository is named.
        (AiCommitState::ReadingDiff, AiCommitEvent::StagedDiff(d)) => if trim(d@).len() == 0 {
            r.0 is Done && (r.1 matches AiCommitAction::ShowError(m) && m@
                == "No staged changes to generate a commit message from"@)
        } else {
            (r.0 matches AiCommitState::ReadingRepo { diff } && diff@ == d@) && r.1 is ReadRepo
        },
        // The repository: the prompt for it goes with the diff to the backend.
        (AiCommitState::ReadingRepo { diff }, AiCommitEvent::Repo { origin_url, workdir_name }) => r.0 is Generating
            && (r.1 matches AiCommitAction::Generate(req) && request_for(
            config,
            prompt_choice(config.repo@, repo_keys(origin_url, workdir_name), config.prompt_template@),
            diff@,
            req,
        )),
        // The message: commit with it as a draft, or without one and show why.
        (AiCommitState::Generating, AiCommitEvent::Generated(g)) => r.0 is Done && (r.1 matches AiCommitAction::Commit {
            command,
            error,
        } && command.input is Nothing && command.env@.len() == 0 && match g {
            Ok(m) => command.argv() == seq!["commit"@, "-m"@, m@, "--edit"@] + args && error is None,
            Err(e) => command.argv() == seq!["commit"@, "--edit"@] + args && (error matches Some(msg)
                && msg@ == e.text() + "; opening editor without a draft"@),
        }),
        _ => r.0 == state && r.1 is Nothing,
    }
}

/// The keys as string slices.
fn key_slices(keys: &Vec<String>) -> (r: Vec<&str>)
    ensures
        str_views(r@) == views(keys@),
{
    let mut r: Vec<&str> = Vec::new();
    let mut i: usize = 0;
    while i < keys.len()
        invariant
            i <= keys@.len(),
            str_views(r@) == views(keys@).take(i as int),
        decreases keys@.len() - i,
    {
        let ghost before = r@;
        let k = keys[i].as_str();
        r.push(k);
        assert(r@ =~= before.push(k));
        assert(k@ == keys@[i as int]@);
        assert(str_views(r@) =~= str_views(before).push(k@));
        assert(views(keys@).take(i + 1) =~= views(keys@).take(i as int).push(keys@[i as int]@));
        i = i + 1;
    }
    assert(views(keys@).take(keys@.len() as int) =~= views(keys@));
    r
}

/// The step of an AI commit (see [`ai_commit_transition`]); `args` are the
/// commit menu's arguments.
pub fn ai_commit_step(config: &AiConfig, args: &Vec<String>, state: AiCommitState, event: AiCommitEvent) -> (r: (
    AiCommitState,
    AiCommitAction,
))
    ensures
        ai_commit_transition(config, views(args@), state, event, r),
{
    match (state, event) {
        (AiCommitState::ReadingDiff, AiCommitEvent::StagedDiff(d)) => {
            if crate::text::is_blank(d.as_str()) {
                let refusal = super::commit::AiCommitRefusal::NothingStaged;
                (AiCommitState::Done, AiCommitAction::ShowError(ai_commit_refusal_message(&refusal).to_owned()))
            } else {
                (AiCommitState::ReadingRepo { diff: d }, AiCommitAction::ReadRepo)
            }
        },
        (AiCommitState::ReadingRepo { diff }, AiCommitEvent::Repo { origin_url, workdir_name }) => {
            let owner = match &origin_url {
                Some(u) => owner_repo_from_url(u.as_str()),
                None => None,
            };
            let keys = prompt_keys(owner, workdir_name);
            let slices = key_slices(&keys);
            let prompt = config.prompt_for(slices.as_slice());
            let request = commit_message_request(config, prompt, diff.as_str());
            (AiCommitState::Generating, AiCommitAction::Generate(request))
        },
        (AiCommitState::Generating, AiCommitEvent::Generated(g)) => {
            let (command, error) = ai_commit_command(g, args);
            (AiCommitState::Done, AiCommitAction::Commit { command, error })
        },
        (state, _) => (state, AiCommitAction::Nothing),
    }
}

} // verus!
