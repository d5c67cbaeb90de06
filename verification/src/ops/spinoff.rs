//! Spinning off a branch, as the steps between asking the user and git:
//! each step takes what the last action brought back and says what to do
//! next. The new branch is checked out where the current one is; the
//! current one then goes back to where it and its upstream split, unless it
//! has no upstream or is level with it.
use vstd::prelude::*;

use super::branch::{
    opt_view,
    reset_argv,
    spec_spinoff_default,
    spinoff_checkout,
    spinoff_default,
    spinoff_not_changed,
    spinoff_reset,
    spinoff_reset_command,
    SpinoffReset,
};
use super::GitCommand;
use crate::error::Error;
use crate::item_data::ItemData;

verus! {

/// Where a spin-off stands.
pub enum SpinoffState {
    /// Waiting for the new branch's name.
    AskName,
    /// Waiting for what git reports of the branches, for new branch `name`.
    Checking { name: String },
    /// The new branch is being checked out; `current` was the current
    /// branch and `reset` is what becomes of it.
    CheckingOut { current: String, reset: Result<SpinoffReset, Error> },
    /// Waiting for the merge base of the former branch and its upstream.
    FindingMergeBase { current: String },
    /// The former branch is being reset; `info` reports it once done.
    Resetting { info: String },
    Done,
}

/// What the last action brought back.
pub enum SpinoffEvent {
    /// The name the user gave.
    Name(String),
    /// Whether the new name is taken, the current branch, the commit it
    /// points at, and its upstream (`None` when it has none, else what the
    /// upstream points at).
    Branches { exists: bool, current: String, base: Option<String>, upstream: Option<Option<String>> },
    /// The command ran.
    CommandDone,
    /// The merge base of the former branch and its upstream.
    MergeBase(String),
}

/// What to do next.
pub enum SpinoffAction {
    /// Ask for the new branch's name, offering `default`.
    AskName(Option<String>),
    /// Find out about the branches, for new branch `name`.
    QueryBranches(String),
    Run(GitCommand),
    /// Find the merge base of two commits.
    QueryMergeBase { base: String, upstream: String },
    /// Report and stop.
    Info(String),
    /// Report the error and stop.
    Fail(Error),
    /// Nothing: the event does not belong to this step.
    Nothing,
}

/// A spin-off starts by asking for a name, offering the branch under the
/// cursor.
pub fn spinoff_start(target: &ItemData) -> (r: (SpinoffState, SpinoffAction))
    ensures
        r.0 is AskName,
        r.1 matches SpinoffAction::AskName(d) && opt_view(d) == spec_spinoff_default(*target),
{
    let d = spinoff_default(target);
    (SpinoffState::AskName, SpinoffAction::AskName(d))
}

/// The step of a spin-off: what each event leads to in the state that
/// waits for it; any other event leaves the state as it is.
pub open spec fn spinoff_transition(
    state: SpinoffState,
    event: SpinoffEvent,
    r: (SpinoffState, SpinoffAction),
) -> bool {
    match (state, event) {
        // A name: empty is refused, else the branches are looked at.
        (SpinoffState::AskName, SpinoffEvent::Name(n)) => if n@.len() == 0 {
            r.0 is Done && r.1 matches SpinoffAction::Fail(Error::BranchNameRequired)
        } else {
            (r.0 matches SpinoffState::Checking { name } && name@ == n@) && (r.1 matches SpinoffAction::QueryBranches(q)
                && q@ == n@)
        },
        // The branches: a taken name or the current branch is refused (as an
        // empty one would be), else the new branch is checked out.
        (
            SpinoffState::Checking { name },
            SpinoffEvent::Branches { exists, current, base, upstream },
        ) => if name@.len() == 0 {
            r.0 is Done && r.1 matches SpinoffAction::Fail(Error::BranchNameRequired)
        } else if exists {
            r.0 is Done && (r.1 matches SpinoffAction::Fail(Error::SpinoffBranchExists(n)) && n@
                == name@)
        } else if name@ == current@ {
            r.0 is Done && r.1 matches SpinoffAction::Fail(Error::CannotSpinoffCurrentBranch)
        } else {
            (r.0 matches SpinoffState::CheckingOut { current: c, reset } && c@ == current@
                && reset_matches(reset, base, upstream)) && (r.1 matches SpinoffAction::Run(cmd)
                && cmd.argv() == seq!["checkout"@, "-b"@, name@] && cmd.input is Nothing
                && cmd.env@.len() == 0)
        },
        // Checked out: the former branch stays, is reset, or the error shows.
        (SpinoffState::CheckingOut { current, reset }, SpinoffEvent::CommandDone) => match reset {
            Ok(SpinoffReset::NotChanged) => r.0 is Done && (r.1 matches SpinoffAction::Info(m) && m@
                == "Branch "@ + current@ + " not changed"@),
            Ok(SpinoffReset::ToMergeBase { base, upstream }) => (r.0 matches SpinoffState::FindingMergeBase {
                current: c,
            } && c@ == current@) && (r.1 matches SpinoffAction::QueryMergeBase {
                base: b,
                upstream: u,
            } && b@ == base@ && u@ == upstream@),
            Err(e) => r.0 is Done && r.1 == SpinoffAction::Fail(e),
        },
        // The merge base: the former branch is reset to it.
        (SpinoffState::FindingMergeBase { current }, SpinoffEvent::MergeBase(mb)) => (r.0 matches SpinoffState::Resetting {
            info,
        } && info@ == "Branch "@ + current@ + " was reset to "@ + mb@) && (r.1 matches SpinoffAction::Run(cmd)
            && cmd.argv() == reset_argv(current@, mb@) && cmd.input is Nothing && cmd.env@.len()
            == 0),
        // Reset: report it.
        (SpinoffState::Resetting { info }, SpinoffEvent::CommandDone) => r.0 is Done && (r.1 matches SpinoffAction::Info(
            m,
        ) && m@ == info@),
        _ => r.0 == state && r.1 is Nothing,
    }
}

/// The step of a spin-off: the next state and action for an event (see
/// [`spinoff_transition`]).
pub fn spinoff_step(state: SpinoffState, event: SpinoffEvent) -> (r: (SpinoffState, SpinoffAction))
    ensures
        spinoff_transition(state, event, r),
{
    match (state, event) {
        (SpinoffState::AskName, SpinoffEvent::Name(n)) => {
            if n.as_str().is_empty() {
                (SpinoffState::Done, SpinoffAction::Fail(Error::BranchNameRequired))
            } else {
                let q = n.clone();
                (SpinoffState::Checking { name: n }, SpinoffAction::QueryBranches(q))
            }
        },
        (SpinoffState::Checking { name }, SpinoffEvent::Branches { exists, current, base, upstream }) => {
            match spinoff_checkout(name.as_str(), exists, current.as_str()) {
                Err(e) => (SpinoffState::Done, SpinoffAction::Fail(e)),
                Ok(cmd) => {
                    let reset = spinoff_reset(base, upstream);
                    (SpinoffState::CheckingOut { current, reset }, SpinoffAction::Run(cmd))
                },
            }
        },
        (SpinoffState::CheckingOut { current, reset }, SpinoffEvent::CommandDone) => match reset {
            Ok(SpinoffReset::NotChanged) => (
                SpinoffState::Done,
                SpinoffAction::Info(spinoff_not_changed(current.as_str())),
            ),
            Ok(SpinoffReset::ToMergeBase { base, upstream }) => (
                SpinoffState::FindingMergeBase { current },
                SpinoffAction::QueryMergeBase { base, upstream },
            ),
            Err(e) => (SpinoffState::Done, SpinoffAction::Fail(e)),
        },
        (SpinoffState::FindingMergeBase { current }, SpinoffEvent::MergeBase(mb)) => {
            let (cmd, info) = spinoff_reset_command(current.as_str(), mb.as_str());
            (SpinoffState::Resetting { info }, SpinoffAction::Run(cmd))
        },
        (SpinoffState::Resetting { info }, SpinoffEvent::CommandDone) => (
            SpinoffState::Done,
            SpinoffAction::Info(info),
        ),
        (state, _) => (state, SpinoffAction::Nothing),
    }
}

/// `reset` is what [`spinoff_reset`] decides for `base` and `upstream`.
pub open spec fn reset_matches(
    reset: Result<SpinoffReset, Error>,
    base: Option<String>,
    upstream: Option<Option<String>>,
) -> bool {
    match upstream {
        None => reset matches Ok(SpinoffReset::NotChanged),
        Some(u) => if opt_view(u) == opt_view(base) {
            reset matches Ok(SpinoffReset::NotChanged)
        } else {
            match base {
                None => reset matches Err(Error::BaseCommitOid),
                Some(b) => match u {
                    None => reset matches Err(Error::UpstreamCommitOid),
                    Some(up) => reset matches Ok(SpinoffReset::ToMergeBase { base: rb, upstream: ru })
                        && rb@ == b@ && ru@ == up@,
                },
            }
        },
    }
}

} // verus!
