//! Errors that the operations report to the user.
use vstd::prelude::*;

verus! {

#[derive(Debug)]
pub enum Error {
    BranchNameRequired,
    CannotDeleteCurrentBranch,
    SpinoffBranchExists(String),
    CannotSpinoffCurrentBranch,
    BaseCommitOid,
    UpstreamCommitOid,
    NoRepoWorkdir,
    GitignoreConfigUnset,
    GitignoreConfigUtf8,
}

} // verus!
