use std::rc::Rc;

use gitu::ai::{AiError, AiRequest};
use gitu::config::{AiConfig, ConfirmDiscardOption, RepoAiConfig, RepoAiEntry};
use gitu::diff::{Diff, DiffType, FileDiff, FileHeader, Hunk, Status};
use gitu::error::Error;
use gitu::item_data::{ItemData, Ref};
use gitu::ops::branch::{
    checkout, checkout_new_branch, delete, delete_many, rename_to, spinoff_checkout, spinoff_default,
    spinoff_not_changed, spinoff_reset, spinoff_reset_command, SpinoffReset,
};
use gitu::ops::commit::{
    ai_commit_command, ai_commit_refusal, ai_commit_refusal_message, commit, commit_fixup_cmd, init_args,
    prompt_keys, rebase_autosquash_cmd, AiCommitRefusal,
};
use gitu::ops::discard::{
    clean_file, confirm_discard, discard_file_selection, target_discard_action, DiscardAction,
};
use gitu::ops::unstage::{target_unstage_action, unstage_file, unstage_files, unstage_staged, UnstageAction};
use gitu::ops::ai_commit::{ai_commit_start, ai_commit_step, AiCommitAction, AiCommitEvent, AiCommitState};
use gitu::ops::spinoff::{spinoff_start, spinoff_step, SpinoffAction, SpinoffEvent, SpinoffState};
use gitu::ops::{GitCommand, Input, Op};
use gitu::screen::selection::FileSelection;

fn s(args: &[&str]) -> Vec<String> {
    args.iter().map(|a| a.to_string()).collect()
}

fn args(c: &GitCommand) -> Vec<&str> {
    c.args.iter().map(|a| a.as_str()).collect()
}

fn diff(diff_type: DiffType) -> Rc<Diff> {
    Rc::new(Diff {
        id: 7,
        diff_type,
        file_diffs: vec![FileDiff {
            header: FileHeader { status: Status::Modified, old_file: "f".to_string(), new_file: "f".to_string() },
            hunks: vec![Hunk {
                header: "@@ -1 +1 @@".to_string(),
                lines: s(&["-a\n", "+b\n"]),
                patch: "hunk patch".to_string(),
            }],
            patch: "file patch".to_string(),
        }],
    })
}

#[test]
fn branch_commands() {
    assert_eq!(args(&checkout("main")), vec!["checkout", "main"]);
    assert!(matches!(checkout_new_branch("", "HEAD"), Err(Error::BranchNameRequired)));
    assert_eq!(args(&checkout_new_branch("topic", "main").unwrap()), vec!["checkout", "-b", "topic", "main"]);
    assert!(matches!(rename_to("a", ""), Err(Error::BranchNameRequired)));
    assert_eq!(args(&rename_to("a", "b").unwrap()), vec!["branch", "-m", "a", "b"]);
}

#[test]
fn deleting_branches() {
    assert!(matches!(delete("main", "", true), Err(Error::BranchNameRequired)));
    assert!(matches!(delete("main", "main", true), Err(Error::CannotDeleteCurrentBranch)));
    let plan = delete("main", "topic", true).unwrap();
    assert!(!plan.confirm_unmerged);
    assert_eq!(args(&plan.command), vec!["branch", "-d", "topic"]);
    let plan = delete("main", "topic", false).unwrap();
    assert!(plan.confirm_unmerged);
    assert_eq!(args(&plan.command), vec!["branch", "-d", "-f", "topic"]);

    assert!(matches!(delete_many("main", &vec![], &vec![]), Err(Error::BranchNameRequired)));
    assert!(matches!(
        delete_many("main", &s(&["a", "main"]), &vec![true, true]),
        Err(Error::CannotDeleteCurrentBranch)
    ));
    let plan = delete_many("main", &s(&["a", "b"]), &vec![true, false]).unwrap();
    assert!(plan.confirm_unmerged);
    assert_eq!(args(&plan.command), vec!["branch", "-d", "-f", "a", "b"]);
}

#[test]
fn spinoff() {
    let target = ItemData::Reference {
        prefix: "  ".to_string(),
        kind: Ref::Head("feature".to_string()),
        short_id: String::new(),
        summary: String::new(),
        merge_status: None,
    };
    assert_eq!(spinoff_default(&target).as_deref(), Some("feature"));
    assert!(spinoff_default(&ItemData::Raw("x".to_string())).is_none());
    assert!(matches!(spinoff_checkout("", false, "main"), Err(Error::BranchNameRequired)));
    match spinoff_checkout("new", true, "main") {
        Err(Error::SpinoffBranchExists(n)) => assert_eq!(n, "new"),
        _ => panic!("expected SpinoffBranchExists"),
    }
    assert!(matches!(spinoff_checkout("main", false, "main"), Err(Error::CannotSpinoffCurrentBranch)));
    assert_eq!(args(&spinoff_checkout("new", false, "main").unwrap()), vec!["checkout", "-b", "new"]);

    assert!(matches!(spinoff_reset(Some("a".to_string()), None), Ok(SpinoffReset::NotChanged)));
    assert!(matches!(
        spinoff_reset(Some("a".to_string()), Some(Some("a".to_string()))),
        Ok(SpinoffReset::NotChanged)
    ));
    assert!(matches!(spinoff_reset(None, Some(Some("b".to_string()))), Err(Error::BaseCommitOid)));
    assert!(matches!(spinoff_reset(Some("a".to_string()), Some(None)), Err(Error::UpstreamCommitOid)));
    assert!(matches!(
        spinoff_reset(Some("a".to_string()), Some(Some("b".to_string()))),
        Ok(SpinoffReset::ToMergeBase { .. })
    ));
    let (cmd, msg) = spinoff_reset_command("main", "abc");
    assert_eq!(args(&cmd), vec!["update-ref", "-m", "\"reset: moving to abc\"", "refs/heads/main", "abc"]);
    assert_eq!(msg, "Branch main was reset to abc");
    assert_eq!(spinoff_not_changed("main"), "Branch main not changed");
}

#[test]
fn commit_commands() {
    let menu = init_args();
    assert_eq!(menu.len(), 6);
    assert_eq!(menu[0].arg, "--all");
    assert!(menu.iter().all(|a| !a.default));
    assert_eq!(args(&commit(&s(&["--verbose"]))), vec!["commit", "--verbose"]);
    assert_eq!(args(&commit_fixup_cmd(&vec![], "abc")), vec!["commit", "--fixup", "abc"]);
    let rebase = rebase_autosquash_cmd("abc");
    assert_eq!(args(&rebase), vec!["rebase", "-i", "-q", "--autostash", "--keep-empty", "--autosquash", "abc^"]);
    assert_eq!(rebase.env, vec![("GIT_SEQUENCE_EDITOR".to_string(), ":".to_string())]);
}

#[test]
fn ai_commit() {
    let mut config = AiConfig::default();
    assert_eq!(ai_commit_refusal(&config, "diff"), Some(AiCommitRefusal::Disabled));
    config.enabled = true;
    assert_eq!(ai_commit_refusal(&config, "  \n"), Some(AiCommitRefusal::NothingStaged));
    assert_eq!(ai_commit_refusal(&config, "diff"), None);
    assert_eq!(
        ai_commit_refusal_message(&AiCommitRefusal::Disabled),
        "AI commit is disabled. Set `[ai] enabled = true` in your config."
    );
    assert_eq!(prompt_keys(Some("altsem/gitu".to_string()), Some("gitu".to_string())), s(&["altsem/gitu", "gitu"]));
    assert_eq!(prompt_keys(None, Some("gitu".to_string())), s(&["gitu"]));
    let (cmd, err) = ai_commit_command(Ok("feat: x".to_string()), &s(&["--signoff"]));
    assert_eq!(args(&cmd), vec!["commit", "-m", "feat: x", "--edit", "--signoff"]);
    assert!(err.is_none());
    let (cmd, err) = ai_commit_command(Err(AiError::NoMessage), &vec![]);
    assert_eq!(args(&cmd), vec!["commit", "--edit"]);
    assert_eq!(err.unwrap(), "response did not contain a message; opening editor without a draft");
}

#[test]
fn discarding() {
    assert!(confirm_discard(ConfirmDiscardOption::Line));
    assert!(confirm_discard(ConfirmDiscardOption::File));
    assert!(!confirm_discard(ConfirmDiscardOption::Never));
    assert_eq!(args(&clean_file("x")), vec!["clean", "--force", "x"]);
    match target_discard_action(&ItemData::Untracked("x".to_string())) {
        Some(DiscardAction::Clean(files)) => assert_eq!(files, s(&["x"])),
        _ => panic!("expected clean"),
    }
    let unstaged = ItemData::Delta { diff: diff(DiffType::WorkdirToIndex), file_i: 0, commit: None };
    match target_discard_action(&unstaged) {
        Some(DiscardAction::ReverseWorktree(Input::Text(p))) => assert_eq!(p, "file patch"),
        _ => panic!("expected a worktree revert"),
    }
    let staged = ItemData::Hunk { diff: diff(DiffType::IndexToTree), file_i: 0, hunk_i: 0 };
    match target_discard_action(&staged) {
        Some(DiscardAction::ReverseIndexAndWorktree(Input::Text(p))) => assert_eq!(p, "hunk patch"),
        _ => panic!("expected an index and worktree revert"),
    }
    assert!(target_discard_action(&ItemData::Raw("x".to_string())).is_none());
}

#[test]
fn discarding_selected_files() {
    let mut selection = FileSelection::new();
    selection.push_untracked("u".to_string());
    selection.push_unstaged(&diff(DiffType::WorkdirToIndex), 0);
    let cmds = discard_file_selection(&selection);
    assert_eq!(cmds.len(), 2);
    assert_eq!(args(&cmds[0]), vec!["clean", "--force", "u"]);
    assert_eq!(args(&cmds[1]), vec!["apply", "--reverse", "--recount"]);
    assert!(matches!(&cmds[1].input, Input::Text(p) if p == "file patch"));
    // Adding a file twice keeps it once.
    selection.push_untracked("u".to_string());
    assert_eq!(selection.untracked, s(&["u"]));
}

#[test]
fn unstaging() {
    assert_eq!(args(&unstage_staged()), vec!["reset", "HEAD", "--"]);
    assert_eq!(args(&unstage_files(&s(&["a", "b"]))), vec!["restore", "--staged", "a", "b"]);
    assert_eq!(args(&unstage_file("a")), vec!["restore", "--staged", "a"]);
    assert!(matches!(target_unstage_action(&ItemData::AllStaged(1)), Some(UnstageAction::Staged)));
    let staged = ItemData::Delta { diff: diff(DiffType::IndexToTree), file_i: 0, commit: None };
    match target_unstage_action(&staged) {
        Some(UnstageAction::RestoreIndex(p)) => assert_eq!(p, "f"),
        _ => panic!("expected a restore"),
    }
    assert!(target_unstage_action(&ItemData::Untracked("x".to_string())).is_none());
}

#[test]
fn menu_labels() {
    assert_eq!(Op::Spinoff.display(), "Spinoff branch");
    assert_eq!(Op::CommitAi.display(), "generate");
    assert!(Op::Discard.is_target_op());
    assert!(!Op::Commit.is_target_op());
}

#[test]
fn spinoff_steps() {
    let (state, action) = spinoff_start(&ItemData::Raw(String::new()));
    assert!(matches!(action, SpinoffAction::AskName(None)));
    let (state, action) = spinoff_step(state, SpinoffEvent::Name("topic".to_string()));
    assert!(matches!(&action, SpinoffAction::QueryBranches(n) if n == "topic"));
    let (state, action) = spinoff_step(
        state,
        SpinoffEvent::Branches {
            exists: false,
            current: "main".to_string(),
            base: Some("aaa".to_string()),
            upstream: Some(Some("bbb".to_string())),
        },
    );
    match &action {
        SpinoffAction::Run(cmd) => assert_eq!(args(cmd), vec!["checkout", "-b", "topic"]),
        _ => panic!("expected the checkout"),
    }
    let (state, action) = spinoff_step(state, SpinoffEvent::CommandDone);
    assert!(matches!(&action, SpinoffAction::QueryMergeBase { base, upstream } if base == "aaa" && upstream == "bbb"));
    let (state, action) = spinoff_step(state, SpinoffEvent::MergeBase("ccc".to_string()));
    match &action {
        SpinoffAction::Run(cmd) => {
            assert_eq!(args(cmd), vec!["update-ref", "-m", "\"reset: moving to ccc\"", "refs/heads/main", "ccc"])
        }
        _ => panic!("expected the reset"),
    }
    let (state, action) = spinoff_step(state, SpinoffEvent::CommandDone);
    assert!(matches!(&action, SpinoffAction::Info(m) if m == "Branch main was reset to ccc"));
    assert!(matches!(state, SpinoffState::Done));
}

#[test]
fn spinoff_refusals_and_level_branches() {
    let (_, action) = spinoff_step(SpinoffState::AskName, SpinoffEvent::Name(String::new()));
    assert!(matches!(action, SpinoffAction::Fail(Error::BranchNameRequired)));
    let branches = |exists: bool, current: &str, upstream: Option<Option<String>>| SpinoffEvent::Branches {
        exists,
        current: current.to_string(),
        base: Some("aaa".to_string()),
        upstream,
    };
    let checking = || SpinoffState::Checking { name: "topic".to_string() };
    let (_, action) = spinoff_step(checking(), branches(true, "main", None));
    assert!(matches!(action, SpinoffAction::Fail(Error::SpinoffBranchExists(n)) if n == "topic"));
    let (_, action) = spinoff_step(checking(), branches(false, "topic", None));
    assert!(matches!(action, SpinoffAction::Fail(Error::CannotSpinoffCurrentBranch)));
    let (state, _) = spinoff_step(checking(), branches(false, "main", Some(Some("aaa".to_string()))));
    let (_, action) = spinoff_step(state, SpinoffEvent::CommandDone);
    assert!(matches!(action, SpinoffAction::Info(m) if m == "Branch main not changed"));
    // An event out of turn changes nothing.
    let (state, action) = spinoff_step(SpinoffState::AskName, SpinoffEvent::CommandDone);
    assert!(matches!(state, SpinoffState::AskName) && matches!(action, SpinoffAction::Nothing));
}

#[test]
fn ai_commit_steps() {
    let mut config = AiConfig::default();
    let (_, action) = ai_commit_start(&config);
    assert!(matches!(action, AiCommitAction::ShowError(m) if m.starts_with("AI commit is disabled")));
    config.enabled = true;
    config.prompt_template = "global".to_string();
    config.repo = vec![RepoAiEntry {
        key: "altsem/gitu".to_string(),
        config: RepoAiConfig { prompt_template: Some("specific".to_string()) },
    }];
    let (state, action) = ai_commit_start(&config);
    assert!(matches!(action, AiCommitAction::ReadStagedDiff));
    let menu = s(&["--signoff"]);
    let (_, action) = ai_commit_step(&config, &menu, AiCommitState::ReadingDiff, AiCommitEvent::StagedDiff(" \n".to_string()));
    assert!(matches!(action, AiCommitAction::ShowError(m) if m == "No staged changes to generate a commit message from"));
    let (state, action) = ai_commit_step(&config, &menu, state, AiCommitEvent::StagedDiff("diff".to_string()));
    assert!(matches!(action, AiCommitAction::ReadRepo));
    let (state, action) = ai_commit_step(
        &config,
        &menu,
        state,
        AiCommitEvent::Repo {
            origin_url: Some("git@github.com:altsem/gitu.git".to_string()),
            workdir_name: Some("gitu".to_string()),
        },
    );
    match &action {
        AiCommitAction::Generate(Ok(AiRequest::Api(a))) => {
            assert_eq!(a.system_prompt, "specific");
            assert_eq!(a.user_content, "diff");
        }
        _ => panic!("expected an API request"),
    }
    let (state, action) = ai_commit_step(&config, &menu, state, AiCommitEvent::Generated(Ok("feat: x".to_string())));
    match &action {
        AiCommitAction::Commit { command, error } => {
            assert_eq!(args(command), vec!["commit", "-m", "feat: x", "--edit", "--signoff"]);
            assert!(error.is_none());
        }
        _ => panic!("expected the commit"),
    }
    assert!(matches!(state, AiCommitState::Done));
}

#[test]
fn deleting_with_unknown_merge_state_forces() {
    // A branch git says nothing of counts as not merged.
    let plan = delete_many("main", &s(&["a", "b"]), &vec![true]).unwrap();
    assert!(plan.confirm_unmerged);
    assert_eq!(args(&plan.command), vec!["branch", "-d", "-f", "a", "b"]);
    let plan = delete_many("main", &s(&["a"]), &vec![true, false]).unwrap();
    assert!(!plan.confirm_unmerged);
}
