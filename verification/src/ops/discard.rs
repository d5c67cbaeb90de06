//! Discarding changes: deleting a branch, cleaning untracked files, or
//! reverse-applying a file's, hunk's or lines' patch to the worktree (and to
//! the index where the change is staged).
use vstd::prelude::*;

use super::{branch, confirms_discard, extend_strings, strings, str_views, views, GitCommand, Input};
use crate::config::ConfirmDiscardOption;
use crate::diff::{DiffType, PatchMode};
use crate::error::Error;
use crate::item_data::{ItemData, Ref};
use crate::screen::selection::{diff_patches, FileSelection, HunkLineSelection};
use crate::text::join;

verus! {

/// What discarding the item under the cursor does.
pub enum DiscardAction {
    /// Delete the branch (after confirmation).
    Branch(String),
    /// Remove untracked files.
    Clean(Vec<String>),
    /// Revert an unstaged change in the worktree.
    ReverseWorktree(Input),
    /// Revert a staged change in the index and the worktree.
    ReverseIndexAndWorktree(Input),
}

/// The patch of an item, or the request for the patch of its line.
pub open spec fn item_patch(target: ItemData) -> Option<Input> {
    match target {
        ItemData::Delta { diff, file_i, .. } => Some(Input::Text(diff.file_diffs@[file_i as int].patch)),
        ItemData::Hunk { diff, file_i, hunk_i } => Some(
            Input::Text(diff.file_diffs@[file_i as int].hunks@[hunk_i as int].patch),
        ),
        ItemData::HunkLine { diff, file_i, hunk_i, line_i } => Some(
            Input::LinePatch {
                diff: diff,
                file_i: file_i,
                hunk_i: hunk_i,
                start: line_i,
                end: (line_i + 1) as usize,
                mode: PatchMode::Reverse,
            },
        ),
        _ => None,
    }
}

/// Whether the diff an item comes from compares the worktree with the index.
pub open spec fn from_worktree(target: ItemData) -> bool {
    match target {
        ItemData::Delta { diff, .. } => diff.diff_type == DiffType::WorkdirToIndex,
        ItemData::Hunk { diff, .. } => diff.diff_type == DiffType::WorkdirToIndex,
        ItemData::HunkLine { diff, .. } => diff.diff_type == DiffType::WorkdirToIndex,
        _ => false,
    }
}

/// Patches compare by their text or by what they request.
pub open spec fn same_input(a: Input, b: Input) -> bool {
    match (a, b) {
        (Input::Nothing, Input::Nothing) => true,
        (Input::Text(x), Input::Text(y)) => x@ == y@,
        (
            Input::LinePatch { diff: d1, file_i: f1, hunk_i: h1, start: s1, end: e1, mode: m1 },
            Input::LinePatch { diff: d2, file_i: f2, hunk_i: h2, start: s2, end: e2, mode: m2 },
        ) => d1 == d2 && f1 == f2 && h1 == h2 && s1 == s2 && e1 == e2 && m1 == m2,
        _ => false,
    }
}

/// `action` is the discard of the item under the cursor: a local branch is
/// deleted, an untracked file cleaned, a file, hunk or line reverted (in the
/// worktree for unstaged changes, in the index and worktree otherwise);
/// anything else cannot be discarded.
pub open spec fn discard_action_for(target: ItemData, action: Option<DiscardAction>) -> bool {
    match target {
        ItemData::Reference { kind: Ref::Head(b), .. } => action matches Some(
            DiscardAction::Branch(x),
        ) && x@ == b@,
        ItemData::Untracked(f) => action matches Some(DiscardAction::Clean(fs)) && views(fs@) == seq![
            f@,
        ],
        ItemData::Delta { .. } | ItemData::Hunk { .. } | ItemData::HunkLine { .. } => if from_worktree(
            target,
        ) {
            action matches Some(DiscardAction::ReverseWorktree(p)) && same_input(
                p,
                item_patch(target)->0,
            )
        } else {
            action matches Some(DiscardAction::ReverseIndexAndWorktree(p)) && same_input(
                p,
                item_patch(target)->0,
            )
        },
        _ => action is None,
    }
}

/// The input for the patch of a file, hunk or line item.
fn patch_of(target: &ItemData) -> (p: Input)
    requires
        target.well_formed(),
        target is Delta || target is Hunk || target is HunkLine,
    ensures
        same_input(p, item_patch(*target)->0),
{
    match target {
        ItemData::Delta { diff, file_i, .. } => Input::Text(diff.format_file_patch(*file_i)),
        ItemData::Hunk { diff, file_i, hunk_i } => Input::Text(
            diff.file_diffs[*file_i].hunks[*hunk_i].patch.clone(),
        ),
        ItemData::HunkLine { diff, file_i, hunk_i, line_i } => {
            let line_count = diff.file_diffs[*file_i].hunks[*hunk_i].lines.len();
            assert(*line_i < line_count);
            Input::LinePatch {
                diff: diff.clone(),
                file_i: *file_i,
                hunk_i: *hunk_i,
                start: *line_i,
                end: *line_i + 1,
                mode: PatchMode::Reverse,
            }
        },
        _ => Input::Nothing,
    }
}

pub fn target_discard_action(target: &ItemData) -> (r: Option<DiscardAction>)
    requires
        target.well_formed(),
    ensures
        discard_action_for(*target, r),
{
    match target {
        ItemData::Reference { kind: Ref::Head(branch), .. } => Some(DiscardAction::Branch(branch.clone())),
        ItemData::Untracked(file) => {
            let files = vec![file.clone()];
            assert(views(files@) =~= seq![file@]);
            Some(DiscardAction::Clean(files))
        },
        ItemData::Delta { diff, .. } | ItemData::Hunk { diff, .. } | ItemData::HunkLine { diff, .. } => {
            let patch = patch_of(target);
            match diff.diff_type {
                DiffType::WorkdirToIndex => Some(DiscardAction::ReverseWorktree(patch)),
                DiffType::IndexToTree => Some(DiscardAction::ReverseIndexAndWorktree(patch)),
                DiffType::TreeToTree => Some(DiscardAction::ReverseIndexAndWorktree(patch)),
            }
        },
        _ => None,
    }
}

/// Discarding the item under the cursor: an unstaged file, hunk or line
/// (of the diff of the worktree against the index) is reverted in the
/// worktree alone, a staged one (of any other diff) in the index and the
/// worktree; the patch is the file's for a file, the hunk's alone for a
/// hunk, and the reverse of that one line for a line; a local branch is
/// deleted, an untracked file cleaned, and nothing else is discarded.
pub proof fn law_discard_by_diff_type(target: ItemData, r: Option<DiscardAction>)
    requires
        target.well_formed(),
        discard_action_for(target, r),
    ensures
        ({
            match target {
                ItemData::Delta { diff, file_i, .. } => {
                    let want = diff.file_diffs@[file_i as int].patch@;
                    if diff.diff_type == DiffType::WorkdirToIndex {
                        r matches Some(DiscardAction::ReverseWorktree(Input::Text(p))) && p@ == want
                    } else {
                        r matches Some(DiscardAction::ReverseIndexAndWorktree(Input::Text(p))) && p@
                            == want
                    }
                },
                ItemData::Hunk { diff, file_i, hunk_i } => {
                    let want = diff.file_diffs@[file_i as int].hunks@[hunk_i as int].patch@;
                    if diff.diff_type == DiffType::WorkdirToIndex {
                        r matches Some(DiscardAction::ReverseWorktree(Input::Text(p))) && p@ == want
                    } else {
                        r matches Some(DiscardAction::ReverseIndexAndWorktree(Input::Text(p))) && p@
                            == want
                    }
                },
                ItemData::HunkLine { diff, file_i, hunk_i, line_i } => {
                    let line = (Input::LinePatch {
                        diff: diff,
                        file_i: file_i,
                        hunk_i: hunk_i,
                        start: line_i,
                        end: (line_i + 1) as usize,
                        mode: PatchMode::Reverse,
                    });
                    if diff.diff_type == DiffType::WorkdirToIndex {
                        r == Some(DiscardAction::ReverseWorktree(line))
                    } else {
                        r == Some(DiscardAction::ReverseIndexAndWorktree(line))
                    }
                },
                ItemData::Reference { kind: Ref::Head(b), .. } => r matches Some(
                    DiscardAction::Branch(x),
                ) && x@ == b@,
                ItemData::Untracked(f) => r matches Some(DiscardAction::Clean(fs)) && fs@.len() == 1
                    && fs@[0]@ == f@,
                _ => r is None,
            }
        }),
{
    if let ItemData::Untracked(f) = target {
        if let Some(DiscardAction::Clean(fs)) = r {
            assert(views(fs@).len() == 1);
            assert(views(fs@)[0] == fs@[0]@);
        }
    }
}

/// Whether discarding asks for confirmation under `option`.
pub fn confirm_discard(option: ConfirmDiscardOption) -> (b: bool)
    ensures
        b == confirms_discard(option),
{
    option.rank() <= ConfirmDiscardOption::File.rank()
}

/// Discarding a branch deletes it (see [`branch::delete`]), always after
/// confirmation.
pub fn discard_branch(current_branch: &str, branch: &str, merged: bool) -> (r: Result<
    branch::DeletePlan,
    Error,
>)
    ensures
        branch@.len() == 0 ==> r matches Err(Error::BranchNameRequired),
        branch@.len() > 0 && branch@ == current_branch@ ==> r matches Err(
            Error::CannotDeleteCurrentBranch,
        ),
        branch@.len() > 0 && branch@ != current_branch@ ==> (r matches Ok(p)
            && p.confirm_unmerged == !merged && p.command.argv() == branch::delete_argv(
            seq![branch@],
            !merged,
        )),
{
    branch::delete(current_branch, branch, merged)
}

/// `git clean --force <files...>`.
pub fn clean_files(files: &Vec<String>) -> (c: GitCommand)
    ensures
        c.argv() == seq!["clean"@, "--force"@] + views(files@),
        c.input is Nothing,
        c.env@.len() == 0,
{
    let mut args = strings(&["clean", "--force"]);
    assert(str_views(seq!["clean", "--force"]) =~= seq!["clean"@, "--force"@]);
    extend_strings(&mut args, files);
    GitCommand::new(args)
}

/// Cleaning one untracked file.
pub fn clean_file(file: &str) -> (c: GitCommand)
    ensures
        c.argv() == seq!["clean"@, "--force"@, file@],
{
    let files = vec![file.to_owned()];
    assert(views(files@) =~= seq![file@]);
    let c = clean_files(&files);
    assert(seq!["clean"@, "--force"@] + seq![file@] =~= seq!["clean"@, "--force"@, file@]);
    c
}

/// `git apply --reverse --recount`, reading the patch.
pub fn reverse_worktree(patch: Input) -> (c: GitCommand)
    ensures
        c.argv() == seq!["apply"@, "--reverse"@, "--recount"@],
        c.input == patch,
        c.env@.len() == 0,
{
    let args = strings(&["apply", "--reverse", "--recount"]);
    assert(str_views(seq!["apply", "--reverse", "--recount"]) =~= seq![
        "apply"@,
        "--reverse"@,
        "--recount"@,
    ]);
    GitCommand { args, input: patch, env: Vec::new() }
}

/// `git apply --reverse --index --recount`, reading the patch.
pub fn reverse_index_and_worktree(patch: Input) -> (c: GitCommand)
    ensures
        c.argv() == seq!["apply"@, "--reverse"@, "--index"@, "--recount"@],
        c.input == patch,
        c.env@.len() == 0,
{
    let args = strings(&["apply", "--reverse", "--index", "--recount"]);
    assert(str_views(seq!["apply", "--reverse", "--index", "--recount"]) =~= seq![
        "apply"@,
        "--reverse"@,
        "--index"@,
        "--recount"@,
    ]);
    GitCommand { args, input: patch, env: Vec::new() }
}

/// Discarding selected lines of a hunk: their reverse patch applied to the
/// worktree for an unstaged diff, to the index and worktree otherwise.
pub fn discard_line_range(selection: &HunkLineSelection) -> (c: GitCommand)
    ensures
        c.input == (Input::LinePatch {
            diff: selection.diff,
            file_i: selection.file_i,
            hunk_i: selection.hunk_i,
            start: selection.line_start,
            end: selection.line_end,
            mode: PatchMode::Reverse,
        }),
        selection.diff.diff_type == DiffType::WorkdirToIndex ==> c.argv() == seq![
            "apply"@,
            "--reverse"@,
            "--recount"@,
        ],
        selection.diff.diff_type != DiffType::WorkdirToIndex ==> c.argv() == seq![
            "apply"@,
            "--reverse"@,
            "--index"@,
            "--recount"@,
        ],
{
    let patch = Input::LinePatch {
        diff: selection.diff.clone(),
        file_i: selection.file_i,
        hunk_i: selection.hunk_i,
        start: selection.line_start,
        end: selection.line_end,
        mode: PatchMode::Reverse,
    };
    match selection.diff.diff_type {
        DiffType::WorkdirToIndex => reverse_worktree(patch),
        DiffType::IndexToTree | DiffType::TreeToTree => reverse_index_and_worktree(patch),
    }
}

/// The concatenation of patches.
pub open spec fn concat(patches: Seq<Seq<char>>) -> Seq<char> {
    join(patches, seq![])
}

/// All patches of `files`, one after another.
fn concat_patches(files: &Vec<crate::screen::selection::FileSelectionDiff>) -> (s: String)
    ensures
        s@ == concat(diff_patches(files@)),
{
    let mut s = String::new();
    let mut i: usize = 0;
    while i < files.len()
        invariant
            i <= files@.len(),
            s@ == concat(diff_patches(files@.take(i as int))),
        decreases files@.len() - i,
    {
        s.append(files[i].patch.as_str());
        proof {
            let cur = diff_patches(files@.take(i + 1));
            assert(files@.take(i + 1).drop_last() =~= files@.take(i as int));
            assert(cur.drop_last() =~= diff_patches(files@.take(i as int)));
            assert(cur.last() == files@[i as int].patch@);
            if i == 0 {
                assert(cur.len() == 1);
                assert(s@ =~= cur[0]);
            } else {
                assert(join(cur, seq![]) == join(cur.drop_last(), seq![]) + seq![] + cur.last());
                assert(s@ =~= join(cur, seq![]));
            }
        }
        i = i + 1;
    }
    assert(files@.take(files@.len() as int) =~= files@);
    s
}

/// What a command reads, when it is text or nothing: `Some(None)` for
/// nothing, `Some(Some(text))` for text.
pub open spec fn plain_input(i: Input) -> Option<Option<Seq<char>>> {
    match i {
        Input::Nothing => Some(None),
        Input::Text(t) => Some(Some(t@)),
        Input::LinePatch { .. } => None,
    }
}

/// The steps of discarding selected files, as arguments, input and
/// environment: clean the untracked ones, revert the unstaged ones' patches
/// in the worktree, the staged ones' in the index and worktree, each only
/// when it has something to do, and none with an environment of its own.
pub open spec fn file_selection_steps(selection: FileSelection) -> Seq<
    (Seq<Seq<char>>, Option<Option<Seq<char>>>, Seq<(Seq<char>, Seq<char>)>),
> {
    let unstaged = concat(diff_patches(selection.unstaged@));
    let staged = concat(diff_patches(selection.staged@));
    (if selection.untracked@.len() > 0 {
        seq![
            (
                seq!["clean"@, "--force"@] + views(selection.untracked@),
                Some(None::<Seq<char>>),
                Seq::<(Seq<char>, Seq<char>)>::empty(),
            ),
        ]
    } else {
        seq![]
    }) + (if unstaged.len() > 0 {
        seq![
            (
                seq!["apply"@, "--reverse"@, "--recount"@],
                Some(Some(unstaged)),
                Seq::<(Seq<char>, Seq<char>)>::empty(),
            ),
        ]
    } else {
        seq![]
    }) + (if staged.len() > 0 {
        seq![
            (
                seq!["apply"@, "--reverse"@, "--index"@, "--recount"@],
                Some(Some(staged)),
                Seq::<(Seq<char>, Seq<char>)>::empty(),
            ),
        ]
    } else {
        seq![]
    })
}

/// The environment a command sets, as character sequences.
pub open spec fn env_views(env: Seq<(String, String)>) -> Seq<(Seq<char>, Seq<char>)> {
    env.map_values(|e: (String, String)| (e.0@, e.1@))
}

/// The arguments, plain input and environment of each command.
pub open spec fn command_steps(cmds: Seq<GitCommand>) -> Seq<
    (Seq<Seq<char>>, Option<Option<Seq<char>>>, Seq<(Seq<char>, Seq<char>)>),
> {
    cmds.map_values(|c: GitCommand| (c.argv(), plain_input(c.input), env_views(c.env@)))
}

/// Discarding selected files (see [`file_selection_steps`]).
pub fn discard_file_selection(selection: &FileSelection) -> (cmds: Vec<GitCommand>)
    ensures
        command_steps(cmds@) == file_selection_steps(*selection),
{
    let mut cmds: Vec<GitCommand> = Vec::new();
    if selection.untracked.len() > 0 {
        cmds.push(clean_files(&selection.untracked));
    }
    let unstaged = concat_patches(&selection.unstaged);
    if !unstaged.as_str().is_empty() {
        cmds.push(reverse_worktree(Input::Text(unstaged)));
    }
    let staged = concat_patches(&selection.staged);
    if !staged.as_str().is_empty() {
        cmds.push(reverse_index_and_worktree(Input::Text(staged)));
    }
    proof {
        assert forall|i: int| 0 <= i < cmds@.len() implies env_views(cmds@[i].env@) =~= Seq::<
            (Seq<char>, Seq<char>),
        >::empty() by {}
    }
    assert(command_steps(cmds@) =~= file_selection_steps(*selection));
    cmds
}

} // verus!
