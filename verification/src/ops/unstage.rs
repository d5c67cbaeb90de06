//! Unstaging: everything, a file, a hunk, a line, selected lines or
//! selected files, by resetting the index or reverse-applying a patch to it.
use vstd::prelude::*;

use super::{extend_strings, strings, str_views, views, GitCommand, Input};
use crate::diff::PatchMode;
use crate::item_data::ItemData;
use crate::screen::selection::{diff_paths, FileSelection, HunkLineSelection};

verus! {

/// What unstaging the item under the cursor does.
pub enum UnstageAction {
    /// Unstage everything (`git reset HEAD --`).
    Staged,
    /// Restore the index entry of one file from `HEAD`.
    RestoreIndex(String),
    /// Reverse-apply a hunk's patch to the index.
    Patch(String),
    /// Reverse-apply a line's patch to the index.
    Line(Input),
}

/// `action` is the unstaging of the item under the cursor: the staged
/// section unstages everything, a file restores its index entry, a hunk or
/// line has its patch reverse-applied to the index; anything else cannot be
/// unstaged.
pub open spec fn unstage_action_for(target: ItemData, action: Option<UnstageAction>) -> bool {
    match target {
        ItemData::AllStaged(_) => action matches Some(UnstageAction::Staged),
        ItemData::Delta { diff, file_i, .. } => action matches Some(UnstageAction::RestoreIndex(p))
            && p@ == diff.file_path(file_i as int),
        ItemData::Hunk { diff, file_i, hunk_i } => action matches Some(UnstageAction::Patch(p))
            && p@ == diff.file_diffs@[file_i as int].hunks@[hunk_i as int].patch@,
        ItemData::HunkLine { diff, file_i, hunk_i, line_i } => action == Some(
            UnstageAction::Line(
                Input::LinePatch {
                    diff: diff,
                    file_i: file_i,
                    hunk_i: hunk_i,
                    start: line_i,
                    end: (line_i + 1) as usize,
                    mode: PatchMode::Reverse,
                },
            ),
        ),
        _ => action is None,
    }
}

pub fn target_unstage_action(target: &ItemData) -> (r: Option<UnstageAction>)
    requires
        target.well_formed(),
    ensures
        unstage_action_for(*target, r),
{
    match target {
        ItemData::AllStaged(_) => Some(UnstageAction::Staged),
        ItemData::Delta { diff, file_i, .. } => Some(UnstageAction::RestoreIndex(diff.delta_path(*file_i))),
        ItemData::Hunk { diff, file_i, hunk_i } => Some(
            UnstageAction::Patch(diff.file_diffs[*file_i].hunks[*hunk_i].patch.clone()),
        ),
        ItemData::HunkLine { diff, file_i, hunk_i, line_i } => {
            let line_count = diff.file_diffs[*file_i].hunks[*hunk_i].lines.len();
            assert(*line_i < line_count);
            Some(
                UnstageAction::Line(
                    Input::LinePatch {
                        diff: diff.clone(),
                        file_i: *file_i,
                        hunk_i: *hunk_i,
                        start: *line_i,
                        end: *line_i + 1,
                        mode: PatchMode::Reverse,
                    },
                ),
            )
        },
        _ => None,
    }
}

/// Unstaging the item under the cursor: the staged section resets
/// everything; a file restores the index entry of its own path; a hunk
/// reverse-applies the patch of that hunk alone (not the whole file's); a
/// line reverse-applies the patch of that one line; nothing else is
/// unstaged.
pub proof fn law_unstage_target(target: ItemData, r: Option<UnstageAction>)
    requires
        target.well_formed(),
        unstage_action_for(target, r),
    ensures
        ({
            match target {
                ItemData::AllStaged(_) => r matches Some(UnstageAction::Staged),
                ItemData::Delta { diff, file_i, .. } => r matches Some(UnstageAction::RestoreIndex(p))
                    && p@ == diff.file_diffs@[file_i as int].header.path(),
                ItemData::Hunk { diff, file_i, hunk_i } => r matches Some(UnstageAction::Patch(p))
                    && p@ == diff.file_diffs@[file_i as int].hunks@[hunk_i as int].patch@,
                ItemData::HunkLine { diff, file_i, hunk_i, line_i } => r matches Some(
                    UnstageAction::Line(Input::LinePatch { diff: d, file_i: f, hunk_i: h, start, end, mode }),
                ) && d == diff && f == file_i && h == hunk_i && start == line_i && end == (line_i + 1) as usize
                    && mode == PatchMode::Reverse,
                _ => r is None,
            }
        }),
{
}

/// `git reset HEAD --`.
pub fn unstage_staged() -> (c: GitCommand)
    ensures
        c.argv() == seq!["reset"@, "HEAD"@, "--"@],
        c.input is Nothing,
{
    let args = strings(&["reset", "HEAD", "--"]);
    assert(str_views(seq!["reset", "HEAD", "--"]) =~= seq!["reset"@, "HEAD"@, "--"@]);
    GitCommand::new(args)
}

/// `git restore --staged <files...>`.
pub fn unstage_files(files: &Vec<String>) -> (c: GitCommand)
    ensures
        c.argv() == seq!["restore"@, "--staged"@] + views(files@),
        c.input is Nothing,
{
    let mut args = strings(&["restore", "--staged"]);
    assert(str_views(seq!["restore", "--staged"]) =~= seq!["restore"@, "--staged"@]);
    extend_strings(&mut args, files);
    GitCommand::new(args)
}

/// Restores the index entry of one file from `HEAD` (`git restore --staged <file>`).
pub fn unstage_file(file: &str) -> (c: GitCommand)
    ensures
        c.argv() == seq!["restore"@, "--staged"@, file@],
        c.input is Nothing,
{
    let args = strings(&["restore", "--staged", file]);
    assert(str_views(seq!["restore", "--staged", file]) =~= seq!["restore"@, "--staged"@, file@]);
    GitCommand::new(args)
}

/// The files of a selection that can be unstaged: the staged ones.
pub fn unstageable_files(selection: &FileSelection) -> (v: Vec<String>)
    ensures
        views(v@) == diff_paths(selection.staged@),
{
    let mut v: Vec<String> = Vec::new();
    let mut i: usize = 0;
    while i < selection.staged.len()
        invariant
            i <= selection.staged@.len(),
            views(v@) == diff_paths(selection.staged@.take(i as int)),
        decreases selection.staged@.len() - i,
    {
        let ghost before = views(v@);
        v.push(selection.staged[i].path.clone());
        proof {
            assert(selection.staged@.take(i + 1) =~= selection.staged@.take(i as int).push(
                selection.staged@[i as int],
            ));
            assert(views(v@) =~= before.push(selection.staged@[i as int].path@));
            assert(diff_paths(selection.staged@.take(i + 1)) =~= diff_paths(
                selection.staged@.take(i as int),
            ).push(selection.staged@[i as int].path@));
        }
        i = i + 1;
    }
    assert(selection.staged@.take(selection.staged@.len() as int) =~= selection.staged@);
    v
}

/// `git apply --cached --reverse`, reading a hunk's patch.
pub fn unstage_patch(patch: String) -> (c: GitCommand)
    ensures
        c.argv() == seq!["apply"@, "--cached"@, "--reverse"@],
        c.input == Input::Text(patch),
{
    let args = strings(&["apply", "--cached", "--reverse"]);
    assert(str_views(seq!["apply", "--cached", "--reverse"]) =~= seq![
        "apply"@,
        "--cached"@,
        "--reverse"@,
    ]);
    GitCommand { args, input: Input::Text(patch), env: Vec::new() }
}

/// `git apply --cached --reverse --recount`, reading a line patch.
pub fn unstage_line(patch: Input) -> (c: GitCommand)
    ensures
        c.argv() == seq!["apply"@, "--cached"@, "--reverse"@, "--recount"@],
        c.input == patch,
{
    let args = strings(&["apply", "--cached", "--reverse", "--recount"]);
    assert(str_views(seq!["apply", "--cached", "--reverse", "--recount"]) =~= seq![
        "apply"@,
        "--cached"@,
        "--reverse"@,
        "--recount"@,
    ]);
    GitCommand { args, input: patch, env: Vec::new() }
}

/// Unstaging selected lines: their reverse patch applied to the index.
pub fn unstage_line_range(selection: &HunkLineSelection) -> (c: GitCommand)
    ensures
        c.argv() == seq!["apply"@, "--cached"@, "--reverse"@, "--recount"@],
        c.input == (Input::LinePatch {
            diff: selection.diff,
            file_i: selection.file_i,
            hunk_i: selection.hunk_i,
            start: selection.line_start,
            end: selection.line_end,
            mode: PatchMode::Reverse,
        }),
{
    unstage_line(
        Input::LinePatch {
            diff: selection.diff.clone(),
            file_i: selection.file_i,
            hunk_i: selection.hunk_i,
            start: selection.line_start,
            end: selection.line_end,
            mode: PatchMode::Reverse,
        },
    )
}

} // verus!
