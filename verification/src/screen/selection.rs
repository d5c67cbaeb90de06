//! What a marked range of a screen selects: a run of lines of one hunk, or
//! a set of files by state (untracked, unstaged, staged).
use vstd::prelude::*;

use crate::diff::Diff;
use crate::ops::views;
use std::rc::Rc;

verus! {

/// Lines `line_start..line_end` of hunk `hunk_i` of file `file_i` of `diff`.
pub struct HunkLineSelection {
    pub diff: Rc<Diff>,
    pub file_i: usize,
    pub hunk_i: usize,
    pub line_start: usize,
    pub line_end: usize,
}

/// A changed file picked from a diff: its path and its patch.
pub struct FileSelectionDiff {
    pub path: String,
    pub patch: String,
}

/// The files of a selection, by state, each listed once.
pub struct FileSelection {
    pub untracked: Vec<String>,
    pub unstaged: Vec<FileSelectionDiff>,
    pub staged: Vec<FileSelectionDiff>,
}

/// The paths of selected diffs.
pub open spec fn diff_paths(files: Seq<FileSelectionDiff>) -> Seq<Seq<char>> {
    files.map_values(|f: FileSelectionDiff| f.path@)
}

/// The patches of selected diffs, in order.
pub open spec fn diff_patches(files: Seq<FileSelectionDiff>) -> Seq<Seq<char>> {
    files.map_values(|f: FileSelectionDiff| f.patch@)
}

/// `s` with `x` added unless it is there already.
pub open spec fn push_new(s: Seq<Seq<char>>, x: Seq<char>) -> Seq<Seq<char>> {
    if s.contains(x) {
        s
    } else {
        s.push(x)
    }
}

impl FileSelection {
    pub open spec fn well_formed(&self) -> bool {
        &&& views(self.untracked@).no_duplicates()
        &&& diff_paths(self.unstaged@).no_duplicates()
        &&& diff_paths(self.staged@).no_duplicates()
    }

    pub open spec fn spec_is_empty(&self) -> bool {
        &&& self.untracked@.len() == 0
        &&& self.unstaged@.len() == 0
        &&& self.staged@.len() == 0
    }

    pub fn new() -> (s: FileSelection)
        ensures
            s.spec_is_empty(),
            s.well_formed(),
    {
        let s = FileSelection { untracked: Vec::new(), unstaged: Vec::new(), staged: Vec::new() };
        assert(views(s.untracked@) =~= Seq::<Seq<char>>::empty());
        assert(diff_paths(s.unstaged@) =~= Seq::<Seq<char>>::empty());
        assert(diff_paths(s.staged@) =~= Seq::<Seq<char>>::empty());
        s
    }

    pub fn is_empty(&self) -> (b: bool)
        ensures
            b == self.spec_is_empty(),
    {
        self.untracked.len() == 0 && self.unstaged.len() == 0 && self.staged.len() == 0
    }

    pub fn push_untracked(&mut self, path: String)
        requires
            old(self).well_formed(),
        ensures
            final(self).well_formed(),
            views(final(self).untracked@) == push_new(views(old(self).untracked@), path@),
            final(self).unstaged == old(self).unstaged,
            final(self).staged == old(self).staged,
    {
        push_unique(&mut self.untracked, path);
    }

    pub fn push_unstaged(&mut self, diff: &Diff, file_i: usize)
        requires
            old(self).well_formed(),
            diff.has_file(file_i as int),
        ensures
            final(self).well_formed(),
            diff_paths(final(self).unstaged@) == push_new(
                diff_paths(old(self).unstaged@),
                diff.file_path(file_i as int),
            ),
            diff_patches(final(self).unstaged@) == if diff_paths(old(self).unstaged@).contains(
                diff.file_path(file_i as int),
            ) {
                diff_patches(old(self).unstaged@)
            } else {
                diff_patches(old(self).unstaged@).push(diff.file_diffs@[file_i as int].patch@)
            },
            final(self).untracked == old(self).untracked,
            final(self).staged == old(self).staged,
    {
        push_unique_diff(&mut self.unstaged, diff, file_i);
    }

    pub fn push_staged(&mut self, diff: &Diff, file_i: usize)
        requires
            old(self).well_formed(),
            diff.has_file(file_i as int),
        ensures
            final(self).well_formed(),
            diff_paths(final(self).staged@) == push_new(
                diff_paths(old(self).staged@),
                diff.file_path(file_i as int),
            ),
            diff_patches(final(self).staged@) == if diff_paths(old(self).staged@).contains(
                diff.file_path(file_i as int),
            ) {
                diff_patches(old(self).staged@)
            } else {
                diff_patches(old(self).staged@).push(diff.file_diffs@[file_i as int].patch@)
            },
            final(self).untracked == old(self).untracked,
            final(self).unstaged == old(self).unstaged,
    {
        push_unique_diff(&mut self.staged, diff, file_i);
    }
}

/// Whether some path of `paths` has the characters of `path`.
fn contains_path(paths: &Vec<String>, path: &str) -> (b: bool)
    ensures
        b == views(paths@).contains(path@),
{
    let mut i: usize = 0;
    while i < paths.len()
        invariant
            i <= paths@.len(),
            forall|j: int| 0 <= j < i ==> paths@[j]@ != path@,
        decreases paths@.len() - i,
    {
        if crate::text::same_text(paths[i].as_str(), path) {
            assert(views(paths@)[i as int] == path@);
            return true;
        }
        i = i + 1;
    }
    proof {
        if views(paths@).contains(path@) {
            let k = choose|k: int| 0 <= k < views(paths@).len() && views(paths@)[k] == path@;
            assert(paths@[k]@ == path@);
        }
    }
    false
}

/// Adds `path` to `paths` unless it is listed already.
pub fn push_unique(paths: &mut Vec<String>, path: String)
    requires
        views(old(paths)@).no_duplicates(),
    ensures
        views(final(paths)@) == push_new(views(old(paths)@), path@),
        views(final(paths)@).no_duplicates(),
{
    if !contains_path(paths, path.as_str()) {
        let ghost before = views(paths@);
        let ghost p = path@;
        paths.push(path);
        assert(views(paths@) =~= before.push(p));
    }
}

/// Whether some selected diff is for `path`.
fn contains_diff_path(files: &Vec<FileSelectionDiff>, path: &str) -> (b: bool)
    ensures
        b == diff_paths(files@).contains(path@),
{
    let mut i: usize = 0;
    while i < files.len()
        invariant
            i <= files@.len(),
            forall|j: int| 0 <= j < i ==> files@[j].path@ != path@,
        decreases files@.len() - i,
    {
        if crate::text::same_text(files[i].path.as_str(), path) {
            assert(diff_paths(files@)[i as int] == path@);
            return true;
        }
        i = i + 1;
    }
    proof {
        if diff_paths(files@).contains(path@) {
            let k = choose|k: int| 0 <= k < diff_paths(files@).len() && diff_paths(files@)[k] == path@;
            assert(files@[k].path@ == path@);
        }
    }
    false
}

/// Adds file `file_i` of `diff` unless a diff for its path is listed already.
pub fn push_unique_diff(files: &mut Vec<FileSelectionDiff>, diff: &Diff, file_i: usize)
    requires
        diff_paths(old(files)@).no_duplicates(),
        diff.has_file(file_i as int),
    ensures
        diff_paths(final(files)@) == push_new(diff_paths(old(files)@), diff.file_path(file_i as int)),
        diff_paths(final(files)@).no_duplicates(),
        diff_patches(final(files)@) == if diff_paths(old(files)@).contains(
            diff.file_path(file_i as int),
        ) {
            diff_patches(old(files)@)
        } else {
            diff_patches(old(files)@).push(diff.file_diffs@[file_i as int].patch@)
        },
{
    let path = diff.delta_path(file_i);
    if !contains_diff_path(files, path.as_str()) {
        let ghost before = files@;
        let entry = FileSelectionDiff { path, patch: diff.format_file_patch(file_i) };
        let ghost e = entry;
        files.push(entry);
        assert(files@ =~= before.push(e));
        assert(diff_paths(files@) =~= diff_paths(before).push(e.path@));
        assert(diff_patches(files@) =~= diff_patches(before).push(e.patch@));
    }
}

} // verus!
