//! The parsed diff that status, show and stash screens display: per file a
//! header (change kind and paths), its hunks, and the patch text git
//! applies to stage, unstage or discard that file or hunk.
use vstd::prelude::*;

verus! {

/// Which two states of the repository a diff compares.
#[derive(Clone, Copy, Debug, PartialEq, Eq, Structural)]
pub enum DiffType {
    WorkdirToIndex,
    IndexToTree,
    TreeToTree,
}

/// The kind of change a file diff records.
#[derive(Clone, Copy, Debug, PartialEq, Eq, Structural)]
pub enum Status {
    Added,
    Deleted,
    Modified,
    Renamed,
    Copied,
    Unmerged,
}

/// Whether a patch re-applies or reverts the selected lines.
#[derive(Clone, Copy, Debug, PartialEq, Eq, Structural)]
pub enum PatchMode {
    Normal,
    Reverse,
}

pub struct FileHeader {
    pub status: Status,
    pub old_file: String,
    pub new_file: String,
}

pub struct Hunk {
    /// The `@@ -a,b +c,d @@` line.
    pub header: String,
    /// The hunk's body, one entry per line, as shown on screen.
    pub lines: Vec<String>,
    /// The patch of this hunk alone (file header included).
    pub patch: String,
}

pub struct FileDiff {
    pub header: FileHeader,
    pub hunks: Vec<Hunk>,
    /// The patch of the whole file.
    pub patch: String,
}

pub struct Diff {
    /// Identifies the diff an item was made from: two items come from the
    /// same diff exactly when their ids are equal.
    pub id: u64,
    pub diff_type: DiffType,
    pub file_diffs: Vec<FileDiff>,
}

impl FileHeader {
    /// The path a file diff is known by: the old one for a deletion, else the new one.
    pub open spec fn path(&self) -> Seq<char> {
        if self.status == Status::Deleted {
            self.old_file@
        } else {
            self.new_file@
        }
    }

    /// See [`FileHeader::path`].
    pub fn path_string(&self) -> (p: String)
        ensures
            p@ == self.path(),
    {
        match self.status {
            Status::Deleted => self.old_file.clone(),
            _ => self.new_file.clone(),
        }
    }
}

impl Diff {
    pub open spec fn has_file(&self, file_i: int) -> bool {
        0 <= file_i < self.file_diffs@.len()
    }

    pub open spec fn has_hunk(&self, file_i: int, hunk_i: int) -> bool {
        &&& self.has_file(file_i)
        &&& 0 <= hunk_i < self.file_diffs@[file_i].hunks@.len()
    }

    pub open spec fn has_line(&self, file_i: int, hunk_i: int, line_i: int) -> bool {
        &&& self.has_hunk(file_i, hunk_i)
        &&& 0 <= line_i < self.file_diffs@[file_i].hunks@[hunk_i].lines@.len()
    }

    /// The path of file `file_i` (see [`FileHeader::path`]).
    pub open spec fn file_path(&self, file_i: int) -> Seq<char> {
        self.file_diffs@[file_i].header.path()
    }

    /// The patch of file `file_i`.
    pub fn format_file_patch(&self, file_i: usize) -> (p: String)
        requires
            self.has_file(file_i as int),
        ensures
            p@ == self.file_diffs@[file_i as int].patch@,
    {
        self.file_diffs[file_i].patch.clone()
    }

    /// The path of file `file_i`: the old path of a deleted file, else the
    /// new one.
    pub fn delta_path(&self, file_i: usize) -> (p: String)
        requires
            self.has_file(file_i as int),
        ensures
            p@ == self.file_path(file_i as int),
    {
        self.file_diffs[file_i].header.path_string()
    }
}

} // verus!
