//! What each line of a screen stands for, and the text it is shown with.
use vstd::prelude::*;

use crate::diff::{Diff, Status};
use crate::text::{
    decimal, expand_tabs, join, pad_left, pad_right, push_decimal, push_expanded_tabs,
    push_padded_right, spaces,
};
use std::rc::Rc;

verus! {

#[derive(Clone, Copy, Debug, PartialEq, Eq, Structural)]
pub enum BranchMergeStatus {
    Merged,
    Unmerged,
}

/// A reference in git, as found in `.git/refs/heads`, `.git/refs/tags`, etc.
#[derive(Debug)]
pub enum Ref {
    Tag(String),
    Head(String),
    Remote(String),
}

/// A revision: a named reference or a commit id.
#[derive(Debug)]
pub enum Rev {
    Ref(Ref),
    Commit(String),
}

#[derive(Debug)]
pub enum SectionHeader {
    Remote(String),
    Tags,
    Branches,
    NoBranch,
    OnBranch(String),
    Rebase(String, String),
    Merge(String),
    Revert(String),
    CherryPick(String),
    Stashes,
    RecentCommits,
    Commit(String),
    StashRef(String),
    StagedChanges(usize),
    UnstagedChanges(usize),
    UntrackedFiles(usize),
    Blame(String, String),
}

/// The data behind one item of a screen. Paths are held as the strings that
/// are displayed for them.
pub enum ItemData {
    Raw(String),
    AllUnstaged(usize),
    AllStaged(usize),
    AllUntracked(Vec<String>),
    Reference {
        prefix: String,
        kind: Ref,
        short_id: String,
        summary: String,
        merge_status: Option<BranchMergeStatus>,
    },
    Commit {
        oid: String,
        short_id: String,
        associated_references: Vec<Ref>,
        summary: String,
        author: String,
        age: String,
    },
    Untracked(String),
    Delta { diff: Rc<Diff>, file_i: usize, commit: Option<String> },
    Hunk { diff: Rc<Diff>, file_i: usize, hunk_i: usize },
    HunkLine { diff: Rc<Diff>, file_i: usize, hunk_i: usize, line_i: usize },
    Stash { message: String, stash_ref: String, id: usize },
    Header(SectionHeader),
    BranchStatus(String, u32, u32),
    Error(String),
    BlameHeader {
        commit_hash: String,
        short_hash: String,
        author: String,
        author_time: i64,
        summary: String,
        file_path: String,
        /// Line in the commit that introduced it (for show-screen navigation).
        line_num: u32,
        /// Line in the blamed file (for blame-view navigation).
        blamed_line_num: u32,
    },
    BlameCodeLine {
        line_i: usize,
        line_num: u32,
        orig_line_num: u32,
        content: String,
        commit_hash: String,
        file_path: String,
    },
}

impl Ref {
    /// The name without its `refs/...` prefix.
    pub open spec fn name(&self) -> Seq<char> {
        match self {
            Ref::Tag(n) => n@,
            Ref::Head(n) => n@,
            Ref::Remote(n) => n@,
        }
    }

    /// The fully qualified refname.
    pub open spec fn full_refname(&self) -> Seq<char> {
        match self {
            Ref::Head(n) => "refs/heads/"@ + n@,
            Ref::Tag(n) => "refs/tags/"@ + n@,
            Ref::Remote(n) => "refs/remotes/"@ + n@,
        }
    }

    /// A copy of this reference.
    pub fn duplicate(&self) -> (r: Ref)
        ensures
            r == *self,
    {
        match self {
            Ref::Tag(n) => Ref::Tag(n.clone()),
            Ref::Head(n) => Ref::Head(n.clone()),
            Ref::Remote(n) => Ref::Remote(n.clone()),
        }
    }

    /// Convert to fully qualified refname (e.g., "refs/heads/main", "refs/tags/v1.0.0")
    pub fn to_full_refname(&self) -> (s: String)
        ensures
            s@ == self.full_refname(),
    {
        match self {
            Ref::Head(name) => {
                let mut s = "refs/heads/".to_owned();
                s.append(name.as_str());
                s
            },
            Ref::Tag(name) => {
                let mut s = "refs/tags/".to_owned();
                s.append(name.as_str());
                s
            },
            Ref::Remote(name) => {
                let mut s = "refs/remotes/".to_owned();
                s.append(name.as_str());
                s
            },
        }
    }

    /// Get the shorthand name without refs/ prefix
    pub fn shorthand(&self) -> (s: &str)
        ensures
            s@ == self.name(),
    {
        match self {
            Ref::Head(name) => name.as_str(),
            Ref::Tag(name) => name.as_str(),
            Ref::Remote(name) => name.as_str(),
        }
    }
}

impl Rev {
    pub open spec fn name(&self) -> Seq<char> {
        match self {
            Rev::Ref(r) => r.name(),
            Rev::Commit(c) => c@,
        }
    }

    pub fn shorthand(&self) -> (s: &str)
        ensures
            s@ == self.name(),
    {
        match self {
            Rev::Ref(r) => r.shorthand(),
            Rev::Commit(c) => c.as_str(),
        }
    }

    /// The revision a reference stands for, from what git reports of it: a
    /// branch, tag or remote-tracking branch is that reference, anything else
    /// the commit it peels to (`peeled` is `None` when it peels to none).
    pub fn from_reference(
        shorthand: String,
        is_branch: bool,
        is_tag: bool,
        is_remote: bool,
        peeled: Option<String>,
    ) -> (r: Option<Rev>)
        ensures
            is_branch ==> r == Some(Rev::Ref(Ref::Head(shorthand))),
            !is_branch && is_tag ==> r == Some(Rev::Ref(Ref::Tag(shorthand))),
            !is_branch && !is_tag && is_remote ==> r == Some(Rev::Ref(Ref::Remote(shorthand))),
            !is_branch && !is_tag && !is_remote ==> r == match peeled {
                Some(id) => Some(Rev::Commit(id)),
                None => None::<Rev>,
            },
    {
        if is_branch {
            Some(Rev::Ref(Ref::Head(shorthand)))
        } else if is_tag {
            Some(Rev::Ref(Ref::Tag(shorthand)))
        } else if is_remote {
            Some(Rev::Ref(Ref::Remote(shorthand)))
        } else {
            match peeled {
                Some(id) => Some(Rev::Commit(id)),
                None => None,
            }
        }
    }
}

impl SectionHeader {
    pub open spec fn text(&self) -> Seq<char> {
        match self {
            SectionHeader::Remote(remote) => "Remote "@ + remote@,
            SectionHeader::Tags => "Tags"@,
            SectionHeader::Branches => "Branches"@,
            SectionHeader::NoBranch => "No branch"@,
            SectionHeader::OnBranch(branch) => "On branch "@ + branch@,
            SectionHeader::Rebase(head, onto) => "Rebasing "@ + head@ + " onto "@ + onto@,
            SectionHeader::Merge(head) => "Merging "@ + head@,
            SectionHeader::Revert(head) => "Reverting "@ + head@,
            SectionHeader::CherryPick(head) => "Cherry-picking "@ + head@,
            SectionHeader::Stashes => "Stashes"@,
            SectionHeader::RecentCommits => "Recent commits"@,
            SectionHeader::Commit(oid) => "commit "@ + oid@,
            SectionHeader::StashRef(stash_ref) => stash_ref@,
            SectionHeader::StagedChanges(count) => "Staged changes ("@ + decimal(*count as nat)
                + ")"@,
            SectionHeader::UnstagedChanges(count) => "Unstaged changes ("@ + decimal(
                *count as nat,
            ) + ")"@,
            SectionHeader::UntrackedFiles(count) => "Untracked files ("@ + decimal(*count as nat)
                + ")"@,
            SectionHeader::Blame(file, commit) => "Blame "@ + file@ + " @ "@ + commit@,
        }
    }

    pub fn display_text(&self) -> (s: String)
        ensures
            s@ == self.text(),
    {
        match self {
            SectionHeader::Remote(remote) => {
                let mut s = "Remote ".to_owned();
                s.append(remote.as_str());
                s
            },
            SectionHeader::Tags => "Tags".to_owned(),
            SectionHeader::Branches => "Branches".to_owned(),
            SectionHeader::NoBranch => "No branch".to_owned(),
            SectionHeader::OnBranch(branch) => {
                let mut s = "On branch ".to_owned();
                s.append(branch.as_str());
                s
            },
            SectionHeader::Rebase(head, onto) => {
                let mut s = "Rebasing ".to_owned();
                s.append(head.as_str());
                s.append(" onto ");
                s.append(onto.as_str());
                s
            },
            SectionHeader::Merge(head) => {
                let mut s = "Merging ".to_owned();
                s.append(head.as_str());
                s
            },
            SectionHeader::Revert(head) => {
                let mut s = "Reverting ".to_owned();
                s.append(head.as_str());
                s
            },
            SectionHeader::CherryPick(head) => {
                let mut s = "Cherry-picking ".to_owned();
                s.append(head.as_str());
                s
            },
            SectionHeader::Stashes => "Stashes".to_owned(),
            SectionHeader::RecentCommits => "Recent commits".to_owned(),
            SectionHeader::Commit(oid) => {
                let mut s = "commit ".to_owned();
                s.append(oid.as_str());
                s
            },
            SectionHeader::StashRef(stash_ref) => stash_ref.clone(),
            SectionHeader::StagedChanges(count) => counted("Staged changes (", *count),
            SectionHeader::UnstagedChanges(count) => counted("Unstaged changes (", *count),
            SectionHeader::UntrackedFiles(count) => counted("Untracked files (", *count),
            SectionHeader::Blame(file, commit) => {
                let mut s = "Blame ".to_owned();
                s.append(file.as_str());
                s.append(" @ ");
                s.append(commit.as_str());
                s
            },
        }
    }
}

/// `label` followed by `count` and a closing parenthesis.
fn counted(label: &str, count: usize) -> (s: String)
    ensures
        s@ == label@ + decimal(count as nat) + ")"@,
{
    let mut s = label.to_owned();
    push_decimal(&mut s, count as u64);
    s.append(")");
    s
}

/// How `Debug` prints a status, lower-cased.
pub open spec fn status_name(status: Status) -> Seq<char> {
    match status {
        Status::Added => "added"@,
        Status::Deleted => "deleted"@,
        Status::Modified => "modified"@,
        Status::Renamed => "renamed"@,
        Status::Copied => "copied"@,
        Status::Unmerged => "unmerged"@,
    }
}

fn status_str(status: Status) -> (s: &'static str)
    ensures
        s@ == status_name(status),
{
    match status {
        Status::Added => "added",
        Status::Deleted => "deleted",
        Status::Modified => "modified",
        Status::Renamed => "renamed",
        Status::Copied => "copied",
        Status::Unmerged => "unmerged",
    }
}

/// The path shown for a file diff: `old -> new` for renames and copies, the
/// old path for deletions, else the new path.
pub open spec fn delta_shown_path(diff: &Diff, file_i: int) -> Seq<char> {
    let h = diff.file_diffs@[file_i].header;
    match h.status {
        Status::Renamed | Status::Copied => h.old_file@ + " -> "@ + h.new_file@,
        Status::Deleted => h.old_file@,
        _ => h.new_file@,
    }
}

/// The names of `refs`, in order.
pub open spec fn ref_names(refs: Seq<Ref>) -> Seq<Seq<char>> {
    refs.map_values(|r: Ref| r.name())
}

/// The message of a branch status line.
pub open spec fn branch_status_text(upstream: Seq<char>, ahead: u32, behind: u32) -> Seq<char> {
    if ahead == 0 && behind == 0 {
        "Your branch is up to date with '"@ + upstream + "'."@
    } else if ahead > 0 && behind == 0 {
        "Your branch is ahead of '"@ + upstream + "' by "@ + decimal(ahead as nat)
            + " commit(s)."@
    } else if ahead == 0 && behind > 0 {
        "Your branch is behind '"@ + upstream + "' by "@ + decimal(behind as nat)
            + " commit(s)."@
    } else {
        "Your branch and '"@ + upstream + "' have diverged,\nand have "@ + decimal(ahead as nat)
            + " and "@ + decimal(behind as nat) + " different commits each, respectively."@
    }
}

/// The text of a reference line: prefix and name, then the merge status,
/// the tip's summary and its short id, each only where present.
pub open spec fn reference_text(
    prefix: Seq<char>,
    kind: Ref,
    short_id: Seq<char>,
    summary: Seq<char>,
    merge_status: Option<BranchMergeStatus>,
) -> Seq<char> {
    prefix + kind.name() + match merge_status {
        Some(BranchMergeStatus::Merged) => " merged"@,
        Some(BranchMergeStatus::Unmerged) => " unmerged"@,
        None => seq![],
    } + (if summary.len() == 0 {
        seq![]
    } else {
        " "@ + summary
    }) + (if short_id.len() == 0 {
        seq![]
    } else {
        " "@ + short_id
    })
}

impl ItemData {
    /// The diff indices an item holds point into its diff.
    pub open spec fn well_formed(&self) -> bool {
        match self {
            ItemData::Delta { diff, file_i, .. } => diff.has_file(*file_i as int),
            ItemData::Hunk { diff, file_i, hunk_i } => diff.has_hunk(*file_i as int, *hunk_i as int),
            ItemData::HunkLine { diff, file_i, hunk_i, line_i } => diff.has_line(
                *file_i as int,
                *hunk_i as int,
                *line_i as int,
            ),
            _ => true,
        }
    }

    /// Items that can be collapsed and expanded.
    pub open spec fn section(&self) -> bool {
        match self {
            ItemData::AllUnstaged(_) | ItemData::AllStaged(_) | ItemData::AllUntracked(_)
            | ItemData::Untracked(_) | ItemData::Delta { .. } | ItemData::Hunk { .. }
            | ItemData::Header(_) | ItemData::BranchStatus(_, _, _) => true,
            _ => false,
        }
    }

    /// Sub-lines: single lines of a hunk or of a blamed file.
    pub open spec fn sub_line(&self) -> bool {
        match self {
            ItemData::HunkLine { .. } | ItemData::BlameCodeLine { .. } => true,
            _ => false,
        }
    }

    pub fn is_section(&self) -> (b: bool)
        ensures
            b == self.section(),
    {
        match self {
            ItemData::AllUnstaged(_) | ItemData::AllStaged(_) | ItemData::AllUntracked(_)
            | ItemData::Untracked(_) | ItemData::Delta { .. } | ItemData::Hunk { .. }
            | ItemData::Header(_) | ItemData::BranchStatus(_, _, _) => true,
            _ => false,
        }
    }

    pub fn is_sub_line(&self) -> (b: bool)
        ensures
            b == self.sub_line(),
    {
        match self {
            ItemData::HunkLine { .. } | ItemData::BlameCodeLine { .. } => true,
            _ => false,
        }
    }

    /// The revision an item stands for: a reference is itself, a commit is
    /// its first associated reference or else its id, a blame line is the
    /// commit that introduced it.
    pub open spec fn spec_rev(&self) -> Option<Rev> {
        match self {
            ItemData::Reference { kind, .. } => Some(Rev::Ref(*kind)),
            ItemData::Commit { oid, associated_references, .. } => if associated_references@.len()
                > 0 {
                Some(Rev::Ref(associated_references@[0]))
            } else {
                Some(Rev::Commit(*oid))
            },
            ItemData::BlameHeader { commit_hash, .. } => Some(Rev::Commit(*commit_hash)),
            ItemData::BlameCodeLine { commit_hash, .. } => Some(Rev::Commit(*commit_hash)),
            _ => None,
        }
    }

    pub fn rev(&self) -> (r: Option<Rev>)
        ensures
            r == self.spec_rev(),
    {
        match self {
            ItemData::Reference { kind, .. } => Some(Rev::Ref(kind.duplicate())),
            ItemData::Commit { oid, associated_references, .. } => {
                if associated_references.len() > 0 {
                    Some(Rev::Ref(associated_references[0].duplicate()))
                } else {
                    Some(Rev::Commit(oid.clone()))
                }
            },
            ItemData::BlameHeader { commit_hash, .. } => Some(Rev::Commit(commit_hash.clone())),
            ItemData::BlameCodeLine { commit_hash, .. } => Some(Rev::Commit(commit_hash.clone())),
            _ => None,
        }
    }

    /// The text an item is displayed with.
    pub open spec fn text(&self) -> Seq<char>
        recommends
            self.well_formed(),
    {
        match self {
            ItemData::Raw(content) => content@,
            ItemData::AllUnstaged(count) => "Unstaged changes ("@ + decimal(*count as nat) + ")"@,
            ItemData::AllStaged(count) => "Staged changes ("@ + decimal(*count as nat) + ")"@,
            ItemData::AllUntracked(_) => "Untracked files"@,
            ItemData::Reference { prefix, kind, short_id, summary, merge_status } => reference_text(
                prefix@,
                *kind,
                short_id@,
                summary@,
                *merge_status,
            ),
            ItemData::Commit { short_id, associated_references, summary, author, age, .. } =>
            short_id@ + " "@ + join(ref_names(associated_references@), " "@) + " "@ + summary@
                + " "@ + author@ + " "@ + age@,
            ItemData::Untracked(path) => path@,
            ItemData::Delta { diff, file_i, .. } => pad_right(
                status_name(diff.file_diffs@[*file_i as int].header.status),
                8,
            ) + "   "@ + delta_shown_path(diff, *file_i as int),
            ItemData::Hunk { diff, file_i, hunk_i } => diff.file_diffs@[*file_i as int].hunks@[
                *hunk_i as int].header@,
            ItemData::HunkLine { diff, file_i, hunk_i, line_i } => expand_tabs(
                diff.file_diffs@[*file_i as int].hunks@[*hunk_i as int].lines@[*line_i as int]@,
            ),
            ItemData::Stash { message, id, .. } => "stash@"@ + decimal(*id as nat) + " "@
                + message@,
            ItemData::Header(header) => header.text(),
            ItemData::BranchStatus(upstream, ahead, behind) => branch_status_text(
                upstream@,
                *ahead,
                *behind,
            ),
            ItemData::Error(err) => err@,
            ItemData::BlameHeader { short_hash, summary, .. } => pad_right(short_hash@, 8) + " "@
                + summary@,
            ItemData::BlameCodeLine { line_num, content, .. } => pad_left(
                decimal(*line_num as nat),
                4,
            ) + " "@ + expand_tabs(content@),
        }
    }

    pub fn display_text(&self) -> (s: String)
        requires
            self.well_formed(),
        ensures
            s@ == self.text(),
    {
        match self {
            ItemData::Raw(content) => content.clone(),
            ItemData::AllUnstaged(count) => counted("Unstaged changes (", *count),
            ItemData::AllStaged(count) => counted("Staged changes (", *count),
            ItemData::AllUntracked(_) => "Untracked files".to_owned(),
            ItemData::Reference { prefix, kind, short_id, summary, merge_status } => {
                let mut text = prefix.clone();
                text.append(kind.shorthand());
                match merge_status {
                    Some(BranchMergeStatus::Merged) => text.append(" merged"),
                    Some(BranchMergeStatus::Unmerged) => text.append(" unmerged"),
                    None => {},
                }
                if !summary.as_str().is_empty() {
                    text.append(" ");
                    text.append(summary.as_str());
                }
                if !short_id.as_str().is_empty() {
                    text.append(" ");
                    text.append(short_id.as_str());
                }
                proof {
                    assert(text@ =~= reference_text(
                        prefix@,
                        *kind,
                        short_id@,
                        summary@,
                        *merge_status,
                    ));
                }
                text
            },
            ItemData::Commit { short_id, associated_references, summary, author, age, .. } => {
                let refs = join_ref_names(associated_references);
                let mut s = short_id.clone();
                s.append(" ");
                s.append(refs.as_str());
                s.append(" ");
                s.append(summary.as_str());
                s.append(" ");
                s.append(author.as_str());
                s.append(" ");
                s.append(age.as_str());
                s
            },
            ItemData::Untracked(path) => path.clone(),
            ItemData::Delta { diff, file_i, .. } => {
                let header = &diff.file_diffs[*file_i].header;
                let mut s = String::new();
                push_padded_right(&mut s, status_str(header.status), 8);
                s.append("   ");
                match header.status {
                    Status::Renamed | Status::Copied => {
                        s.append(header.old_file.as_str());
                        s.append(" -> ");
                        s.append(header.new_file.as_str());
                    },
                    Status::Deleted => s.append(header.old_file.as_str()),
                    _ => s.append(header.new_file.as_str()),
                }
                proof {
                    assert(s@ =~= self.text());
                }
                s
            },
            ItemData::Hunk { diff, file_i, hunk_i } => diff.file_diffs[*file_i].hunks[*hunk_i].header.clone(),
            ItemData::HunkLine { diff, file_i, hunk_i, line_i } => {
                let mut s = String::new();
                push_expanded_tabs(
                    &mut s,
                    diff.file_diffs[*file_i].hunks[*hunk_i].lines[*line_i].as_str(),
                );
                proof {
                    assert(s@ =~= self.text());
                }
                s
            },
            ItemData::Stash { message, id, .. } => {
                let mut s = "stash@".to_owned();
                push_decimal(&mut s, *id as u64);
                s.append(" ");
                s.append(message.as_str());
                s
            },
            ItemData::Header(header) => header.display_text(),
            ItemData::BranchStatus(upstream, ahead, behind) => branch_status_message(
                upstream.as_str(),
                *ahead,
                *behind,
            ),
            ItemData::Error(err) => err.clone(),
            ItemData::BlameHeader { short_hash, summary, .. } => {
                let mut s = String::new();
                push_padded_right(&mut s, short_hash.as_str(), 8);
                s.append(" ");
                s.append(summary.as_str());
                proof {
                    assert(s@ =~= self.text());
                }
                s
            },
            ItemData::BlameCodeLine { line_num, content, .. } => {
                let num = crate::text::decimal_string(*line_num as u64);
                let mut s = String::new();
                let n = crate::text::chars_of(num.as_str()).len();
                if n < 4 {
                    crate::text::push_spaces(&mut s, 4 - n);
                }
                s.append(num.as_str());
                s.append(" ");
                push_expanded_tabs(&mut s, content.as_str());
                proof {
                    assert(s@ =~= self.text());
                }
                s
            },
        }
    }
}

fn branch_status_message(upstream: &str, ahead: u32, behind: u32) -> (s: String)
    ensures
        s@ == branch_status_text(upstream@, ahead, behind),
{
    if ahead == 0 && behind == 0 {
        let mut s = "Your branch is up to date with '".to_owned();
        s.append(upstream);
        s.append("'.");
        s
    } else if ahead > 0 && behind == 0 {
        let mut s = "Your branch is ahead of '".to_owned();
        s.append(upstream);
        s.append("' by ");
        push_decimal(&mut s, ahead as u64);
        s.append(" commit(s).");
        s
    } else if ahead == 0 && behind > 0 {
        let mut s = "Your branch is behind '".to_owned();
        s.append(upstream);
        s.append("' by ");
        push_decimal(&mut s, behind as u64);
        s.append(" commit(s).");
        s
    } else {
        let mut s = "Your branch and '".to_owned();
        s.append(upstream);
        s.append("' have diverged,\nand have ");
        push_decimal(&mut s, ahead as u64);
        s.append(" and ");
        push_decimal(&mut s, behind as u64);
        s.append(" different commits each, respectively.");
        s
    }
}

/// The names of `refs` joined by single spaces.
fn join_ref_names(refs: &Vec<Ref>) -> (s: String)
    ensures
        s@ == join(ref_names(refs@), " "@),
{
    let mut s = String::new();
    let mut i: usize = 0;
    while i < refs.len()
        invariant
            i <= refs@.len(),
            s@ == join(ref_names(refs@.take(i as int)), " "@),
        decreases refs@.len() - i,
    {
        let ghost prev = refs@.take(i as int);
        if i > 0 {
            s.append(" ");
        }
        s.append(refs[i].shorthand());
        i = i + 1;
        proof {
            let cur = refs@.take(i as int);
            assert(cur.drop_last() =~= prev);
            assert(ref_names(cur).drop_last() =~= ref_names(prev));
            assert(ref_names(cur).last() == refs@[i - 1].name());
            if i == 1 {
                assert(ref_names(cur).len() == 1);
            }
        }
    }
    assert(refs@.take(refs@.len() as int) =~= refs@);
    s
}

} // verus!
