use std::rc::Rc;

use gitu::diff::{Diff, DiffType, FileDiff, FileHeader, Hunk, Status};
use gitu::item_data::{BranchMergeStatus, ItemData, Ref, Rev, SectionHeader};

fn diff_of(status: Status, old: &str, new: &str) -> Rc<Diff> {
    Rc::new(Diff {
        id: 1,
        diff_type: DiffType::WorkdirToIndex,
        file_diffs: vec![FileDiff {
            header: FileHeader { status, old_file: old.to_string(), new_file: new.to_string() },
            hunks: vec![Hunk {
                header: "@@ -1 +1 @@ fn main".to_string(),
                lines: vec!["-\told\n".to_string(), "+new\n".to_string()],
                patch: String::new(),
            }],
            patch: String::new(),
        }],
    })
}

#[test]
fn section_texts() {
    assert_eq!(ItemData::AllUnstaged(3).display_text(), "Unstaged changes (3)");
    assert_eq!(ItemData::AllStaged(0).display_text(), "Staged changes (0)");
    assert_eq!(ItemData::AllUntracked(vec![]).display_text(), "Untracked files");
    assert_eq!(SectionHeader::Remote("origin".to_string()).display_text(), "Remote origin");
    assert_eq!(
        SectionHeader::Rebase("main".to_string(), "abc".to_string()).display_text(),
        "Rebasing main onto abc"
    );
    assert_eq!(SectionHeader::UntrackedFiles(12).display_text(), "Untracked files (12)");
    assert_eq!(SectionHeader::Blame("f.rs".to_string(), "abc".to_string()).display_text(), "Blame f.rs @ abc");
}

#[test]
fn reference_text() {
    let r = ItemData::Reference {
        prefix: "* ".to_string(),
        kind: Ref::Head("main".to_string()),
        short_id: "abc1234".to_string(),
        summary: "Fix".to_string(),
        merge_status: Some(BranchMergeStatus::Unmerged),
    };
    assert_eq!(r.display_text(), "* main unmerged Fix abc1234");
    let r = ItemData::Reference {
        prefix: "  ".to_string(),
        kind: Ref::Remote("origin/main".to_string()),
        short_id: String::new(),
        summary: String::new(),
        merge_status: None,
    };
    assert_eq!(r.display_text(), "  origin/main");
}

#[test]
fn commit_text() {
    let c = ItemData::Commit {
        oid: "abcdef0123".to_string(),
        short_id: "abcdef0".to_string(),
        associated_references: vec![Ref::Head("main".to_string()), Ref::Tag("v1".to_string())],
        summary: "Initial".to_string(),
        author: "me".to_string(),
        age: "2d".to_string(),
    };
    assert_eq!(c.display_text(), "abcdef0 main v1 Initial me 2d");
    match c.rev() {
        Some(Rev::Ref(Ref::Head(n))) => assert_eq!(n, "main"),
        _ => panic!("expected the first reference"),
    }
    let bare = ItemData::Commit {
        oid: "abcdef0123".to_string(),
        short_id: "abcdef0".to_string(),
        associated_references: vec![],
        summary: "s".to_string(),
        author: "a".to_string(),
        age: "1h".to_string(),
    };
    assert_eq!(bare.display_text(), "abcdef0  s a 1h");
    match bare.rev() {
        Some(Rev::Commit(oid)) => assert_eq!(oid, "abcdef0123"),
        _ => panic!("expected the commit"),
    }
}

#[test]
fn delta_texts() {
    let modified = ItemData::Delta { diff: diff_of(Status::Modified, "a", "a"), file_i: 0, commit: None };
    assert_eq!(modified.display_text(), "modified   a");
    let added = ItemData::Delta { diff: diff_of(Status::Added, "/dev/null", "b"), file_i: 0, commit: None };
    assert_eq!(added.display_text(), "added      b");
    let renamed = ItemData::Delta { diff: diff_of(Status::Renamed, "old", "new"), file_i: 0, commit: None };
    assert_eq!(renamed.display_text(), "renamed    old -> new");
    let deleted = ItemData::Delta { diff: diff_of(Status::Deleted, "gone", "/dev/null"), file_i: 0, commit: None };
    assert_eq!(deleted.display_text(), "deleted    gone");
}

#[test]
fn hunk_and_line_texts() {
    let d = diff_of(Status::Modified, "a", "a");
    assert_eq!(ItemData::Hunk { diff: Rc::clone(&d), file_i: 0, hunk_i: 0 }.display_text(), "@@ -1 +1 @@ fn main");
    assert_eq!(
        ItemData::HunkLine { diff: Rc::clone(&d), file_i: 0, hunk_i: 0, line_i: 0 }.display_text(),
        "-    old\n"
    );
}

#[test]
fn branch_status_texts() {
    let up = |a: u32, b: u32| ItemData::BranchStatus("origin/main".to_string(), a, b).display_text();
    assert_eq!(up(0, 0), "Your branch is up to date with 'origin/main'.");
    assert_eq!(up(2, 0), "Your branch is ahead of 'origin/main' by 2 commit(s).");
    assert_eq!(up(0, 3), "Your branch is behind 'origin/main' by 3 commit(s).");
    assert_eq!(
        up(1, 4),
        "Your branch and 'origin/main' have diverged,\nand have 1 and 4 different commits each, respectively."
    );
}

#[test]
fn other_texts() {
    assert_eq!(
        ItemData::Stash { message: "WIP".to_string(), stash_ref: "stash@{0}".to_string(), id: 0 }.display_text(),
        "stash@0 WIP"
    );
    assert_eq!(ItemData::Error("bad".to_string()).display_text(), "bad");
    assert_eq!(ItemData::Raw("x".to_string()).display_text(), "x");
    assert_eq!(ItemData::Untracked("dir/f".to_string()).display_text(), "dir/f");
}

#[test]
fn references_and_revisions() {
    assert_eq!(Ref::Head("main".to_string()).to_full_refname(), "refs/heads/main");
    assert_eq!(Ref::Tag("v1".to_string()).to_full_refname(), "refs/tags/v1");
    assert_eq!(Ref::Remote("origin/x".to_string()).to_full_refname(), "refs/remotes/origin/x");
    assert!(matches!(
        Rev::from_reference("main".to_string(), true, false, false, None),
        Some(Rev::Ref(Ref::Head(n))) if n == "main"
    ));
    assert!(matches!(
        Rev::from_reference("HEAD".to_string(), false, false, false, Some("abc".to_string())),
        Some(Rev::Commit(c)) if c == "abc"
    ));
    assert!(Rev::from_reference("x".to_string(), false, false, false, None).is_none());
    assert_eq!(Rev::Commit("abc".to_string()).shorthand(), "abc");
    assert_eq!(Rev::Ref(Ref::Tag("v2".to_string())).shorthand(), "v2");
}

#[test]
fn sections_and_sub_lines() {
    assert!(ItemData::AllStaged(1).is_section());
    assert!(ItemData::BranchStatus("o".to_string(), 0, 0).is_section());
    assert!(!ItemData::Raw(String::new()).is_section());
    let d = diff_of(Status::Modified, "a", "a");
    assert!(ItemData::HunkLine { diff: d, file_i: 0, hunk_i: 0, line_i: 1 }.is_sub_line());
    assert!(!ItemData::AllStaged(1).is_sub_line());
}

#[test]
fn blame_texts() {
    let header = ItemData::BlameHeader {
        commit_hash: "abcdef0123".to_string(),
        short_hash: "abc".to_string(),
        author: "me".to_string(),
        author_time: 0,
        summary: "Initial".to_string(),
        file_path: "f.rs".to_string(),
        line_num: 1,
        blamed_line_num: 1,
    };
    assert_eq!(header.display_text(), "abc      Initial");
    let line = ItemData::BlameCodeLine {
        line_i: 0,
        line_num: 42,
        orig_line_num: 40,
        content: "\tx".to_string(),
        commit_hash: "abcdef0123".to_string(),
        file_path: "f.rs".to_string(),
    };
    assert_eq!(line.display_text(), "  42     x");
    match line.rev() {
        Some(Rev::Commit(c)) => assert_eq!(c, "abcdef0123"),
        _ => panic!("expected the commit"),
    }
}
