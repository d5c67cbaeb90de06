//! The staging scenarios, played on a model of the status screen: the keys
//! become the screen operations they are bound to (`j` moves to the next
//! item, `<ctrl+j>` to the next line, `<tab>` toggles a section,
//! `<ctrl+space>` sets the mark, `<ctrl+g>` clears it), and `s` is checked
//! through what the screen selects for staging.
use std::rc::Rc;

use gitu::diff::{Diff, DiffType, FileDiff, FileHeader, Hunk, Status};
use gitu::item_data::{ItemData, SectionHeader};
use gitu::items::Item;
use gitu::screen::{NavMode, Screen};

fn item(id: u64, data: ItemData, depth: usize) -> Item {
    Item { id, data, depth, unselectable: false, default_collapsed: false }
}

fn blank(id: u64) -> Item {
    Item { id, data: ItemData::Raw(String::new()), depth: 0, unselectable: true, default_collapsed: false }
}

fn file_diff(status: Status, path: &str, hunks: Vec<Hunk>) -> FileDiff {
    FileDiff {
        header: FileHeader { status, old_file: path.to_string(), new_file: path.to_string() },
        hunks,
        patch: format!("diff --git a/{path} b/{path}\n"),
    }
}

fn hunk(lines: &[&str]) -> Hunk {
    Hunk {
        header: "@@ -1,2 +1,2 @@".to_string(),
        lines: lines.iter().map(|l| l.to_string()).collect(),
        patch: lines.concat(),
    }
}

/// The status screen: the branch line, a blank line, then a section per
/// kind of change; files of a diff start collapsed, showing their hunks and
/// lines once expanded.
fn status_screen(untracked: &[&str], unstaged: Option<Rc<Diff>>) -> Screen {
    let mut items = vec![item(1, ItemData::Header(SectionHeader::OnBranch("main".to_string())), 0), blank(2)];
    let mut id = 10;
    if !untracked.is_empty() {
        items.push(item(3, ItemData::AllUntracked(untracked.iter().map(|f| f.to_string()).collect()), 0));
        for f in untracked {
            items.push(item(id, ItemData::Untracked(f.to_string()), 1));
            id += 1;
        }
    }
    if let Some(diff) = unstaged {
        items.push(item(4, ItemData::AllUnstaged(diff.file_diffs.len()), 0));
        for (file_i, file) in diff.file_diffs.iter().enumerate() {
            let mut delta = item(id, ItemData::Delta { diff: Rc::clone(&diff), file_i, commit: None }, 1);
            delta.default_collapsed = true;
            items.push(delta);
            id += 1;
            for (hunk_i, h) in file.hunks.iter().enumerate() {
                items.push(item(id, ItemData::Hunk { diff: Rc::clone(&diff), file_i, hunk_i }, 2));
                id += 1;
                for line_i in 0..h.lines.len() {
                    items.push(item(id, ItemData::HunkLine { diff: Rc::clone(&diff), file_i, hunk_i, line_i }, 3));
                    id += 1;
                }
            }
        }
    }
    let heights = vec![1; items.len()];
    Screen::new((80, 20), Vec::new(), items, heights)
}

fn modified_firstfile() -> Rc<Diff> {
    Rc::new(Diff {
        id: 1,
        diff_type: DiffType::WorkdirToIndex,
        file_diffs: vec![file_diff(
            Status::Modified,
            "firstfile",
            vec![hunk(&["-testing\n", "-testtest\n", "+weehooo\n", "+blrergh\n"])],
        )],
    })
}

fn modified_files(names: &[&str]) -> Rc<Diff> {
    Rc::new(Diff {
        id: 2,
        diff_type: DiffType::WorkdirToIndex,
        file_diffs: names
            .iter()
            .map(|n| file_diff(Status::Modified, n, vec![hunk(&["-base\n", "+changed\n"])]))
            .collect(),
    })
}

/// Plays the keys on the screen.
fn keys(screen: &mut Screen, keys: &[&str]) {
    for k in keys {
        match *k {
            "j" => screen.select_next(NavMode::Normal),
            "<ctrl+j>" => screen.select_next(NavMode::IncludeSubLines),
            "<tab>" => screen.toggle_section(),
            "<ctrl+space>" => screen.set_mark(),
            "<ctrl+g>" => screen.clear_mark(),
            other => panic!("unbound key {other}"),
        }
    }
}

fn selected(screen: &Screen) -> &ItemData {
    &screen.get_selected_item().data
}

fn paths(files: &[gitu::screen::selection::FileSelectionDiff]) -> Vec<String> {
    files.iter().map(|f| f.path.clone()).collect()
}

fn is_line(data: &ItemData, line: usize) -> bool {
    matches!(data, ItemData::HunkLine { line_i, .. } if *line_i == line)
}

#[test]
fn stage_all_unstaged() {
    let diff = Rc::new(Diff {
        id: 3,
        diff_type: DiffType::WorkdirToIndex,
        file_diffs: vec![
            file_diff(Status::Modified, "firstfile", vec![hunk(&["-testing\n", "-testtest\n", "+blahonga\n"])]),
            file_diff(Status::Modified, "secondfile", vec![hunk(&["-testing\n", "-testtest\n", "+blahonga\n"])]),
        ],
    });
    let mut screen = status_screen(&[], Some(diff));
    keys(&mut screen, &["j"]);
    assert!(matches!(selected(&screen), ItemData::AllUnstaged(2)));
}

#[test]
fn stage_all_untracked() {
    let mut screen = status_screen(&["file-a", "file-b"], None);
    keys(&mut screen, &["j"]);
    match selected(&screen) {
        ItemData::AllUntracked(files) => assert_eq!(files, &vec!["file-a".to_string(), "file-b".to_string()]),
        _ => panic!("expected the untracked section"),
    }
}

#[test]
fn stage_selected_untracked_files() {
    let mut screen = status_screen(&["file-a", "file-b", "file-c"], None);
    keys(&mut screen, &["j", "j", "<ctrl+space>", "j"]);
    let selection = screen.selected_file_range().unwrap();
    assert_eq!(selection.untracked, vec!["file-a".to_string(), "file-b".to_string()]);
    assert!(selection.unstaged.is_empty() && selection.staged.is_empty());
}

#[test]
fn stage_removed_line() {
    let mut screen = status_screen(&[], Some(modified_firstfile()));
    keys(&mut screen, &["j", "j", "<tab>", "<ctrl+j>", "<ctrl+j>"]);
    assert!(is_line(selected(&screen), 0));
}

#[test]
fn stage_added_line() {
    let mut screen = status_screen(&[], Some(modified_firstfile()));
    keys(&mut screen, &["j", "j", "<tab>", "<ctrl+j>", "<ctrl+j>", "<ctrl+j>", "<ctrl+j>"]);
    assert!(is_line(selected(&screen), 2));
}

#[test]
fn stage_selected_lines() {
    let mut screen = status_screen(&[], Some(modified_firstfile()));
    keys(
        &mut screen,
        &["j", "j", "<tab>", "<ctrl+j>", "<ctrl+j>", "<ctrl+j>", "<ctrl+j>", "<ctrl+space>", "<ctrl+j>"],
    );
    let selection = screen.selected_hunk_line_range().unwrap();
    assert_eq!((selection.file_i, selection.hunk_i), (0, 0));
    // The added lines are selected, the removed ones are not.
    assert_eq!((selection.line_start, selection.line_end), (2, 4));
    let lines = &selection.diff.file_diffs[0].hunks[0].lines[selection.line_start..selection.line_end];
    assert_eq!(lines.concat(), "+weehooo\n+blrergh\n");
}

#[test]
fn stage_selected_unstaged_files() {
    let mut screen = status_screen(&[], Some(modified_files(&["file-a", "file-b", "file-c"])));
    keys(&mut screen, &["j", "j", "<ctrl+space>", "j"]);
    let selection = screen.selected_file_range().unwrap();
    assert_eq!(paths(&selection.unstaged), vec!["file-a".to_string(), "file-b".to_string()]);
    assert!(selection.untracked.is_empty() && selection.staged.is_empty());
}

#[test]
fn marked_unstaged_files_are_visually_distinct() {
    let mut screen = status_screen(&[], Some(modified_files(&["file-a", "file-b", "file-c"])));
    keys(&mut screen, &["j", "j", "<ctrl+space>", "j"]);
    let marked: Vec<usize> = screen.item_views(20).iter().filter(|v| v.marked).map(|v| v.item_index).collect();
    let paths: Vec<String> = marked
        .iter()
        .map(|i| match &screen.items[*i].data {
            ItemData::Delta { diff, file_i, .. } => diff.delta_path(*file_i),
            _ => panic!("only files are marked"),
        })
        .collect();
    assert_eq!(paths, vec!["file-a".to_string(), "file-b".to_string()]);
}

#[test]
fn clear_mark_cancels_selected_files() {
    let mut screen = status_screen(&[], Some(modified_files(&["file-a", "file-b", "file-c"])));
    keys(&mut screen, &["j", "j", "<ctrl+space>", "j", "<ctrl+g>"]);
    assert!(screen.selected_file_range().is_none());
    match selected(&screen) {
        ItemData::Delta { diff, file_i, .. } => assert_eq!(diff.delta_path(*file_i), "file-b"),
        _ => panic!("expected a file"),
    }
    assert!(screen.item_views(20).iter().all(|v| !v.marked));
}

#[test]
fn marked_lines_are_visually_distinct() {
    let mut screen = status_screen(&[], Some(modified_firstfile()));
    keys(
        &mut screen,
        &["j", "j", "<tab>", "<ctrl+j>", "<ctrl+j>", "<ctrl+j>", "<ctrl+j>", "<ctrl+space>", "<ctrl+j>"],
    );
    let marked: Vec<usize> = screen.item_views(20).iter().filter(|v| v.marked).map(|v| v.item_index).collect();
    assert_eq!(marked.len(), 2);
    assert!(marked.iter().zip([2, 3]).all(|(i, line)| is_line(&screen.items[*i].data, line)));
}

#[test]
fn stage_changes_crlf() {
    let diff = Rc::new(Diff {
        id: 4,
        diff_type: DiffType::WorkdirToIndex,
        file_diffs: vec![file_diff(
            Status::Modified,
            "testfile",
            vec![hunk(&["-testing\r\n", "+test\r\n", " testtest\r\n"])],
        )],
    });
    let mut screen = status_screen(&[], Some(diff));
    let collapsed_lines = screen.line_index.len();
    keys(&mut screen, &["j", "j", "<tab>"]);
    // The file opens to show its hunk and its three lines.
    assert_eq!(screen.line_index.len(), collapsed_lines + 4);
    assert!(matches!(selected(&screen), ItemData::Delta { .. }));
}

#[test]
fn stage_deleted_file() {
    let diff = Rc::new(Diff {
        id: 5,
        diff_type: DiffType::WorkdirToIndex,
        file_diffs: vec![FileDiff {
            header: FileHeader { status: Status::Deleted, old_file: "to-delete".to_string(), new_file: "/dev/null".to_string() },
            hunks: vec![hunk(&["-testing\n", "-testtest\n"])],
            patch: "deleted file mode 100644\n".to_string(),
        }],
    });
    let mut screen = status_screen(&[], Some(diff));
    keys(&mut screen, &["j", "j"]);
    match selected(&screen) {
        ItemData::Delta { diff, file_i, .. } => assert_eq!(diff.delta_path(*file_i), "to-delete"),
        _ => panic!("expected the deleted file"),
    }
}

#[test]
fn stage_deleted_executable_file() {
    let diff = Rc::new(Diff {
        id: 6,
        diff_type: DiffType::WorkdirToIndex,
        file_diffs: vec![FileDiff {
            header: FileHeader { status: Status::Deleted, old_file: "script.sh".to_string(), new_file: "/dev/null".to_string() },
            hunks: vec![hunk(&["-#!/bin/bash\n", "-echo hello\n"])],
            patch: "deleted file mode 100755\n".to_string(),
        }],
    });
    let mut screen = status_screen(&[], Some(diff));
    keys(&mut screen, &["j", "j"]);
    match selected(&screen) {
        ItemData::Delta { diff, file_i, .. } => assert_eq!(diff.delta_path(*file_i), "script.sh"),
        _ => panic!("expected the deleted file"),
    }
}

#[test]
fn stage_file_with_spaces_in_name() {
    let mut screen = status_screen(&["file with space.txt"], None);
    keys(&mut screen, &["j"]);
    match selected(&screen) {
        ItemData::AllUntracked(files) => assert_eq!(files, &vec!["file with space.txt".to_string()]),
        _ => panic!("expected the untracked section"),
    }
}
