//! What the items between the mark and the cursor select: branches, files
//! by state, or a run of lines of one hunk.
use vstd::prelude::*;

use crate::diff::DiffType;
use crate::item_data::{ItemData, Ref};
use crate::items::Item;
use crate::ops::views;
use crate::screen::selection::{
    diff_patches,
    diff_paths,
    push_new,
    FileSelection,
    HunkLineSelection,
};
use crate::screen::Screen;

verus! {

/// The lower end of the range between `mark` and `cursor`.
pub open spec fn range_lo(mark: usize, cursor: usize) -> usize {
    if mark < cursor {
        mark
    } else {
        cursor
    }
}

/// The upper end of the range between `mark` and `cursor`.
pub open spec fn range_hi(mark: usize, cursor: usize) -> usize {
    if mark < cursor {
        cursor
    } else {
        mark
    }
}

/// The local branches of items `lo..n`, in order, when every other item
/// among them is an empty line; else `None`.
pub open spec fn branches_upto(items: Seq<Item>, lo: int, n: int) -> Option<Seq<Seq<char>>>
    decreases n - lo,
{
    if n <= lo {
        Some(seq![])
    } else {
        match branches_upto(items, lo, n - 1) {
            None => None,
            Some(p) => match items[n - 1].data {
                ItemData::Raw(c) => if c@.len() == 0 {
                    Some(p)
                } else {
                    None
                },
                ItemData::Reference { kind: Ref::Head(b), .. } => Some(p.push(b@)),
                _ => None,
            },
        }
    }
}

/// A file selection as plain values: the untracked paths, the unstaged
/// paths and patches, the staged paths and patches.
pub type FileSets = (Seq<Seq<char>>, Seq<Seq<char>>, Seq<Seq<char>>, Seq<Seq<char>>, Seq<Seq<char>>);

/// A selection of files as plain values.
pub open spec fn file_sets(sel: FileSelection) -> FileSets {
    (
        views(sel.untracked@),
        diff_paths(sel.unstaged@),
        diff_patches(sel.unstaged@),
        diff_paths(sel.staged@),
        diff_patches(sel.staged@),
    )
}

/// `paths` and `patches` with the file added, unless its path is there.
pub open spec fn add_file(
    paths: Seq<Seq<char>>,
    patches: Seq<Seq<char>>,
    path: Seq<char>,
    patch: Seq<char>,
) -> (Seq<Seq<char>>, Seq<Seq<char>>) {
    if paths.contains(path) {
        (paths, patches)
    } else {
        (paths.push(path), patches.push(patch))
    }
}

/// The selection after one more item: an untracked file or a file of the
/// unstaged or staged changes is added; section headers, hunks, lines and
/// empty lines add nothing; anything else (a file of a commit among them)
/// means the range selects no files.
pub open spec fn file_step(st: FileSets, item: Item) -> Option<FileSets> {
    match item.data {
        ItemData::Raw(c) => if c@.len() == 0 {
            Some(st)
        } else {
            None
        },
        ItemData::AllUntracked(_) | ItemData::AllUnstaged(_) | ItemData::AllStaged(_) => Some(st),
        ItemData::Untracked(path) => Some((push_new(st.0, path@), st.1, st.2, st.3, st.4)),
        ItemData::Delta { diff, file_i, .. } => {
            let path = diff.file_path(file_i as int);
            let patch = diff.file_diffs@[file_i as int].patch@;
            match diff.diff_type {
                DiffType::WorkdirToIndex => {
                    let (a, b) = add_file(st.1, st.2, path, patch);
                    Some((st.0, a, b, st.3, st.4))
                },
                DiffType::IndexToTree => {
                    let (a, b) = add_file(st.3, st.4, path, patch);
                    Some((st.0, st.1, st.2, a, b))
                },
                DiffType::TreeToTree => None,
            }
        },
        ItemData::Hunk { .. } | ItemData::HunkLine { .. } => Some(st),
        _ => None,
    }
}

/// The files items `lo..n` select, or `None`.
pub open spec fn files_upto(items: Seq<Item>, lo: int, n: int) -> Option<FileSets>
    decreases n - lo,
{
    if n <= lo {
        Some((seq![], seq![], seq![], seq![], seq![]))
    } else {
        match files_upto(items, lo, n - 1) {
            None => None,
            Some(st) => file_step(st, items[n - 1]),
        }
    }
}

/// For items `lo..n`, all lines of one hunk of one diff: the diff's id, the
/// file, the hunk, and the lines they span (from the lowest to one past the
/// highest); else `None`.
pub open spec fn line_run(items: Seq<Item>, lo: int, n: int) -> Option<(u64, usize, usize, int, int)>
    decreases n - lo,
{
    if n <= lo {
        None
    } else if n == lo + 1 {
        match items[lo].data {
            ItemData::HunkLine { diff, file_i, hunk_i, line_i } => Some(
                (diff.id, file_i, hunk_i, line_i as int, line_i + 1),
            ),
            _ => None,
        }
    } else {
        match line_run(items, lo, n - 1) {
            None => None,
            Some((d, f, h, a, b)) => match items[n - 1].data {
                ItemData::HunkLine { diff, file_i, hunk_i, line_i } => if diff.id == d && file_i
                    == f && hunk_i == h {
                    Some(
                        (
                            d,
                            f,
                            h,
                            if line_i < a {
                                line_i as int
                            } else {
                                a
                            },
                            if line_i + 1 > b {
                                line_i + 1
                            } else {
                                b
                            },
                        ),
                    )
                } else {
                    None
                },
                _ => None,
            },
        }
    }
}

/// Once items `lo..n` select no branches, no longer range does.
proof fn lemma_branches_fail(items: Seq<Item>, lo: int, n: int, m: int)
    requires
        lo <= n <= m,
        branches_upto(items, lo, n) is None,
    ensures
        branches_upto(items, lo, m) is None,
    decreases m - n,
{
    if m > n {
        lemma_branches_fail(items, lo, n, m - 1);
    }
}

/// Once items `lo..n` select no files, no longer range does.
proof fn lemma_files_fail(items: Seq<Item>, lo: int, n: int, m: int)
    requires
        lo <= n <= m,
        files_upto(items, lo, n) is None,
    ensures
        files_upto(items, lo, m) is None,
    decreases m - n,
{
    if m > n {
        lemma_files_fail(items, lo, n, m - 1);
    }
}

/// Once items `lo..n` are not lines of one hunk, no longer range is.
proof fn lemma_line_run_fail(items: Seq<Item>, lo: int, n: int, m: int)
    requires
        lo < n <= m,
        line_run(items, lo, n) is None,
    ensures
        line_run(items, lo, m) is None,
    decreases m - n,
{
    if m > n {
        lemma_line_run_fail(items, lo, n, m - 1);
    }
}

/// Item `k` is a file of a diff of type `t`.
pub open spec fn is_delta_of(items: Seq<Item>, k: int, t: DiffType) -> bool {
    match items[k].data {
        ItemData::Delta { diff, .. } => diff.diff_type == t,
        _ => false,
    }
}

/// The path of item `k`, when it is a file of a diff.
pub open spec fn delta_path(items: Seq<Item>, k: int) -> Seq<char> {
    match items[k].data {
        ItemData::Delta { diff, file_i, .. } => diff.file_path(file_i as int),
        _ => seq![],
    }
}

/// The patch of item `k`, when it is a file of a diff.
pub open spec fn delta_patch(items: Seq<Item>, k: int) -> Seq<char> {
    match items[k].data {
        ItemData::Delta { diff, file_i, .. } => diff.file_diffs@[file_i as int].patch@,
        _ => seq![],
    }
}

/// Item `k` is the untracked file `path`.
pub open spec fn is_untracked_at(items: Seq<Item>, k: int, path: Seq<char>) -> bool {
    match items[k].data {
        ItemData::Untracked(p) => p@ == path,
        _ => false,
    }
}

/// Some item in `lo..n` is a file of a diff of type `t` with this path and
/// patch.
pub open spec fn delta_in(
    items: Seq<Item>,
    lo: int,
    n: int,
    t: DiffType,
    path: Seq<char>,
    patch: Seq<char>,
) -> bool {
    exists|k: int|
        lo <= k < n && #[trigger] is_delta_of(items, k, t) && delta_path(items, k) == path && delta_patch(
            items,
            k,
        ) == patch
}

/// Some item in `lo..n` is the untracked file `path`.
pub open spec fn untracked_in(items: Seq<Item>, lo: int, n: int, path: Seq<char>) -> bool {
    exists|k: int| lo <= k < n && #[trigger] is_untracked_at(items, k, path)
}

/// What the files selected by items `lo..n` are, item by item: each file of
/// the worktree's diff is among the unstaged ones, each of the index's diff
/// among the staged ones, each untracked file among the untracked ones, and
/// every file selected comes from such an item in the range, its patch with it.
proof fn lemma_files_by_state(items: Seq<Item>, lo: int, n: int)
    requires
        0 <= lo <= n <= items.len(),
        files_upto(items, lo, n) is Some,
    ensures
        ({
            let st = files_upto(items, lo, n)->Some_0;
            &&& st.1.len() == st.2.len()
            &&& st.3.len() == st.4.len()
            &&& forall|k: int|
                lo <= k < n && #[trigger] is_delta_of(items, k, DiffType::WorkdirToIndex)
                    ==> st.1.contains(delta_path(items, k))
            &&& forall|k: int|
                lo <= k < n && #[trigger] is_delta_of(items, k, DiffType::IndexToTree)
                    ==> st.3.contains(delta_path(items, k))
            &&& forall|k: int| lo <= k < n ==> !#[trigger] is_delta_of(items, k, DiffType::TreeToTree)
            &&& forall|k: int, p: Seq<char>|
                lo <= k < n && #[trigger] is_untracked_at(items, k, p) ==> st.0.contains(p)
            &&& forall|j: int|
                0 <= j < st.1.len() ==> #[trigger] delta_in(
                    items,
                    lo,
                    n,
                    DiffType::WorkdirToIndex,
                    st.1[j],
                    st.2[j],
                )
            &&& forall|j: int|
                0 <= j < st.3.len() ==> #[trigger] delta_in(
                    items,
                    lo,
                    n,
                    DiffType::IndexToTree,
                    st.3[j],
                    st.4[j],
                )
            &&& forall|j: int| 0 <= j < st.0.len() ==> #[trigger] untracked_in(items, lo, n, st.0[j])
        }),
    decreases n - lo,
{
    if n > lo {
        lemma_files_by_state(items, lo, n - 1);
        let prev = files_upto(items, lo, n - 1)->Some_0;
        let st = files_upto(items, lo, n)->Some_0;
        let last = n - 1;
        let dp = delta_path(items, last);
        let dq = delta_patch(items, last);
        let un = is_delta_of(items, last, DiffType::WorkdirToIndex);
        let sg = is_delta_of(items, last, DiffType::IndexToTree);
        assert(Some(st) == file_step(prev, items[last]));
        assert(!is_delta_of(items, last, DiffType::TreeToTree));
        // How each list grew with the last item.
        assert(if un && !prev.1.contains(dp) {
            st.1 == prev.1.push(dp) && st.2 == prev.2.push(dq)
        } else {
            st.1 == prev.1 && st.2 == prev.2
        });
        assert(if sg && !prev.3.contains(dp) {
            st.3 == prev.3.push(dp) && st.4 == prev.4.push(dq)
        } else {
            st.3 == prev.3 && st.4 == prev.4
        });
        assert(match items[last].data {
            ItemData::Untracked(p) => st.0 == push_new(prev.0, p@) && is_untracked_at(items, last, p@),
            _ => st.0 == prev.0 && forall|p: Seq<char>| !#[trigger] is_untracked_at(items, last, p),
        });
        assert forall|k: int|
            lo <= k < n && #[trigger] is_delta_of(items, k, DiffType::WorkdirToIndex) implies st.1.contains(
            delta_path(items, k)) by {
            if k < last {
                let j = choose|j: int| 0 <= j < prev.1.len() && prev.1[j] == delta_path(items, k);
                assert(st.1[j] == delta_path(items, k));
            } else if !prev.1.contains(dp) {
                assert(st.1[prev.1.len() as int] == dp);
            }
        }
        assert forall|k: int|
            lo <= k < n && #[trigger] is_delta_of(items, k, DiffType::IndexToTree) implies st.3.contains(
            delta_path(items, k)) by {
            if k < last {
                let j = choose|j: int| 0 <= j < prev.3.len() && prev.3[j] == delta_path(items, k);
                assert(st.3[j] == delta_path(items, k));
            } else if !prev.3.contains(dp) {
                assert(st.3[prev.3.len() as int] == dp);
            }
        }
        assert forall|k: int, p: Seq<char>|
            lo <= k < n && #[trigger] is_untracked_at(items, k, p) implies st.0.contains(p) by {
            if k < last {
                let j = choose|j: int| 0 <= j < prev.0.len() && prev.0[j] == p;
                assert(st.0[j] == p);
            } else if !prev.0.contains(p) {
                assert(st.0[prev.0.len() as int] == p);
            }
        }
        assert forall|j: int| 0 <= j < st.1.len() implies #[trigger] delta_in(
            items,
            lo,
            n,
            DiffType::WorkdirToIndex,
            st.1[j],
            st.2[j],
        ) by {
            if j < prev.1.len() {
                assert(st.1[j] == prev.1[j] && st.2[j] == prev.2[j]);
                assert(delta_in(items, lo, n - 1, DiffType::WorkdirToIndex, prev.1[j], prev.2[j]));
                let k = choose|k: int|
                    lo <= k < n - 1 && #[trigger] is_delta_of(items, k, DiffType::WorkdirToIndex)
                        && delta_path(items, k) == prev.1[j] && delta_patch(items, k) == prev.2[j];
            } else {
                assert(is_delta_of(items, last, DiffType::WorkdirToIndex));
            }
        }
        assert forall|j: int| 0 <= j < st.3.len() implies #[trigger] delta_in(
            items,
            lo,
            n,
            DiffType::IndexToTree,
            st.3[j],
            st.4[j],
        ) by {
            if j < prev.3.len() {
                assert(st.3[j] == prev.3[j] && st.4[j] == prev.4[j]);
                assert(delta_in(items, lo, n - 1, DiffType::IndexToTree, prev.3[j], prev.4[j]));
                let k = choose|k: int|
                    lo <= k < n - 1 && #[trigger] is_delta_of(items, k, DiffType::IndexToTree)
                        && delta_path(items, k) == prev.3[j] && delta_patch(items, k) == prev.4[j];
            } else {
                assert(is_delta_of(items, last, DiffType::IndexToTree));
            }
        }
        assert forall|j: int| 0 <= j < st.0.len() implies #[trigger] untracked_in(items, lo, n, st.0[j]) by {
            if j < prev.0.len() {
                assert(st.0[j] == prev.0[j]);
                assert(untracked_in(items, lo, n - 1, prev.0[j]));
                let k = choose|k: int| lo <= k < n - 1 && #[trigger] is_untracked_at(items, k, prev.0[j]);
            } else {
                assert(is_untracked_at(items, last, st.0[j]));
            }
        }
    } else {
        let st = files_upto(items, lo, n)->Some_0;
        assert(st.0.len() == 0 && st.1.len() == 0 && st.3.len() == 0);
    }
}

/// Of the files a range selects: every file of the worktree's diff in the
/// range is among the unstaged paths, every file of the index's diff among
/// the staged paths, every untracked file among the untracked paths, no
/// file of a commit's diff is in the range, and each path selected, with
/// its patch, is that of such an item in the range.
pub proof fn law_file_range_by_state(s: Screen, sel: FileSelection)
    requires
        s.well_formed(),
        s.mark is Some,
        s.mark_in_range(),
        files_upto(
            s.items@,
            range_lo(s.mark->Some_0, s.cursor) as int,
            range_hi(s.mark->Some_0, s.cursor) + 1,
        ) == Some(file_sets(sel)),
    ensures
        ({
            let lo = range_lo(s.mark->Some_0, s.cursor) as int;
            let hi = range_hi(s.mark->Some_0, s.cursor) as int;
            let items = s.items@;
            &&& forall|k: int|
                lo <= k <= hi && #[trigger] is_delta_of(items, k, DiffType::WorkdirToIndex)
                    ==> diff_paths(sel.unstaged@).contains(delta_path(items, k))
            &&& forall|k: int|
                lo <= k <= hi && #[trigger] is_delta_of(items, k, DiffType::IndexToTree)
                    ==> diff_paths(sel.staged@).contains(delta_path(items, k))
            &&& forall|k: int| lo <= k <= hi ==> !#[trigger] is_delta_of(items, k, DiffType::TreeToTree)
            &&& forall|k: int, p: Seq<char>|
                lo <= k <= hi && #[trigger] is_untracked_at(items, k, p) ==> views(sel.untracked@).contains(p)
            &&& forall|j: int|
                0 <= j < sel.unstaged@.len() ==> #[trigger] delta_in(
                    items,
                    lo,
                    hi + 1,
                    DiffType::WorkdirToIndex,
                    sel.unstaged@[j].path@,
                    sel.unstaged@[j].patch@,
                )
            &&& forall|j: int|
                0 <= j < sel.staged@.len() ==> #[trigger] delta_in(
                    items,
                    lo,
                    hi + 1,
                    DiffType::IndexToTree,
                    sel.staged@[j].path@,
                    sel.staged@[j].patch@,
                )
            &&& forall|j: int|
                0 <= j < sel.untracked@.len() ==> #[trigger] untracked_in(
                    items,
                    lo,
                    hi + 1,
                    sel.untracked@[j]@,
                )
        }),
{
    let lo = range_lo(s.mark->Some_0, s.cursor) as int;
    let hi = range_hi(s.mark->Some_0, s.cursor) as int;
    lemma_files_by_state(s.items@, lo, hi + 1);
    let items = s.items@;
    let st = file_sets(sel);
    assert forall|j: int| 0 <= j < sel.unstaged@.len() implies #[trigger] delta_in(
        items,
        lo,
        hi + 1,
        DiffType::WorkdirToIndex,
        sel.unstaged@[j].path@,
        sel.unstaged@[j].patch@,
    ) by {
        assert(st.1[j] == sel.unstaged@[j].path@ && st.2[j] == sel.unstaged@[j].patch@);
    }
    assert forall|j: int| 0 <= j < sel.staged@.len() implies #[trigger] delta_in(
        items,
        lo,
        hi + 1,
        DiffType::IndexToTree,
        sel.staged@[j].path@,
        sel.staged@[j].patch@,
    ) by {
        assert(st.3[j] == sel.staged@[j].path@ && st.4[j] == sel.staged@[j].patch@);
    }
    assert forall|j: int| 0 <= j < sel.untracked@.len() implies #[trigger] untracked_in(
        items,
        lo,
        hi + 1,
        sel.untracked@[j]@,
    ) by {
        assert(st.0[j] == sel.untracked@[j]@);
    }
}

/// What a range of files may hold: the sections of untracked, unstaged and
/// staged changes, untracked files, files of the diff of the worktree or of
/// the index, hunks, lines and empty lines.
pub open spec fn file_range_item(d: ItemData) -> bool {
    match d {
        ItemData::Raw(c) => c@.len() == 0,
        ItemData::AllUntracked(_) | ItemData::AllUnstaged(_) | ItemData::AllStaged(_)
        | ItemData::Untracked(_) | ItemData::Hunk { .. } | ItemData::HunkLine { .. } => true,
        ItemData::Delta { diff, .. } => diff.diff_type != DiffType::TreeToTree,
        _ => false,
    }
}

/// A file a range may select: an untracked file, or a file of the diff of
/// the worktree or of the index.
pub open spec fn file_item(d: ItemData) -> bool {
    match d {
        ItemData::Untracked(_) => true,
        ItemData::Delta { diff, .. } => diff.diff_type != DiffType::TreeToTree,
        _ => false,
    }
}

/// Items `lo..n` select files, maybe none, exactly when each is of a kind a
/// range of files may hold.
proof fn lemma_files_some(items: Seq<Item>, lo: int, n: int)
    requires
        0 <= lo <= n <= items.len(),
    ensures
        (files_upto(items, lo, n) is Some) == (forall|k: int|
            lo <= k < n ==> file_range_item(#[trigger] items[k].data)),
    decreases n - lo,
{
    if n > lo {
        lemma_files_some(items, lo, n - 1);
        if files_upto(items, lo, n - 1) is Some {
            let st = files_upto(items, lo, n - 1)->Some_0;
            assert((file_step(st, items[n - 1]) is Some) == file_range_item(items[n - 1].data));
        }
        if !(files_upto(items, lo, n - 1) is Some) {
            let k = choose|k: int| lo <= k < n - 1 && !file_range_item(#[trigger] items[k].data);
            assert(lo <= k < n && !file_range_item(items[k].data));
        }
    }
}

/// A range selects files exactly when each of its items is of a kind a
/// range of files may hold and at least one of them is a file that can be
/// selected (untracked, or of the diff of the worktree or of the index).
pub proof fn law_file_range_selects(s: Screen, r: Option<FileSelection>)
    requires
        s.well_formed(),
        s.mark is Some,
        s.mark_in_range(),
        ({
            let lo = range_lo(s.mark->Some_0, s.cursor) as int;
            let hi = range_hi(s.mark->Some_0, s.cursor) as int;
            match files_upto(s.items@, lo, hi + 1) {
                Some(st) if st.0.len() > 0 || st.1.len() > 0 || st.3.len() > 0 => r matches Some(sel)
                    && sel.well_formed() && file_sets(sel) == st,
                _ => r is None,
            }
        }),
    ensures
        ({
            let lo = range_lo(s.mark->Some_0, s.cursor) as int;
            let hi = range_hi(s.mark->Some_0, s.cursor) as int;
            (r is Some) == ((forall|k: int| lo <= k <= hi ==> file_range_item(#[trigger] s.items@[k].data))
                && exists|k: int| lo <= k <= hi && file_item(#[trigger] s.items@[k].data))
        }),
{
    let items = s.items@;
    let lo = range_lo(s.mark->Some_0, s.cursor) as int;
    let hi = range_hi(s.mark->Some_0, s.cursor) as int;
    lemma_files_some(items, lo, hi + 1);
    if files_upto(items, lo, hi + 1) is Some {
        lemma_files_by_state(items, lo, hi + 1);
        let st = files_upto(items, lo, hi + 1)->Some_0;
        if exists|k: int| lo <= k <= hi && file_item(#[trigger] items[k].data) {
            let k = choose|k: int| lo <= k <= hi && file_item(#[trigger] items[k].data);
            match items[k].data {
                ItemData::Untracked(p) => {
                    assert(is_untracked_at(items, k, p@));
                },
                ItemData::Delta { diff, .. } => {
                    if diff.diff_type == DiffType::WorkdirToIndex {
                        assert(is_delta_of(items, k, DiffType::WorkdirToIndex));
                    } else {
                        assert(is_delta_of(items, k, DiffType::IndexToTree));
                    }
                },
                _ => {},
            }
        }
        if st.0.len() > 0 {
            assert(untracked_in(items, lo, hi + 1, st.0[0]));
            let k = choose|k: int| lo <= k < hi + 1 && #[trigger] is_untracked_at(items, k, st.0[0]);
            assert(file_item(items[k].data));
        } else if st.1.len() > 0 {
            assert(delta_in(items, lo, hi + 1, DiffType::WorkdirToIndex, st.1[0], st.2[0]));
            let k = choose|k: int|
                lo <= k < hi + 1 && #[trigger] is_delta_of(items, k, DiffType::WorkdirToIndex)
                    && delta_path(items, k) == st.1[0] && delta_patch(items, k) == st.2[0];
            assert(file_item(items[k].data));
        } else if st.3.len() > 0 {
            assert(delta_in(items, lo, hi + 1, DiffType::IndexToTree, st.3[0], st.4[0]));
            let k = choose|k: int|
                lo <= k < hi + 1 && #[trigger] is_delta_of(items, k, DiffType::IndexToTree)
                    && delta_path(items, k) == st.3[0] && delta_patch(items, k) == st.4[0];
            assert(file_item(items[k].data));
        }
    }
}

impl Screen {
    /// The mark, when set, is on an item.
    pub open spec fn mark_in_range(&self) -> bool {
        match self.mark {
            Some(m) => m < self.items@.len(),
            None => true,
        }
    }

    /// The local branches between the mark and the cursor, when the range
    /// holds branches and empty lines only and at least one branch.
    pub fn selected_branches(&self) -> (r: Option<Vec<String>>)
        requires
            self.well_formed(),
            self.mark_in_range(),
        ensures
            match self.mark {
                None => r is None,
                Some(m) => {
                    let lo = range_lo(m, self.cursor) as int;
                    let hi = range_hi(m, self.cursor) as int;
                    match branches_upto(self.items@, lo, hi + 1) {
                        Some(bs) if bs.len() > 0 => r matches Some(v) && views(v@) == bs,
                        _ => r is None,
                    }
                },
            },
    {
        let mark = match self.mark {
            Some(m) => m,
            None => return None,
        };
        let start = if mark < self.cursor { mark } else { self.cursor };
        let end = if mark < self.cursor { self.cursor } else { mark };
        let mut branches: Vec<String> = Vec::new();
        let mut i = start;
        while i <= end
            invariant
                start <= i <= end + 1,
                end < self.items@.len(),
                self.items@.len() <= usize::MAX,
                self.mark == Some(mark),
                start == range_lo(mark, self.cursor),
                end == range_hi(mark, self.cursor),
                branches_upto(self.items@, start as int, i as int) == Some(views(branches@)),
            decreases end + 1 - i,
        {
            match &self.items[i].data {
                ItemData::Raw(content) => {
                    if content.as_str().unicode_len() != 0 {
                        proof {
                            lemma_branches_fail(self.items@, start as int, i + 1, end + 1);
                        }
                        return None;
                    }
                },
                ItemData::Reference { kind: Ref::Head(branch), .. } => {
                    let ghost before = branches@;
                    branches.push(branch.clone());
                    assert(views(branches@) =~= views(before).push(branch@));
                },
                _ => {
                    proof {
                        lemma_branches_fail(self.items@, start as int, i + 1, end + 1);
                    }
                    return None;
                },
            }
            i = i + 1;
        }
        if branches.len() == 0 {
            None
        } else {
            Some(branches)
        }
    }

    /// The files between the mark and the cursor, by state, each once; none
    /// when the range holds anything but sections, files of the worktree
    /// or the index, hunks, lines and empty lines, or no file at all.
    pub fn selected_file_range(&self) -> (r: Option<FileSelection>)
        requires
            self.well_formed(),
            self.mark_in_range(),
            forall|i: int| 0 <= i < self.items@.len() ==> (#[trigger] self.items@[i]).data.well_formed(),
        ensures
            match self.mark {
                None => r is None,
                Some(m) => {
                    let lo = range_lo(m, self.cursor) as int;
                    let hi = range_hi(m, self.cursor) as int;
                    match files_upto(self.items@, lo, hi + 1) {
                        Some(st) if st.0.len() > 0 || st.1.len() > 0 || st.3.len() > 0 => r matches Some(
                            sel,
                        ) && sel.well_formed() && file_sets(sel) == st,
                        _ => r is None,
                    }
                },
            },
    {
        let mark = match self.mark {
            Some(m) => m,
            None => return None,
        };
        let start = if mark < self.cursor { mark } else { self.cursor };
        let end = if mark < self.cursor { self.cursor } else { mark };
        let mut selection = FileSelection::new();
        proof {
            assert(file_sets(selection) =~= (seq![], seq![], seq![], seq![], seq![]));
        }
        let mut i = start;
        while i <= end
            invariant
                start <= i <= end + 1,
                end < self.items@.len(),
                self.items@.len() <= usize::MAX,
                self.mark == Some(mark),
                start == range_lo(mark, self.cursor),
                end == range_hi(mark, self.cursor),
                forall|i: int| 0 <= i < self.items@.len() ==> (#[trigger] self.items@[i]).data.well_formed(),
                selection.well_formed(),
                files_upto(self.items@, start as int, i as int) == Some(file_sets(selection)),
                diff_paths(selection.unstaged@).len() == diff_patches(selection.unstaged@).len(),
                diff_paths(selection.staged@).len() == diff_patches(selection.staged@).len(),
            decreases end + 1 - i,
        {
            let item = &self.items[i];
            assert(item.data.well_formed());
            match &item.data {
                ItemData::Raw(content) => {
                    if content.as_str().unicode_len() != 0 {
                        proof {
                            lemma_files_fail(self.items@, start as int, i + 1, end + 1);
                        }
                        return None;
                    }
                },
                ItemData::AllUntracked(_) | ItemData::AllUnstaged(_) | ItemData::AllStaged(_) => {},
                ItemData::Untracked(path) => {
                    selection.push_untracked(path.clone());
                },
                ItemData::Delta { diff, file_i, .. } => match diff.diff_type {
                    DiffType::WorkdirToIndex => {
                        selection.push_unstaged(diff, *file_i);
                    },
                    DiffType::IndexToTree => {
                        selection.push_staged(diff, *file_i);
                    },
                    DiffType::TreeToTree => {
                        proof {
                            lemma_files_fail(self.items@, start as int, i + 1, end + 1);
                        }
                        return None;
                    },
                },
                ItemData::Hunk { .. } | ItemData::HunkLine { .. } => {},
                _ => {
                    proof {
                        lemma_files_fail(self.items@, start as int, i + 1, end + 1);
                    }
                    return None;
                },
            }
            i = i + 1;
        }
        if selection.is_empty() {
            None
        } else {
            Some(selection)
        }
    }

    /// The lines between the mark and the cursor, when they are all lines
    /// of one hunk of one diff: that diff (as the first line holds it), the
    /// file, the hunk, and the lines spanned.
    pub fn selected_hunk_line_range(&self) -> (r: Option<HunkLineSelection>)
        requires
            self.well_formed(),
            self.mark_in_range(),
            forall|i: int| 0 <= i < self.items@.len() ==> (#[trigger] self.items@[i]).data.well_formed(),
        ensures
            match self.mark {
                None => r is None,
                Some(m) => {
                    let lo = range_lo(m, self.cursor) as int;
                    let hi = range_hi(m, self.cursor) as int;
                    match line_run(self.items@, lo, hi + 1) {
                        None => r is None,
                        Some((d, f, h, a, b)) => r matches Some(sel) && (self.items@[lo].data matches ItemData::HunkLine {
                            diff,
                            ..
                        } && sel.diff == diff) && sel.diff.id == d && sel.file_i == f && sel.hunk_i
                            == h && sel.line_start == a && sel.line_end == b,
                    }
                },
            },
    {
        let mark = match self.mark {
            Some(m) => m,
            None => return None,
        };
        let start = if mark < self.cursor { mark } else { self.cursor };
        let end = if mark < self.cursor { self.cursor } else { mark };
        assert(self.items@[start as int].data.well_formed());
        let (diff, file_i, hunk_i, first_line) = match &self.items[start].data {
            ItemData::HunkLine { diff, file_i, hunk_i, line_i } => {
                let count = diff.file_diffs[*file_i].hunks[*hunk_i].lines.len();
                assert(*line_i < count);
                (diff.clone(), *file_i, *hunk_i, *line_i)
            },
            _ => {
                proof {
                    lemma_line_run_fail(self.items@, start as int, start + 1, end + 1);
                }
                return None;
            },
        };
        let mut line_start = first_line;
        let mut line_end = first_line + 1;
        let mut i = start + 1;
        while i <= end
            invariant
                start < i <= end + 1,
                end < self.items@.len(),
                self.items@.len() <= usize::MAX,
                self.mark == Some(mark),
                start == range_lo(mark, self.cursor),
                end == range_hi(mark, self.cursor),
                forall|i: int| 0 <= i < self.items@.len() ==> (#[trigger] self.items@[i]).data.well_formed(),
                line_run(self.items@, start as int, i as int) == Some(
                    (diff.id, file_i, hunk_i, line_start as int, line_end as int),
                ),
            decreases end + 1 - i,
        {
            assert(self.items@[i as int].data.well_formed());
            match &self.items[i].data {
                ItemData::HunkLine { diff: d, file_i: f, hunk_i: h, line_i } => {
                    if d.id != diff.id || *f != file_i || *h != hunk_i {
                        proof {
                            lemma_line_run_fail(self.items@, start as int, i + 1, end + 1);
                        }
                        return None;
                    }
                    let count = d.file_diffs[*f].hunks[*h].lines.len();
                    assert(*line_i < count);
                    if *line_i < line_start {
                        line_start = *line_i;
                    }
                    if *line_i + 1 > line_end {
                        line_end = *line_i + 1;
                    }
                },
                _ => {
                    proof {
                        lemma_line_run_fail(self.items@, start as int, i + 1, end + 1);
                    }
                    return None;
                },
            }
            i = i + 1;
        }
        Some(HunkLineSelection { diff, file_i, hunk_i, line_start, line_end })
    }
}

} // verus!
