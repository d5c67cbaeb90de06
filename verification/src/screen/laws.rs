//! What holds of a screen across several operations.
use vstd::prelude::*;

use crate::screen::{
    clamped_scroll,
    first_nav,
    last_nav,
    max_scroll,
    nav_ok,
    sat_sub,
    NavMode,
    Screen,
};

verus! {

/// No item between `lo` and the first allowed one from `lo` is allowed.
proof fn lemma_first_nav_skips(s: Screen, lo: int, mode: NavMode, k: int)
    requires
        0 <= lo <= k,
        first_nav(s.items@, s.expanded_items@, lo, mode) == -1 || k < first_nav(
            s.items@,
            s.expanded_items@,
            lo,
            mode,
        ),
        k < s.items@.len(),
    ensures
        !nav_ok(s.items@, s.expanded_items@, k, mode),
    decreases k - lo,
{
    if k > lo {
        lemma_first_nav_skips(s, lo + 1, mode, k);
    }
}

/// Going back from `hi` over items that are not allowed reaches `c` when
/// `c` is allowed and nothing in between is.
proof fn lemma_last_nav_reaches(s: Screen, c: int, hi: int, mode: NavMode)
    requires
        0 <= c < hi <= s.items@.len(),
        nav_ok(s.items@, s.expanded_items@, c, mode),
        forall|k: int| c < k < hi ==> !#[trigger] nav_ok(s.items@, s.expanded_items@, k, mode),
    ensures
        last_nav(s.items@, s.expanded_items@, hi, mode) == c,
    decreases hi - c,
{
    if hi - 1 > c {
        lemma_last_nav_reaches(s, c, hi - 1, mode);
    }
}

/// Moving down and then up in the same mode comes back to the item one
/// started on, when the cursor rested on an item the mode allows and the
/// move down went somewhere.
pub proof fn law_next_then_previous(s: Screen, mode: NavMode)
    requires
        s.well_formed(),
        s.spec_nav_filter(s.cursor as int, mode),
        s.next_from(s.cursor, mode) != s.cursor,
    ensures
        s.previous_from(s.next_from(s.cursor, mode), mode) == s.cursor,
{
    let c = s.cursor as int;
    let n = first_nav(s.items@, s.expanded_items@, c + 1, mode);
    s.lemma_first_nav_from(c + 1, mode);
    assert(c + 1 <= n < s.items@.len());
    assert forall|k: int| c < k < n implies !#[trigger] nav_ok(s.items@, s.expanded_items@, k, mode) by {
        lemma_first_nav_skips(s, c + 1, mode, k);
    }
    lemma_last_nav_reaches(s, c, n, mode);
}

/// No item between the one found going back from `hi` and `hi` is allowed.
proof fn lemma_last_nav_skips(s: Screen, hi: int, mode: NavMode, k: int)
    requires
        k < hi <= s.items@.len(),
        0 <= k,
        last_nav(s.items@, s.expanded_items@, hi, mode) < k,
    ensures
        !nav_ok(s.items@, s.expanded_items@, k, mode),
    decreases hi - k,
{
    if k < hi - 1 {
        lemma_last_nav_skips(s, hi - 1, mode, k);
    }
}

/// Moving to the next section at most `depth` deep lands on the first item
/// after the cursor that is shown, selectable, a section and at most `depth`
/// deep; where there is none the cursor stays.
pub proof fn law_next_sibling(s: Screen, depth: usize)
    requires
        s.well_formed(),
    ensures
        ({
            let r = s.next_from(s.cursor, NavMode::Siblings { depth }) as int;
            let c = s.cursor as int;
            (r == c && forall|k: int|
                c < k < s.items@.len() ==> !(s.expanded_items@[k] && !#[trigger] s.items@[k].unselectable
                    && s.items@[k].data.section() && s.items@[k].depth <= depth)) || (c < r
                < s.items@.len() && s.expanded_items@[r] && !s.items@[r].unselectable
                && s.items@[r].data.section() && s.items@[r].depth <= depth && forall|k: int|
                c < k < r ==> !(s.expanded_items@[k] && !#[trigger] s.items@[k].unselectable
                    && s.items@[k].data.section() && s.items@[k].depth <= depth))
        }),
{
    let mode = NavMode::Siblings { depth };
    let c = s.cursor as int;
    let n = first_nav(s.items@, s.expanded_items@, c + 1, mode);
    s.lemma_first_nav_from(c + 1, mode);
    assert forall|k: int| c < k < s.items@.len() && (n == -1 || k < n) implies !(
    s.expanded_items@[k] && !#[trigger] s.items@[k].unselectable && s.items@[k].data.section()
        && s.items@[k].depth <= depth) by {
        lemma_first_nav_skips(s, c + 1, mode, k);
    }
}

/// Moving to the previous section at most `depth` deep lands on the last
/// item before the cursor that is shown, selectable, a section and at most
/// `depth` deep; where there is none the cursor stays.
pub proof fn law_previous_sibling(s: Screen, depth: usize)
    requires
        s.well_formed(),
    ensures
        ({
            let r = s.previous_from(s.cursor, NavMode::Siblings { depth }) as int;
            let c = s.cursor as int;
            (r == c && forall|k: int|
                0 <= k < c ==> !(s.expanded_items@[k] && !#[trigger] s.items@[k].unselectable
                    && s.items@[k].data.section() && s.items@[k].depth <= depth)) || (0 <= r < c
                && s.expanded_items@[r] && !s.items@[r].unselectable && s.items@[r].data.section()
                && s.items@[r].depth <= depth && forall|k: int|
                r < k < c ==> !(s.expanded_items@[k] && !#[trigger] s.items@[k].unselectable
                    && s.items@[k].data.section() && s.items@[k].depth <= depth))
        }),
{
    let mode = NavMode::Siblings { depth };
    let c = s.cursor as int;
    let p = last_nav(s.items@, s.expanded_items@, c, mode);
    s.lemma_last_nav_before(c, mode);
    if c > 0 {
        assert forall|k: int| p < k < c && 0 <= k implies !(s.expanded_items@[k]
            && !#[trigger] s.items@[k].unselectable && s.items@[k].data.section()
            && s.items@[k].depth <= depth) by {
            lemma_last_nav_skips(s, c, mode, k);
        }
    }
}

/// Moving to the next item lands on the first item after the cursor that
/// is shown, selectable and not a single line of a hunk or of a blamed
/// file; where there is none the cursor stays.
pub proof fn law_next_item(s: Screen)
    requires
        s.well_formed(),
    ensures
        ({
            let r = s.next_from(s.cursor, NavMode::Normal) as int;
            let c = s.cursor as int;
            (r == c && forall|k: int|
                c < k < s.items@.len() ==> !(s.expanded_items@[k] && !#[trigger] s.items@[k].unselectable
                    && !s.items@[k].data.sub_line())) || (c < r < s.items@.len() && s.expanded_items@[r]
                && !s.items@[r].unselectable && !s.items@[r].data.sub_line() && forall|k: int|
                c < k < r ==> !(s.expanded_items@[k] && !#[trigger] s.items@[k].unselectable
                    && !s.items@[k].data.sub_line()))
        }),
{
    let mode = NavMode::Normal;
    let c = s.cursor as int;
    let n = first_nav(s.items@, s.expanded_items@, c + 1, mode);
    s.lemma_first_nav_from(c + 1, mode);
    assert forall|k: int| c < k < s.items@.len() && (n == -1 || k < n) implies !(
    s.expanded_items@[k] && !#[trigger] s.items@[k].unselectable && !s.items@[k].data.sub_line()) by {
        lemma_first_nav_skips(s, c + 1, mode, k);
    }
}

/// Moving to the previous item lands on the last item before the cursor
/// that is shown, selectable and not a single line of a hunk or of a
/// blamed file; where there is none the cursor stays.
pub proof fn law_previous_item(s: Screen)
    requires
        s.well_formed(),
    ensures
        ({
            let r = s.previous_from(s.cursor, NavMode::Normal) as int;
            let c = s.cursor as int;
            (r == c && forall|k: int|
                0 <= k < c ==> !(s.expanded_items@[k] && !#[trigger] s.items@[k].unselectable
                    && !s.items@[k].data.sub_line())) || (0 <= r < c && s.expanded_items@[r]
                && !s.items@[r].unselectable && !s.items@[r].data.sub_line() && forall|k: int|
                r < k < c ==> !(s.expanded_items@[k] && !#[trigger] s.items@[k].unselectable
                    && !s.items@[k].data.sub_line()))
        }),
{
    let mode = NavMode::Normal;
    let c = s.cursor as int;
    let p = last_nav(s.items@, s.expanded_items@, c, mode);
    s.lemma_last_nav_before(c, mode);
    if c > 0 {
        assert forall|k: int| p < k < c && 0 <= k implies !(s.expanded_items@[k]
            && !#[trigger] s.items@[k].unselectable && !s.items@[k].data.sub_line()) by {
            lemma_last_nav_skips(s, c, mode, k);
        }
    }
}

/// Toggling the section under the cursor twice leaves the same sections
/// collapsed: of two screens each the toggle of the one before it (which
/// keeps the items and the cursor), the last collapses what the first did.
pub proof fn law_toggle_section_twice(s0: Screen, s1: Screen, s2: Screen)
    requires
        s0.well_formed(),
        s0.items@.len() > 0,
        s1.items == s0.items,
        s1.cursor == s0.cursor,
        s2.items == s1.items,
        s2.cursor == s1.cursor,
        forall|id: u64| #[trigger] s1.collapsed@.contains(id) == if s0.items@[s0.cursor as int].data.section()
            && id == s0.items@[s0.cursor as int].id {
            !s0.collapsed@.contains(id)
        } else {
            s0.collapsed@.contains(id)
        },
        forall|id: u64| #[trigger] s2.collapsed@.contains(id) == if s1.items@[s1.cursor as int].data.section()
            && id == s1.items@[s1.cursor as int].id {
            !s1.collapsed@.contains(id)
        } else {
            s1.collapsed@.contains(id)
        },
    ensures
        forall|id: u64| #[trigger] s2.collapsed@.contains(id) == s0.collapsed@.contains(id),
{
    assert forall|id: u64| #[trigger] s2.collapsed@.contains(id) == s0.collapsed@.contains(id) by {
        assert(s1.collapsed@.contains(id) == s1.collapsed@.contains(id));
    }
}

/// Marking a branch that was not marked and then unmarking it leaves the
/// same branches marked as before.
pub proof fn law_unmark_undoes_mark(s0: Screen, s1: Screen, s2: Screen, branch: Seq<char>)
    requires
        !s0.delete_marks().contains(branch),
        s1.delete_marks() == s0.delete_marks().insert(branch),
        s2.delete_marks() == s1.delete_marks().remove(branch),
    ensures
        s2.delete_marks() == s0.delete_marks(),
{
    assert(s2.delete_marks() =~= s0.delete_marks());
}

/// The scroll position is never past the furthest the view may scroll.
pub proof fn law_scroll_in_range(scroll: usize, len: nat, height: u16)
    requires
        len > 0,
    ensures
        clamped_scroll(scroll, len, height) <= max_scroll(len, height),
        clamped_scroll(scroll, len, height) < len,
{
}

/// Scrolling down by some lines and back up by as many returns to the
/// same position, when the way down stayed in range.
pub proof fn law_scroll_down_then_up(s0: Screen, s1: Screen, s2: Screen, lines: usize)
    requires
        s0.well_formed(),
        s0.line_index@.len() > 0,
        s0.scroll + lines <= max_scroll(s0.line_index@.len(), s0.size.1),
        s1.same_content(&s0),
        s1.scroll == clamped_scroll(
            if s0.scroll + lines > usize::MAX {
                usize::MAX
            } else {
                (s0.scroll + lines) as usize
            },
            s0.line_index@.len(),
            s0.size.1,
        ),
        s2.same_content(&s1),
        s2.scroll == clamped_scroll(
            sat_sub(s1.scroll as int, lines as int) as usize,
            s1.line_index@.len(),
            s1.size.1,
        ),
    ensures
        s2.scroll == s0.scroll,
{
}

/// Clearing the mark right after setting it gives back the screen as it
/// was, when no mark was set before.
pub proof fn law_clear_mark_after_set_mark(s0: Screen, s1: Screen, s2: Screen)
    requires
        s0.mark.is_none(),
        s1 == s0.with_position(s0.cursor, s0.scroll, Some(s0.cursor)),
        s2 == s1.with_position(s1.cursor, s1.scroll, None),
    ensures
        s2 == s0,
{
}

} // verus!
