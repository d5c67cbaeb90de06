//! A screen: a list of items shown line by line, with a cursor, an optional
//! mark, collapsible sections and a scroll position.
use vstd::prelude::*;

use crate::item_data::ItemData;
use crate::items::Item;

pub mod highlight;
pub mod laws;
pub mod marks;
pub mod range;
pub mod selection;
pub mod show_refs;

verus! {

/// Lines kept visible below the selected item when scrolling to it.
pub const BOTTOM_CONTEXT_LINES: usize = 2;

/// Room the line count leaves for adding a scroll offset and a screen height.
pub const LINE_HEADROOM: usize = 0x20000;

/// Which items moving the cursor may land on.
#[derive(Clone, Copy, Debug, PartialEq, Eq, Structural)]
pub enum NavMode {
    /// Selectable items other than single lines.
    Normal,
    /// Selectable sections at most `depth` deep.
    Siblings { depth: usize },
    /// Every selectable item, single lines included.
    IncludeSubLines,
}

pub struct Screen {
    /// Width and height, in columns and lines.
    pub size: (u16, u16),
    pub cursor: usize,
    pub mark: Option<usize>,
    /// Branches marked for deletion, as a sorted set.
    pub delete_marked_branches: Vec<String>,
    /// The first line shown.
    pub scroll: usize,
    pub items: Vec<Item>,
    /// Whether each item is shown, i.e. not inside a collapsed section.
    pub expanded_items: Vec<bool>,
    /// The item on each line; an item of several lines appears once per line.
    pub line_index: Vec<usize>,
    /// `(line, item)` for the first line of each item that has lines.
    pub unique_line_index: Vec<(usize, usize)>,
    /// The number of lines each item takes.
    pub item_heights: Vec<u16>,
    /// Ids of the collapsed sections.
    pub collapsed: Vec<u64>,
}

/// Walking the items in order, the shown flags of the first `n` and the
/// depth of the collapsed section being skipped, if any: an item deeper
/// than that section is hidden; any other is shown, and starts skipping
/// when it is a collapsed section.
pub open spec fn collapse_scan(items: Seq<Item>, collapsed: Seq<u64>, n: nat) -> (
    Seq<bool>,
    Option<usize>,
)
    decreases n,
{
    if n == 0 {
        (seq![], None)
    } else {
        let (flags, skipping) = collapse_scan(items, collapsed, (n - 1) as nat);
        let it = items[n - 1];
        if skipping is Some && skipping->0 < it.depth {
            (flags.push(false), skipping)
        } else {
            (
                flags.push(true),
                if it.data.section() && collapsed.contains(it.id) {
                    Some(it.depth)
                } else {
                    None
                },
            )
        }
    }
}

/// Which items are shown.
pub open spec fn shown_items(items: Seq<Item>, collapsed: Seq<u64>) -> Seq<bool> {
    collapse_scan(items, collapsed, items.len()).0
}

/// The item of each line, for the first `n` items: each shown item once per
/// line of its height.
pub open spec fn lines_for(shown: Seq<bool>, heights: Seq<u16>, n: nat) -> Seq<usize>
    decreases n,
{
    if n == 0 {
        seq![]
    } else {
        lines_for(shown, heights, (n - 1) as nat) + if shown[n - 1] {
            Seq::new(heights[n - 1] as nat, |k: int| (n - 1) as usize)
        } else {
            seq![]
        }
    }
}

/// The first occurrence of each value among the first `n` lines, as
/// `(line, value)` in line order (what `unique_by` keeps).
pub open spec fn first_lines(li: Seq<usize>, n: nat) -> Seq<(usize, usize)>
    decreases n,
{
    if n == 0 {
        seq![]
    } else {
        let prev = first_lines(li, (n - 1) as nat);
        if li.take(n - 1).contains(li[n - 1]) {
            prev
        } else {
            prev.push(((n - 1) as usize, li[n - 1]))
        }
    }
}

/// The total of `heights`.
pub open spec fn sum_heights(heights: Seq<u16>) -> nat
    decreases heights.len(),
{
    if heights.len() == 0 {
        0
    } else {
        sum_heights(heights.drop_last()) + heights.last() as nat
    }
}

proof fn lemma_sum_heights_prefix(heights: Seq<u16>, i: int)
    requires
        0 <= i <= heights.len(),
    ensures
        sum_heights(heights.take(i)) <= sum_heights(heights),
    decreases heights.len() - i,
{
    if i < heights.len() {
        lemma_sum_heights_prefix(heights, i + 1);
        assert(heights.take(i + 1).drop_last() =~= heights.take(i));
    } else {
        assert(heights.take(i) =~= heights);
    }
}

proof fn lemma_first_lines_prefix(li: Seq<usize>, x: usize, n: nat)
    requires
        n <= li.len(),
    ensures
        first_lines(li.push(x), n) == first_lines(li, n),
    decreases n,
{
    if n > 0 {
        lemma_first_lines_prefix(li, x, (n - 1) as nat);
        assert(li.push(x).take(n - 1) =~= li.take(n - 1));
    }
}

proof fn lemma_collapse_scan_len(items: Seq<Item>, collapsed: Seq<u64>, n: nat)
    ensures
        collapse_scan(items, collapsed, n).0.len() == n,
    decreases n,
{
    if n > 0 {
        lemma_collapse_scan_len(items, collapsed, (n - 1) as nat);
    }
}

impl Screen {
    /// The indices describe the items: which are shown, the item of each
    /// line, and the first line of each; the cursor is on an item (or 0 on an
    /// empty screen) and the delete marks are a sorted set.
    pub open spec fn well_formed(&self) -> bool {
        &&& self.indices_ok()
        &&& (if self.items@.len() == 0 {
            self.cursor == 0
        } else {
            self.cursor < self.items@.len()
        })
    }

    /// The indices describe the items, the scroll position is at most a few
    /// lines past the end, and the delete marks are a sorted set.
    pub open spec fn indices_ok(&self) -> bool {
        &&& self.item_heights@.len() == self.items@.len()
        &&& self.items@.len() <= usize::MAX
        &&& self.expanded_items@.len() == self.items@.len()
        &&& self.expanded_items@ == shown_items(self.items@, self.collapsed@)
        &&& self.line_index@ == lines_for(
            self.expanded_items@,
            self.item_heights@,
            self.items@.len(),
        )
        &&& self.unique_line_index@ == first_lines(self.line_index@, self.line_index@.len())
        &&& self.line_index@.len() + LINE_HEADROOM <= usize::MAX
        &&& self.scroll <= self.line_index@.len() + BOTTOM_CONTEXT_LINES
        &&& crate::sorted::strictly_sorted(crate::ops::views(self.delete_marked_branches@))
    }

    /// The heights of the items leave room for every line index.
    pub open spec fn heights_fit(heights: Seq<u16>) -> bool {
        sum_heights(heights) + LINE_HEADROOM <= usize::MAX
    }

    /// Whether the section with this id is collapsed.
    pub fn is_collapsed_id(&self, id: u64) -> (b: bool)
        ensures
            b == self.collapsed@.contains(id),
    {
        let mut i: usize = 0;
        while i < self.collapsed.len()
            invariant
                i <= self.collapsed@.len(),
                forall|j: int| 0 <= j < i ==> self.collapsed@[j] != id,
            decreases self.collapsed@.len() - i,
        {
            if self.collapsed[i] == id {
                return true;
            }
            i = i + 1;
        }
        false
    }

    pub fn is_collapsed(&self, item: &Item) -> (b: bool)
        ensures
            b == self.collapsed@.contains(item.id),
    {
        self.is_collapsed_id(item.id)
    }

    /// Recomputes which items are shown, the line index and the first lines
    /// from the items, their heights and the collapsed sections, then brings
    /// the scroll position back in range.
    pub fn update_indices(&mut self)
        requires
            old(self).item_heights@.len() == old(self).items@.len(),
            Self::heights_fit(old(self).item_heights@),
            crate::sorted::strictly_sorted(crate::ops::views(old(self).delete_marked_branches@)),
        ensures
            final(self).indices_ok(),
            final(self).items == old(self).items,
            final(self).item_heights == old(self).item_heights,
            final(self).collapsed == old(self).collapsed,
            final(self).cursor == old(self).cursor,
            final(self).mark == old(self).mark,
            final(self).size == old(self).size,
            final(self).delete_marked_branches == old(self).delete_marked_branches,
            final(self).scroll == clamped_scroll(
                old(self).scroll,
                final(self).line_index@.len(),
                final(self).size.1,
            ),
            final(self).line_index@.len() == 0 ==> final(self).scroll == 0,
            final(self).line_index@.len() > 0 ==> final(self).scroll <= max_scroll(
                final(self).line_index@.len(),
                final(self).size.1,
            ),
    {
        let n = self.items.len();
        let mut flags: Vec<bool> = Vec::new();
        let mut skipping: Option<usize> = None;
        let mut i: usize = 0;
        while i < n
            invariant
                n == self.items@.len(),
                i <= n,
                (flags@, skipping) == collapse_scan(self.items@, self.collapsed@, i as nat),
            decreases n - i,
        {
            let depth = self.items[i].depth;
            let hidden = match skipping {
                Some(d) => d < depth,
                None => false,
            };
            if hidden {
                flags.push(false);
            } else {
                flags.push(true);
                skipping = if self.items[i].data.is_section() && self.is_collapsed_id(self.items[i].id) {
                    Some(depth)
                } else {
                    None
                };
            }
            i = i + 1;
        }
        let mut li: Vec<usize> = Vec::new();
        let mut unique: Vec<(usize, usize)> = Vec::new();
        let mut i: usize = 0;
        proof {
            lemma_sum_heights_prefix(self.item_heights@, n as int);
            lemma_collapse_scan_len(self.items@, self.collapsed@, n as nat);
            assert(self.item_heights@.take(0) =~= Seq::<u16>::empty());
        }
        while i < n
            invariant
                n == self.items@.len(),
                n == self.item_heights@.len(),
                flags@.len() == n,
                i <= n,
                Self::heights_fit(self.item_heights@),
                li@ == lines_for(flags@, self.item_heights@, i as nat),
                unique@ == first_lines(li@, li@.len()),
                li@.len() <= sum_heights(self.item_heights@.take(i as int)),
                forall|k: int| 0 <= k < li@.len() ==> #[trigger] li@[k] < i,
            decreases n - i,
        {
            proof {
                lemma_sum_heights_prefix(self.item_heights@, i + 1);
                assert(self.item_heights@.take(i + 1).drop_last() =~= self.item_heights@.take(i as int));
            }
            if flags[i] {
                let h = self.item_heights[i];
                let ghost start = li@;
                let mut j: u16 = 0;
                while j < h
                    invariant
                        j <= h,
                        i < n,
                        li@ == start + Seq::new(j as nat, |k: int| i as usize),
                        unique@ == first_lines(li@, li@.len()),
                        forall|k: int| 0 <= k < start.len() ==> #[trigger] start[k] < i,
                        start.len() + h <= sum_heights(self.item_heights@.take(i + 1)),
                        Self::heights_fit(self.item_heights@),
                        sum_heights(self.item_heights@.take(i + 1)) <= sum_heights(self.item_heights@),
                    decreases h - j,
                {
                    let ghost before = li@;
                    proof {
                        lemma_first_lines_prefix(before, i, before.len());
                        assert(li@.push(i).take(before.len() as int) =~= before);
                        if j == 0 {
                            assert(before =~= start);
                            if before.contains(i) {
                                let k = choose|k: int| 0 <= k < before.len() && before[k] == i;
                                assert(start[k] < i);
                            }
                        } else {
                            assert(before[start.len() as int] == i);
                        }
                    }
                    if j == 0 {
                        unique.push((li.len(), i));
                    }
                    li.push(i);
                    j = j + 1;
                    proof {
                        assert(li@ =~= start + Seq::new(j as nat, |k: int| i as usize));
                    }
                }
            }
            i = i + 1;
            proof {
                let prev = lines_for(flags@, self.item_heights@, (i - 1) as nat);
                assert(li@ =~= lines_for(flags@, self.item_heights@, i as nat));
                assert forall|k: int| 0 <= k < li@.len() implies #[trigger] li@[k] < i by {
                    if k >= prev.len() {
                    }
                }
            }
        }
        self.expanded_items = flags;
        self.line_index = li;
        self.unique_line_index = unique;
        self.clamp_scroll();
    }

    /// The furthest the view may scroll: past the end by the context lines,
    /// but never beyond the last line.
    pub fn max_scroll_with_context(&self) -> (m: usize)
        ensures
            m == max_scroll(self.line_index@.len(), self.size.1),
    {
        let len = self.line_index.len();
        if len == 0 {
            return 0;
        }
        let max_scroll = if len > self.size.1 as usize { len - self.size.1 as usize } else { 0 };
        let max_scroll = if max_scroll <= usize::MAX - BOTTOM_CONTEXT_LINES {
            max_scroll + BOTTOM_CONTEXT_LINES
        } else {
            usize::MAX
        };
        if max_scroll < len - 1 {
            max_scroll
        } else {
            len - 1
        }
    }

    /// Brings the scroll position back in range (to 0 on an empty screen).
    pub fn clamp_scroll(&mut self)
        ensures
            final(self).scroll == clamped_scroll(old(self).scroll, old(self).line_index@.len(), old(self).size.1),
            final(self).cursor == old(self).cursor,
            final(self).mark == old(self).mark,
            final(self).items == old(self).items,
            final(self).expanded_items == old(self).expanded_items,
            final(self).line_index == old(self).line_index,
            final(self).unique_line_index == old(self).unique_line_index,
            final(self).item_heights == old(self).item_heights,
            final(self).collapsed == old(self).collapsed,
            final(self).size == old(self).size,
            final(self).delete_marked_branches == old(self).delete_marked_branches,
    {
        if self.line_index.len() == 0 {
            self.scroll = 0;
            return;
        }
        let m = self.max_scroll_with_context();
        if m < self.scroll {
            self.scroll = m;
        }
    }
}

/// The furthest scroll position for `len` lines on a screen `height` high.
pub open spec fn max_scroll(len: nat, height: u16) -> nat {
    if len == 0 {
        0
    } else {
        let m: nat = if len > height { (len - height) as nat } else { 0 };
        let m: nat = m + BOTTOM_CONTEXT_LINES as nat;
        if m < len - 1 {
            m
        } else {
            (len - 1) as nat
        }
    }
}

/// `scroll` brought in range for `len` lines.
pub open spec fn clamped_scroll(scroll: usize, len: nat, height: u16) -> usize {
    if len == 0 {
        0
    } else if max_scroll(len, height) < scroll {
        max_scroll(len, height) as usize
    } else {
        scroll
    }
}

/// Whether the cursor may land on item `i` under `mode`: it is shown,
/// selectable, and of the kind the mode moves between.
pub open spec fn nav_ok(items: Seq<Item>, expanded: Seq<bool>, i: int, mode: NavMode) -> bool {
    &&& 0 <= i < items.len()
    &&& 0 <= i < expanded.len()
    &&& expanded[i]
    &&& !items[i].unselectable
    &&& match mode {
        NavMode::Normal => !items[i].data.sub_line(),
        NavMode::Siblings { depth } => items[i].data.section() && items[i].depth <= depth,
        NavMode::IncludeSubLines => true,
    }
}

/// The first item at or after `lo` the cursor may land on, or -1.
pub open spec fn first_nav(items: Seq<Item>, expanded: Seq<bool>, lo: int, mode: NavMode) -> int
    decreases items.len() - lo,
{
    if lo < 0 || lo >= items.len() {
        -1
    } else if nav_ok(items, expanded, lo, mode) {
        lo
    } else {
        first_nav(items, expanded, lo + 1, mode)
    }
}

/// The last item before `hi` the cursor may land on, or -1.
pub open spec fn last_nav(items: Seq<Item>, expanded: Seq<bool>, hi: int, mode: NavMode) -> int
    decreases hi,
{
    if hi <= 0 || hi > items.len() {
        -1
    } else if nav_ok(items, expanded, hi - 1, mode) {
        hi - 1
    } else {
        last_nav(items, expanded, hi - 1, mode)
    }
}

proof fn lemma_first_nav(items: Seq<Item>, expanded: Seq<bool>, lo: int, mode: NavMode)
    ensures
        first_nav(items, expanded, lo, mode) == -1 || (lo <= first_nav(items, expanded, lo, mode)
            < items.len() && nav_ok(items, expanded, first_nav(items, expanded, lo, mode), mode)),
    decreases items.len() - lo,
{
    if lo >= 0 && lo < items.len() && !nav_ok(items, expanded, lo, mode) {
        lemma_first_nav(items, expanded, lo + 1, mode);
    }
}

proof fn lemma_last_nav(items: Seq<Item>, expanded: Seq<bool>, hi: int, mode: NavMode)
    ensures
        last_nav(items, expanded, hi, mode) == -1 || (0 <= last_nav(items, expanded, hi, mode) < hi
            && nav_ok(items, expanded, last_nav(items, expanded, hi, mode), mode)),
    decreases hi,
{
    if hi > 0 && hi <= items.len() && !nav_ok(items, expanded, hi - 1, mode) {
        lemma_last_nav(items, expanded, hi - 1, mode);
    }
}

/// `a - b`, or 0 when `b` is larger.
pub open spec fn sat_sub(a: int, b: int) -> int {
    if a > b {
        a - b
    } else {
        0
    }
}

impl Screen {
    /// Everything but the cursor and the scroll position is as in `other`.
    pub open spec fn same_content(&self, other: &Screen) -> bool {
        &&& self.items == other.items
        &&& self.expanded_items == other.expanded_items
        &&& self.line_index == other.line_index
        &&& self.unique_line_index == other.unique_line_index
        &&& self.item_heights == other.item_heights
        &&& self.collapsed == other.collapsed
        &&& self.size == other.size
        &&& self.delete_marked_branches == other.delete_marked_branches
        &&& self.mark == other.mark
    }

    /// Whether the cursor may land on item `item_i` under `mode`.
    pub open spec fn spec_nav_filter(&self, item_i: int, mode: NavMode) -> bool {
        nav_ok(self.items@, self.expanded_items@, item_i, mode)
    }

    /// The first item at or after `lo` the cursor may land on, or -1.
    pub open spec fn first_nav_from(&self, lo: int, mode: NavMode) -> int {
        first_nav(self.items@, self.expanded_items@, lo, mode)
    }

    /// The last item before `hi` the cursor may land on, or -1.
    pub open spec fn last_nav_before(&self, hi: int, mode: NavMode) -> int {
        last_nav(self.items@, self.expanded_items@, hi, mode)
    }

    /// The item the cursor moves to going down from `cursor`: the next one it
    /// may land on, else it stays.
    pub open spec fn next_from(&self, cursor: usize, mode: NavMode) -> usize {
        let r = self.first_nav_from(cursor + 1, mode);
        if r < 0 {
            cursor
        } else {
            r as usize
        }
    }

    /// The item the cursor moves to going up from `cursor`.
    pub open spec fn previous_from(&self, cursor: usize, mode: NavMode) -> usize {
        let r = self.last_nav_before(cursor as int, mode);
        if r < 0 {
            cursor
        } else {
            r as usize
        }
    }

    /// The first line of `item`, if it has lines.
    pub open spec fn spec_line_of_item(&self, item: int) -> Option<usize> {
        let k = entry_of(self.unique_line_index@, item, 0);
        if k < 0 {
            None
        } else {
            Some(self.unique_line_index@[k].0)
        }
    }

    pub fn nav_filter(&self, item_i: usize, nav_mode: NavMode) -> (b: bool)
        requires
            self.indices_ok(),
        ensures
            b == self.spec_nav_filter(item_i as int, nav_mode),
    {
        if item_i >= self.items.len() || !self.expanded_items[item_i] {
            return false;
        }
        let item = &self.items[item_i];
        match nav_mode {
            NavMode::Normal => !item.unselectable && !item.data.is_sub_line(),
            NavMode::Siblings { depth } => !item.unselectable && item.data.is_section() && item.depth
                <= depth,
            NavMode::IncludeSubLines => !item.unselectable,
        }
    }

    pub fn find_next(&self, nav_mode: NavMode) -> (r: usize)
        requires
            self.indices_ok(),
        ensures
            r == self.next_from(self.cursor, nav_mode),
    {
        let n = self.items.len();
        if self.cursor >= n {
            return self.cursor;
        }
        let mut i = self.cursor + 1;
        while i < n
            invariant
                self.indices_ok(),
                n == self.items@.len(),
                self.cursor < i <= n,
                self.first_nav_from(self.cursor + 1, nav_mode) == self.first_nav_from(i as int, nav_mode),
            decreases n - i,
        {
            if self.nav_filter(i, nav_mode) {
                return i;
            }
            i = i + 1;
        }
        self.cursor
    }

    pub fn find_previous(&self, nav_mode: NavMode) -> (r: usize)
        requires
            self.indices_ok(),
        ensures
            r == self.previous_from(self.cursor, nav_mode),
    {
        if self.cursor > self.items.len() {
            return self.cursor;
        }
        let mut i = self.cursor;
        while i > 0
            invariant
                self.indices_ok(),
                i <= self.cursor <= self.items@.len(),
                self.last_nav_before(self.cursor as int, nav_mode) == self.last_nav_before(i as int, nav_mode),
            decreases i,
        {
            if self.nav_filter(i - 1, nav_mode) {
                return i - 1;
            }
            i = i - 1;
        }
        self.cursor
    }

    pub fn line_of_item(&self, item_i: usize) -> (r: Option<usize>)
        ensures
            r == self.spec_line_of_item(item_i as int),
    {
        let mut k: usize = 0;
        while k < self.unique_line_index.len()
            invariant
                k <= self.unique_line_index@.len(),
                entry_of(self.unique_line_index@, item_i as int, 0) == entry_of(
                    self.unique_line_index@,
                    item_i as int,
                    k as int,
                ),
            decreases self.unique_line_index@.len() - k,
        {
            if self.unique_line_index[k].1 == item_i {
                return Some(self.unique_line_index[k].0);
            }
            k = k + 1;
        }
        None
    }
}

/// The index of the first entry at or after `k` of a first-line index
/// that is for `item`, or -1.
pub open spec fn entry_of(u: Seq<(usize, usize)>, item: int, k: int) -> int
    decreases u.len() - k,
{
    if k < 0 || k >= u.len() {
        -1
    } else if u[k].1 == item {
        k
    } else {
        entry_of(u, item, k + 1)
    }
}

proof fn lemma_entry_of(u: Seq<(usize, usize)>, item: int, k: int)
    ensures
        entry_of(u, item, k) == -1 || (k <= entry_of(u, item, k) < u.len() && u[entry_of(u, item, k)].1
            == item),
    decreases u.len() - k,
{
    if k >= 0 && k < u.len() && u[k].1 != item {
        lemma_entry_of(u, item, k + 1);
    }
}

/// The last line of the run starting at line `l` that belongs to `cursor`
/// or to items nested deeper than `depth`.
pub open spec fn run_end(li: Seq<usize>, items: Seq<Item>, l: int, cursor: int, depth: usize) -> int
    decreases li.len() - l,
{
    if 0 <= l && l + 1 < li.len() && (li[l + 1] == cursor || depth < items[li[l + 1] as int].depth) {
        run_end(li, items, l + 1, cursor, depth)
    } else {
        l
    }
}

proof fn lemma_run_end(li: Seq<usize>, items: Seq<Item>, l: int, cursor: int, depth: usize)
    requires
        0 <= l < li.len(),
    ensures
        l <= run_end(li, items, l, cursor, depth) < li.len(),
    decreases li.len() - l,
{
    if l + 1 < li.len() && (li[l + 1] == cursor || depth < items[li[l + 1] as int].depth) {
        lemma_run_end(li, items, l + 1, cursor, depth);
    }
}

proof fn lemma_lines_for_props(shown: Seq<bool>, heights: Seq<u16>, n: nat)
    requires
        n <= usize::MAX,
    ensures
        forall|k: int| 0 <= k < lines_for(shown, heights, n).len() ==> #[trigger] lines_for(shown, heights, n)[k] < n,
        forall|a: int, b: int|
            0 <= a <= b < lines_for(shown, heights, n).len() ==> #[trigger] lines_for(shown, heights, n)[a]
                <= #[trigger] lines_for(shown, heights, n)[b],
    decreases n,
{
    if n > 0 {
        lemma_lines_for_props(shown, heights, (n - 1) as nat);
        let prev = lines_for(shown, heights, (n - 1) as nat);
        let cur = lines_for(shown, heights, n);
        assert forall|k: int| 0 <= k < cur.len() implies #[trigger] cur[k] < n by {
            if k < prev.len() {
                assert(cur[k] == prev[k]);
            }
        }
        assert forall|a: int, b: int| 0 <= a <= b < cur.len() implies #[trigger] cur[a] <= #[trigger] cur[b] by {
            if b < prev.len() {
                assert(cur[a] == prev[a] && cur[b] == prev[b]);
            } else if a < prev.len() {
                assert(cur[a] == prev[a]);
                assert(prev[a] < n - 1);
                assert(cur[b] == (n - 1) as usize);
            } else {
                assert(cur[a] == (n - 1) as usize);
                assert(cur[b] == (n - 1) as usize);
            }
        }
    }
}

proof fn lemma_first_lines_props(li: Seq<usize>, n: nat)
    requires
        n <= li.len() <= usize::MAX,
    ensures
        forall|k: int|
            0 <= k < first_lines(li, n).len() ==> (#[trigger] first_lines(li, n)[k]).0 < n && li[first_lines(li, n)[k].0 as int]
                == first_lines(li, n)[k].1,
    decreases n,
{
    if n > 0 {
        lemma_first_lines_props(li, (n - 1) as nat);
        let prev = first_lines(li, (n - 1) as nat);
        let cur = first_lines(li, n);
        assert forall|k: int| 0 <= k < cur.len() implies (#[trigger] cur[k]).0 < n && li[cur[k].0 as int]
            == cur[k].1 by {
            if k < prev.len() {
                assert(cur[k] == prev[k]);
            }
        }
    }
}

impl Screen {
    /// The facts about the indices that the well-formedness gives.
    pub proof fn lemma_indices(&self)
        requires
            self.indices_ok(),
        ensures
            forall|k: int| 0 <= k < self.line_index@.len() ==> #[trigger] self.line_index@[k] < self.items@.len(),
            forall|a: int, b: int|
                0 <= a <= b < self.line_index@.len() ==> #[trigger] self.line_index@[a]
                    <= #[trigger] self.line_index@[b],
            forall|k: int|
                0 <= k < self.unique_line_index@.len() ==> (#[trigger] self.unique_line_index@[k]).0
                    < self.line_index@.len() && self.line_index@[self.unique_line_index@[k].0 as int]
                    == self.unique_line_index@[k].1,
            self.line_index@.len() > 0 ==> self.items@.len() > 0,
    {
        lemma_lines_for_props(self.expanded_items@, self.item_heights@, self.items@.len());
        lemma_first_lines_props(self.line_index@, self.line_index@.len());
        if self.line_index@.len() > 0 {
            assert(self.line_index@[0] < self.items@.len());
        }
    }

    /// The scroll position after scrolling just enough that the selected
    /// item's first line, with its parents' lines above it, shows.
    pub open spec fn fit_start(&self, cursor: usize, scroll: usize) -> usize {
        if self.line_index@.len() == 0 {
            scroll
        } else {
            match self.spec_line_of_item(cursor as int) {
                None => scroll,
                Some(l) => {
                    let top = sat_sub(l as int, self.items@[cursor as int].depth as int);
                    if top < scroll {
                        top as usize
                    } else {
                        scroll
                    }
                },
            }
        }
    }

    /// The scroll position after scrolling just enough that the selected
    /// item, its nested items and the context lines below them show.
    pub open spec fn fit_end(&self, cursor: usize, scroll: usize) -> usize {
        if self.line_index@.len() == 0 {
            scroll
        } else {
            match self.spec_line_of_item(cursor as int) {
                None => scroll,
                Some(l) => {
                    let last = BOTTOM_CONTEXT_LINES + run_end(
                        self.line_index@,
                        self.items@,
                        l as int,
                        cursor as int,
                        self.items@[cursor as int].depth,
                    );
                    let end_line = sat_sub(self.size.1 as int, 1);
                    if last > end_line + scroll {
                        (last - end_line) as usize
                    } else {
                        scroll
                    }
                },
            }
        }
    }

    pub fn scroll_fit_start(&mut self)
        requires
            old(self).well_formed(),
        ensures
            final(self).well_formed(),
            final(self).same_content(old(self)),
            final(self).cursor == old(self).cursor,
            final(self).scroll == old(self).fit_start(old(self).cursor, old(self).scroll),
    {
        if self.line_index.len() == 0 {
            return;
        }
        proof {
            self.lemma_indices();
        }
        let line_of_item = match self.line_of_item(self.cursor) {
            Some(l) => l,
            None => return,
        };
        let depth = self.items[self.cursor].depth;
        let top = if line_of_item > depth { line_of_item - depth } else { 0 };
        if top < self.scroll {
            self.scroll = top;
        }
    }

    pub fn scroll_fit_end(&mut self)
        requires
            old(self).well_formed(),
        ensures
            final(self).well_formed(),
            final(self).same_content(old(self)),
            final(self).cursor == old(self).cursor,
            final(self).scroll == old(self).fit_end(old(self).cursor, old(self).scroll),
    {
        if self.line_index.len() == 0 {
            return;
        }
        proof {
            self.lemma_indices();
        }
        let depth = self.items[self.cursor].depth;
        let current_item_i = self.cursor;
        let line_of_item = match self.line_of_item(self.cursor) {
            Some(l) => l,
            None => return,
        };
        proof {
            lemma_entry_of(self.unique_line_index@, self.cursor as int, 0);
            let k = entry_of(self.unique_line_index@, self.cursor as int, 0);
            assert(self.unique_line_index@[k].0 == line_of_item);
            lemma_run_end(self.line_index@, self.items@, line_of_item as int, current_item_i as int, depth);
        }
        let mut l = line_of_item;
        while l + 1 < self.line_index.len() && (self.line_index[l + 1] == current_item_i || depth
            < self.items[self.line_index[l + 1]].depth)
            invariant
                self.well_formed(),
                l < self.line_index@.len(),
                forall|k: int| 0 <= k < self.line_index@.len() ==> #[trigger] self.line_index@[k] < self.items@.len(),
                run_end(self.line_index@, self.items@, line_of_item as int, current_item_i as int, depth)
                    == run_end(self.line_index@, self.items@, l as int, current_item_i as int, depth),
            decreases self.line_index@.len() - l,
        {
            l = l + 1;
        }
        let last = BOTTOM_CONTEXT_LINES + l;
        let end_line = if self.size.1 > 0 { (self.size.1 - 1) as usize } else { 0 };
        if last > end_line && last - end_line > self.scroll {
            self.scroll = last - end_line;
        }
    }

    /// Moves the cursor down to the next item `nav_mode` allows, scrolling
    /// just enough to show it.
    pub fn select_next(&mut self, nav_mode: NavMode)
        requires
            old(self).well_formed(),
        ensures
            final(self).well_formed(),
            final(self).same_content(old(self)),
            final(self).cursor == old(self).next_from(old(self).cursor, nav_mode),
            final(self).scroll == old(self).fit_start(
                final(self).cursor,
                old(self).fit_end(final(self).cursor, old(self).scroll),
            ),
    {
        let next = self.find_next(nav_mode);
        proof {
            if next != self.cursor {
                let r = self.first_nav_from(self.cursor + 1, nav_mode);
                self.lemma_first_nav_from(self.cursor + 1, nav_mode);
            }
        }
        self.cursor = next;
        self.scroll_fit_end();
        self.scroll_fit_start();
    }

    /// Moves the cursor up to the previous item `nav_mode` allows, scrolling
    /// just enough to show it.
    pub fn select_previous(&mut self, nav_mode: NavMode)
        requires
            old(self).well_formed(),
        ensures
            final(self).well_formed(),
            final(self).same_content(old(self)),
            final(self).cursor == old(self).previous_from(old(self).cursor, nav_mode),
            final(self).scroll == old(self).fit_start(final(self).cursor, old(self).scroll),
    {
        let previous = self.find_previous(nav_mode);
        proof {
            if previous != self.cursor {
                self.lemma_last_nav_before(self.cursor as int, nav_mode);
            }
        }
        self.cursor = previous;
        self.scroll_fit_start();
    }

    proof fn lemma_first_nav_from(&self, lo: int, mode: NavMode)
        ensures
            self.first_nav_from(lo, mode) == -1 || (lo <= self.first_nav_from(lo, mode)
                < self.items@.len() && self.spec_nav_filter(self.first_nav_from(lo, mode), mode)),
    {
        lemma_first_nav(self.items@, self.expanded_items@, lo, mode);
    }

    proof fn lemma_last_nav_before(&self, hi: int, mode: NavMode)
        ensures
            self.last_nav_before(hi, mode) == -1 || (0 <= self.last_nav_before(hi, mode) < hi
                && self.spec_nav_filter(self.last_nav_before(hi, mode), mode)),
    {
        lemma_last_nav(self.items@, self.expanded_items@, hi, mode);
    }

    /// Scrolls the view up by `lines`, within range.
    pub fn scroll_view_up(&mut self, lines: usize)
        requires
            old(self).well_formed(),
        ensures
            final(self).well_formed(),
            final(self).same_content(old(self)),
            final(self).cursor == old(self).cursor,
            final(self).scroll == clamped_scroll(
                sat_sub(old(self).scroll as int, lines as int) as usize,
                old(self).line_index@.len(),
                old(self).size.1,
            ),
    {
        self.scroll = if self.scroll > lines { self.scroll - lines } else { 0 };
        self.clamp_scroll();
    }

    /// Scrolls the view down by `lines`, within range.
    pub fn scroll_view_down(&mut self, lines: usize)
        requires
            old(self).well_formed(),
        ensures
            final(self).well_formed(),
            final(self).same_content(old(self)),
            final(self).cursor == old(self).cursor,
            final(self).scroll == clamped_scroll(
                if old(self).scroll + lines > usize::MAX {
                    usize::MAX
                } else {
                    (old(self).scroll + lines) as usize
                },
                old(self).line_index@.len(),
                old(self).size.1,
            ),
    {
        self.scroll = if self.scroll <= usize::MAX - lines { self.scroll + lines } else { usize::MAX };
        self.clamp_scroll();
    }

    pub fn scroll_view_half_page_up(&mut self)
        requires
            old(self).well_formed(),
        ensures
            final(self).well_formed(),
            final(self).same_content(old(self)),
            final(self).cursor == old(self).cursor,
            final(self).scroll == clamped_scroll(
                sat_sub(old(self).scroll as int, old(self).size.1 as int / 2) as usize,
                old(self).line_index@.len(),
                old(self).size.1,
            ),
    {
        let half_screen = self.size.1 as usize / 2;
        self.scroll_view_up(half_screen);
    }

    pub fn scroll_view_half_page_down(&mut self)
        requires
            old(self).well_formed(),
        ensures
            final(self).well_formed(),
            final(self).same_content(old(self)),
            final(self).cursor == old(self).cursor,
            final(self).scroll == clamped_scroll(
                (old(self).scroll + old(self).size.1 / 2) as usize,
                old(self).line_index@.len(),
                old(self).size.1,
            ),
    {
        let half_screen = self.size.1 as usize / 2;
        self.scroll_view_down(half_screen);
    }
}

/// How one shown item is drawn: whether it is within the cursor's
/// highlight, marked for deletion, or within the marked range.
#[derive(Clone, Copy, Debug, PartialEq, Eq, Structural)]
pub struct ItemView {
    pub item_index: usize,
    pub cursor_highlighted: bool,
    pub delete_marked_branch: bool,
    pub marked: bool,
}

impl ItemView {
    pub open spec fn highlighted(&self) -> bool {
        self.cursor_highlighted || self.marked || self.delete_marked_branch
    }

    pub fn is_highlighted(&self) -> (b: bool)
        ensures
            b == self.highlighted(),
    {
        self.cursor_highlighted || self.marked || self.delete_marked_branch
    }
}

/// The number of shown items among `expanded[lo..hi]`.
pub open spec fn count_shown(expanded: Seq<bool>, lo: int, hi: int) -> nat
    decreases hi - lo,
{
    if hi <= lo {
        0
    } else {
        count_shown(expanded, lo, hi - 1) + if expanded[hi - 1] {
            1nat
        } else {
            0nat
        }
    }
}

impl Screen {
    /// Whether an item is a local branch marked for deletion.
    pub open spec fn spec_delete_marked(&self, item: Item) -> bool {
        match item.data {
            crate::item_data::ItemData::Reference { kind: crate::item_data::Ref::Head(b), .. } =>
                crate::ops::views(self.delete_marked_branches@).contains(b@),
            _ => false,
        }
    }

    /// Whether item `idx` lies between the mark and the cursor (inclusive).
    pub open spec fn in_marked_range(&self, idx: int) -> bool {
        match self.mark {
            Some(m) => (if m < self.cursor { m as int } else { self.cursor as int }) <= idx <= (if m
                < self.cursor {
                self.cursor as int
            } else {
                m as int
            }),
            None => false,
        }
    }

    /// Walking `items[start..start + n]` as the screen draws them: the views
    /// of the items shown (a collapsed section hides the deeper items after
    /// it), the depth of the collapsed section being skipped, and the depth
    /// of the cursor's highlight (the cursor item and what is nested in it).
    pub open spec fn view_scan(&self, start: int, n: nat) -> (Seq<ItemView>, Option<usize>, Option<usize>)
        decreases n,
    {
        if n == 0 {
            (seq![], None, None)
        } else {
            let (views, skipping, highlight) = self.view_scan(start, (n - 1) as nat);
            let idx = start + n - 1;
            let it = self.items@[idx];
            if skipping is Some && skipping->0 < it.depth {
                (views, skipping, highlight)
            } else {
                let skipping2 = if it.data.section() && self.collapsed@.contains(it.id) {
                    Some(it.depth)
                } else {
                    None
                };
                let (lit, highlight2) = if self.cursor == idx {
                    (true, Some(it.depth))
                } else if highlight is Some && highlight->0 >= it.depth {
                    (false, None)
                } else {
                    (highlight is Some, highlight)
                };
                (
                    views.push(
                        ItemView {
                            item_index: idx as usize,
                            cursor_highlighted: lit,
                            delete_marked_branch: self.spec_delete_marked(it),
                            marked: self.in_marked_range(idx),
                        },
                    ),
                    skipping2,
                    highlight2,
                )
            }
        }
    }

    /// The item on the first line shown (the last item when scrolled past
    /// the end).
    pub open spec fn first_visible_item(&self) -> int {
        if self.scroll < self.line_index@.len() {
            self.line_index@[self.scroll as int] as int
        } else {
            sat_sub(self.items@.len() as int, 1)
        }
    }

    /// Where drawing starts: the first item shown, or the cursor if above it.
    pub open spec fn scan_start(&self) -> int {
        if self.first_visible_item() < self.cursor {
            self.first_visible_item()
        } else {
            self.cursor as int
        }
    }

    /// Where drawing stops for a screen `height` lines high.
    pub open spec fn scan_end(&self, height: u16) -> int {
        let end_line = if self.scroll + height < self.line_index@.len() {
            self.scroll + height
        } else {
            self.line_index@.len() as int
        };
        if end_line < self.line_index@.len() {
            self.line_index@[end_line] as int
        } else {
            self.items@.len() as int
        }
    }

    /// The views of the items drawn on a screen `height` lines high: those
    /// from the scan start to the scan end, without the ones above the first
    /// line shown.
    pub open spec fn spec_item_views(&self, height: u16) -> Seq<ItemView> {
        let all = self.view_scan(self.scan_start(), (self.scan_end(height) - self.scan_start()) as nat).0;
        let skip = count_shown(self.expanded_items@, self.scan_start(), self.first_visible_item());
        if skip >= all.len() {
            seq![]
        } else {
            all.skip(skip as int)
        }
    }

    pub fn is_delete_marked_branch(&self, item: &Item) -> (b: bool)
        ensures
            b == self.spec_delete_marked(*item),
    {
        match &item.data {
            crate::item_data::ItemData::Reference { kind: crate::item_data::Ref::Head(branch), .. } =>
                crate::sorted::contains_str(&self.delete_marked_branches, branch.as_str()),
            _ => false,
        }
    }

    fn marked_at(&self, idx: usize) -> (b: bool)
        ensures
            b == self.in_marked_range(idx as int),
    {
        match self.mark {
            Some(m) => {
                let lo = if m < self.cursor { m } else { self.cursor };
                let hi = if m < self.cursor { self.cursor } else { m };
                lo <= idx && idx <= hi
            },
            None => false,
        }
    }

    /// The views of the items drawn on a screen `height` lines high.
    pub fn item_views(&self, height: u16) -> (r: Vec<ItemView>)
        requires
            self.indices_ok(),
        ensures
            r@ == self.spec_item_views(height),
    {
        proof {
            self.lemma_indices();
        }
        let len = self.line_index.len();
        let n = self.items.len();
        let first_visible_item = if self.scroll < len {
            self.line_index[self.scroll]
        } else if n > 0 {
            n - 1
        } else {
            0
        };
        let scan_start = if first_visible_item < self.cursor { first_visible_item } else { self.cursor };
        let end_line = if self.scroll + (height as usize) < len { self.scroll + height as usize } else { len };
        let scan_end = if end_line < len { self.line_index[end_line] } else { n };
        proof {
            if self.scroll < len && end_line < len {
                assert(self.line_index@[self.scroll as int] <= self.line_index@[end_line as int]);
            }
            if self.scroll < len {
                assert(self.line_index@[self.scroll as int] < n);
            }
        }
        let mut views: Vec<ItemView> = Vec::new();
        let mut skipping: Option<usize> = None;
        let mut highlight: Option<usize> = None;
        let mut i = scan_start;
        while i < scan_end
            invariant
                self.indices_ok(),
                scan_start <= i <= scan_end <= n,
                n == self.items@.len(),
                scan_start == self.scan_start(),
                (views@, skipping, highlight) == self.view_scan(scan_start as int, (i - scan_start) as nat),
            decreases scan_end - i,
        {
            let item = &self.items[i];
            let hidden = match skipping {
                Some(d) => d < item.depth,
                None => false,
            };
            if !hidden {
                skipping = if item.data.is_section() && self.is_collapsed_id(item.id) {
                    Some(item.depth)
                } else {
                    None
                };
                let lit;
                if self.cursor == i {
                    highlight = Some(item.depth);
                    lit = true;
                } else if match highlight {
                    Some(d) => d >= item.depth,
                    None => false,
                } {
                    highlight = None;
                    lit = false;
                } else {
                    lit = highlight.is_some();
                }
                views.push(
                    ItemView {
                        item_index: i,
                        cursor_highlighted: lit,
                        delete_marked_branch: self.is_delete_marked_branch(item),
                        marked: self.marked_at(i),
                    },
                );
            }
            i = i + 1;
        }
        let mut skip: usize = 0;
        let mut k = scan_start;
        while k < first_visible_item
            invariant
                scan_start <= k <= first_visible_item,
                first_visible_item <= n,
                n == self.items@.len(),
                self.expanded_items@.len() == n,
                skip == count_shown(self.expanded_items@, scan_start as int, k as int),
                skip <= k - scan_start,
            decreases first_visible_item - k,
        {
            if self.expanded_items[k] {
                skip = skip + 1;
            }
            k = k + 1;
        }
        if skip >= views.len() {
            return Vec::new();
        }
        let mut out: Vec<ItemView> = Vec::new();
        let mut j = skip;
        while j < views.len()
            invariant
                skip <= j <= views@.len(),
                out@ == views@.subrange(skip as int, j as int),
            decreases views@.len() - j,
        {
            out.push(views[j]);
            j = j + 1;
            assert(out@ =~= views@.subrange(skip as int, j as int));
        }
        out
    }

    /// Whether the cursor's item is not among those drawn.
    pub fn is_cursor_off_screen(&self) -> (b: bool)
        requires
            self.indices_ok(),
        ensures
            b == !(exists|k: int| 0 <= k < self.spec_item_views(self.size.1).len()
                && (#[trigger] self.spec_item_views(self.size.1)[k]).cursor_highlighted),
    {
        let views = self.item_views(self.size.1);
        let mut k: usize = 0;
        while k < views.len()
            invariant
                views@ == self.spec_item_views(self.size.1),
                k <= views@.len(),
                forall|j: int| 0 <= j < k ==> !(#[trigger] views@[j]).cursor_highlighted,
            decreases views@.len() - k,
        {
            if views[k].cursor_highlighted {
                assert(self.spec_item_views(self.size.1)[k as int].cursor_highlighted);
                return false;
            }
            k = k + 1;
        }
        true
    }
}

/// `cursor` brought onto the items (0 when there are none).
pub open spec fn clamped_cursor(cursor: usize, n: nat) -> usize {
    if cursor as int > sat_sub(n as int, 1) {
        sat_sub(n as int, 1) as usize
    } else {
        cursor
    }
}

/// `mark` brought onto the items (dropped when there are none).
pub open spec fn clamped_mark(mark: Option<usize>, n: nat) -> Option<usize> {
    match mark {
        Some(m) => if n == 0 {
            None
        } else if m as int > n - 1 {
            Some((n - 1) as usize)
        } else {
            Some(m)
        },
        None => None,
    }
}

impl Screen {
    /// This screen with the cursor, scroll position and mark replaced.
    pub open spec fn with_position(&self, cursor: usize, scroll: usize, mark: Option<usize>) -> Screen {
        Screen { cursor: cursor, scroll: scroll, mark: mark, ..*self }
    }

    /// Whether no drawn item carries the cursor's highlight.
    pub open spec fn cursor_off_screen(&self) -> bool {
        !(exists|k: int| 0 <= k < self.spec_item_views(self.size.1).len()
            && (#[trigger] self.spec_item_views(self.size.1)[k]).cursor_highlighted)
    }

    /// The item on the line in the middle of the screen (the last line when
    /// the content ends above it).
    pub open spec fn center_item(&self, scroll: usize) -> usize {
        let center = scroll + self.size.1 / 2;
        let last = sat_sub(self.line_index@.len() as int, 1);
        self.line_index@[if center < last { center } else { last }]
    }

    /// How to move from `cursor`: including single lines when it is on one.
    pub open spec fn nav_mode_at(&self, cursor: usize) -> NavMode {
        if self.items@.len() == 0 {
            NavMode::Normal
        } else if self.items@[cursor as int].data.sub_line() {
            NavMode::IncludeSubLines
        } else {
            NavMode::Normal
        }
    }

    /// Off an item the cursor may not rest on: up to the previous allowed
    /// one, and if there is none, down to the next; with the scroll
    /// position that follows.
    pub open spec fn away_from_unselectable(&self, cursor: usize, scroll: usize, mode: NavMode) -> (
        usize,
        usize,
    ) {
        let (c1, s1) = if !self.spec_nav_filter(cursor as int, mode) {
            let c = self.previous_from(cursor, mode);
            (c, self.fit_start(c, scroll))
        } else {
            (cursor, scroll)
        };
        if !self.spec_nav_filter(c1 as int, mode) {
            let c = self.next_from(c1, mode);
            (c, self.fit_start(c, self.fit_end(c, s1)))
        } else {
            (c1, s1)
        }
    }

    /// The cursor, scroll position and mark after the items changed: all
    /// brought in range, the cursor moved to the middle of the screen if it
    /// went off it, then off an item it may not rest on. With no lines the
    /// cursor goes to 0 and nothing else changes.
    pub open spec fn updated_position(&self) -> (usize, usize, Option<usize>) {
        let n = self.items@.len();
        let len = self.line_index@.len();
        if len == 0 {
            (0, self.scroll, self.mark)
        } else {
            let s1 = clamped_scroll(self.scroll, len, self.size.1);
            let c1 = clamped_cursor(self.cursor, n);
            let c2 = if self.with_position(c1, s1, self.mark).cursor_off_screen() {
                self.center_item(s1)
            } else {
                c1
            };
            let c3 = clamped_cursor(c2, n);
            let (c4, s4) = self.away_from_unselectable(c3, s1, self.nav_mode_at(c3));
            (c4, s4, clamped_mark(self.mark, n))
        }
    }

    pub fn clamp_cursor(&mut self)
        ensures
            final(self).cursor == clamped_cursor(old(self).cursor, old(self).items@.len()),
            final(self).same_content(old(self)),
            final(self).scroll == old(self).scroll,
    {
        let n = self.items.len();
        let last = if n > 0 { n - 1 } else { 0 };
        if self.cursor > last {
            self.cursor = last;
        }
    }

    pub fn clamp_mark(&mut self)
        ensures
            final(self).mark == clamped_mark(old(self).mark, old(self).items@.len()),
            final(self).items == old(self).items,
            final(self).expanded_items == old(self).expanded_items,
            final(self).line_index == old(self).line_index,
            final(self).unique_line_index == old(self).unique_line_index,
            final(self).item_heights == old(self).item_heights,
            final(self).collapsed == old(self).collapsed,
            final(self).size == old(self).size,
            final(self).delete_marked_branches == old(self).delete_marked_branches,
            final(self).cursor == old(self).cursor,
            final(self).scroll == old(self).scroll,
    {
        if let Some(m) = self.mark {
            if self.items.len() == 0 {
                self.mark = None;
            } else if m > self.items.len() - 1 {
                self.mark = Some(self.items.len() - 1);
            }
        }
    }

    pub fn selected_item_nav_mode(&self) -> (m: NavMode)
        requires
            self.well_formed(),
        ensures
            m == self.nav_mode_at(self.cursor),
    {
        if self.items.len() == 0 {
            return NavMode::Normal;
        }
        if self.items[self.cursor].data.is_sub_line() {
            NavMode::IncludeSubLines
        } else {
            NavMode::Normal
        }
    }

    pub fn move_cursor_to_screen_center(&mut self)
        requires
            old(self).indices_ok(),
            old(self).line_index@.len() > 0,
        ensures
            final(self).cursor == old(self).center_item(old(self).scroll),
            final(self).same_content(old(self)),
            final(self).scroll == old(self).scroll,
    {
        let half_screen = self.size.1 as usize / 2;
        let center = self.scroll + half_screen;
        let last = self.line_index.len() - 1;
        let center = if center < last { center } else { last };
        self.cursor = self.line_index[center];
    }

    /// Moves the cursor off an item it may not rest on under `nav_mode`.
    pub fn move_from_unselectable(&mut self, nav_mode: NavMode)
        requires
            old(self).well_formed(),
        ensures
            final(self).well_formed(),
            final(self).same_content(old(self)),
            (final(self).cursor, final(self).scroll) == old(self).away_from_unselectable(
                old(self).cursor,
                old(self).scroll,
                nav_mode,
            ),
    {
        if !self.nav_filter(self.cursor, nav_mode) {
            self.select_previous(nav_mode);
        }
        if !self.nav_filter(self.cursor, nav_mode) {
            self.select_next(nav_mode);
        }
    }

    /// Brings the cursor, scroll position and mark in range after the items
    /// changed (see [`Screen::updated_position`]).
    #[verifier::spinoff_prover]
    #[verifier::rlimit(40)]
    pub fn update_cursor(&mut self)
        requires
            old(self).indices_ok(),
        ensures
            final(self).well_formed(),
            (final(self).cursor, final(self).scroll, final(self).mark) == old(self).updated_position(),
            final(self).items == old(self).items,
            final(self).expanded_items == old(self).expanded_items,
            final(self).line_index == old(self).line_index,
            final(self).unique_line_index == old(self).unique_line_index,
            final(self).item_heights == old(self).item_heights,
            final(self).collapsed == old(self).collapsed,
            final(self).size == old(self).size,
            final(self).delete_marked_branches == old(self).delete_marked_branches,
    {
        // Nothing is selectable (e.g. the log of a branch with no commits):
        // reset the cursor rather than position it on a line that is not there.
        if self.line_index.len() == 0 {
            self.cursor = 0;
            proof {
                self.lemma_indices();
            }
            return;
        }
        proof {
            self.lemma_indices();
        }
        let ghost s0 = *self;
        self.clamp_scroll();
        self.clamp_cursor();
        let ghost s1 = *self;
        assert(s1 == s0.with_position(s1.cursor, s1.scroll, s0.mark));
        if self.is_cursor_off_screen() {
            self.move_cursor_to_screen_center();
            proof {
                self.lemma_indices();
            }
        }
        self.clamp_cursor();
        self.clamp_mark();
        let nav_mode = self.selected_item_nav_mode();
        let ghost s3 = *self;
        self.move_from_unselectable(nav_mode);
        proof {
            assert(s3.away_from_unselectable(s3.cursor, s3.scroll, nav_mode) == s0.away_from_unselectable(
                s3.cursor,
                s3.scroll,
                nav_mode,
            ));
        }
    }
}

/// The items `move_cursor_to_top`, `move_cursor_to_bottom` and opening a
/// screen look for.
#[derive(Clone, Copy, Debug, PartialEq, Eq, Structural)]
pub enum ItemFilter {
    /// Items the cursor may rest on.
    Selectable,
    /// Hunks the cursor may rest on.
    SelectableHunk,
}

pub open spec fn filter_accepts(item: Item, f: ItemFilter) -> bool {
    match f {
        ItemFilter::Selectable => !item.unselectable,
        ItemFilter::SelectableHunk => !item.unselectable && item.data is Hunk,
    }
}

/// The index of the first entry of the first-line index at or after `k`
/// whose item `f` accepts, or -1.
pub open spec fn first_entry(u: Seq<(usize, usize)>, items: Seq<Item>, f: ItemFilter, k: int) -> int
    decreases u.len() - k,
{
    if k < 0 || k >= u.len() {
        -1
    } else if filter_accepts(items[u[k].1 as int], f) {
        k
    } else {
        first_entry(u, items, f, k + 1)
    }
}

/// The index of the last entry before `hi` whose item `f` accepts, or -1.
pub open spec fn last_entry(u: Seq<(usize, usize)>, items: Seq<Item>, f: ItemFilter, hi: int) -> int
    decreases hi,
{
    if hi <= 0 || hi > u.len() {
        -1
    } else if filter_accepts(items[u[hi - 1].1 as int], f) {
        hi - 1
    } else {
        last_entry(u, items, f, hi - 1)
    }
}

proof fn lemma_first_entry(u: Seq<(usize, usize)>, items: Seq<Item>, f: ItemFilter, k: int)
    ensures
        first_entry(u, items, f, k) == -1 || k <= first_entry(u, items, f, k) < u.len(),
    decreases u.len() - k,
{
    if k >= 0 && k < u.len() && !filter_accepts(items[u[k].1 as int], f) {
        lemma_first_entry(u, items, f, k + 1);
    }
}

proof fn lemma_last_entry(u: Seq<(usize, usize)>, items: Seq<Item>, f: ItemFilter, hi: int)
    ensures
        last_entry(u, items, f, hi) == -1 || 0 <= last_entry(u, items, f, hi) < hi,
    decreases hi,
{
    if hi > 0 && hi <= u.len() && !filter_accepts(items[u[hi - 1].1 as int], f) {
        lemma_last_entry(u, items, f, hi - 1);
    }
}

impl Screen {
    /// The first item, in line order, that `f` accepts.
    pub open spec fn spec_find_item(&self, f: ItemFilter) -> Option<usize> {
        let k = first_entry(self.unique_line_index@, self.items@, f, 0);
        if k < 0 {
            None
        } else {
            Some(self.unique_line_index@[k].1)
        }
    }

    /// The last item, in line order, that `f` accepts.
    pub open spec fn spec_rfind_item(&self, f: ItemFilter) -> Option<usize> {
        let k = last_entry(
            self.unique_line_index@,
            self.items@,
            f,
            self.unique_line_index@.len() as int,
        );
        if k < 0 {
            None
        } else {
            Some(self.unique_line_index@[k].1)
        }
    }

    fn accepts(&self, item_i: usize, f: ItemFilter) -> (b: bool)
        requires
            item_i < self.items@.len(),
        ensures
            b == filter_accepts(self.items@[item_i as int], f),
    {
        let item = &self.items[item_i];
        match f {
            ItemFilter::Selectable => !item.unselectable,
            ItemFilter::SelectableHunk => !item.unselectable && match item.data {
                crate::item_data::ItemData::Hunk { .. } => true,
                _ => false,
            },
        }
    }

    pub fn find_item(&self, f: ItemFilter) -> (r: Option<usize>)
        requires
            self.indices_ok(),
        ensures
            r == self.spec_find_item(f),
            r matches Some(i) ==> i < self.items@.len(),
    {
        proof {
            self.lemma_indices();
        }
        let mut k: usize = 0;
        while k < self.unique_line_index.len()
            invariant
                self.indices_ok(),
                k <= self.unique_line_index@.len(),
                forall|j: int|
                    0 <= j < self.unique_line_index@.len() ==> (#[trigger] self.unique_line_index@[j]).1
                        < self.items@.len(),
                first_entry(self.unique_line_index@, self.items@, f, 0) == first_entry(
                    self.unique_line_index@,
                    self.items@,
                    f,
                    k as int,
                ),
            decreases self.unique_line_index@.len() - k,
        {
            let item_i = self.unique_line_index[k].1;
            if self.accepts(item_i, f) {
                return Some(item_i);
            }
            k = k + 1;
        }
        None
    }

    pub fn rfind_item(&self, f: ItemFilter) -> (r: Option<usize>)
        requires
            self.indices_ok(),
        ensures
            r == self.spec_rfind_item(f),
            r matches Some(i) ==> i < self.items@.len(),
    {
        proof {
            self.lemma_indices();
        }
        let mut k = self.unique_line_index.len();
        while k > 0
            invariant
                self.indices_ok(),
                k <= self.unique_line_index@.len(),
                forall|j: int|
                    0 <= j < self.unique_line_index@.len() ==> (#[trigger] self.unique_line_index@[j]).1
                        < self.items@.len(),
                last_entry(
                    self.unique_line_index@,
                    self.items@,
                    f,
                    self.unique_line_index@.len() as int,
                ) == last_entry(self.unique_line_index@, self.items@, f, k as int),
            decreases k,
        {
            let item_i = self.unique_line_index[k - 1].1;
            if self.accepts(item_i, f) {
                return Some(item_i);
            }
            k = k - 1;
        }
        None
    }

    pub fn find_first_hunk(&self) -> (r: Option<usize>)
        requires
            self.indices_ok(),
        ensures
            r == self.spec_find_item(ItemFilter::SelectableHunk),
            r matches Some(i) ==> i < self.items@.len(),
    {
        self.find_item(ItemFilter::SelectableHunk)
    }

    /// Replaces the items (and the lines each takes) with fresh ones, then
    /// recomputes the indices and brings the cursor, scroll position and mark
    /// in range (see [`Screen::updated_position`]).
    pub fn refresh(&mut self, items: Vec<Item>, heights: Vec<u16>)
        requires
            old(self).indices_ok(),
            heights@.len() == items@.len(),
            Self::heights_fit(heights@),
        ensures
            final(self).well_formed(),
            final(self).items == items,
            final(self).item_heights == heights,
            final(self).collapsed == old(self).collapsed,
            final(self).size == old(self).size,
            final(self).delete_marked_branches == old(self).delete_marked_branches,
            (final(self).cursor, final(self).scroll, final(self).mark) == final(self).with_position(
                old(self).cursor,
                clamped_scroll(old(self).scroll, final(self).line_index@.len(), final(self).size.1),
                old(self).mark,
            ).updated_position(),
    {
        self.items = items;
        self.item_heights = heights;
        self.update_indices();
        let ghost mid = *self;
        self.update_cursor();
        assert(mid == self.with_position(mid.cursor, mid.scroll, mid.mark));
    }

    /// Changes the size (and the lines each item takes at that size), then
    /// recomputes the indices and brings the cursor, scroll position and mark
    /// in range.
    pub fn resize(&mut self, w: u16, h: u16, heights: Vec<u16>)
        requires
            old(self).indices_ok(),
            heights@.len() == old(self).items@.len(),
            Self::heights_fit(heights@),
        ensures
            final(self).well_formed(),
            final(self).size == (w, h),
            final(self).items == old(self).items,
            final(self).item_heights == heights,
            final(self).collapsed == old(self).collapsed,
            final(self).delete_marked_branches == old(self).delete_marked_branches,
            (final(self).cursor, final(self).scroll, final(self).mark) == final(self).with_position(
                old(self).cursor,
                clamped_scroll(old(self).scroll, final(self).line_index@.len(), h),
                old(self).mark,
            ).updated_position(),
    {
        self.size = (w, h);
        self.item_heights = heights;
        self.update_indices();
        let ghost mid = *self;
        self.update_cursor();
        assert(mid == self.with_position(mid.cursor, mid.scroll, mid.mark));
    }

    /// Collapses the selected section, or expands it if collapsed; other
    /// items are left as they are. The indices follow; the cursor stays.
    pub fn toggle_section(&mut self)
        requires
            old(self).well_formed(),
            old(self).items@.len() > 0,
            Self::heights_fit(old(self).item_heights@),
        ensures
            final(self).well_formed(),
            final(self).items == old(self).items,
            final(self).item_heights == old(self).item_heights,
            final(self).cursor == old(self).cursor,
            final(self).mark == old(self).mark,
            final(self).size == old(self).size,
            final(self).delete_marked_branches == old(self).delete_marked_branches,
            final(self).scroll == clamped_scroll(old(self).scroll, final(self).line_index@.len(), final(self).size.1),
            forall|id: u64| #[trigger] final(self).collapsed@.contains(id) == if old(self).items@[old(self).cursor as int].data.section()
                && id == old(self).items@[old(self).cursor as int].id {
                !old(self).collapsed@.contains(id)
            } else {
                old(self).collapsed@.contains(id)
            },
    {
        let id = self.items[self.cursor].id;
        if self.items[self.cursor].data.is_section() {
            if self.is_collapsed_id(id) {
                remove_id(&mut self.collapsed, id);
            } else {
                let ghost before = self.collapsed@;
                self.collapsed.push(id);
                proof {
                    assert forall|x: u64| #[trigger] self.collapsed@.contains(x) == (x == id
                        || before.contains(x)) by {
                        vstd::seq_lib::lemma_seq_contains_after_push(before, id, x);
                    }
                }
            }
        }
        self.update_indices();
    }
}

impl Screen {
    /// The cursor and scroll position after a click on `screen_line`: the
    /// item on that line, moved off it when the cursor may not rest there;
    /// when nothing there may be selected the cursor stays (the scroll
    /// position moving off it took is kept).
    pub open spec fn screen_line_target(&self, screen_line: usize) -> (usize, usize) {
        let l = screen_line + self.scroll;
        if l >= self.line_index@.len() || self.line_index@[l] == self.cursor {
            (self.cursor, self.scroll)
        } else {
            let c = self.line_index@[l];
            let mode = self.nav_mode_at(c);
            let (c2, s2) = self.away_from_unselectable(c, self.scroll, mode);
            if !self.spec_nav_filter(c2 as int, mode) {
                (self.cursor, s2)
            } else {
                (c2, self.fit_start(c2, s2))
            }
        }
    }

    /// The item on line `line_i`.
    pub fn at_line(&self, line_i: usize) -> (r: &Item)
        requires
            self.indices_ok(),
            line_i < self.line_index@.len(),
        ensures
            *r == self.items@[self.line_index@[line_i as int] as int],
    {
        proof {
            self.lemma_indices();
        }
        &self.items[self.line_index[line_i]]
    }

    /// The item under the cursor.
    pub fn get_selected_item(&self) -> (r: &Item)
        requires
            self.well_formed(),
            self.items@.len() > 0,
        ensures
            *r == self.items@[self.cursor as int],
    {
        &self.items[self.cursor]
    }

    /// Moves the cursor to the item on `screen_line` (counted from the top
    /// of the screen), see [`Screen::screen_line_target`].
    pub fn move_cursor_to_screen_line(&mut self, screen_line: usize)
        requires
            old(self).well_formed(),
            screen_line + old(self).scroll <= usize::MAX,
        ensures
            final(self).well_formed(),
            final(self).same_content(old(self)),
            (final(self).cursor, final(self).scroll) == old(self).screen_line_target(screen_line),
    {
        let l = screen_line + self.scroll;
        if l >= self.line_index.len() {
            return;
        }
        proof {
            self.lemma_indices();
        }
        let new_cursor = self.line_index[l];
        if self.cursor == new_cursor {
            return;
        }
        let old_cursor = self.cursor;
        let ghost s0 = *self;
        self.cursor = new_cursor;
        let nav_mode = self.selected_item_nav_mode();
        let ghost s1 = *self;
        self.move_from_unselectable(nav_mode);
        proof {
            assert(s1.away_from_unselectable(new_cursor, s1.scroll, nav_mode)
                == s0.away_from_unselectable(new_cursor, s0.scroll, nav_mode));
            assert(s1.nav_mode_at(new_cursor) == s0.nav_mode_at(new_cursor));
        }
        if !self.nav_filter(self.cursor, nav_mode) {
            // Nothing there may be selected: the cursor goes back.
            self.cursor = old_cursor;
        } else {
            let ghost s2 = *self;
            self.scroll_fit_start();
            assert(s2.fit_start(s2.cursor, s2.scroll) == s0.fit_start(s2.cursor, s2.scroll));
        }
    }

    /// Moves the cursor to the first item it may rest on and scrolls to the
    /// top; with no such item nothing changes.
    pub fn move_cursor_to_top(&mut self)
        requires
            old(self).well_formed(),
        ensures
            final(self).well_formed(),
            final(self).same_content(old(self)),
            match old(self).spec_find_item(ItemFilter::Selectable) {
                Some(i) => final(self).cursor == i && final(self).scroll == 0,
                None => final(self).cursor == old(self).cursor && final(self).scroll == old(self).scroll,
            },
    {
        if self.unique_line_index.len() == 0 {
            proof {
                assert(first_entry(self.unique_line_index@, self.items@, ItemFilter::Selectable, 0) == -1);
            }
            return;
        }
        if let Some(first) = self.find_item(ItemFilter::Selectable) {
            self.cursor = first;
            self.scroll = 0;
        }
    }

    /// Moves the cursor to the last item it may rest on and scrolls just
    /// enough to show it; with no such item nothing changes.
    pub fn move_cursor_to_bottom(&mut self)
        requires
            old(self).well_formed(),
        ensures
            final(self).well_formed(),
            final(self).same_content(old(self)),
            match old(self).spec_rfind_item(ItemFilter::Selectable) {
                Some(i) => final(self).cursor == i && final(self).scroll == old(self).fit_end(
                    i,
                    old(self).scroll,
                ),
                None => final(self).cursor == old(self).cursor && final(self).scroll == old(self).scroll,
            },
    {
        if self.unique_line_index.len() == 0 {
            return;
        }
        if let Some(last) = self.rfind_item(ItemFilter::Selectable) {
            let ghost s0 = *self;
            self.cursor = last;
            let ghost s1 = *self;
            self.scroll_fit_end();
            assert(s1.fit_end(last, s1.scroll) == s0.fit_end(last, s0.scroll));
        }
    }

    /// Marks the item under the cursor as one end of a range.
    pub fn set_mark(&mut self)
        ensures
            final(self).mark == Some(old(self).cursor),
            *final(self) == old(self).with_position(old(self).cursor, old(self).scroll, Some(old(self).cursor)),
    {
        self.mark = Some(self.cursor);
    }

    pub fn clear_mark(&mut self)
        ensures
            final(self).mark.is_none(),
            *final(self) == old(self).with_position(old(self).cursor, old(self).scroll, None),
    {
        self.mark = None;
    }
}

impl Screen {
    /// Whether `screen_line` (counted from the top of the screen) may be
    /// selected: the number of that line, taken as an item, must be one the
    /// cursor may rest on, single lines included.
    pub fn is_valid_screen_line(&self, screen_line: usize) -> (b: bool)
        requires
            self.indices_ok(),
            screen_line + self.scroll <= usize::MAX,
        ensures
            b == match self.spec_line_of_item(screen_line + self.scroll) {
                Some(target) => self.spec_nav_filter(target as int, NavMode::IncludeSubLines),
                None => false,
            },
    {
        match self.line_of_item(screen_line + self.scroll) {
            Some(target) => self.nav_filter(target, NavMode::IncludeSubLines),
            None => false,
        }
    }

    /// The scroll position that puts line `line` in the middle of the
    /// screen, when it is that far down; else `scroll`.
    pub open spec fn centered_scroll(&self, line: usize, scroll: usize) -> usize {
        let half = self.size.1 / 2;
        if line >= half {
            (line - half) as usize
        } else {
            scroll
        }
    }

    /// Moves the cursor to the first item, in line order, that it may rest
    /// on and whose data `predicate` accepts, centering it on the screen
    /// when it is far enough down and scrolling just enough to show it;
    /// whether there was one. With none nothing changes.
    pub fn select_matching<F: Fn(&ItemData) -> bool>(&mut self, predicate: F) -> (b: bool)
        requires
            old(self).well_formed(),
            forall|d: &ItemData| #[trigger] predicate.requires((d,)),
        ensures
            final(self).well_formed(),
            final(self).same_content(old(self)),
            b ==> exists|k: int|
                0 <= k < old(self).unique_line_index@.len() && #[trigger] old(self).unique_line_index@[k].1 == final(self).cursor && !old(self).items@[final(self).cursor as int].unselectable && predicate.ensures(
                    (&old(self).items@[final(self).cursor as int].data,),
                    true,
                ) && (forall|j: int|
                    0 <= j < k ==> old(self).items@[(#[trigger] old(self).unique_line_index@[j]).1 as int].unselectable
                        || predicate.ensures(
                        (&old(self).items@[old(self).unique_line_index@[j].1 as int].data,),
                        false,
                    )) && final(self).scroll == old(self).fit_start(
                    final(self).cursor,
                    old(self).fit_end(
                        final(self).cursor,
                        old(self).centered_scroll(old(self).unique_line_index@[k].0, old(self).scroll),
                    ),
                ),
            !b ==> final(self).cursor == old(self).cursor && final(self).scroll == old(self).scroll
                && forall|j: int|
                0 <= j < old(self).unique_line_index@.len() ==> old(self).items@[(#[trigger] old(self).unique_line_index@[j]).1 as int].unselectable || predicate.ensures(
                    (&old(self).items@[old(self).unique_line_index@[j].1 as int].data,),
                    false,
                ),
    {
        proof {
            self.lemma_indices();
        }
        let mut k: usize = 0;
        while k < self.unique_line_index.len()
            invariant
                self.well_formed(),
                *self == *old(self),
                forall|d: &ItemData| #[trigger] predicate.requires((d,)),
                k <= self.unique_line_index@.len(),
                forall|j: int|
                    0 <= j < self.unique_line_index@.len() ==> (#[trigger] self.unique_line_index@[j]).1
                        < self.items@.len(),
                forall|j: int|
                    0 <= j < k ==> self.items@[(#[trigger] self.unique_line_index@[j]).1 as int].unselectable
                        || predicate.ensures(
                        (&self.items@[self.unique_line_index@[j].1 as int].data,),
                        false,
                    ),
            decreases self.unique_line_index@.len() - k,
        {
            let (line, item_i) = self.unique_line_index[k];
            let item = &self.items[item_i];
            if !item.unselectable && predicate(&item.data) {
                let ghost s0 = *self;
                self.cursor = item_i;
                let half_screen = self.size.1 as usize / 2;
                if line >= half_screen {
                    self.scroll = line - half_screen;
                }
                proof {
                    lemma_first_lines_props(self.line_index@, self.line_index@.len());
                    assert(self.scroll <= self.line_index@.len() + BOTTOM_CONTEXT_LINES);
                }
                let ghost s1 = *self;
                self.scroll_fit_end();
                let ghost s2 = *self;
                self.scroll_fit_start();
                proof {
                    assert(s1.fit_end(item_i, s1.scroll) == s0.fit_end(item_i, s1.scroll));
                    assert(s2.fit_start(item_i, s2.scroll) == s0.fit_start(item_i, s2.scroll));
                    assert(s1.scroll == s0.centered_scroll(line, s0.scroll));
                }
                return true;
            }
            k = k + 1;
        }
        false
    }

    /// Moves the cursor to the last item, in line order, that it may rest
    /// on and whose data `predicate` accepts, centering it on the screen
    /// when it is far enough down and else scrolling just enough to show
    /// it; whether there was one. With none nothing changes.
    pub fn select_last_matching<F: Fn(&ItemData) -> bool>(&mut self, predicate: F) -> (b: bool)
        requires
            old(self).well_formed(),
            forall|d: &ItemData| #[trigger] predicate.requires((d,)),
        ensures
            final(self).well_formed(),
            final(self).same_content(old(self)),
            b ==> exists|k: int|
                0 <= k < old(self).unique_line_index@.len() && #[trigger] old(self).unique_line_index@[k].1 == final(self).cursor && !old(self).items@[final(self).cursor as int].unselectable && predicate.ensures(
                    (&old(self).items@[final(self).cursor as int].data,),
                    true,
                ) && (forall|j: int|
                    k < j < old(self).unique_line_index@.len() ==> old(self).items@[(#[trigger] old(self).unique_line_index@[j]).1 as int].unselectable || predicate.ensures(
                        (&old(self).items@[old(self).unique_line_index@[j].1 as int].data,),
                        false,
                    )) && final(self).scroll == if old(self).unique_line_index@[k].0 >= old(self).size.1 / 2 {
                    old(self).centered_scroll(old(self).unique_line_index@[k].0, old(self).scroll)
                } else {
                    old(self).fit_start(final(self).cursor, old(self).scroll)
                },
            !b ==> final(self).cursor == old(self).cursor && final(self).scroll == old(self).scroll
                && forall|j: int|
                0 <= j < old(self).unique_line_index@.len() ==> old(self).items@[(#[trigger] old(self).unique_line_index@[j]).1 as int].unselectable || predicate.ensures(
                    (&old(self).items@[old(self).unique_line_index@[j].1 as int].data,),
                    false,
                ),
    {
        proof {
            self.lemma_indices();
        }
        let mut k: usize = self.unique_line_index.len();
        while k > 0
            invariant
                self.well_formed(),
                *self == *old(self),
                forall|d: &ItemData| #[trigger] predicate.requires((d,)),
                k <= self.unique_line_index@.len(),
                forall|j: int|
                    0 <= j < self.unique_line_index@.len() ==> (#[trigger] self.unique_line_index@[j]).1
                        < self.items@.len(),
                forall|j: int|
                    k <= j < self.unique_line_index@.len() ==> self.items@[(
                    #[trigger] self.unique_line_index@[j]).1 as int].unselectable || predicate.ensures(
                        (&self.items@[self.unique_line_index@[j].1 as int].data,),
                        false,
                    ),
            decreases k,
        {
            let (line, item_i) = self.unique_line_index[k - 1];
            let item = &self.items[item_i];
            if !item.unselectable && predicate(&item.data) {
                let ghost s0 = *self;
                self.cursor = item_i;
                let half_screen = self.size.1 as usize / 2;
                if line >= half_screen {
                    self.scroll = line - half_screen;
                    proof {
                        lemma_first_lines_props(self.line_index@, self.line_index@.len());
                    }
                } else {
                    let ghost s1 = *self;
                    self.scroll_fit_start();
                    assert(s1.fit_start(item_i, s1.scroll) == s0.fit_start(item_i, s0.scroll));
                }
                return true;
            }
            k = k - 1;
        }
        false
    }
}

/// Whether `id` is the id of one of the first `n` items that start collapsed.
pub open spec fn collapsed_by_default(items: Seq<Item>, id: u64, n: int) -> bool {
    exists|j: int| 0 <= j < n && items[j].default_collapsed && #[trigger] items[j].id == id
}

/// Where the cursor goes on a new screen: the first hunk it may rest on,
/// else the first item it may rest on, else the top.
pub open spec fn opening_cursor(s: Screen) -> usize {
    match s.spec_find_item(ItemFilter::SelectableHunk) {
        Some(i) => i,
        None => match s.spec_find_item(ItemFilter::Selectable) {
            Some(i) => i,
            None => 0,
        },
    }
}

impl Screen {
    /// A screen of `size` showing `items`, which take `heights` lines each.
    /// The sections in `collapsed` and those that start collapsed are
    /// collapsed; the cursor goes to the first selectable hunk, else to the
    /// first selectable item. The scroll position is the one the items were
    /// first laid out with (from the top, moved to show the cursor),
    /// brought in range once the sections collapsed.
    pub fn new(size: (u16, u16), collapsed: Vec<u64>, items: Vec<Item>, heights: Vec<u16>) -> (s:
        Screen)
        requires
            heights@.len() == items@.len(),
            Self::heights_fit(heights@),
        ensures
            s.well_formed(),
            s.size == size,
            s.items == items,
            s.item_heights == heights,
            s.mark.is_none(),
            s.delete_marked_branches@.len() == 0,
            forall|id: u64|
                #[trigger] s.collapsed@.contains(id) == (collapsed@.contains(id)
                    || collapsed_by_default(items@, id, items@.len() as int)),
            s.cursor == opening_cursor(s),
            exists|first: Screen|
                #[trigger] first.indices_ok() && first.items == items && first.item_heights
                    == heights && first.collapsed == collapsed && first.size == size
                    && first.cursor == 0 && first.scroll == 0 && first.mark.is_none()
                    && first.delete_marked_branches@.len() == 0 && s.scroll == clamped_scroll(
                    first.updated_position().1,
                    s.line_index@.len(),
                    size.1,
                ),
    {
        let mut screen = Screen {
            size,
            cursor: 0,
            mark: None,
            delete_marked_branches: Vec::new(),
            scroll: 0,
            items: Vec::new(),
            expanded_items: Vec::new(),
            line_index: Vec::new(),
            unique_line_index: Vec::new(),
            item_heights: Vec::new(),
            collapsed,
        };
        proof {
            assert(screen.expanded_items@ =~= shown_items(screen.items@, screen.collapsed@));
            assert(screen.line_index@ =~= lines_for(screen.expanded_items@, screen.item_heights@, 0));
            assert(screen.unique_line_index@ =~= first_lines(screen.line_index@, 0));
            assert(crate::ops::views(screen.delete_marked_branches@) =~= Seq::<Seq<char>>::empty());
        }
        screen.refresh(items, heights);
        let ghost first = screen.with_position(0, 0, None);
        assert(first.updated_position() == (screen.cursor, screen.scroll, screen.mark));
        let mut i: usize = 0;
        while i < screen.items.len()
            invariant
                screen.items == first.items,
                screen.item_heights == first.item_heights,
                screen.delete_marked_branches == first.delete_marked_branches,
                screen.size == size,
                screen.mark.is_none(),
                screen.scroll == first.updated_position().1,
                i <= screen.items@.len(),
                forall|id: u64|
                    #[trigger] screen.collapsed@.contains(id) == (first.collapsed@.contains(id)
                        || collapsed_by_default(first.items@, id, i as int)),
            decreases screen.items@.len() - i,
        {
            let id = screen.items[i].id;
            if screen.items[i].default_collapsed && !screen.is_collapsed_id(id) {
                let ghost before = screen.collapsed@;
                screen.collapsed.push(id);
                proof {
                    assert forall|x: u64| #[trigger] screen.collapsed@.contains(x) == (x == id
                        || before.contains(x)) by {
                        vstd::seq_lib::lemma_seq_contains_after_push(before, id, x);
                    }
                }
            }
            proof {
                assert forall|x: u64|
                    collapsed_by_default(first.items@, x, i + 1) == (collapsed_by_default(
                        first.items@,
                        x,
                        i as int,
                    ) || (first.items@[i as int].default_collapsed && first.items@[i as int].id
                        == x)) by {
                    if collapsed_by_default(first.items@, x, i + 1) {
                        let j = choose|j: int|
                            0 <= j < i + 1 && first.items@[j].default_collapsed
                                && #[trigger] first.items@[j].id == x;
                        if j < i {
                            assert(collapsed_by_default(first.items@, x, i as int));
                        }
                    }
                }
            }
            i = i + 1;
        }
        screen.update_indices();
        let cursor = match screen.find_first_hunk() {
            Some(h) => h,
            None => match screen.find_item(ItemFilter::Selectable) {
                Some(k) => k,
                None => 0,
            },
        };
        screen.cursor = cursor;
        assert(first.indices_ok());
        screen
    }
}

/// Removes every occurrence of `id`.
fn remove_id(ids: &mut Vec<u64>, id: u64)
    ensures
        forall|x: u64| #[trigger] final(ids)@.contains(x) == (old(ids)@.contains(x) && x != id),
{
    let ghost start = ids@;
    let mut out: Vec<u64> = Vec::new();
    let mut i: usize = 0;
    while i < ids.len()
        invariant
            ids@ == start,
            i <= ids@.len(),
            forall|x: u64| #[trigger] out@.contains(x) == (ids@.take(i as int).contains(x) && x != id),
        decreases ids@.len() - i,
    {
        let v = ids[i];
        let ghost before = out@;
        if v != id {
            out.push(v);
        }
        proof {
            assert(ids@.take(i + 1) =~= ids@.take(i as int).push(v));
            assert forall|x: u64| #[trigger] out@.contains(x) == (ids@.take(i + 1).contains(x) && x != id) by {
                vstd::seq_lib::lemma_seq_contains_after_push(ids@.take(i as int), v, x);
                if v != id {
                    vstd::seq_lib::lemma_seq_contains_after_push(before, v, x);
                }
            }
        }
        i = i + 1;
    }
    assert(ids@.take(ids@.len() as int) =~= ids@);
    *ids = out;
}

} // verus!
