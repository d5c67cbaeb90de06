//! Branches marked for deletion on a screen.
use vstd::prelude::*;

use crate::item_data::{ItemData, Ref};
use crate::ops::views;
use crate::screen::{NavMode, Screen};
use crate::sorted::{insert_sorted, remove_str, strictly_sorted};

verus! {

impl Screen {
    /// The branches marked for deletion.
    pub open spec fn delete_marks(&self) -> Set<Seq<char>> {
        views(self.delete_marked_branches@).to_set()
    }

    /// Everything but the delete marks is as in `other`.
    pub open spec fn same_but_marks(&self, other: &Screen) -> bool {
        &&& self.size == other.size
        &&& self.cursor == other.cursor
        &&& self.mark == other.mark
        &&& self.scroll == other.scroll
        &&& self.items == other.items
        &&& self.expanded_items == other.expanded_items
        &&& self.line_index == other.line_index
        &&& self.unique_line_index == other.unique_line_index
        &&& self.item_heights == other.item_heights
        &&& self.collapsed == other.collapsed
    }

    /// Marks each of `branches` for deletion.
    pub fn mark_branches_for_delete(&mut self, branches: &[String])
        requires
            old(self).well_formed(),
        ensures
            final(self).well_formed(),
            final(self).same_but_marks(old(self)),
            final(self).delete_marks() == old(self).delete_marks().union(views(branches@).to_set()),
    {
        let ghost start = self.delete_marks();
        let mut i: usize = 0;
        while i < branches.len()
            invariant
                self.well_formed(),
                self.same_but_marks(old(self)),
                start == old(self).delete_marks(),
                i <= branches@.len(),
                self.delete_marks() == start.union(views(branches@.take(i as int)).to_set()),
            decreases branches@.len() - i,
        {
            let ghost before = self.delete_marks();
            let b = branches[i].clone();
            insert_sorted(&mut self.delete_marked_branches, b);
            proof {
                assert(views(branches@.take(i + 1)) =~= views(branches@.take(i as int)).push(
                    branches@[i as int]@,
                ));
                vstd::seq_lib::lemma_seq_contains_after_push(
                    views(branches@.take(i as int)),
                    branches@[i as int]@,
                    branches@[i as int]@,
                );
                assert(self.delete_marks() =~= start.union(views(branches@.take(i + 1)).to_set()))
                    by {
                    assert forall|c: Seq<char>|
                        views(branches@.take(i + 1)).to_set().contains(c) == (views(
                            branches@.take(i as int),
                        ).to_set().contains(c) || c == branches@[i as int]@) by {
                        vstd::seq_lib::lemma_seq_contains_after_push(
                            views(branches@.take(i as int)),
                            branches@[i as int]@,
                            c,
                        );
                    }
                }
            }
            i = i + 1;
        }
        assert(branches@.take(branches@.len() as int) =~= branches@);
    }

    /// Marks the branch under the cursor for deletion; false (and nothing
    /// changes) when the cursor is not on a local branch.
    pub fn mark_selected_branch_for_delete(&mut self) -> (b: bool)
        requires
            old(self).well_formed(),
            old(self).items@.len() > 0,
        ensures
            final(self).well_formed(),
            final(self).same_but_marks(old(self)),
            b == old(self).items@[old(self).cursor as int].data matches ItemData::Reference {
                kind: Ref::Head(_),
                ..
            },
            final(self).delete_marks() == match old(self).items@[old(self).cursor as int].data {
                ItemData::Reference { kind: Ref::Head(branch), .. } => old(
                    self,
                ).delete_marks().insert(branch@),
                _ => old(self).delete_marks(),
            },
    {
        let branch = match &self.items[self.cursor].data {
            ItemData::Reference { kind: Ref::Head(branch), .. } => branch.clone(),
            _ => return false,
        };
        insert_sorted(&mut self.delete_marked_branches, branch);
        true
    }

    /// Marking for deletion: the branches between the mark and the cursor,
    /// when the range holds such, are marked and the mark cleared; else the
    /// branch under the cursor is marked and the cursor moves on.
    pub fn mark_for_delete(&mut self)
        requires
            old(self).well_formed(),
            old(self).mark_in_range(),
            old(self).items@.len() > 0,
        ensures
            final(self).well_formed(),
            final(self).items == old(self).items,
            final(self).line_index == old(self).line_index,
            match old(self).range_branches() {
                Some(bs) => final(self).delete_marks() == old(self).delete_marks().union(bs.to_set())
                    && final(self).mark is None && final(self).cursor == old(self).cursor
                    && final(self).scroll == old(self).scroll,
                None => final(self).mark == old(self).mark && match old(self).items@[old(self).cursor as int].data {
                    ItemData::Reference { kind: Ref::Head(branch), .. } => {
                        let c = old(self).next_from(old(self).cursor, NavMode::Normal);
                        &&& final(self).delete_marks() == old(self).delete_marks().insert(branch@)
                        &&& final(self).cursor == c
                        &&& final(self).scroll == old(self).fit_start(c, old(self).fit_end(c, old(self).scroll))
                    },
                    _ => final(self).delete_marks() == old(self).delete_marks() && final(self).cursor
                        == old(self).cursor && final(self).scroll == old(self).scroll,
                },
            },
    {
        let ghost s0 = *self;
        if let Some(branches) = self.selected_branches() {
            self.mark_branches_for_delete(&branches);
            self.clear_mark();
            return;
        }
        if self.mark_selected_branch_for_delete() {
            let ghost s1 = *self;
            self.select_next(NavMode::Normal);
            proof {
                let c = s0.next_from(s0.cursor, NavMode::Normal);
                assert(s1.next_from(s1.cursor, NavMode::Normal) == c);
                assert(s1.fit_end(c, s1.scroll) == s0.fit_end(c, s0.scroll));
                assert(s1.fit_start(c, s0.fit_end(c, s0.scroll)) == s0.fit_start(c, s0.fit_end(c, s0.scroll)));
            }
        }
    }

    /// The local branches between the mark and the cursor, when the range
    /// holds only such and empty lines, and at least one branch.
    pub open spec fn range_branches(&self) -> Option<Seq<Seq<char>>> {
        match self.mark {
            None => None,
            Some(m) => match crate::screen::range::branches_upto(
                self.items@,
                crate::screen::range::range_lo(m, self.cursor) as int,
                crate::screen::range::range_hi(m, self.cursor) + 1,
            ) {
                Some(bs) => if bs.len() > 0 {
                    Some(bs)
                } else {
                    None
                },
                None => None,
            },
        }
    }

    /// Unmarks `branch`; whether it was marked.
    pub fn unmark_branch_for_delete(&mut self, branch: &str) -> (b: bool)
        requires
            old(self).well_formed(),
        ensures
            final(self).well_formed(),
            final(self).same_but_marks(old(self)),
            final(self).delete_marks() == old(self).delete_marks().remove(branch@),
            b == old(self).delete_marks().contains(branch@),
    {
        remove_str(&mut self.delete_marked_branches, branch)
    }

    /// Unmarks each of `branches`.
    pub fn unmark_branches_for_delete(&mut self, branches: &[String])
        requires
            old(self).well_formed(),
        ensures
            final(self).well_formed(),
            final(self).same_but_marks(old(self)),
            final(self).delete_marks() == old(self).delete_marks().difference(
                views(branches@).to_set(),
            ),
    {
        let ghost start = self.delete_marks();
        let mut i: usize = 0;
        while i < branches.len()
            invariant
                self.well_formed(),
                self.same_but_marks(old(self)),
                start == old(self).delete_marks(),
                i <= branches@.len(),
                self.delete_marks() == start.difference(views(branches@.take(i as int)).to_set()),
            decreases branches@.len() - i,
        {
            remove_str(&mut self.delete_marked_branches, branches[i].as_str());
            proof {
                assert(views(branches@.take(i + 1)) =~= views(branches@.take(i as int)).push(
                    branches@[i as int]@,
                ));
                assert(self.delete_marks() =~= start.difference(
                    views(branches@.take(i + 1)).to_set(),
                )) by {
                    assert forall|c: Seq<char>|
                        views(branches@.take(i + 1)).to_set().contains(c) == (views(
                            branches@.take(i as int),
                        ).to_set().contains(c) || c == branches@[i as int]@) by {
                        vstd::seq_lib::lemma_seq_contains_after_push(
                            views(branches@.take(i as int)),
                            branches@[i as int]@,
                            c,
                        );
                    }
                }
            }
            i = i + 1;
        }
        assert(branches@.take(branches@.len() as int) =~= branches@);
    }

    /// Unmarks every branch.
    pub fn clear_delete_marks(&mut self)
        requires
            old(self).well_formed(),
        ensures
            final(self).well_formed(),
            final(self).same_but_marks(old(self)),
            final(self).delete_marks() == Set::<Seq<char>>::empty(),
    {
        self.delete_marked_branches = Vec::new();
        assert(views(self.delete_marked_branches@) =~= Seq::<Seq<char>>::empty());
        assert(self.delete_marks() =~= Set::<Seq<char>>::empty());
    }

    /// Whether some branch is marked.
    pub fn has_delete_marks(&self) -> (b: bool)
        ensures
            b == (self.delete_marks().len() > 0),
    {
        proof {
            if self.delete_marked_branches@.len() > 0 {
                assert(self.delete_marks().contains(views(self.delete_marked_branches@)[0]));
                vstd::seq_lib::seq_to_set_is_finite(views(self.delete_marked_branches@));
            } else {
                assert(views(self.delete_marked_branches@) =~= Seq::<Seq<char>>::empty());
                assert(self.delete_marks() =~= Set::<Seq<char>>::empty());
            }
        }
        self.delete_marked_branches.len() > 0
    }

    /// The marked branches, in order.
    pub fn delete_marked_branches(&self) -> (r: Vec<String>)
        requires
            self.well_formed(),
        ensures
            views(r@) == views(self.delete_marked_branches@),
            strictly_sorted(views(r@)),
            views(r@).to_set() == self.delete_marks(),
    {
        let mut r: Vec<String> = Vec::new();
        let mut i: usize = 0;
        while i < self.delete_marked_branches.len()
            invariant
                i <= self.delete_marked_branches@.len(),
                views(r@) == views(self.delete_marked_branches@).take(i as int),
            decreases self.delete_marked_branches@.len() - i,
        {
            let ghost before = r@;
            r.push(self.delete_marked_branches[i].clone());
            assert(r@ =~= before.push(self.delete_marked_branches@[i as int]));
            assert(views(r@) =~= views(before).push(self.delete_marked_branches@[i as int]@));
            assert(views(r@) =~= views(self.delete_marked_branches@).take(i + 1));
            i = i + 1;
        }
        assert(views(r@) =~= views(self.delete_marked_branches@));
        r
    }
}

} // verus!
