//! Sets of strings kept as strictly sorted vectors (the order of
//! `String`'s `Ord`): insertion, removal and membership.
use vstd::prelude::*;

use crate::ops::views;
use crate::text::{chars_of, lex_less, lex_lt};

verus! {

/// Strictly increasing in code point order (so also without duplicates).
pub open spec fn strictly_sorted(s: Seq<Seq<char>>) -> bool {
    forall|i: int, j: int| 0 <= i < j < s.len() ==> lex_lt(#[trigger] s[i], #[trigger] s[j])
}

pub proof fn lemma_sorted_no_duplicates(s: Seq<Seq<char>>)
    requires
        strictly_sorted(s),
    ensures
        s.no_duplicates(),
{
    assert forall|i: int, j: int| 0 <= i < s.len() && 0 <= j < s.len() && i != j implies s[i]
        != s[j] by {
        if i < j {
            crate::text::lemma_lex_irreflexive(s[i]);
        } else {
            crate::text::lemma_lex_irreflexive(s[j]);
        }
    }
}

/// Adds `x` to a strictly sorted list, keeping it so (a set insertion).
pub fn insert_sorted(v: &mut Vec<String>, x: String)
    requires
        strictly_sorted(views(old(v)@)),
    ensures
        strictly_sorted(views(final(v)@)),
        views(final(v)@).to_set() == views(old(v)@).to_set().insert(x@),
{
    let xc = chars_of(x.as_str());
    let mut p: usize = 0;
    while p < v.len() && lex_less(&chars_of(v[p].as_str()), &xc)
        invariant
            p <= v@.len(),
            xc@ == x@,
            forall|i: int| 0 <= i < p ==> lex_lt(#[trigger] v@[i]@, x@),
        decreases v@.len() - p,
    {
        p = p + 1;
    }
    let ghost old_views = views(v@);
    if p < v.len() && crate::text::same_text(v[p].as_str(), x.as_str()) {
        proof {
            assert(old_views[p as int] == x@);
            assert(old_views.to_set().insert(x@) =~= old_views.to_set());
        }
        return;
    }
    proof {
        if p < v@.len() {
            crate::text::lemma_lex_total(v@[p as int]@, x@);
            assert(lex_lt(x@, v@[p as int]@));
        }
    }
    let ghost xv = x@;
    v.insert(p, x);
    proof {
        let nv = views(v@);
        assert(nv =~= old_views.insert(p as int, xv));
        assert forall|i: int, j: int| 0 <= i < j < nv.len() implies lex_lt(
            #[trigger] nv[i],
            #[trigger] nv[j],
        ) by {
            if j < p {
                assert(nv[i] == old_views[i] && nv[j] == old_views[j]);
            } else if j == p {
                assert(nv[i] == old_views[i]);
            } else if i == p {
                assert(nv[j] == old_views[j - 1]);
                if j - 1 > p {
                    crate::text::lemma_lex_transitive(xv, old_views[p as int], old_views[j - 1]);
                }
            } else if i < p {
                assert(nv[i] == old_views[i] && nv[j] == old_views[j - 1]);
                if j - 1 == p {
                    crate::text::lemma_lex_transitive(old_views[i], xv, old_views[p as int]);
                } else {
                }
            } else {
                assert(nv[i] == old_views[i - 1] && nv[j] == old_views[j - 1]);
            }
        }
        assert forall|c: Seq<char>| nv.to_set().contains(c) <==> old_views.to_set().insert(
            xv,
        ).contains(c) by {
            if nv.to_set().contains(c) {
                let k = choose|k: int| 0 <= k < nv.len() && nv[k] == c;
                if k < p {
                    assert(old_views[k] == c);
                } else if k > p {
                    assert(old_views[k - 1] == c);
                }
            }
            if old_views.to_set().contains(c) {
                let k = choose|k: int| 0 <= k < old_views.len() && old_views[k] == c;
                if k < p {
                    assert(nv[k] == c);
                } else {
                    assert(nv[k + 1] == c);
                }
            }
            if c == xv {
                assert(nv[p as int] == c);
            }
        }
        assert(nv.to_set() =~= old_views.to_set().insert(xv));
    }
}

/// Whether the set holds `x`.
pub fn contains_str(v: &Vec<String>, x: &str) -> (b: bool)
    ensures
        b == views(v@).contains(x@),
{
    let mut i: usize = 0;
    while i < v.len()
        invariant
            i <= v@.len(),
            forall|j: int| 0 <= j < i ==> v@[j]@ != x@,
        decreases v@.len() - i,
    {
        if crate::text::same_text(v[i].as_str(), x) {
            assert(views(v@)[i as int] == x@);
            return true;
        }
        i = i + 1;
    }
    proof {
        if views(v@).contains(x@) {
            let k = choose|k: int| 0 <= k < views(v@).len() && views(v@)[k] == x@;
            assert(v@[k]@ == x@);
        }
    }
    false
}

/// Removes `x` from the set; whether it was there.
pub fn remove_str(v: &mut Vec<String>, x: &str) -> (b: bool)
    requires
        strictly_sorted(views(old(v)@)),
    ensures
        strictly_sorted(views(final(v)@)),
        views(final(v)@).to_set() == views(old(v)@).to_set().remove(x@),
        b == views(old(v)@).contains(x@),
{
    let mut i: usize = 0;
    while i < v.len()
        invariant
            v@ == old(v)@,
            strictly_sorted(views(old(v)@)),
            i <= v@.len(),
            forall|j: int| 0 <= j < i ==> v@[j]@ != x@,
        decreases v@.len() - i,
    {
        if crate::text::same_text(v[i].as_str(), x) {
            let ghost before = views(v@);
            assert(before[i as int] == x@);
            v.remove(i);
            proof {
                let nv = views(v@);
                assert(nv =~= before.remove(i as int));
                lemma_sorted_no_duplicates(before);
                assert forall|a: int, b: int| 0 <= a < b < nv.len() implies lex_lt(
                    #[trigger] nv[a],
                    #[trigger] nv[b],
                ) by {
                    let a2 = if a < i { a } else { a + 1 };
                    let b2 = if b < i { b } else { b + 1 };
                    assert(nv[a] == before[a2] && nv[b] == before[b2]);
                }
                assert forall|c: Seq<char>| nv.to_set().contains(c) <==> before.to_set().remove(
                    x@,
                ).contains(c) by {
                    if nv.to_set().contains(c) {
                        let k = choose|k: int| 0 <= k < nv.len() && nv[k] == c;
                        let k2 = if k < i { k } else { k + 1 };
                        assert(before[k2] == c);
                        assert(k2 != i);
                        assert(before[k2] != before[i as int]);
                    }
                    if before.to_set().remove(x@).contains(c) {
                        let k = choose|k: int| 0 <= k < before.len() && before[k] == c;
                        assert(k != i);
                        if k < i {
                            assert(nv[k] == c);
                        } else {
                            assert(nv[k - 1] == c);
                        }
                    }
                }
                assert(nv.to_set() =~= before.to_set().remove(x@));
                assert(before[i as int] == x@);
            }
            return true;
        }
        i = i + 1;
    }
    proof {
        let vs = views(v@);
        if vs.contains(x@) {
            let k = choose|k: int| 0 <= k < vs.len() && vs[k] == x@;
            assert(v@[k]@ == x@);
        }
        assert(!vs.to_set().contains(x@));
        assert(vs.to_set().remove(x@) =~= vs.to_set());
    }
    false
}

} // verus!
