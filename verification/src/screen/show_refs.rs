//! The items of the references screen: local branches, then each remote's
//! branches under the remote's name, then tags; each list ordered by the
//! full reference name.
use vstd::prelude::*;

use crate::item_data::{ItemData, Ref, SectionHeader};
use crate::items::Item;
use crate::text::{chars_of, lex_less, lex_lt, same_text};

verus! {

/// What the references screen shows of one reference.
pub struct RefInfo {
    /// The full reference name (`refs/heads/main`), which orders the list.
    pub name: String,
    /// The id of its item.
    pub id: u64,
    pub kind: Ref,
    /// `* ` on the checked out branch, `? ` on the detached head's target.
    pub prefix: String,
    pub short_id: String,
    pub summary: String,
    /// For a remote branch, its remote's name; else empty.
    pub remote: String,
    /// For a remote branch, the id of its remote's header item.
    pub remote_id: u64,
}

/// The ids of the section headers of the references screen.
pub struct RefHeaderIds {
    pub branches: u64,
    pub tags: u64,
}

/// The marker before a reference: `? ` when the head is detached at the
/// reference's target, `* ` when the reference is the head, else blank.
pub open spec fn spec_ref_prefix(head_detached: bool, targets_match: bool, names_match: bool) -> Seq<
    char,
> {
    if head_detached && targets_match {
        seq!['?', ' ']
    } else if names_match {
        seq!['*', ' ']
    } else {
        seq![' ', ' ']
    }
}

pub fn ref_prefix(head_detached: bool, targets_match: bool, names_match: bool) -> (s: String)
    ensures
        s@ == spec_ref_prefix(head_detached, targets_match, names_match),
{
    let mut s = String::new();
    if head_detached && targets_match {
        crate::text::push_char(&mut s, '?');
    } else if names_match {
        crate::text::push_char(&mut s, '*');
    } else {
        crate::text::push_char(&mut s, ' ');
    }
    crate::text::push_char(&mut s, ' ');
    assert(s@ =~= spec_ref_prefix(head_detached, targets_match, names_match));
    s
}

/// Whether `a` comes before `b`: by remote name, then by full name.
pub open spec fn ref_before(a: RefInfo, b: RefInfo) -> bool {
    lex_lt(a.remote@, b.remote@) || (a.remote@ == b.remote@ && lex_lt(a.name@, b.name@))
}

/// Each reference comes no later than the next.
pub open spec fn refs_sorted(s: Seq<RefInfo>) -> bool {
    forall|i: int, j: int| 0 <= i < j < s.len() ==> !ref_before(#[trigger] s[j], #[trigger] s[i])
}

proof fn lemma_ref_before_asym(a: RefInfo, b: RefInfo)
    ensures
        ref_before(a, b) ==> !ref_before(b, a),
{
    crate::text::lemma_lex_total(a.remote@, b.remote@);
    crate::text::lemma_lex_total(a.name@, b.name@);
    crate::text::lemma_lex_irreflexive(a.remote@);
}

/// Before `a`, and `b` not before `a`: then before `b`.
proof fn lemma_ref_before_chain(x: RefInfo, a: RefInfo, b: RefInfo)
    requires
        ref_before(x, a),
        !ref_before(b, a),
    ensures
        ref_before(x, b),
{
    crate::text::lemma_lex_total(a.remote@, b.remote@);
    crate::text::lemma_lex_total(a.name@, b.name@);
    if lex_lt(x.remote@, a.remote@) {
        if lex_lt(a.remote@, b.remote@) {
            crate::text::lemma_lex_transitive(x.remote@, a.remote@, b.remote@);
        }
    } else {
        if lex_lt(a.remote@, b.remote@) {
        } else if a.remote@ == b.remote@ {
            if lex_lt(a.name@, b.name@) {
                crate::text::lemma_lex_transitive(x.name@, a.name@, b.name@);
            }
        }
    }
}

fn before(a: &RefInfo, b: &RefInfo) -> (r: bool)
    ensures
        r == ref_before(*a, *b),
{
    let ar = chars_of(a.remote.as_str());
    let br = chars_of(b.remote.as_str());
    if lex_less(&ar, &br) {
        return true;
    }
    if !same_text(a.remote.as_str(), b.remote.as_str()) {
        return false;
    }
    lex_less(&chars_of(a.name.as_str()), &chars_of(b.name.as_str()))
}

/// The references ordered by remote name and full name (a stable sort).
pub fn sort_refs(refs: Vec<RefInfo>) -> (r: Vec<RefInfo>)
    ensures
        refs_sorted(r@),
        r@.to_multiset() == refs@.to_multiset(),
{
    let mut out: Vec<RefInfo> = Vec::new();
    let mut rest = refs;
    let ghost all = rest@;
    proof {
        assert(out@ =~= Seq::<RefInfo>::empty());
        assert(out@.to_multiset() =~= vstd::multiset::Multiset::<RefInfo>::empty()) by {
            broadcast use vstd::seq_lib::group_to_multiset_ensures;
        }
    }
    while rest.len() > 0
        invariant
            refs_sorted(out@),
            out@.to_multiset().add(rest@.to_multiset()) == all.to_multiset(),
        decreases rest@.len(),
    {
        let ghost rest0 = rest@;
        let x = rest.remove(0);
        let mut p: usize = 0;
        while p < out.len() && !before(&x, &out[p])
            invariant
                p <= out@.len(),
                forall|k: int| 0 <= k < p ==> !ref_before(x, #[trigger] out@[k]),
            decreases out@.len() - p,
        {
            p = p + 1;
        }
        let ghost old_out = out@;
        proof {
            if p < old_out.len() {
                assert(ref_before(x, old_out[p as int]));
                assert forall|k: int| p <= k < old_out.len() implies ref_before(x, #[trigger] old_out[k]) by {
                    if k > p {
                        lemma_ref_before_chain(x, old_out[p as int], old_out[k]);
                    }
                }
            }
        }
        let ghost xv = x;
        out.insert(p, x);
        proof {
            let nv = out@;
            assert(nv =~= old_out.insert(p as int, xv));
            assert forall|i: int, j: int| 0 <= i < j < nv.len() implies !ref_before(
                #[trigger] nv[j],
                #[trigger] nv[i],
            ) by {
                if j < p {
                    assert(nv[i] == old_out[i] && nv[j] == old_out[j]);
                } else if j == p {
                    assert(nv[i] == old_out[i]);
                    lemma_ref_before_asym(old_out[i], xv);
                    if ref_before(xv, old_out[i]) {
                    }
                } else if i == p {
                    assert(nv[j] == old_out[j - 1]);
                    lemma_ref_before_asym(xv, old_out[j - 1]);
                } else if i < p {
                    assert(nv[i] == old_out[i] && nv[j] == old_out[j - 1]);
                } else {
                    assert(nv[i] == old_out[i - 1] && nv[j] == old_out[j - 1]);
                }
            }
            vstd::seq_lib::to_multiset_insert(old_out, p as int, xv);
            vstd::seq_lib::to_multiset_remove(rest0, 0);
            vstd::seq_lib::to_multiset_contains(rest0, xv);
            broadcast use vstd::multiset::group_multiset_axioms;
            broadcast use vstd::seq_lib::group_to_multiset_ensures;
            assert(out@.to_multiset().add(rest@.to_multiset()) =~= all.to_multiset());
        }
    }
    proof {
        assert(rest@ =~= Seq::<RefInfo>::empty());
        broadcast use vstd::multiset::group_multiset_axioms;
        broadcast use vstd::seq_lib::group_to_multiset_ensures;
        assert(rest@.to_multiset() =~= vstd::multiset::Multiset::<RefInfo>::empty());
        assert(out@.to_multiset().add(rest@.to_multiset()) =~= out@.to_multiset());
    }
    out
}

/// The item of a reference: one level deep, as its data says.
pub open spec fn ref_item(r: RefInfo) -> Item {
    Item {
        id: r.id,
        data: ItemData::Reference {
            prefix: r.prefix,
            kind: r.kind,
            short_id: r.short_id,
            summary: r.summary,
            merge_status: None,
        },
        depth: 1,
        unselectable: false,
        default_collapsed: false,
    }
}

/// A section header item.
pub open spec fn header_item(id: u64, h: SectionHeader) -> Item {
    Item { id: id, data: ItemData::Header(h), depth: 0, unselectable: false, default_collapsed: false }
}

/// An empty line between sections: no id, never selected.
pub open spec fn is_blank_line(item: Item) -> bool {
    &&& item.id == 0
    &&& item.depth == 0
    &&& item.unselectable
    &&& !item.default_collapsed
    &&& item.data matches ItemData::Raw(c) && c@.len() == 0
}

/// The rows of a screen, as (kind, index): 0 a blank line, 1 the branches
/// header, 2 the tags header, 3 the header of remote reference `index`'s
/// remote, 4, 5 and 6 branch, remote branch and tag `index`.
pub open spec fn ref_rows(kind: int, n: int) -> Seq<(int, int)> {
    Seq::new(n as nat, |k: int| (kind, k))
}

/// The rows of the first `n` remote references: each remote's section
/// opens with a blank line and its header where its name changes.
pub open spec fn remote_rows(r: Seq<RefInfo>, n: int) -> Seq<(int, int)>
    decreases n,
{
    if n <= 0 {
        seq![]
    } else {
        remote_rows(r, n - 1) + (if n == 1 || r[n - 1].remote@ != r[n - 2].remote@ {
            seq![(0int, 0int), (3int, n - 1)]
        } else {
            seq![]
        }) + seq![(5int, n - 1)]
    }
}

/// The rows of the references screen.
pub open spec fn screen_rows(nb: int, r: Seq<RefInfo>, nt: int) -> Seq<(int, int)> {
    seq![(1int, 0int)] + ref_rows(4, nb) + remote_rows(r, r.len() as int) + if nt > 0 {
        seq![(0int, 0int), (2int, 0int)] + ref_rows(6, nt)
    } else {
        seq![]
    }
}

/// The item a row (other than a blank line) stands for.
pub open spec fn row_item(
    row: (int, int),
    b: Seq<RefInfo>,
    r: Seq<RefInfo>,
    t: Seq<RefInfo>,
    ids: RefHeaderIds,
) -> Item {
    if row.0 == 1 {
        header_item(ids.branches, SectionHeader::Branches)
    } else if row.0 == 2 {
        header_item(ids.tags, SectionHeader::Tags)
    } else if row.0 == 3 {
        header_item(r[row.1].remote_id, SectionHeader::Remote(r[row.1].remote))
    } else if row.0 == 4 {
        ref_item(b[row.1])
    } else if row.0 == 5 {
        ref_item(r[row.1])
    } else {
        ref_item(t[row.1])
    }
}

/// `items` are the items the rows stand for.
pub open spec fn items_for_rows(
    items: Seq<Item>,
    rows: Seq<(int, int)>,
    b: Seq<RefInfo>,
    r: Seq<RefInfo>,
    t: Seq<RefInfo>,
    ids: RefHeaderIds,
) -> bool {
    &&& items.len() == rows.len()
    &&& forall|k: int|
        0 <= k < rows.len() ==> if (#[trigger] rows[k]).0 == 0 {
            is_blank_line(items[k])
        } else {
            items[k] == row_item(rows[k], b, r, t, ids)
        }
}

fn copy_ref_item(r: &RefInfo) -> (item: Item)
    ensures
        item == ref_item(*r),
{
    Item {
        id: r.id,
        data: ItemData::Reference {
            prefix: r.prefix.clone(),
            kind: r.kind.duplicate(),
            short_id: r.short_id.clone(),
            summary: r.summary.clone(),
            merge_status: None,
        },
        depth: 1,
        unselectable: false,
        default_collapsed: false,
    }
}

fn blank_line() -> (item: Item)
    ensures
        is_blank_line(item),
{
    Item {
        id: 0,
        data: ItemData::Raw(String::new()),
        depth: 0,
        unselectable: true,
        default_collapsed: false,
    }
}

/// Lays out the references screen from the branches, remote branches and
/// tags in the order given: the branches under their header; each run of
/// remote branches of one remote after a blank line and that remote's
/// header; the tags, if any, after a blank line and their header.
pub fn layout_refs(ids: &RefHeaderIds, b: &Vec<RefInfo>, r: &Vec<RefInfo>, t: &Vec<RefInfo>) -> (items:
    Vec<Item>)
    ensures
        items_for_rows(items@, screen_rows(b@.len() as int, r@, t@.len() as int), b@, r@, t@, *ids),
{
    let ghost ids_v = *ids;
    let mut items: Vec<Item> = Vec::new();
    items.push(
        Item {
            id: ids.branches,
            data: ItemData::Header(SectionHeader::Branches),
            depth: 0,
            unselectable: false,
            default_collapsed: false,
        },
    );
    let ghost head = seq![(1int, 0int)];
    let mut i: usize = 0;
    while i < b.len()
        invariant
            i <= b@.len(),
            items_for_rows(items@, head + ref_rows(4, i as int), b@, r@, t@, ids_v),
        decreases b@.len() - i,
    {
        let ghost rows = head + ref_rows(4, i as int);
        items.push(copy_ref_item(&b[i]));
        assert(head + ref_rows(4, i + 1) =~= rows.push((4int, i as int)));
        i = i + 1;
    }
    let ghost pre = head + ref_rows(4, b@.len() as int);
    let mut j: usize = 0;
    while j < r.len()
        invariant
            j <= r@.len(),
            items_for_rows(items@, pre + remote_rows(r@, j as int), b@, r@, t@, ids_v),
        decreases r@.len() - j,
    {
        let ghost rows = pre + remote_rows(r@, j as int);
        let opens = j == 0 || !same_text(r[j].remote.as_str(), r[j - 1].remote.as_str());
        if opens {
            items.push(blank_line());
            items.push(
                Item {
                    id: r[j].remote_id,
                    data: ItemData::Header(SectionHeader::Remote(r[j].remote.clone())),
                    depth: 0,
                    unselectable: false,
                    default_collapsed: false,
                },
            );
            assert(pre + remote_rows(r@, j + 1) =~= rows.push((0int, 0int)).push((3int, j as int)).push(
                (5int, j as int),
            ));
        } else {
            assert(pre + remote_rows(r@, j + 1) =~= rows.push((5int, j as int)));
        }
        items.push(copy_ref_item(&r[j]));
        j = j + 1;
    }
    let ghost mid = pre + remote_rows(r@, r@.len() as int);
    if t.len() > 0 {
        items.push(blank_line());
        items.push(
            Item {
                id: ids.tags,
                data: ItemData::Header(SectionHeader::Tags),
                depth: 0,
                unselectable: false,
                default_collapsed: false,
            },
        );
        let ghost tag_head = mid + seq![(0int, 0int), (2int, 0int)];
        let mut k: usize = 0;
        while k < t.len()
            invariant
                k <= t@.len(),
                items_for_rows(items@, tag_head + ref_rows(6, k as int), b@, r@, t@, ids_v),
            decreases t@.len() - k,
        {
            let ghost rows = tag_head + ref_rows(6, k as int);
            items.push(copy_ref_item(&t[k]));
            assert(tag_head + ref_rows(6, k + 1) =~= rows.push((6int, k as int)));
            k = k + 1;
        }
        assert(tag_head + ref_rows(6, t@.len() as int) =~= screen_rows(
            b@.len() as int,
            r@,
            t@.len() as int,
        ));
    } else {
        assert(mid =~= screen_rows(b@.len() as int, r@, t@.len() as int));
    }
    items
}

/// The items of the references screen: the branches, remote branches and
/// tags are each sorted (remote branches by remote, then name), then laid
/// out as [`layout_refs`] says.
pub fn ref_items(ids: &RefHeaderIds, branches: Vec<RefInfo>, remotes: Vec<RefInfo>, tags: Vec<RefInfo>) -> (items:
    Vec<Item>)
    ensures
        exists|b: Seq<RefInfo>, r: Seq<RefInfo>, t: Seq<RefInfo>|
            #[trigger] refs_sorted(b) && #[trigger] refs_sorted(r) && #[trigger] refs_sorted(t)
                && b.to_multiset() == branches@.to_multiset() && r.to_multiset()
                == remotes@.to_multiset() && t.to_multiset() == tags@.to_multiset()
                && items_for_rows(items@, screen_rows(b.len() as int, r, t.len() as int), b, r, t, *ids),
{
    let b = sort_refs(branches);
    let r = sort_refs(remotes);
    let t = sort_refs(tags);
    let items = layout_refs(ids, &b, &r, &t);
    assert(refs_sorted(b@) && refs_sorted(r@) && refs_sorted(t@));
    items
}

} // verus!
