//! `/`-separated paths the way `std::path::Path` reads them on Unix: the
//! components (empty pieces and `.` ignored, except a `.` that starts a
//! relative path), and the parent, file name, extension and what remains
//! after a leading directory, each taken as the text of the path itself.
use vstd::prelude::*;

use crate::text::{chars_of, char_views, join, join_slash, same_text, string_of};

verus! {

/// Whether a path starts at the root.
pub open spec fn is_absolute(p: Seq<char>) -> bool {
    p.len() > 0 && p[0] == '/'
}

/// Every piece of `s` between occurrences of `sep`, empty ones included
/// (`str::split`): always at least one.
pub open spec fn split_all(s: Seq<char>, sep: char) -> Seq<Seq<char>>
    decreases s.len(),
{
    if s.len() == 0 {
        seq![seq![]]
    } else {
        let r = split_all(s.drop_last(), sep);
        if s.last() == sep {
            r.push(seq![])
        } else {
            r.update(r.len() - 1, r.last().push(s.last()))
        }
    }
}

proof fn lemma_split_all_len(s: Seq<char>, sep: char)
    ensures
        split_all(s, sep).len() >= 1,
    decreases s.len(),
{
    if s.len() > 0 {
        lemma_split_all_len(s.drop_last(), sep);
    }
}

/// Whether piece `j` of a path is a component: it is not empty, and not
/// `.` unless it is the first piece (a relative path starting at `.`).
pub open spec fn is_comp(raw: Seq<Seq<char>>, j: int) -> bool {
    raw[j].len() > 0 && (raw[j] != "."@ || j == 0)
}

/// The indices of the pieces among the first `n` that are components.
pub open spec fn comp_idx(raw: Seq<Seq<char>>, n: int) -> Seq<int>
    decreases n,
{
    if n <= 0 {
        seq![]
    } else {
        comp_idx(raw, n - 1) + if is_comp(raw, n - 1) {
            seq![n - 1]
        } else {
            seq![]
        }
    }
}

proof fn lemma_comp_idx(raw: Seq<Seq<char>>, n: int)
    requires
        0 <= n,
    ensures
        forall|k: int| 0 <= k < comp_idx(raw, n).len() ==> 0 <= #[trigger] comp_idx(raw, n)[k] < n,
        forall|a: int, b: int|
            0 <= a < b < comp_idx(raw, n).len() ==> #[trigger] comp_idx(raw, n)[a] < #[trigger] comp_idx(
                raw,
                n,
            )[b],
        comp_idx(raw, n).len() <= n,
    decreases n,
{
    if n > 0 {
        lemma_comp_idx(raw, n - 1);
    }
}

/// The pieces and the indices of the components of a path.
pub open spec fn pieces(p: Seq<char>) -> Seq<Seq<char>> {
    split_all(p, '/')
}

pub open spec fn comp_indices(p: Seq<char>) -> Seq<int> {
    comp_idx(pieces(p), pieces(p).len() as int)
}

/// The names of a path's components other than the root, in order.
pub open spec fn components(p: Seq<char>) -> Seq<Seq<char>> {
    comp_indices(p).map_values(|j: int| pieces(p)[j])
}

/// `Path::parent`: the text of the path up to its last component but one
/// (the root, or nothing, when there is no other); none for a path without
/// components.
pub open spec fn parent(p: Seq<char>) -> Option<Seq<char>> {
    let ix = comp_indices(p);
    if ix.len() == 0 {
        None
    } else if ix.len() >= 2 {
        Some(join(pieces(p).take(ix[ix.len() - 2] + 1), "/"@))
    } else if is_absolute(p) {
        Some("/"@)
    } else {
        Some(seq![])
    }
}

/// `Path::file_name`: the last component, unless it is `.` or `..`.
pub open spec fn file_name(p: Seq<char>) -> Option<Seq<char>> {
    let c = components(p);
    if c.len() == 0 || c.last() == ".."@ || c.last() == "."@ {
        None
    } else {
        Some(c.last())
    }
}

/// The index of the last `c` in `s`, or -1.
pub open spec fn last_index_of(s: Seq<char>, c: char) -> int
    decreases s.len(),
{
    if s.len() == 0 {
        -1
    } else if s.last() == c {
        s.len() - 1
    } else {
        last_index_of(s.drop_last(), c)
    }
}

/// The extension of a file name: what follows its last `.`, unless that dot
/// starts the name.
pub open spec fn name_extension(name: Seq<char>) -> Option<Seq<char>> {
    let i = last_index_of(name, '.');
    if i <= 0 {
        None
    } else {
        Some(name.skip(i + 1))
    }
}

/// `Path::extension`.
pub open spec fn extension(p: Seq<char>) -> Option<Seq<char>> {
    match file_name(p) {
        Some(n) => name_extension(n),
        None => None,
    }
}

/// `Path::strip_prefix`: when `dir`'s components (the root included) lead
/// `p`'s, the text of `p` from its first component after them to its last
/// (empty when none is left). A `dir` with no component at all leads any
/// path, which then stays as it is but for trailing `/` and `.`.
pub open spec fn strip_prefix(p: Seq<char>, dir: Seq<char>) -> Option<Seq<char>> {
    let pi = comp_indices(p);
    let pc = components(p);
    let dc = components(dir);
    if !is_absolute(dir) && dc.len() == 0 {
        Some(
            if pi.len() == 0 {
                if is_absolute(p) {
                    "/"@
                } else {
                    seq![]
                }
            } else {
                join(pieces(p).take(pi.last() + 1), "/"@)
            },
        )
    } else if is_absolute(p) == is_absolute(dir) && dc.len() <= pc.len() && pc.take(dc.len() as int)
        == dc {
        Some(
            if dc.len() == pc.len() {
                seq![]
            } else {
                join(pieces(p).subrange(pi[dc.len() as int], pi.last() + 1), "/"@)
            },
        )
    } else {
        None
    }
}

/// The pieces of a path.
fn split_pieces(v: &Vec<char>) -> (r: Vec<Vec<char>>)
    ensures
        char_views(r@) == split_all(v@, '/'),
{
    let mut done: Vec<Vec<char>> = Vec::new();
    let mut cur: Vec<char> = Vec::new();
    let mut i: usize = 0;
    assert(v@.take(0) =~= Seq::<char>::empty());
    assert(char_views(done@).push(cur@) =~= seq![seq![]]);
    while i < v.len()
        invariant
            i <= v@.len(),
            char_views(done@).push(cur@) == split_all(v@.take(i as int), '/'),
        decreases v@.len() - i,
    {
        let ghost prev = split_all(v@.take(i as int), '/');
        proof {
            lemma_split_all_len(v@.take(i as int), '/');
            assert(v@.take(i + 1).drop_last() =~= v@.take(i as int));
        }
        let c = v[i];
        if c == '/' {
            let finished = cur;
            done.push(finished);
            cur = Vec::new();
            assert(char_views(done@).push(cur@) =~= prev.push(seq![]));
        } else {
            let ghost before = char_views(done@);
            cur.push(c);
            assert(char_views(done@).push(cur@) =~= prev.update(prev.len() - 1, prev.last().push(c)));
        }
        i = i + 1;
    }
    assert(v@.take(v@.len() as int) =~= v@);
    done.push(cur);
    done
}

/// Whether piece `j` is a component.
fn piece_is_comp(raw: &Vec<Vec<char>>, j: usize) -> (b: bool)
    requires
        j < raw@.len(),
    ensures
        b == is_comp(char_views(raw@), j as int),
{
    let piece = &raw[j];
    proof {
        reveal_strlit(".");
    }
    let is_dot = piece.len() == 1 && piece[0] == '.';
    proof {
        if is_dot {
            assert(piece@ =~= "."@);
        }
        if piece@ == "."@ {
            assert(piece@.len() == 1 && piece@[0] == '.');
        }
    }
    piece.len() > 0 && (!is_dot || j == 0)
}

/// The view of a list of indices.
pub open spec fn index_view(ix: Seq<usize>) -> Seq<int> {
    ix.map_values(|x: usize| x as int)
}

/// The pieces of a path, the indices of its components, and whether it is
/// absolute.
fn parse(p: &str) -> (r: (Vec<Vec<char>>, Vec<usize>, bool))
    ensures
        char_views(r.0@) == pieces(p@),
        index_view(r.1@) == comp_indices(p@),
        r.2 == is_absolute(p@),
        forall|k: int| 0 <= k < r.1@.len() ==> #[trigger] r.1@[k] < r.0@.len(),
        forall|a: int, b: int| 0 <= a < b < r.1@.len() ==> #[trigger] r.1@[a] < #[trigger] r.1@[b],
{
    let v = chars_of(p);
    let raw = split_pieces(&v);
    let ghost rv = char_views(raw@);
    let mut ix: Vec<usize> = Vec::new();
    let mut i: usize = 0;
    assert(index_view(ix@) =~= comp_idx(rv, 0));
    while i < raw.len()
        invariant
            rv == char_views(raw@),
            i <= raw@.len(),
            index_view(ix@) == comp_idx(rv, i as int),
            forall|k: int| 0 <= k < ix@.len() ==> #[trigger] ix@[k] < i,
            forall|a: int, b: int| 0 <= a < b < ix@.len() ==> #[trigger] ix@[a] < #[trigger] ix@[b],
        decreases raw@.len() - i,
    {
        let ghost prev = ix@;
        if piece_is_comp(&raw, i) {
            ix.push(i);
            assert(index_view(ix@) =~= index_view(prev).push(i as int));
        } else {
            assert(index_view(ix@) =~= index_view(prev));
        }
        assert(comp_idx(rv, i + 1) == comp_idx(rv, i as int) + if is_comp(rv, i as int) {
            seq![i as int]
        } else {
            seq![]
        });
        i = i + 1;
    }
    let abs = v.len() > 0 && v[0] == '/';
    (raw, ix, abs)
}

/// Whether a path is absolute, and the names of its components.
pub fn path_components(p: &str) -> (r: (bool, Vec<Vec<char>>))
    ensures
        r.0 == is_absolute(p@),
        char_views(r.1@) == components(p@),
{
    let (raw, ix, abs) = parse(p);
    let mut out: Vec<Vec<char>> = Vec::new();
    let mut k: usize = 0;
    while k < ix.len()
        invariant
            char_views(raw@) == pieces(p@),
            index_view(ix@) == comp_indices(p@),
            forall|j: int| 0 <= j < ix@.len() ==> #[trigger] ix@[j] < raw@.len(),
            k <= ix@.len(),
            char_views(out@) == components(p@).take(k as int),
        decreases ix@.len() - k,
    {
        let ghost before = char_views(out@);
        out.push(raw[ix[k]].clone());
        assert(char_views(out@) =~= before.push(raw@[ix@[k as int] as int]@));
        assert(components(p@).take(k + 1) =~= components(p@).take(k as int).push(
            pieces(p@)[comp_indices(p@)[k as int]],
        ));
        k = k + 1;
    }
    assert(components(p@).take(ix@.len() as int) =~= components(p@));
    (abs, out)
}

pub fn path_parent(p: &str) -> (r: Option<String>)
    ensures
        match r {
            Some(s) => parent(p@) == Some(s@),
            None => parent(p@) is None,
        },
{
    let (raw, ix, abs) = parse(p);
    let n = ix.len();
    if n == 0 {
        return None;
    }
    if n >= 2 {
        let prev = ix[n - 2];
        let rlen = raw.len();
        assert(prev < rlen);
        let end = prev + 1;
        let s = join_slash(&raw, 0, end);
        assert(char_views(raw@).subrange(0, end as int) =~= pieces(p@).take(end as int));
        return Some(s);
    }
    if abs {
        Some("/".to_owned())
    } else {
        Some(String::new())
    }
}

fn last_dot(v: &Vec<char>) -> (i: Option<usize>)
    ensures
        match i {
            Some(k) => last_index_of(v@, '.') == k && k < v@.len(),
            None => last_index_of(v@, '.') == -1,
        },
{
    let mut n = v.len();
    assert(v@.take(n as int) =~= v@);
    while n > 0 && v[n - 1] != '.'
        invariant
            n <= v@.len(),
            last_index_of(v@, '.') == last_index_of(v@.take(n as int), '.'),
        decreases n,
    {
        assert(v@.take(n as int).drop_last() =~= v@.take(n - 1));
        n = n - 1;
    }
    if n == 0 {
        None
    } else {
        Some(n - 1)
    }
}

pub fn path_extension(p: &str) -> (r: Option<String>)
    ensures
        match r {
            Some(s) => extension(p@) == Some(s@),
            None => extension(p@) is None,
        },
{
    let (raw, ix, _abs) = parse(p);
    if ix.len() == 0 {
        return None;
    }
    let name = &raw[ix[ix.len() - 1]];
    proof {
        assert(components(p@).last() == name@);
        reveal_strlit("..");
        reveal_strlit(".");
    }
    if (name.len() == 2 && name[0] == '.' && name[1] == '.') || (name.len() == 1 && name[0] == '.') {
        proof {
            if name@.len() == 2 {
                assert(name@ =~= ".."@);
            } else {
                assert(name@ =~= "."@);
            }
        }
        return None;
    }
    proof {
        if name@ == ".."@ {
            assert(name@.len() == 2 && name@[0] == '.' && name@[1] == '.');
        }
        if name@ == "."@ {
            assert(name@.len() == 1 && name@[0] == '.');
        }
    }
    match last_dot(name) {
        Some(i) => if i == 0 {
            None
        } else {
            let s = crate::text::string_from_range(name, i + 1, name.len());
            assert(name@.subrange(i + 1, name@.len() as int) =~= name@.skip(i + 1));
            Some(s)
        },
        None => None,
    }
}

pub fn path_strip_prefix(p: &str, dir: &str) -> (r: Option<String>)
    ensures
        match r {
            Some(s) => strip_prefix(p@, dir@) == Some(s@),
            None => strip_prefix(p@, dir@) is None,
        },
{
    let (pr, pi, pa) = parse(p);
    let (dr, di, da) = parse(dir);
    let ghost pc = components(p@);
    let ghost dc = components(dir@);
    assert(pc.len() == pi@.len() && dc.len() == di@.len());
    if !da && di.len() == 0 {
        if pi.len() == 0 {
            return Some(if pa { "/".to_owned() } else { String::new() });
        }
        let last = pi[pi.len() - 1];
        let plen = pr.len();
        assert(last < plen);
        let end = last + 1;
        let s = join_slash(&pr, 0, end);
        assert(char_views(pr@).subrange(0, end as int) =~= pieces(p@).take(end as int));
        return Some(s);
    }
    if pa != da || di.len() > pi.len() {
        return None;
    }
    let mut i: usize = 0;
    while i < di.len()
        invariant
            char_views(pr@) == pieces(p@),
            char_views(dr@) == pieces(dir@),
            index_view(pi@) == comp_indices(p@),
            index_view(di@) == comp_indices(dir@),
            forall|k: int| 0 <= k < pi@.len() ==> #[trigger] pi@[k] < pr@.len(),
            forall|k: int| 0 <= k < di@.len() ==> #[trigger] di@[k] < dr@.len(),
            pc == components(p@),
            dc == components(dir@),
            di@.len() <= pi@.len(),
            i <= di@.len(),
            forall|j: int| 0 <= j < i ==> pc[j] == dc[j],
        decreases di@.len() - i,
    {
        let a = &pr[pi[i]];
        let b = &dr[di[i]];
        assert(pc[i as int] == a@ && dc[i as int] == b@);
        if !same_text(string_of(a).as_str(), string_of(b).as_str()) {
            proof {
                if pc.take(dc.len() as int) == dc {
                    assert(pc.take(dc.len() as int)[i as int] == dc[i as int]);
                }
            }
            return None;
        }
        i = i + 1;
    }
    assert(pc.take(dc.len() as int) =~= dc);
    let n = di.len();
    if n == pi.len() {
        return Some(String::new());
    }
    let start = pi[n];
    let last = pi[pi.len() - 1];
    let plen = pr.len();
    assert(last < plen);
    let end = last + 1;
    assert(start <= pi[pi.len() - 1]);
    let s = join_slash(&pr, start, end);
    assert(char_views(pr@).subrange(start as int, end as int) =~= pieces(p@).subrange(
        start as int,
        end as int,
    ));
    Some(s)
}

} // verus!
