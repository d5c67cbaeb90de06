//! Character-level string building blocks shared by the rest of the crate:
//! decimal rendering, padding, tab expansion, whitespace trimming and
//! sequence joining, each with the spec function that says what it computes.
use vstd::prelude::*;

verus! {

/// Appends one character to a string (`String::push`).
#[verifier::external_body]
pub(crate) fn push_char(s: &mut String, c: char)
    ensures
        final(s)@ == old(s)@.push(c),
{
    s.push(c);
}

/// The decimal digit for `d` (`0 <= d < 10`).
pub open spec fn digit_char(d: int) -> char {
    if d == 0 {
        '0'
    } else if d == 1 {
        '1'
    } else if d == 2 {
        '2'
    } else if d == 3 {
        '3'
    } else if d == 4 {
        '4'
    } else if d == 5 {
        '5'
    } else if d == 6 {
        '6'
    } else if d == 7 {
        '7'
    } else if d == 8 {
        '8'
    } else {
        '9'
    }
}

/// The decimal rendering of a natural number, as `Display` prints it.
pub open spec fn decimal(n: nat) -> Seq<char>
    decreases n,
{
    if n < 10 {
        seq![digit_char(n as int)]
    } else {
        decimal(n / 10).push(digit_char((n % 10) as int))
    }
}

fn digit(d: u64) -> (c: char)
    requires
        d < 10,
    ensures
        c == digit_char(d as int),
{
    match d {
        0 => '0',
        1 => '1',
        2 => '2',
        3 => '3',
        4 => '4',
        5 => '5',
        6 => '6',
        7 => '7',
        8 => '8',
        _ => '9',
    }
}

/// Appends the decimal rendering of `n`.
pub fn push_decimal(s: &mut String, n: u64)
    ensures
        final(s)@ == old(s)@ + decimal(n as nat),
    decreases n,
{
    if n >= 10 {
        push_decimal(s, n / 10);
    }
    push_char(s, digit(n % 10));
}

/// The decimal rendering of `n` as a new string.
pub fn decimal_string(n: u64) -> (r: String)
    ensures
        r@ == decimal(n as nat),
{
    let mut s = String::new();
    push_decimal(&mut s, n);
    s
}

/// `n` spaces.
pub open spec fn spaces(n: nat) -> Seq<char> {
    Seq::new(n, |i: int| ' ')
}

/// `s` followed by spaces up to width `w` (`{:<w}` / `{:w}` for strings).
pub open spec fn pad_right(s: Seq<char>, w: nat) -> Seq<char> {
    if s.len() < w {
        s + spaces((w - s.len()) as nat)
    } else {
        s
    }
}

/// Spaces up to width `w`, then `s` (`{:>w}`).
pub open spec fn pad_left(s: Seq<char>, w: nat) -> Seq<char> {
    if s.len() < w {
        spaces((w - s.len()) as nat) + s
    } else {
        s
    }
}

/// Appends `n` spaces.
pub fn push_spaces(s: &mut String, n: usize)
    ensures
        final(s)@ == old(s)@ + spaces(n as nat),
{
    let ghost start = s@;
    let mut i: usize = 0;
    while i < n
        invariant
            i <= n,
            s@ == start + spaces(i as nat),
        decreases n - i,
    {
        push_char(s, ' ');
        i = i + 1;
        assert(s@ =~= start + spaces(i as nat));
    }
}

/// Appends `t` padded on the right with spaces to width `w`.
pub fn push_padded_right(s: &mut String, t: &str, w: usize)
    ensures
        final(s)@ == old(s)@ + pad_right(t@, w as nat),
{
    let n = chars_of(t).len();
    s.append(t);
    if n < w {
        push_spaces(s, w - n);
    }
    proof {
        if t@.len() < w {
            assert(old(s)@ + t@ + spaces((w - t@.len()) as nat) =~= old(s)@ + pad_right(t@, w as nat));
        }
    }
}

/// The characters of `s` with every tab replaced by four spaces.
pub open spec fn expand_tabs(s: Seq<char>) -> Seq<char>
    decreases s.len(),
{
    if s.len() == 0 {
        seq![]
    } else {
        expand_tabs(s.drop_last()) + (if s.last() == '\t' {
            seq![' ', ' ', ' ', ' ']
        } else {
            seq![s.last()]
        })
    }
}

/// Appends `t` with its tabs expanded (`str::replace('\t', "    ")`).
pub fn push_expanded_tabs(s: &mut String, t: &str)
    ensures
        final(s)@ == old(s)@ + expand_tabs(t@),
{
    let ghost start = s@;
    for c in it: t.chars()
        invariant
            it.seq() == t@,
            s@ == start + expand_tabs(t@.take(it.index() as int)),
    {
        assert(t@.take(it.index() + 1).drop_last() == t@.take(it.index() as int));
        if c == '\t' {
            push_char(s, ' ');
            push_char(s, ' ');
            push_char(s, ' ');
            push_char(s, ' ');
        } else {
            push_char(s, c);
        }
        assert(s@ =~= start + expand_tabs(t@.take(it.index() + 1)));
    }
    assert(t@.take(t@.len() as int) == t@);
}

/// The characters of `s`, as a vector.
pub fn chars_of(s: &str) -> (v: Vec<char>)
    ensures
        v@ == s@,
{
    let mut v: Vec<char> = Vec::new();
    for c in it: s.chars()
        invariant
            it.seq() == s@,
            v@ == s@.take(it.index() as int),
    {
        v.push(c);
        assert(v@ =~= s@.take(it.index() + 1));
    }
    assert(s@.take(s@.len() as int) == s@);
    v
}

/// The string made of `v[start..end]`.
pub fn string_from_range(v: &Vec<char>, start: usize, end: usize) -> (s: String)
    requires
        start <= end <= v@.len(),
    ensures
        s@ == v@.subrange(start as int, end as int),
{
    let mut s = String::new();
    let mut i = start;
    while i < end
        invariant
            start <= i <= end <= v@.len(),
            s@ == v@.subrange(start as int, i as int),
        decreases end - i,
    {
        push_char(&mut s, v[i]);
        i = i + 1;
        assert(s@ =~= v@.subrange(start as int, i as int));
    }
    s
}

/// Rust's `char::is_whitespace`: the Unicode `White_Space` property.
pub open spec fn is_whitespace(c: char) -> bool {
    ||| ('\u{9}' <= c && c <= '\u{d}')
    ||| c == ' '
    ||| c == '\u{85}'
    ||| c == '\u{a0}'
    ||| c == '\u{1680}'
    ||| ('\u{2000}' <= c && c <= '\u{200a}')
    ||| c == '\u{2028}'
    ||| c == '\u{2029}'
    ||| c == '\u{202f}'
    ||| c == '\u{205f}'
    ||| c == '\u{3000}'
}

pub fn is_whitespace_char(c: char) -> (b: bool)
    ensures
        b == is_whitespace(c),
{
    ('\u{9}' <= c && c <= '\u{d}') || c == ' ' || c == '\u{85}' || c == '\u{a0}' || c
        == '\u{1680}' || ('\u{2000}' <= c && c <= '\u{200a}') || c == '\u{2028}' || c
        == '\u{2029}' || c == '\u{202f}' || c == '\u{205f}' || c == '\u{3000}'
}

/// The number of leading whitespace characters of `s`.
pub open spec fn leading_ws(s: Seq<char>) -> nat
    decreases s.len(),
{
    if s.len() > 0 && is_whitespace(s[0]) {
        1 + leading_ws(s.drop_first())
    } else {
        0
    }
}

/// The number of trailing whitespace characters of `s`.
pub open spec fn trailing_ws(s: Seq<char>) -> nat
    decreases s.len(),
{
    if s.len() > 0 && is_whitespace(s.last()) {
        1 + trailing_ws(s.drop_last())
    } else {
        0
    }
}

/// `str::trim_end`.
pub open spec fn trim_end(s: Seq<char>) -> Seq<char> {
    s.take(s.len() - trailing_ws(s))
}

/// `str::trim_start`.
pub open spec fn trim_start(s: Seq<char>) -> Seq<char> {
    s.skip(leading_ws(s) as int)
}

/// `str::trim`: leading and trailing whitespace removed.
pub open spec fn trim(s: Seq<char>) -> Seq<char> {
    trim_end(trim_start(s))
}

pub proof fn lemma_leading_ws_bound(s: Seq<char>)
    ensures
        leading_ws(s) <= s.len(),
        forall|i: int| 0 <= i < leading_ws(s) ==> is_whitespace(#[trigger] s[i]),
        leading_ws(s) < s.len() ==> !is_whitespace(s[leading_ws(s) as int]),
    decreases s.len(),
{
    if s.len() > 0 && is_whitespace(s[0]) {
        lemma_leading_ws_bound(s.drop_first());
        assert forall|i: int| 0 <= i < leading_ws(s) implies is_whitespace(#[trigger] s[i]) by {
            if i > 0 {
                assert(s[i] == s.drop_first()[i - 1]);
            }
        }
    }
}

pub proof fn lemma_trailing_ws_bound(s: Seq<char>)
    ensures
        trailing_ws(s) <= s.len(),
        forall|i: int| s.len() - trailing_ws(s) <= i < s.len() ==> is_whitespace(#[trigger] s[i]),
        trailing_ws(s) < s.len() ==> !is_whitespace(s[s.len() - trailing_ws(s) - 1]),
    decreases s.len(),
{
    if s.len() > 0 && is_whitespace(s.last()) {
        lemma_trailing_ws_bound(s.drop_last());
        assert forall|i: int|
            s.len() - trailing_ws(s) <= i < s.len() implies is_whitespace(#[trigger] s[i]) by {
            if i < s.len() - 1 {
                assert(s[i] == s.drop_last()[i]);
            }
        }
    }
}

/// The first index `i >= from` with a non-whitespace character, else `v.len()`.
fn skip_ws_forward(v: &Vec<char>) -> (i: usize)
    ensures
        i == leading_ws(v@),
{
    proof {
        lemma_leading_ws_bound(v@);
    }
    let mut i: usize = 0;
    while i < v.len() && is_whitespace_char(v[i])
        invariant
            i <= leading_ws(v@),
            leading_ws(v@) <= v@.len(),
            forall|j: int| 0 <= j < leading_ws(v@) ==> is_whitespace(#[trigger] v@[j]),
            leading_ws(v@) < v@.len() ==> !is_whitespace(v@[leading_ws(v@) as int]),
        decreases v@.len() - i,
    {
        i = i + 1;
    }
    i
}

proof fn lemma_trailing_ws_of_take(s: Seq<char>, k: nat)
    requires
        k <= s.len(),
        k > 0 ==> !is_whitespace(s[k - 1]),
        forall|i: int| k <= i < s.len() ==> is_whitespace(#[trigger] s[i]),
    ensures
        trailing_ws(s) == s.len() - k,
    decreases s.len(),
{
    if s.len() > k {
        lemma_trailing_ws_of_take(s.drop_last(), k);
    }
}

/// `str::trim` on a character vector, as a new string.
pub fn trimmed(v: &Vec<char>) -> (s: String)
    ensures
        s@ == trim(v@),
{
    let start = skip_ws_forward(v);
    let mut end = v.len();
    proof {
        lemma_leading_ws_bound(v@);
    }
    while end > start && is_whitespace_char(v[end - 1])
        invariant
            start <= end <= v@.len(),
            start == leading_ws(v@),
            forall|j: int| end <= j < v@.len() ==> is_whitespace(#[trigger] v@[j]),
        decreases end,
    {
        end = end - 1;
    }
    proof {
        let t = v@.skip(start as int);
        let k = (end - start) as nat;
        assert forall|i: int| k <= i < t.len() implies is_whitespace(#[trigger] t[i]) by {
            assert(t[i] == v@[i + start]);
        }
        if k > 0 {
            assert(t[k - 1] == v@[end - 1]);
        }
        lemma_trailing_ws_of_take(t, k);
        assert(trim(v@) =~= v@.subrange(start as int, end as int));
    }
    string_from_range(v, start, end)
}

/// `str::trim` on a string slice, as a new string.
pub fn trim_str(s: &str) -> (r: String)
    ensures
        r@ == trim(s@),
{
    let v = chars_of(s);
    trimmed(&v)
}

/// Whether `s` has no character that is not whitespace (`s.trim().is_empty()`).
pub fn is_blank(s: &str) -> (b: bool)
    ensures
        b == (trim(s@).len() == 0),
{
    let t = trim_str(s);
    t.as_str().is_empty()
}

/// The elements of `parts` joined by `sep`.
pub open spec fn join(parts: Seq<Seq<char>>, sep: Seq<char>) -> Seq<char>
    decreases parts.len(),
{
    if parts.len() == 0 {
        seq![]
    } else if parts.len() == 1 {
        parts[0]
    } else {
        join(parts.drop_last(), sep) + sep + parts.last()
    }
}

/// `pat` occurs in `s` starting at index `i`.
pub open spec fn matches_at(s: Seq<char>, i: int, pat: Seq<char>) -> bool {
    &&& 0 <= i
    &&& i + pat.len() <= s.len()
    &&& s.subrange(i, i + pat.len()) == pat
}

/// `i` is the first index at which `pat` occurs in `s`.
pub open spec fn first_match_at(s: Seq<char>, pat: Seq<char>, i: int) -> bool {
    &&& matches_at(s, i, pat)
    &&& forall|j: int| 0 <= j < i ==> !matches_at(s, j, pat)
}

/// `str::find`: the first index at which `pat` occurs in `s`.
pub open spec fn find(s: Seq<char>, pat: Seq<char>) -> Option<int> {
    if exists|i: int| first_match_at(s, pat, i) {
        Some(choose|i: int| first_match_at(s, pat, i))
    } else {
        None
    }
}

/// A pattern occurs at a first index exactly when it occurs at all.
pub proof fn lemma_find(s: Seq<char>, pat: Seq<char>)
    ensures
        find(s, pat) is None <==> forall|i: int| !matches_at(s, i, pat),
        find(s, pat) matches Some(i) ==> first_match_at(s, pat, i),
        forall|i: int| #[trigger] first_match_at(s, pat, i) ==> find(s, pat) == Some(i),
{
    if exists|i: int| matches_at(s, i, pat) {
        let k = choose|i: int| matches_at(s, i, pat);
        lemma_first_match_exists(s, pat, k);
    }
    assert forall|i: int| #[trigger] first_match_at(s, pat, i) implies find(s, pat) == Some(i) by {
        let c = choose|i: int| first_match_at(s, pat, i);
        assert(first_match_at(s, pat, c));
        if c < i {
        } else if i < c {
        }
    }
}

proof fn lemma_first_match_exists(s: Seq<char>, pat: Seq<char>, k: int)
    requires
        matches_at(s, k, pat),
    ensures
        exists|i: int| first_match_at(s, pat, i),
    decreases k,
{
    if forall|j: int| 0 <= j < k ==> !matches_at(s, j, pat) {
        assert(first_match_at(s, pat, k));
    } else {
        let j = choose|j: int| 0 <= j < k && matches_at(s, j, pat);
        lemma_first_match_exists(s, pat, j);
    }
}

/// Whether `pat` occurs in `v` at index `i` (`i <= v.len()`).
fn matches_here(v: &Vec<char>, i: usize, pat: &Vec<char>) -> (b: bool)
    requires
        i <= v@.len(),
    ensures
        b == matches_at(v@, i as int, pat@),
{
    if pat.len() > v.len() - i {
        return false;
    }
    let mut k: usize = 0;
    while k < pat.len()
        invariant
            i <= v@.len() <= usize::MAX,
            i + pat@.len() <= v@.len(),
            k <= pat@.len(),
            forall|j: int| 0 <= j < k ==> v@[i + j] == pat@[j],
        decreases pat@.len() - k,
    {
        if v[i + k] != pat[k] {
            assert(v@.subrange(i as int, i + pat@.len())[k as int] != pat@[k as int]);
            return false;
        }
        k = k + 1;
    }
    assert(v@.subrange(i as int, i + pat@.len()) =~= pat@);
    true
}

/// The first index at which `pat` occurs in `v`.
pub fn find_in(v: &Vec<char>, pat: &Vec<char>) -> (r: Option<usize>)
    ensures
        match r {
            Some(i) => find(v@, pat@) == Some(i as int),
            None => find(v@, pat@) is None,
        },
{
    proof {
        lemma_find(v@, pat@);
    }
    let mut i: usize = 0;
    while i < v.len()
        invariant
            i <= v@.len(),
            forall|j: int| 0 <= j < i ==> !matches_at(v@, j, pat@),
        decreases v@.len() - i,
    {
        if matches_here(v, i, pat) {
            assert(first_match_at(v@, pat@, i as int));
            return Some(i);
        }
        i = i + 1;
    }
    if matches_here(v, i, pat) {
        assert(first_match_at(v@, pat@, i as int));
        return Some(i);
    }
    None
}

/// `s` with every trailing occurrence of `pat` removed (`str::trim_end_matches`).
pub open spec fn strip_suffixes(s: Seq<char>, pat: Seq<char>) -> Seq<char>
    decreases s.len(),
{
    if pat.len() > 0 && pat.len() <= s.len() && s.skip(s.len() - pat.len()) == pat {
        strip_suffixes(s.take(s.len() - pat.len()), pat)
    } else {
        s
    }
}

/// The length of `v[..end]` once every trailing occurrence of `pat` is removed.
pub fn strip_suffixes_len(v: &Vec<char>, end: usize, pat: &Vec<char>) -> (n: usize)
    requires
        end <= v@.len(),
    ensures
        n <= end,
        v@.take(n as int) == strip_suffixes(v@.take(end as int), pat@),
{
    let mut n = end;
    while pat.len() > 0 && pat.len() <= n && matches_here(v, n - pat.len(), pat)
        invariant
            n <= end <= v@.len(),
            strip_suffixes(v@.take(n as int), pat@) == strip_suffixes(v@.take(end as int), pat@),
        decreases n,
    {
        let ghost t = v@.take(n as int);
        assert(t.skip(t.len() - pat@.len()) =~= v@.subrange(n - pat@.len(), n as int));
        assert(t.take(t.len() - pat@.len()) =~= v@.take(n - pat@.len()));
        n = n - pat.len();
    }
    proof {
        let t = v@.take(n as int);
        if pat@.len() > 0 && pat@.len() <= n {
            assert(t.skip(t.len() - pat@.len()) =~= v@.subrange(n - pat@.len(), n as int));
        }
    }
    n
}

/// Splitting `s` at every `sep`, the segments done and the one in progress.
pub open spec fn split_state(s: Seq<char>, sep: char) -> (Seq<Seq<char>>, Seq<char>)
    decreases s.len(),
{
    if s.len() == 0 {
        (seq![], seq![])
    } else {
        let (done, cur) = split_state(s.drop_last(), sep);
        if s.last() == sep {
            (if cur.len() > 0 {
                done.push(cur)
            } else {
                done
            }, seq![])
        } else {
            (done, cur.push(s.last()))
        }
    }
}

/// The non-empty pieces of `s` between occurrences of `sep`, in order
/// (`s.split(sep).filter(|p| !p.is_empty())`).
pub open spec fn nonempty_segments(s: Seq<char>, sep: char) -> Seq<Seq<char>> {
    let (done, cur) = split_state(s, sep);
    if cur.len() > 0 {
        done.push(cur)
    } else {
        done
    }
}

/// Appending text that holds no character of `pat` leaves where `pat` first
/// occurs as it is.
pub proof fn lemma_find_append(s: Seq<char>, t: Seq<char>, pat: Seq<char>)
    requires
        pat.len() > 0,
        forall|k: int| 0 <= k < t.len() ==> !pat.contains(#[trigger] t[k]),
    ensures
        find(s + t, pat) == find(s, pat),
{
    lemma_find(s, pat);
    lemma_find(s + t, pat);
    assert forall|i: int|
        #![trigger matches_at(s + t, i, pat)]
        #![trigger matches_at(s, i, pat)]
        matches_at(s + t, i, pat) == matches_at(s, i, pat) by {
        if 0 <= i && i + pat.len() <= s.len() {
            assert((s + t).subrange(i, i + pat.len()) =~= s.subrange(i, i + pat.len()));
        } else if matches_at(s + t, i, pat) {
            let m = if i < s.len() { s.len() as int } else { i };
            assert((s + t).subrange(i, i + pat.len())[m - i] == (s + t)[m]);
            assert((s + t)[m] == t[m - s.len()]);
            assert(pat[m - i] == t[m - s.len()]);
            assert(pat.contains(t[m - s.len()]));
        }
    }
    match find(s, pat) {
        Some(i) => {
            assert(first_match_at(s, pat, i));
            assert(first_match_at(s + t, pat, i));
        },
        None => {
            assert forall|i: int| !matches_at(s + t, i, pat) by {
                assert(!matches_at(s, i, pat));
            }
        },
    }
}

/// The pieces between separators are never empty and hold no separator.
pub proof fn lemma_nonempty_segments(s: Seq<char>, sep: char)
    ensures
        forall|k: int|
            0 <= k < nonempty_segments(s, sep).len() ==> (#[trigger] nonempty_segments(s, sep)[k]).len()
                > 0 && !nonempty_segments(s, sep)[k].contains(sep),
{
    lemma_split_state(s, sep);
    let (done, cur) = split_state(s, sep);
    if cur.len() > 0 {
        assert forall|k: int| 0 <= k < done.push(cur).len() implies (#[trigger] done.push(cur)[k]).len()
            > 0 && !done.push(cur)[k].contains(sep) by {
            if k < done.len() {
                assert(done.push(cur)[k] == done[k]);
            }
        }
    }
}

proof fn lemma_split_state(s: Seq<char>, sep: char)
    ensures
        forall|k: int|
            0 <= k < split_state(s, sep).0.len() ==> (#[trigger] split_state(s, sep).0[k]).len() > 0
                && !split_state(s, sep).0[k].contains(sep),
        !split_state(s, sep).1.contains(sep),
    decreases s.len(),
{
    if s.len() > 0 {
        lemma_split_state(s.drop_last(), sep);
        let (done, cur) = split_state(s.drop_last(), sep);
        if s.last() == sep {
            if cur.len() > 0 {
                assert forall|k: int| 0 <= k < done.push(cur).len() implies (
                #[trigger] done.push(cur)[k]).len() > 0 && !done.push(cur)[k].contains(sep) by {
                    if k < done.len() {
                        assert(done.push(cur)[k] == done[k]);
                    }
                }
            }
            assert(!Seq::<char>::empty().contains(sep));
        } else {
            assert forall|j: int| 0 <= j < cur.push(s.last()).len() implies cur.push(s.last())[j]
                != sep by {
                if j < cur.len() {
                    assert(cur.push(s.last())[j] == cur[j]);
                }
            }
        }
    }
}

/// The non-empty pieces of `v[start..end]` between occurrences of `sep`.
pub fn segments_of(v: &Vec<char>, start: usize, end: usize, sep: char) -> (r: Vec<Vec<char>>)
    requires
        start <= end <= v@.len(),
    ensures
        r@.map_values(|p: Vec<char>| p@) == nonempty_segments(v@.subrange(start as int, end as int), sep),
{
    let mut done: Vec<Vec<char>> = Vec::new();
    let mut cur: Vec<char> = Vec::new();
    let mut i = start;
    while i < end
        invariant
            start <= i <= end <= v@.len(),
            (done@.map_values(|p: Vec<char>| p@), cur@) == split_state(v@.subrange(start as int, i as int), sep),
        decreases end - i,
    {
        let ghost sub = v@.subrange(start as int, i + 1);
        assert(sub.drop_last() =~= v@.subrange(start as int, i as int));
        let c = v[i];
        if c == sep {
            if cur.len() > 0 {
                let finished = cur;
                done.push(finished);
                cur = Vec::new();
            }
        } else {
            cur.push(c);
        }
        i = i + 1;
        proof {
            assert(done@.map_values(|p: Vec<char>| p@) =~= split_state(sub, sep).0);
            assert(cur@ =~= split_state(sub, sep).1);
        }
    }
    if cur.len() > 0 {
        done.push(cur);
    }
    proof {
        assert(done@.map_values(|p: Vec<char>| p@) =~= nonempty_segments(v@.subrange(start as int, end as int), sep));
    }
    done
}

/// The string made of the characters of `v`.
pub fn string_of(v: &Vec<char>) -> (s: String)
    ensures
        s@ == v@,
{
    string_from_range(v, 0, v.len())
}

/// Whether two strings hold the same characters.
pub fn same_text(a: &str, b: &str) -> (r: bool)
    ensures
        r == (a@ == b@),
{
    let x = chars_of(a);
    let y = chars_of(b);
    if x.len() != y.len() {
        return false;
    }
    let mut i: usize = 0;
    while i < x.len()
        invariant
            x@ == a@,
            y@ == b@,
            x@.len() == y@.len(),
            i <= x@.len(),
            forall|j: int| 0 <= j < i ==> x@[j] == y@[j],
        decreases x@.len() - i,
    {
        if x[i] != y[i] {
            assert(x@[i as int] != y@[i as int]);
            return false;
        }
        i = i + 1;
    }
    assert(x@ =~= y@);
    true
}

/// `s` with every non-overlapping occurrence of `pat`, left to right,
/// replaced by `rep` (`str::replace`).
pub open spec fn replace_all(s: Seq<char>, pat: Seq<char>, rep: Seq<char>) -> Seq<char>
    decreases s.len(),
{
    if s.len() == 0 {
        seq![]
    } else if pat.len() > 0 && matches_at(s, 0, pat) {
        rep + replace_all(s.skip(pat.len() as int), pat, rep)
    } else {
        seq![s[0]] + replace_all(s.drop_first(), pat, rep)
    }
}

/// See [`replace_all`].
pub fn replace_str(s: &str, pat: &str, rep: &str) -> (r: String)
    ensures
        r@ == replace_all(s@, pat@, rep@),
{
    let v = chars_of(s);
    let p = chars_of(pat);
    let mut out = String::new();
    let mut i: usize = 0;
    assert(v@.skip(0) =~= v@);
    while i < v.len()
        invariant
            v@ == s@,
            p@ == pat@,
            i <= v@.len(),
            out@ + replace_all(v@.skip(i as int), p@, rep@) == replace_all(v@, p@, rep@),
        decreases v@.len() - i,
    {
        let ghost rest = v@.skip(i as int);
        if p.len() > 0 && matches_here(&v, i, &p) {
            assert(rest.subrange(0, p@.len() as int) =~= v@.subrange(i as int, i + p@.len()));
            assert(rest.skip(p@.len() as int) =~= v@.skip(i + p@.len()));
            out.append(rep);
            i = i + p.len();
        } else {
            proof {
                if p@.len() > 0 && matches_at(rest, 0, p@) {
                    assert(rest.subrange(0, p@.len() as int) =~= v@.subrange(i as int, i + p@.len()));
                }
            }
            assert(rest.drop_first() =~= v@.skip(i + 1));
            assert(rest[0] == v@[i as int]);
            push_char(&mut out, v[i]);
            i = i + 1;
        }
    }
    assert(v@.skip(i as int).len() == 0);
    out
}

/// Lexicographic order by code point: the order of `String`'s `Ord`
/// (UTF-8 preserves the code point order byte by byte).
pub open spec fn lex_lt(a: Seq<char>, b: Seq<char>) -> bool
    decreases a.len(),
{
    if a.len() == 0 {
        b.len() > 0
    } else if b.len() == 0 {
        false
    } else if a[0] != b[0] {
        (a[0] as u32) < (b[0] as u32)
    } else {
        lex_lt(a.drop_first(), b.drop_first())
    }
}

pub proof fn lemma_lex_irreflexive(a: Seq<char>)
    ensures
        !lex_lt(a, a),
    decreases a.len(),
{
    if a.len() > 0 {
        lemma_lex_irreflexive(a.drop_first());
    }
}

pub proof fn lemma_lex_total(a: Seq<char>, b: Seq<char>)
    ensures
        a == b || lex_lt(a, b) || lex_lt(b, a),
        !(lex_lt(a, b) && lex_lt(b, a)),
    decreases a.len(),
{
    if a.len() > 0 && b.len() > 0 {
        if a[0] == b[0] {
            lemma_lex_total(a.drop_first(), b.drop_first());
            if a.drop_first() == b.drop_first() {
                assert(a =~= seq![a[0]] + a.drop_first());
                assert(b =~= seq![b[0]] + b.drop_first());
            }
        } else {
            vstd::utf8::char_u32_cast(a[0], a[0] as u32);
            vstd::utf8::char_u32_cast(b[0], b[0] as u32);
        }
    } else if a.len() == 0 && b.len() == 0 {
        assert(a =~= b);
    }
}

pub proof fn lemma_lex_transitive(a: Seq<char>, b: Seq<char>, c: Seq<char>)
    requires
        lex_lt(a, b),
        lex_lt(b, c),
    ensures
        lex_lt(a, c),
    decreases a.len(),
{
    if a.len() > 0 && b.len() > 0 && c.len() > 0 {
        if a[0] == b[0] && b[0] == c[0] {
            lemma_lex_transitive(a.drop_first(), b.drop_first(), c.drop_first());
        }
    }
}

/// Whether `a` comes before `b` (see [`lex_lt`]).
pub fn lex_less(a: &Vec<char>, b: &Vec<char>) -> (r: bool)
    ensures
        r == lex_lt(a@, b@),
{
    let mut i: usize = 0;
    assert(a@.skip(0) =~= a@);
    assert(b@.skip(0) =~= b@);
    while i < a.len() && i < b.len() && a[i] == b[i]
        invariant
            i <= a@.len(),
            i <= b@.len(),
            lex_lt(a@, b@) == lex_lt(a@.skip(i as int), b@.skip(i as int)),
        decreases a@.len() - i,
    {
        proof {
            let x = a@.skip(i as int);
            let y = b@.skip(i as int);
            assert(x.drop_first() =~= a@.skip(i + 1));
            assert(y.drop_first() =~= b@.skip(i + 1));
        }
        i = i + 1;
    }
    proof {
        let x = a@.skip(i as int);
        let y = b@.skip(i as int);
        if i < a@.len() && i < b@.len() {
            assert(x[0] == a@[i as int]);
            assert(y[0] == b@[i as int]);
        }
    }
    if i == a.len() {
        i < b.len()
    } else if i == b.len() {
        false
    } else {
        (a[i] as u32) < (b[i] as u32)
    }
}

/// `s` without a final carriage return.
pub open spec fn strip_cr(s: Seq<char>) -> Seq<char> {
    if s.len() > 0 && s.last() == '\r' {
        s.drop_last()
    } else {
        s
    }
}

/// Reading `s` line by line: the lines ended so far (without their `\n`
/// and a `\r` before it) and the line in progress.
pub open spec fn line_state(s: Seq<char>) -> (Seq<Seq<char>>, Seq<char>)
    decreases s.len(),
{
    if s.len() == 0 {
        (seq![], seq![])
    } else {
        let (done, cur) = line_state(s.drop_last());
        if s.last() == '\n' {
            (done.push(strip_cr(cur)), seq![])
        } else {
            (done, cur.push(s.last()))
        }
    }
}

/// `str::lines`: the lines of `s`; a final line needs no `\n`.
pub open spec fn lines(s: Seq<char>) -> Seq<Seq<char>> {
    let (done, cur) = line_state(s);
    if cur.len() > 0 {
        done.push(cur)
    } else {
        done
    }
}

/// See [`lines`].
pub fn lines_of(s: &str) -> (r: Vec<Vec<char>>)
    ensures
        r@.map_values(|l: Vec<char>| l@) == lines(s@),
{
    let v = chars_of(s);
    let mut done: Vec<Vec<char>> = Vec::new();
    let mut cur: Vec<char> = Vec::new();
    let mut i: usize = 0;
    while i < v.len()
        invariant
            v@ == s@,
            i <= v@.len(),
            (done@.map_values(|l: Vec<char>| l@), cur@) == line_state(v@.take(i as int)),
        decreases v@.len() - i,
    {
        assert(v@.take(i + 1).drop_last() =~= v@.take(i as int));
        if v[i] == '\n' {
            let n = cur.len();
            if n > 0 && cur[n - 1] == '\r' {
                cur.pop();
            }
            let finished = cur;
            done.push(finished);
            cur = Vec::new();
        } else {
            cur.push(v[i]);
        }
        i = i + 1;
        proof {
            assert(done@.map_values(|l: Vec<char>| l@) =~= line_state(v@.take(i as int)).0);
            assert(cur@ =~= line_state(v@.take(i as int)).1);
        }
    }
    assert(v@.take(v@.len() as int) =~= v@);
    if cur.len() > 0 {
        done.push(cur);
    }
    assert(done@.map_values(|l: Vec<char>| l@) =~= lines(s@));
    done
}

/// The views of a list of character vectors.
pub open spec fn char_views(v: Seq<Vec<char>>) -> Seq<Seq<char>> {
    v.map_values(|l: Vec<char>| l@)
}

/// `parts[from..to]` joined by `/`.
pub fn join_slash(parts: &Vec<Vec<char>>, from: usize, to: usize) -> (s: String)
    requires
        from <= to <= parts@.len(),
    ensures
        s@ == join(char_views(parts@).subrange(from as int, to as int), "/"@),
{
    let mut s = String::new();
    let mut i = from;
    assert(char_views(parts@).subrange(from as int, from as int) =~= Seq::<Seq<char>>::empty());
    while i < to
        invariant
            from <= i <= to <= parts@.len(),
            s@ == join(char_views(parts@).subrange(from as int, i as int), "/"@),
        decreases to - i,
    {
        let ghost prev = char_views(parts@).subrange(from as int, i as int);
        if i > from {
            s.append("/");
        }
        let piece = string_of(&parts[i]);
        s.append(piece.as_str());
        i = i + 1;
        proof {
            let cur = char_views(parts@).subrange(from as int, i as int);
            assert(cur.drop_last() =~= prev);
            assert(cur.last() == parts@[i - 1]@);
            if i - 1 == from {
                assert(cur.len() == 1);
                assert(s@ =~= cur[0]);
            }
        }
    }
    s
}

} // verus!
