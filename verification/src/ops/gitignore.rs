//! Ignoring files: the patterns offered for untracked files, the default
//! one for the file under the cursor, and the text appended to an ignore
//! file.
use vstd::prelude::*;

use super::{strings, str_views, views, GitCommand, Op};
use crate::diff::Status;
use crate::error::Error;
use crate::item_data::ItemData;
use crate::path::{
    components, extension, is_absolute, parent, path_components, path_extension, path_parent,
    path_strip_prefix, strip_prefix,
};
use crate::sorted::{insert_sorted, lemma_sorted_no_duplicates, strictly_sorted};
use crate::text::{
    char_views, chars_of, lex_lt, lines, lines_of, push_char,
    replace_all, replace_str, string_of, strip_suffixes, strip_suffixes_len, trim,
};

verus! {

/// The file an item is about: the first untracked file of the untracked
/// section, an untracked file, or the file of a diff item.
pub open spec fn spec_current_file(target: ItemData) -> Option<Seq<char>> {
    match target {
        ItemData::AllUntracked(files) => if files@.len() > 0 {
            Some(files@[0]@)
        } else {
            None
        },
        ItemData::Untracked(path) => Some(path@),
        ItemData::Delta { diff, file_i, .. } => Some(diff.file_path(file_i as int)),
        ItemData::Hunk { diff, file_i, .. } => Some(diff.file_path(file_i as int)),
        ItemData::HunkLine { diff, file_i, .. } => Some(diff.file_path(file_i as int)),
        _ => None,
    }
}

pub fn current_file(target: &ItemData) -> (r: Option<String>)
    requires
        target.well_formed(),
    ensures
        match r {
            Some(s) => spec_current_file(*target) == Some(s@),
            None => spec_current_file(*target) is None,
        },
{
    match target {
        ItemData::AllUntracked(files) => if files.len() > 0 {
            Some(files[0].clone())
        } else {
            None
        },
        ItemData::Untracked(path) => Some(path.clone()),
        ItemData::Delta { diff, file_i, .. } => Some(diff.delta_path(*file_i)),
        ItemData::Hunk { diff, file_i, .. } => Some(diff.delta_path(*file_i)),
        ItemData::HunkLine { diff, file_i, .. } => Some(diff.delta_path(*file_i)),
        _ => None,
    }
}

/// The working directory, which a bare repository lacks.
pub fn workdir(dir: Option<String>) -> (r: Result<String, Error>)
    ensures
        dir is None ==> r matches Err(Error::NoRepoWorkdir),
        dir matches Some(w) ==> (r matches Ok(x) && x == w),
{
    match dir {
        Some(w) => Ok(w),
        None => Err(Error::NoRepoWorkdir),
    }
}

/// The directory offered when limiting a rule to a subdirectory: that of the
/// current file, or `.`.
pub open spec fn spec_directory_default(current_file: Option<Seq<char>>) -> Seq<char> {
    match current_file {
        Some(f) => match parent(f) {
            Some(d) => if d.len() > 0 {
                d
            } else {
                "."@
            },
            None => "."@,
        },
        None => "."@,
    }
}

pub fn directory_default(current_file: Option<&str>) -> (d: String)
    ensures
        d@ == spec_directory_default(
            match current_file {
                Some(f) => Some(f@),
                None => None,
            },
        ),
{
    match current_file {
        Some(f) => match path_parent(f) {
            Some(d) => if d.as_str().is_empty() {
                ".".to_owned()
            } else {
                d
            },
            None => ".".to_owned(),
        },
        None => ".".to_owned(),
    }
}

/// The pattern that ignores exactly the current file: `/` and its path,
/// relative to `directory` when one is given (none when the file is not
/// below it).
pub open spec fn spec_default_pattern(current_file: Option<Seq<char>>, directory: Option<Seq<char>>) -> Option<
    Seq<char>,
> {
    match current_file {
        None => None,
        Some(f) => match directory {
            None => Some("/"@ + f),
            Some(d) => match strip_prefix(f, d) {
                Some(rest) => Some("/"@ + rest),
                None => None,
            },
        },
    }
}

/// The view of an optional string slice.
pub open spec fn opt_str(o: Option<&str>) -> Option<Seq<char>> {
    match o {
        Some(s) => Some(s@),
        None => None,
    }
}

pub fn default_pattern(current_file: Option<&str>, directory: Option<&str>) -> (r: Option<String>)
    ensures
        match r {
            Some(s) => spec_default_pattern(opt_str(current_file), opt_str(directory)) == Some(s@),
            None => spec_default_pattern(opt_str(current_file), opt_str(directory)) is None,
        },
{
    let f = match current_file {
        Some(f) => f,
        None => return None,
    };
    let mut s = "/".to_owned();
    match directory {
        None => s.append(f),
        Some(d) => match path_strip_prefix(f, d) {
            Some(rest) => s.append(rest.as_str()),
            None => return None,
        },
    }
    Some(s)
}

/// The files `git ls-files` listed (one per line of `stdout`), relative to
/// `directory` when one other than `.` is given: lines below it, with the
/// directory and its `/` removed; other lines are dropped.
pub open spec fn spec_listed_files(stdout: Seq<char>, directory: Option<Seq<char>>) -> Seq<Seq<char>> {
    match directory {
        Some(d) => if is_dot(d) {
            lines(stdout)
        } else {
            below(lines(stdout), strip_suffixes(d, "/"@) + "/"@)
        },
        None => lines(stdout),
    }
}

/// Whether a directory is `.` (component-wise, as `Path` compares).
pub open spec fn is_dot(d: Seq<char>) -> bool {
    &&& !is_absolute(d)
    &&& components(d) == seq!["."@]
}

/// The lines that start with `prefix`, with it removed.
pub open spec fn below(lines: Seq<Seq<char>>, prefix: Seq<char>) -> Seq<Seq<char>>
    decreases lines.len(),
{
    if lines.len() == 0 {
        seq![]
    } else {
        let rest = below(lines.drop_last(), prefix);
        let l = lines.last();
        if prefix.len() <= l.len() && l.take(prefix.len() as int) == prefix {
            rest.push(l.skip(prefix.len() as int))
        } else {
            rest
        }
    }
}

fn dot_dir(d: &str) -> (b: bool)
    ensures
        b == is_dot(d@),
{
    let (abs, segs) = path_components(d);
    proof {
        reveal_strlit(".");
    }
    if abs || segs.len() != 1 {
        proof {
            if !abs && segs@.len() != 1 {
                assert(char_views(segs@).len() != 1);
            }
        }
        return false;
    }
    let one = &segs[0];
    let r = one.len() == 1 && one[0] == '.';
    proof {
        assert(char_views(segs@) =~= seq![one@]);
        if r {
            assert(one@ =~= "."@);
        }
        if seq![one@] == seq!["."@] {
            assert(seq![one@][0] == seq!["."@][0]);
        }
    }
    r
}

pub fn listed_files(stdout: &str, directory: Option<&str>) -> (r: Vec<String>)
    ensures
        views(r@) == spec_listed_files(stdout@, opt_str(directory)),
{
    let ls = lines_of(stdout);
    let prefix: Option<Vec<char>> = match directory {
        Some(d) => if dot_dir(d) {
            None
        } else {
            let v = chars_of(d);
            let slash = chars_of("/");
            let n = strip_suffixes_len(&v, v.len(), &slash);
            let mut p = crate::text::string_from_range(&v, 0, n);
            p.append("/");
            assert(v@.take(v@.len() as int) =~= v@);
            assert(v@.subrange(0, n as int) =~= v@.take(n as int));
            Some(chars_of(p.as_str()))
        },
        None => None,
    };
    let ghost want = spec_listed_files(stdout@, opt_str(directory));
    let mut out: Vec<String> = Vec::new();
    let mut i: usize = 0;
    while i < ls.len()
        invariant
            i <= ls@.len(),
            char_views(ls@) == lines(stdout@),
            match prefix {
                None => views(out@) == char_views(ls@).take(i as int),
                Some(p) => views(out@) == below(char_views(ls@).take(i as int), p@),
            },
            match prefix {
                None => want == lines(stdout@),
                Some(p) => want == below(lines(stdout@), p@),
            },
        decreases ls@.len() - i,
    {
        let line = &ls[i];
        let ghost before = views(out@);
        let ghost cur = char_views(ls@).take(i + 1);
        assert(cur.drop_last() =~= char_views(ls@).take(i as int));
        assert(cur.last() == line@);
        match &prefix {
            None => {
                out.push(string_of(line));
                assert(views(out@) =~= before.push(line@));
            },
            Some(p) => {
                if p.len() <= line.len() && starts_with(line, p) {
                    let rest = crate::text::string_from_range(line, p.len(), line.len());
                    out.push(rest);
                    assert(line@.subrange(p@.len() as int, line@.len() as int) =~= line@.skip(
                        p@.len() as int,
                    ));
                    assert(views(out@) =~= before.push(line@.skip(p@.len() as int)));
                }
            },
        }
        i = i + 1;
    }
    assert(char_views(ls@).take(ls@.len() as int) =~= char_views(ls@));
    out
}

/// Whether `v` starts with `p`.
fn starts_with(v: &Vec<char>, p: &Vec<char>) -> (b: bool)
    requires
        p@.len() <= v@.len(),
    ensures
        b == (v@.take(p@.len() as int) == p@),
{
    let mut i: usize = 0;
    while i < p.len()
        invariant
            p@.len() <= v@.len(),
            i <= p@.len(),
            forall|j: int| 0 <= j < i ==> v@[j] == p@[j],
        decreases p@.len() - i,
    {
        if v[i] != p[i] {
            assert(v@.take(p@.len() as int)[i as int] != p@[i as int]);
            return false;
        }
        i = i + 1;
    }
    assert(v@.take(p@.len() as int) =~= p@);
    true
}

/// The patterns a file adds to the choices: `*.ext` for its extension and
/// `dir/*.ext` when it is in a subdirectory.
pub open spec fn extension_patterns(f: Seq<char>) -> Seq<Seq<char>> {
    match extension(f) {
        Some(e) => seq!["*."@ + e] + match parent(f) {
            Some(p) => if p.len() > 0 {
                seq![p + "/*."@ + e]
            } else {
                seq![]
            },
            None => seq![],
        },
        None => seq![],
    }
}

/// Every pattern offered for untracked `files` and directories `dirs`: the
/// extension patterns of each file, and `/path` for each file and directory.
pub open spec fn candidate_patterns(files: Seq<Seq<char>>, dirs: Seq<Seq<char>>) -> Set<Seq<char>> {
    Set::new(
        |c: Seq<char>|
            (exists|i: int|
                #![trigger files[i]]
                0 <= i < files.len() && (extension_patterns(files[i]).contains(c) || c == "/"@
                    + files[i])) || (exists|j: int| #![trigger dirs[j]] 0 <= j < dirs.len() && c == "/"@ + dirs[j]),
    )
}

/// The extension patterns of a file (see [`extension_patterns`]).
fn file_extension_patterns(f: &str) -> (r: Vec<String>)
    ensures
        views(r@) == extension_patterns(f@),
{
    let mut r: Vec<String> = Vec::new();
    match path_extension(f) {
        Some(e) => {
            let mut star = "*.".to_owned();
            star.append(e.as_str());
            r.push(star);
            match path_parent(f) {
                Some(p) => if !p.as_str().is_empty() {
                    let mut s = p.clone();
                    s.append("/*.");
                    s.append(e.as_str());
                    r.push(s);
                },
                None => {},
            }
        },
        None => {},
    }
    assert(views(r@) =~= extension_patterns(f@));
    r
}

/// `v` with `d` moved to the front, and where `d` was.
fn move_to_front(v: &mut Vec<String>, d: &str) -> (r: Option<usize>)
    ensures
        match r {
            Some(k) => k < old(v)@.len() && old(v)@[k as int]@ == d@ && views(final(v)@) == seq![d@]
                + views(old(v)@).remove(k as int),
            None => !views(old(v)@).contains(d@) && final(v)@ == old(v)@,
        },
{
    let mut k: usize = 0;
    while k < v.len()
        invariant
            v@ == old(v)@,
            k <= v@.len(),
            forall|j: int| 0 <= j < k ==> v@[j]@ != d@,
        decreases v@.len() - k,
    {
        if crate::text::same_text(v[k].as_str(), d) {
            let ghost old_views = views(v@);
            let item = v.remove(k);
            v.insert(0, item);
            proof {
                assert(views(v@) =~= seq![d@] + old_views.remove(k as int));
            }
            return Some(k);
        }
        k = k + 1;
    }
    proof {
        if views(v@).contains(d@) {
            let j = choose|j: int| 0 <= j < views(v@).len() && views(v@)[j] == d@;
            assert(v@[j]@ == d@);
        }
    }
    None
}

/// The patterns offered to ignore: every candidate once, in order, with the
/// default pattern first when it is a candidate.
pub open spec fn choices_ok(r: Seq<Seq<char>>, candidates: Set<Seq<char>>, default: Option<Seq<char>>) -> bool {
    &&& r.to_set() == candidates
    &&& r.no_duplicates()
    &&& if default is Some && candidates.contains(default->0) {
        r.len() > 0 && r[0] == default->0 && strictly_sorted(r.drop_first())
    } else {
        strictly_sorted(r)
    }
}

/// The patterns offered for untracked `files` and directories `dirs` (as
/// `git ls-files` lists them), with the default for `current_file` in
/// `directory` first when it is among them.
pub fn pattern_choices(
    files: &Vec<String>,
    dirs: &Vec<String>,
    current_file: Option<&str>,
    directory: Option<&str>,
) -> (r: Vec<String>)
    ensures
        choices_ok(
            views(r@),
            candidate_patterns(views(files@), views(dirs@)),
            spec_default_pattern(opt_str(current_file), opt_str(directory)),
        ),
{
    let ghost fv = views(files@);
    let ghost dv = views(dirs@);
    let mut choices: Vec<String> = Vec::new();
    assert(views(choices@) =~= Seq::<Seq<char>>::empty());
    // Extension patterns first, then `/path` for files and directories.
    let mut i: usize = 0;
    while i < files.len()
        invariant
            i <= files@.len(),
            fv == views(files@),
            strictly_sorted(views(choices@)),
            views(choices@).to_set() == Set::new(
                |c: Seq<char>|
                    exists|k: int| 0 <= k < i && #[trigger] extension_patterns(fv[k]).contains(c),
            ),
        decreases files@.len() - i,
    {
        let pats = file_extension_patterns(files[i].as_str());
        let ghost before = views(choices@).to_set();
        let mut j: usize = 0;
        while j < pats.len()
            invariant
                j <= pats@.len(),
                strictly_sorted(views(choices@)),
                views(choices@).to_set() == before.union(views(pats@).take(j as int).to_set()),
            decreases pats@.len() - j,
        {
            insert_sorted(&mut choices, pats[j].clone());
            proof {
                assert(views(pats@).take(j + 1) =~= views(pats@).take(j as int).push(pats@[j as int]@));
                views(pats@).take(j as int).lemma_push_to_set_commute(pats@[j as int]@);
                assert(views(choices@).to_set() =~= before.union(views(pats@).take(j + 1).to_set()));
            }
            j = j + 1;
        }
        proof {
            assert(views(pats@).take(pats@.len() as int) =~= views(pats@));
            assert(views(choices@).to_set() =~= Set::new(
                |c: Seq<char>|
                    exists|k: int| 0 <= k < i + 1 && #[trigger] extension_patterns(fv[k]).contains(c),
            )) by {
                assert forall|c: Seq<char>| views(choices@).to_set().contains(c) implies (exists|k: int|
                    0 <= k < i + 1 && #[trigger] extension_patterns(fv[k]).contains(c)) by {
                    if !before.contains(c) {
                        assert(views(pats@).to_set().contains(c));
                        assert(extension_patterns(fv[i as int]).contains(c));
                    }
                }
                assert forall|c: Seq<char>| (exists|k: int|
                    0 <= k < i + 1 && #[trigger] extension_patterns(fv[k]).contains(c)) implies views(
                    choices@,
                ).to_set().contains(c) by {
                    let k = choose|k: int| 0 <= k < i + 1 && #[trigger] extension_patterns(fv[k]).contains(c);
                    if k == i {
                        assert(views(pats@).contains(c));
                        assert(views(pats@).to_set().contains(c));
                    } else {
                        assert(before.contains(c));
                    }
                }
            }
        }
        i = i + 1;
    }
    let ghost ext_set = views(choices@).to_set();
    let mut i: usize = 0;
    while i < files.len()
        invariant
            i <= files@.len(),
            fv == views(files@),
            strictly_sorted(views(choices@)),
            views(choices@).to_set() == ext_set.union(
                Set::new(|c: Seq<char>| exists|k: int| 0 <= k < i && c == "/"@ + #[trigger] fv[k]),
            ),
        decreases files@.len() - i,
    {
        let mut s = "/".to_owned();
        s.append(files[i].as_str());
        let ghost sv = s@;
        insert_sorted(&mut choices, s);
        proof {
            assert(views(choices@).to_set() =~= ext_set.union(
                Set::new(|c: Seq<char>| exists|k: int| 0 <= k < i + 1 && c == "/"@ + #[trigger] fv[k]),
            )) by {
                assert(sv == "/"@ + fv[i as int]);
            }
        }
        i = i + 1;
    }
    let ghost file_set = views(choices@).to_set();
    let mut i: usize = 0;
    while i < dirs.len()
        invariant
            i <= dirs@.len(),
            dv == views(dirs@),
            strictly_sorted(views(choices@)),
            views(choices@).to_set() == file_set.union(
                Set::new(|c: Seq<char>| exists|k: int| 0 <= k < i && c == "/"@ + #[trigger] dv[k]),
            ),
        decreases dirs@.len() - i,
    {
        let mut s = "/".to_owned();
        s.append(dirs[i].as_str());
        let ghost sv = s@;
        insert_sorted(&mut choices, s);
        proof {
            assert(views(choices@).to_set() =~= file_set.union(
                Set::new(|c: Seq<char>| exists|k: int| 0 <= k < i + 1 && c == "/"@ + #[trigger] dv[k]),
            )) by {
                assert(sv == "/"@ + dv[i as int]);
            }
        }
        i = i + 1;
    }
    proof {
        let cands = candidate_patterns(fv, dv);
        assert forall|c: Seq<char>| cands.contains(c) implies views(choices@).to_set().contains(c) by {
            if exists|k: int| #![trigger fv[k]] 0 <= k < fv.len() && (extension_patterns(fv[k]).contains(c)
                || c == "/"@ + fv[k]) {
                let k = choose|k: int| #![trigger fv[k]] 0 <= k < fv.len() && (extension_patterns(fv[k]).contains(c)
                    || c == "/"@ + fv[k]);
                if extension_patterns(fv[k]).contains(c) {
                    assert(ext_set.contains(c));
                } else {
                    assert(c == "/"@ + fv[k]);
                    assert(file_set.contains(c));
                }
            } else {
                let k = choose|k: int| 0 <= k < dv.len() && c == "/"@ + #[trigger] dv[k];
                assert(c == "/"@ + dv[k]);
            }
        }
        assert forall|c: Seq<char>| views(choices@).to_set().contains(c) implies cands.contains(c) by {
            if file_set.contains(c) {
                if ext_set.contains(c) {
                    assert(exists|k: int| 0 <= k < fv.len() && #[trigger] extension_patterns(fv[k]).contains(c));
                    let k = choose|k: int| 0 <= k < fv.len() && #[trigger] extension_patterns(fv[k]).contains(c);
                    assert(extension_patterns(fv[k]).contains(c));
                    assert(cands.contains(c));
                } else {
                    assert(exists|k: int| 0 <= k < fv.len() && c == "/"@ + #[trigger] fv[k]);
                    let k = choose|k: int| 0 <= k < fv.len() && c == "/"@ + #[trigger] fv[k];
                    assert(extension_patterns(fv[k]).contains(c) || c == "/"@ + fv[k]);
                    assert(cands.contains(c));
                }
            } else {
                assert(exists|k: int| 0 <= k < dv.len() && c == "/"@ + #[trigger] dv[k]);
                let k = choose|k: int| 0 <= k < dv.len() && c == "/"@ + #[trigger] dv[k];
                assert(c == "/"@ + dv[k]);
                assert(cands.contains(c));
            }
        }
        assert(views(choices@).to_set() =~= cands);
        lemma_sorted_no_duplicates(views(choices@));
    }
    let default = default_pattern(current_file, directory);
    match default {
        Some(d) => {
            let ghost before = views(choices@);
            let moved = move_to_front(&mut choices, d.as_str());
            proof {
                if moved is Some {
                    let k = moved->0 as int;
                    assert(before[k] == d@);
                    let rest = before.remove(k);
                    assert(views(choices@).drop_first() =~= rest);
                    assert forall|a: int, b: int| 0 <= a < b < rest.len() implies lex_lt(
                        #[trigger] rest[a],
                        #[trigger] rest[b],
                    ) by {
                        let a2 = if a < k { a } else { a + 1 };
                        let b2 = if b < k { b } else { b + 1 };
                        assert(rest[a] == before[a2] && rest[b] == before[b2]);
                    }
                    assert(views(choices@).to_set() =~= before.to_set()) by {
                        assert forall|c: Seq<char>| before.to_set().contains(c) implies views(
                            choices@,
                        ).to_set().contains(c) by {
                            let j = choose|j: int| 0 <= j < before.len() && before[j] == c;
                            if j == k {
                                assert(views(choices@)[0] == c);
                            } else if j < k {
                                assert(views(choices@)[j + 1] == c);
                            } else {
                                assert(views(choices@)[j] == c);
                            }
                        }
                        assert forall|c: Seq<char>| views(choices@).to_set().contains(c) implies before.to_set().contains(
                            c,
                        ) by {
                            let j = choose|j: int| 0 <= j < views(choices@).len() && views(choices@)[j] == c;
                            if j == 0 {
                                assert(before[k] == c);
                            } else if j - 1 < k {
                                assert(before[j - 1] == c);
                            } else {
                                assert(before[j] == c);
                            }
                        }
                    }
                    assert(views(choices@).no_duplicates()) by {
                        lemma_sorted_no_duplicates(rest);
                        assert forall|a: int, b: int|
                            0 <= a < views(choices@).len() && 0 <= b < views(choices@).len() && a
                                != b implies views(choices@)[a] != views(choices@)[b] by {
                            if a == 0 && b > 0 {
                                assert(views(choices@)[b] == rest[b - 1]);
                            } else if b == 0 && a > 0 {
                                assert(views(choices@)[a] == rest[a - 1]);
                            } else if a > 0 && b > 0 {
                                assert(views(choices@)[a] == rest[a - 1]);
                                assert(views(choices@)[b] == rest[b - 1]);
                            }
                        }
                    }
                } else {
                    assert(!before.to_set().contains(d@));
                }
            }
        },
        None => {},
    }
    choices
}

/// The text appended to an ignore file for `rule`, given the last byte the
/// file holds: a newline first when the file does not end in one, then the
/// rule with each backslash doubled and a newline. An empty rule adds nothing.
pub open spec fn spec_gitignore_addition(last_byte: Option<u8>, rule: Seq<char>) -> Option<Seq<char>> {
    if rule.len() == 0 {
        None
    } else {
        Some(
            (match last_byte {
                Some(b) => if b != 10 {
                    "\n"@
                } else {
                    seq![]
                },
                None => seq![],
            }) + replace_all(rule, "\\"@, "\\\\"@) + "\n"@,
        )
    }
}

/// What is appended for a rule ends its line, and starts on a line of its
/// own: after a newline when the file did not end in one.
pub proof fn law_rule_on_its_own_line(last_byte: Option<u8>, rule: Seq<char>)
    ensures
        spec_gitignore_addition(last_byte, rule) matches Some(a) ==> a.len() > 0 && a.last()
            == '\n' && (last_byte matches Some(b) && b != 10 ==> a[0] == '\n'),
{
    reveal_strlit("\n");
}

pub fn gitignore_addition(last_byte: Option<u8>, rule: &str) -> (r: Option<String>)
    ensures
        match r {
            Some(s) => spec_gitignore_addition(last_byte, rule@) == Some(s@),
            None => spec_gitignore_addition(last_byte, rule@) is None,
        },
{
    if rule.is_empty() {
        return None;
    }
    let mut s = String::new();
    match last_byte {
        Some(b) => if b != 10 {
            s.append("\n");
        },
        None => {},
    }
    let escaped = replace_str(rule, "\\", "\\\\");
    s.append(escaped.as_str());
    s.append("\n");
    Some(s)
}

/// After writing a shared ignore file it is staged (`git add -- <file>`).
pub fn stage_ignore_file(file: &str) -> (c: GitCommand)
    ensures
        c.argv() == seq!["add"@, "--"@, file@],
{
    let args = strings(&["add", "--", file]);
    assert(str_views(seq!["add", "--", file]) =~= seq!["add"@, "--"@, file@]);
    GitCommand::new(args)
}

/// After writing a private ignore file, the message reporting it.
pub fn updated_message(file: &str) -> (s: String)
    ensures
        s@ == "Updated "@ + file@,
{
    let mut s = "Updated ".to_owned();
    s.append(file);
    s
}

/// The global excludes file from `git config --get --path
/// core.excludesFile`: its trimmed output when the command succeeded with
/// UTF-8 output (`None` otherwise) that is not blank.
pub fn excludes_file(success: bool, stdout: Option<String>) -> (r: Result<String, Error>)
    ensures
        !success ==> r matches Err(Error::GitignoreConfigUnset),
        success && stdout is None ==> r matches Err(Error::GitignoreConfigUtf8),
        success && stdout is Some && trim(stdout->0@).len() == 0 ==> r matches Err(
            Error::GitignoreConfigUnset,
        ),
        success && stdout is Some && trim(stdout->0@).len() > 0 ==> (r matches Ok(p) && p@ == trim(
            stdout->0@,
        )),
{
    if !success {
        return Err(Error::GitignoreConfigUnset);
    }
    match stdout {
        None => Err(Error::GitignoreConfigUtf8),
        Some(out) => {
            let path = crate::text::trim_str(out.as_str());
            if path.as_str().is_empty() {
                Err(Error::GitignoreConfigUnset)
            } else {
                Ok(path)
            }
        },
    }
}

/// The command listing untracked files (`git ls-files --others
/// --exclude-standard`), collapsed to directories where all of one is
/// untracked when `directories`, limited to `directory` when one is given.
pub fn untracked_files_command(directories: bool, directory: Option<&str>) -> (c: GitCommand)
    ensures
        c.input is Nothing,
        c.env@.len() == 0,
        c.argv() == seq!["ls-files"@, "--others"@, "--exclude-standard"@] + (if directories {
            seq!["--directory"@]
        } else {
            seq![]
        }) + match directory {
            Some(d) => seq!["--"@, d@],
            None => seq![],
        },
{
    let mut args = strings(&["ls-files", "--others", "--exclude-standard"]);
    assert(str_views(seq!["ls-files", "--others", "--exclude-standard"]) =~= seq![
        "ls-files"@,
        "--others"@,
        "--exclude-standard"@,
    ]);
    let ghost base = views(args@);
    if directories {
        args.push("--directory".to_owned());
        assert(views(args@) =~= base + seq!["--directory"@]);
    }
    let ghost mid = views(args@);
    if let Some(d) = directory {
        args.push("--".to_owned());
        args.push(d.to_owned());
        assert(views(args@) =~= mid + seq!["--"@, d@]);
    } else {
        assert(views(args@) =~= mid + Seq::<Seq<char>>::empty());
    }
    GitCommand::new(args)
}

/// The command asking for the global excludes file.
pub fn excludes_file_command() -> (c: GitCommand)
    ensures
        c.input is Nothing,
        c.env@.len() == 0,
        c.argv() == seq!["config"@, "--get"@, "--path"@, "core.excludesFile"@],
{
    let args = strings(&["config", "--get", "--path", "core.excludesFile"]);
    assert(str_views(seq!["config", "--get", "--path", "core.excludesFile"]) =~= seq![
        "config"@,
        "--get"@,
        "--path"@,
        "core.excludesFile"@,
    ]);
    GitCommand::new(args)
}

/// The file a gitignore operation adds its rule to.
#[derive(Clone, Copy, Debug, PartialEq, Eq, Structural)]
pub enum IgnoreFile {
    /// `.gitignore` at the top of the working tree.
    TopLevel,
    /// `.gitignore` in a subdirectory the user names.
    Subdirectory,
    /// `info/exclude` in the repository's git directory.
    Private,
    /// The file `core.excludesFile` names.
    Global,
}

impl IgnoreFile {
    /// The file each gitignore operation writes to; none for other operations.
    pub fn of_op(op: Op) -> (r: Option<IgnoreFile>)
        ensures
            r == match op {
                Op::GitignoreInTopdir => Some(IgnoreFile::TopLevel),
                Op::GitignoreInSubdir => Some(IgnoreFile::Subdirectory),
                Op::GitignoreInGitdir => Some(IgnoreFile::Private),
                Op::GitignoreOnSystem => Some(IgnoreFile::Global),
                _ => None,
            },
    {
        match op {
            Op::GitignoreInTopdir => Some(IgnoreFile::TopLevel),
            Op::GitignoreInSubdir => Some(IgnoreFile::Subdirectory),
            Op::GitignoreInGitdir => Some(IgnoreFile::Private),
            Op::GitignoreOnSystem => Some(IgnoreFile::Global),
            _ => None,
        }
    }

    /// Whether the rule's file is shared, and so staged once written.
    pub fn stages(&self) -> (b: bool)
        ensures
            b == (*self == IgnoreFile::TopLevel || *self == IgnoreFile::Subdirectory),
    {
        match self {
            IgnoreFile::TopLevel | IgnoreFile::Subdirectory => true,
            _ => false,
        }
    }

    /// Whether the user is asked for a directory first (and the rule is
    /// made relative to it).
    pub fn asks_directory(&self) -> (b: bool)
        ensures
            b == (*self == IgnoreFile::Subdirectory),
    {
        match self {
            IgnoreFile::Subdirectory => true,
            _ => false,
        }
    }

    /// The path of the file, as parts to join: below the working tree, the
    /// chosen directory or the git directory, or the global excludes file.
    pub fn path_parts(&self, workdir: &str, directory: &str, git_dir: &str, excludes: &str) -> (r: Vec<
        String,
    >)
        ensures
            views(r@) == match *self {
                IgnoreFile::TopLevel => seq![workdir@, ".gitignore"@],
                IgnoreFile::Subdirectory => seq![workdir@, directory@, ".gitignore"@],
                IgnoreFile::Private => seq![git_dir@, "info"@, "exclude"@],
                IgnoreFile::Global => seq![excludes@],
            },
    {
        match self {
            IgnoreFile::TopLevel => {
                let r = strings(&[workdir, ".gitignore"]);
                assert(str_views(seq![workdir, ".gitignore"]) =~= seq![workdir@, ".gitignore"@]);
                r
            },
            IgnoreFile::Subdirectory => {
                let r = strings(&[workdir, directory, ".gitignore"]);
                assert(str_views(seq![workdir, directory, ".gitignore"]) =~= seq![
                    workdir@,
                    directory@,
                    ".gitignore"@,
                ]);
                r
            },
            IgnoreFile::Private => {
                let r = strings(&[git_dir, "info", "exclude"]);
                assert(str_views(seq![git_dir, "info", "exclude"]) =~= seq![
                    git_dir@,
                    "info"@,
                    "exclude"@,
                ]);
                r
            },
            IgnoreFile::Global => {
                let r = strings(&[excludes]);
                assert(str_views(seq![excludes]) =~= seq![excludes@]);
                r
            },
        }
    }
}

} // verus!
