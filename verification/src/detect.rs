//! Finding X-Plane installations: Steam library lists and candidate paths.
use vstd::prelude::*;

use crate::order::{
    lemma_path_irreflexive, lemma_path_total, lemma_path_trans, path_less, path_lt, path_view,
};
use crate::text::{
    lemma_find_from, lemma_find_from_none_beyond, find_from, replace_from,
    after_first, after_first_str, before_first, before_first_str, chars_of, lines, lines_of,
    lower, lower_of, replace, replace_exec, seqs_of, starts_with, starts_with_str, string_of,
    string_views, trim, trim_slice,
};

verus! {

/// Field `k` of `s.split(sep)`, if there are that many.
pub open spec fn split_field(s: Seq<char>, sep: Seq<char>, k: nat) -> Option<Seq<char>>
    decreases k,
{
    if k == 0 {
        Some(before_first(s, sep))
    } else {
        match after_first(s, sep) {
            Some(rest) => split_field(rest, sep, (k - 1) as nat),
            None => None,
        }
    }
}

pub fn split_field_exec<'a>(s: &'a [char], sep: &str, k: usize) -> (r: Option<&'a [char]>)
    ensures
        match r {
            Some(t) => split_field(s@, sep@, k as nat) == Some(t@),
            None => split_field(s@, sep@, k as nat) is None,
        },
    decreases k,
{
    if k == 0 {
        Some(before_first_str(s, sep))
    } else {
        match after_first_str(s, sep) {
            Some(rest) => split_field_exec(rest, sep, k - 1),
            None => None,
        }
    }
}

/// The library path a line of Steam's `libraryfolders.vdf` names: the
/// fourth `"`-separated field of a trimmed `"path"` line, with doubled
/// backslashes made single.
pub open spec fn library_path_of(line: Seq<char>) -> Option<Seq<char>> {
    let t = trim(line);
    if !starts_with(t, "\"path\""@) {
        None
    } else {
        match split_field(t, "\""@, 3) {
            Some(f) => Some(replace(f, "\\\\"@, "\\"@)),
            None => None,
        }
    }
}

/// The library paths of the given lines, in order.
pub open spec fn library_paths(ls: Seq<Seq<char>>) -> Seq<Seq<char>>
    decreases ls.len(),
{
    if ls.len() == 0 {
        seq![]
    } else {
        library_paths(ls.drop_last()) + match library_path_of(ls.last()) {
            Some(p) => seq![p],
            None => seq![],
        }
    }
}

/// The Steam library folders listed in the text of `libraryfolders.vdf`.
pub fn parse_steam_libraryfolders(text: &str) -> (r: Vec<String>)
    ensures
        string_views(r@) == library_paths(lines(text@)),
{
    let t = chars_of(text);
    let ls = lines_of(&t);
    let ghost lv = seqs_of(ls@);
    let mut paths: Vec<String> = Vec::new();
    let mut i: usize = 0;
    while i < ls.len()
        invariant
            i <= ls.len(),
            lv == seqs_of(ls@),
            string_views(paths@) == library_paths(lv.take(i as int)),
        decreases ls.len() - i,
    {
        assert(lv.take(i + 1).drop_last() =~= lv.take(i as int));
        assert(lv.take(i + 1).last() == ls@[i as int]@);
        let ghost before = string_views(paths@);
        let trimmed = trim_slice(ls[i].as_slice());
        if starts_with_str(trimmed, "\"path\"") {
            match split_field_exec(trimmed, "\"", 3) {
                Some(f) => {
                    let p = replace_exec(f, &chars_of("\\\\"), &chars_of("\\"));
                    paths.push(string_of(&p));
                    assert(string_views(paths@) =~= before.push(p@));
                },
                None => {
                    assert(string_views(paths@) =~= before + Seq::<Seq<char>>::empty());
                },
            }
        } else {
            assert(string_views(paths@) =~= before + Seq::<Seq<char>>::empty());
        }
        i = i + 1;
    }
    assert(lv.take(ls.len() as int) =~= lv);
    paths
}

/// Keeps the first of the paths that are equal ignoring ASCII case, in order.
pub open spec fn distinct_paths(ps: Seq<Seq<char>>) -> Seq<Seq<char>>
    decreases ps.len(),
{
    if ps.len() == 0 {
        seq![]
    } else {
        let d = distinct_paths(ps.drop_last());
        if exists|j: int| 0 <= j < d.len() && lower(#[trigger] d[j]) == lower(ps.last()) {
            d
        } else {
            d.push(ps.last())
        }
    }
}

/// The candidate paths without repeats, comparing their text without regard
/// to ASCII case; the first of each stays, in order.
pub fn dedupe_paths(paths: Vec<String>) -> (r: Vec<String>)
    ensures
        string_views(r@) == distinct_paths(string_views(paths@)),
{
    let ghost pv = string_views(paths@);
    let mut seen: Vec<Vec<char>> = Vec::new();
    let mut out: Vec<String> = Vec::new();
    let mut i: usize = 0;
    while i < paths.len()
        invariant
            i <= paths.len(),
            pv == string_views(paths@),
            string_views(out@) == distinct_paths(pv.take(i as int)),
            seen.len() == out.len(),
            forall|j: int| 0 <= j < seen.len() ==> #[trigger] seen@[j]@ == lower(string_views(out@)[j]),
        decreases paths.len() - i,
    {
        assert(pv.take(i + 1).drop_last() =~= pv.take(i as int));
        assert(pv.take(i + 1).last() == pv[i as int]);
        let ghost d = string_views(out@);
        let key = lower_of(&chars_of(paths[i].as_str()));
        let mut k: usize = 0;
        let mut found = false;
        while k < seen.len()
            invariant
                k <= seen.len(),
                seen.len() == out.len(),
                d == string_views(out@),
                key@ == lower(pv[i as int]),
                forall|j: int| 0 <= j < seen.len() ==> #[trigger] seen@[j]@ == lower(d[j]),
                found ==> exists|j: int| 0 <= j < d.len() && lower(#[trigger] d[j]) == lower(pv[i as int]),
                !found ==> forall|j: int| 0 <= j < k ==> lower(#[trigger] d[j]) != lower(pv[i as int]),
            decreases seen.len() - k,
        {
            if crate::rules::evidence::slice_eq(seen[k].as_slice(), key.as_slice()) {
                assert(lower(d[k as int]) == lower(pv[i as int]));
                found = true;
            }
            k = k + 1;
        }
        if !found {
            out.push(string_of(&chars_of(paths[i].as_str())));
            seen.push(key);
            assert(string_views(out@) =~= d.push(pv[i as int]));
        }
        i = i + 1;
    }
    assert(pv.take(paths.len() as int) =~= pv);
    out
}

/// The installation to use among those found: the first in path order, as
/// `sort` and then the first item give it; each path is given as its
/// components (see `component_view`). `None` when none was found.
pub fn first_in_path_order(paths: &Vec<Vec<(u8, String)>>) -> (r: Option<usize>)
    ensures
        r is None <==> paths@.len() == 0,
        r matches Some(i) ==> {
            &&& i < paths@.len()
            &&& forall|j: int|
                0 <= j < paths@.len() ==> !path_lt(
                    #[trigger] path_view(paths@[j]@),
                    path_view(paths@[i as int]@),
                )
            &&& forall|j: int|
                0 <= j < i ==> path_lt(
                    path_view(paths@[i as int]@),
                    #[trigger] path_view(paths@[j]@),
                )
        },
{
    if paths.len() == 0 {
        return None;
    }
    let mut best: usize = 0;
    let mut j: usize = 1;
    proof {
        lemma_path_irreflexive(path_view(paths@[0]@));
    }
    while j < paths.len()
        invariant
            0 < j <= paths@.len(),
            best < j,
            forall|k: int|
                0 <= k < j ==> !path_lt(
                    #[trigger] path_view(paths@[k]@),
                    path_view(paths@[best as int]@),
                ),
            forall|k: int|
                0 <= k < best ==> path_lt(
                    path_view(paths@[best as int]@),
                    #[trigger] path_view(paths@[k]@),
                ),
        decreases paths@.len() - j,
    {
        if path_less(&paths[j], &paths[best]) {
            let ghost pj = path_view(paths@[j as int]@);
            let ghost pb = path_view(paths@[best as int]@);
            assert forall|k: int| 0 <= k <= j implies !path_lt(
                #[trigger] path_view(paths@[k]@),
                pj,
            ) by {
                let pk = path_view(paths@[k]@);
                if k == j {
                    lemma_path_irreflexive(pj);
                } else if path_lt(pk, pj) {
                    lemma_path_trans(pk, pj, pb);
                }
            }
            assert forall|k: int| 0 <= k < j implies path_lt(
                pj,
                #[trigger] path_view(paths@[k]@),
            ) by {
                let pk = path_view(paths@[k]@);
                if k < best {
                    lemma_path_trans(pj, pb, pk);
                } else {
                    lemma_path_total(pk, pj);
                    if pk == pj {
                        assert(path_lt(pk, pb));
                    } else if path_lt(pk, pj) {
                        lemma_path_trans(pk, pj, pb);
                    }
                }
            }
            best = j;
        }
        j = j + 1;
    }
    Some(best)
}

/// `s` as `libraryfolders.vdf` writes it: each backslash doubled.
pub open spec fn vdf_escaped(s: Seq<char>) -> Seq<char>
    decreases s.len(),
{
    if s.len() == 0 {
        seq![]
    } else {
        (if s[0] == '\\' {
            seq!['\\', '\\']
        } else {
            seq![s[0]]
        }) + vdf_escaped(s.drop_first())
    }
}

proof fn lemma_replace_from_step(s: Seq<char>, p: Seq<char>, r: Seq<char>, i: int)
    requires
        p.len() > 0,
        0 <= i < s.len(),
        s[i] != p[0],
    ensures
        replace_from(s, p, r, i) == seq![s[i]] + replace_from(s, p, r, i + 1),
{
    lemma_find_from(s, p, i + 1);
    if i + p.len() <= s.len() {
        assert(s.subrange(i, i + p.len())[0] == s[i]);
        assert(s.subrange(i, i + p.len()) != p);
    }
    assert(find_from(s, p, i) == find_from(s, p, i + 1));
    match find_from(s, p, i + 1) {
        Some(k) => {
            assert(s.subrange(i, k) =~= seq![s[i]] + s.subrange(i + 1, k));
            assert(seq![s[i]] + s.subrange(i + 1, k) + r + replace_from(s, p, r, k + p.len()) =~= seq![
                s[i],
            ] + (s.subrange(i + 1, k) + r + replace_from(s, p, r, k + p.len())));
        },
        None => {
            assert(s.skip(i) =~= seq![s[i]] + s.skip(i + 1));
        },
    }
}

proof fn lemma_unescape_from(s: Seq<char>, i: int, h: Seq<char>)
    requires
        0 <= i <= s.len(),
        s.skip(i) == vdf_escaped(h),
    ensures
        replace_from(s, "\\\\"@, "\\"@, i) == h,
    decreases h.len(),
{
    let p = "\\\\"@;
    let r = "\\"@;
    reveal_strlit("\\\\");
    reveal_strlit("\\");
    if h.len() == 0 {
        assert(s.skip(i).len() == 0);
        lemma_find_from_none_beyond(s, p, i);
        assert(s.skip(i) =~= h);
    } else if h[0] == '\\' {
        let t = vdf_escaped(h.drop_first());
        let q = s.skip(i);
        assert(q == seq!['\\', '\\'] + t);
        assert(q.len() == t.len() + 2);
        assert(s[i] == q[0]);
        assert(s[i + 1] == q[1]);
        assert(s.subrange(i, i + 2) =~= p);
        assert(q.skip(2) =~= t);
        assert(s.skip(i + 2) =~= q.skip(2));
        lemma_unescape_from(s, i + 2, h.drop_first());
        assert(s.subrange(i, i) + r + replace_from(s, p, r, i + 2) =~= h);
    } else {
        let t = vdf_escaped(h.drop_first());
        let q = s.skip(i);
        assert(q == seq![h[0]] + t);
        assert(q.len() == t.len() + 1);
        assert(s[i] == q[0]);
        assert(q.skip(1) =~= t);
        assert(s.skip(i + 1) =~= q.skip(1));
        lemma_replace_from_step(s, p, r, i);
        lemma_unescape_from(s, i + 1, h.drop_first());
        assert(seq![s[i]] + h.drop_first() =~= h);
    }
}

/// Undoing the file's escaping gives the path back: every doubled backslash
/// becomes one, so a path escaped as the file writes it is read as it was.
pub proof fn law_unescape_undoes_escape(g: Seq<char>)
    ensures
        replace(vdf_escaped(g), "\\\\"@, "\\"@) == g,
{
    reveal_strlit("\\\\");
    assert(vdf_escaped(g).skip(0) =~= vdf_escaped(g));
    lemma_unescape_from(vdf_escaped(g), 0, g);
}

/// A `"path"` line whose fourth `"`-separated field is a path escaped as the
/// file writes it names exactly that path; a line that does not start with
/// `"path"` names none.
pub proof fn law_library_path_is_unescaped(line: Seq<char>, g: Seq<char>)
    ensures
        starts_with(trim(line), "\"path\""@) && split_field(trim(line), "\""@, 3) == Some(
            vdf_escaped(g),
        ) ==> library_path_of(line) == Some(g),
        !starts_with(trim(line), "\"path\""@) ==> library_path_of(line) is None,
{
    law_unescape_undoes_escape(g);
}

} // verus!
