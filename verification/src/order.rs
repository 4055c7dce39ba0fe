//! The order of texts (as `String` orders them) and sorting by it.
use vstd::prelude::*;

use crate::rules::subsystem::{lex_less, lex_lt};
use crate::text::{chars_of, string_views};

verus! {

pub proof fn lemma_lex_irreflexive(a: Seq<char>)
    ensures
        !lex_lt(a, a),
    decreases a.len(),
{
    if a.len() > 0 {
        lemma_lex_irreflexive(a.drop_first());
    }
}

pub proof fn lemma_lex_total(a: Seq<char>, b: Seq<char>)
    ensures
        a != b ==> lex_lt(a, b) || lex_lt(b, a),
    decreases a.len(),
{
    if a.len() > 0 && b.len() > 0 && a[0] == b[0] {
        lemma_lex_total(a.drop_first(), b.drop_first());
        if a.drop_first() == b.drop_first() {
            assert(a =~= seq![a[0]] + a.drop_first());
            assert(b =~= seq![b[0]] + b.drop_first());
        }
    } else if a.len() == 0 && b.len() == 0 {
        assert(a =~= b);
    } else if a.len() > 0 && b.len() > 0 {
        assert(a[0] < b[0] || b[0] < a[0]);
    }
}

pub proof fn lemma_lex_trans(a: Seq<char>, b: Seq<char>, c: Seq<char>)
    requires
        lex_lt(a, b),
        lex_lt(b, c),
    ensures
        lex_lt(a, c),
    decreases a.len(),
{
    if a.len() > 0 && b.len() > 0 && c.len() > 0 && a[0] == b[0] && b[0] == c[0] {
        lemma_lex_trans(a.drop_first(), b.drop_first(), c.drop_first());
    }
}

/// In order: no text is greater than one after it.
pub open spec fn sorted(s: Seq<Seq<char>>) -> bool {
    forall|i: int, j: int| 0 <= i < j < s.len() ==> !lex_lt(#[trigger] s[j], #[trigger] s[i])
}

/// The strings in order, as `sort` leaves a `Vec<String>`: in order, and
/// the same strings as many times each.
pub fn sort_strings(v: Vec<String>) -> (r: Vec<String>)
    ensures
        sorted(string_views(r@)),
        string_views(r@).to_multiset() == string_views(v@).to_multiset(),
{
    broadcast use vstd::seq_lib::group_to_multiset_ensures;

    let ghost all = string_views(v@);
    let mut v = v;
    let mut out: Vec<String> = Vec::new();
    let ghost mut taken: Seq<Seq<char>> = seq![];
    while v.len() > 0
        invariant
            all == string_views(v@) + taken.reverse(),
            sorted(string_views(out@)),
            string_views(out@).to_multiset() == taken.to_multiset(),
        decreases v.len(),
    {
        let ghost vb = string_views(v@);
        let x = v.pop().unwrap();
        let ghost xv = x@;
        assert(vb =~= string_views(v@).push(xv));
        let xc = chars_of(x.as_str());
        let ghost ov = string_views(out@);
        let mut p: usize = 0;
        while p < out.len() && !lex_less(&xc, &chars_of(out[p].as_str()))
            invariant
                p <= out.len(),
                ov == string_views(out@),
                xc@ == xv,
                forall|i: int| 0 <= i < p ==> !lex_lt(xv, #[trigger] ov[i]),
            decreases out.len() - p,
        {
            p = p + 1;
        }
        out.insert(p, x);
        proof {
            let nv = string_views(out@);
            assert(nv =~= ov.insert(p as int, xv));
            assert forall|i: int, j: int| 0 <= i < j < nv.len() implies !lex_lt(#[trigger] nv[j], #[trigger] nv[i]) by {
                if j == p {
                    assert(nv[i] == ov[i]);
                } else if i == p {
                    assert(nv[j] == ov[j - 1]);
                    if p < ov.len() {
                        assert(lex_lt(xv, ov[p as int]));
                        if j - 1 > p {
                            assert(!lex_lt(ov[j - 1], ov[p as int]));
                        }
                        if lex_lt(ov[j - 1], xv) {
                            lemma_lex_trans(ov[j - 1], xv, ov[p as int]);
                            if j - 1 == p {
                                lemma_lex_irreflexive(ov[p as int]);
                            }
                        }
                    }
                } else {
                    let oi = if i < p { i } else { i - 1 };
                    let oj = if j < p { j } else { j - 1 };
                    assert(nv[i] == ov[oi]);
                    assert(nv[j] == ov[oj]);
                    if i < p && j > p {
                        // ov[oi] <= x < ... : both are known against x
                        assert(!lex_lt(xv, ov[oi]));
                        if lex_lt(ov[oj], ov[oi]) {
                            if oj >= p && p < ov.len() {
                                assert(lex_lt(xv, ov[p as int]));
                                if oj > p {
                                    assert(!lex_lt(ov[oj], ov[p as int]));
                                }
                                lemma_lex_total(xv, ov[oi]);
                                if xv == ov[oi] {
                                    lemma_lex_trans(ov[oj], xv, ov[p as int]);
                                    if oj == p {
                                        lemma_lex_irreflexive(ov[p as int]);
                                    }
                                } else {
                                    lemma_lex_trans(ov[oj], ov[oi], xv);
                                    lemma_lex_trans(ov[oj], xv, ov[p as int]);
                                    if oj == p {
                                        lemma_lex_irreflexive(ov[p as int]);
                                    }
                                }
                            }
                        }
                    }
                }
            }
            assert(nv.remove(p as int) =~= ov);
            nv.to_multiset_ensures();
            ov.to_multiset_ensures();
            taken.to_multiset_ensures();
            assert(nv[p as int] == xv);
            assert(nv.remove(p as int).to_multiset() =~= nv.to_multiset().remove(xv));
            assert(nv.to_multiset().contains(xv));
            assert(nv.to_multiset() =~= ov.to_multiset().insert(xv));
            assert(taken.push(xv).to_multiset() =~= taken.to_multiset().insert(xv));
            assert(all =~= string_views(v@) + taken.push(xv).reverse()) by {
                assert(taken.push(xv).reverse() =~= seq![xv] + taken.reverse());
            }
            taken = taken.push(xv);
        }
    }
    assert(all =~= taken.reverse());
    proof {
        taken.lemma_reverse_to_multiset();
    }
    assert(string_views(out@).to_multiset() == all.to_multiset());
    out
}

} // verus!

verus! {

/// Something ordered by a text key (a file or folder by its name).
pub trait Keyed {
    spec fn key(&self) -> Seq<char>;

    fn key_chars(&self) -> (r: Vec<char>)
        ensures
            r@ == self.key(),
    ;
}

/// Something ordered by an optional time (a file by when it last changed).
pub trait Timed {
    spec fn time(&self) -> Option<u64>;

    fn time_of(&self) -> (r: Option<u64>)
        ensures
            r == self.time(),
    ;
}

/// `Option<u64>` order: `None` first.
pub open spec fn time_lt(a: Option<u64>, b: Option<u64>) -> bool {
    match (a, b) {
        (None, Some(_)) => true,
        (Some(x), Some(y)) => x < y,
        _ => false,
    }
}

/// Where `x` goes in a list sorted by key: after every item whose key is
/// not greater, so that equal keys keep their order.
pub open spec fn key_pos<T: Keyed>(s: Seq<T>, k: Seq<char>, i: int) -> int
    decreases s.len() - i,
{
    if i < 0 || i >= s.len() {
        s.len() as int
    } else if lex_lt(k, s[i].key()) {
        i
    } else {
        key_pos(s, k, i + 1)
    }
}

/// The items sorted by key, equal keys in their order (a stable sort, as
/// `sort_by` on the key does it).
pub open spec fn sorted_by_key<T: Keyed>(s: Seq<T>) -> Seq<T>
    decreases s.len(),
{
    if s.len() == 0 {
        seq![]
    } else {
        let t = sorted_by_key(s.drop_last());
        t.insert(key_pos(t, s.last().key(), 0), s.last())
    }
}

/// Where `x` goes in a list sorted newest first: after every item that is
/// not older, so that equal times keep their order.
pub open spec fn time_pos<T: Timed>(s: Seq<T>, t: Option<u64>, i: int) -> int
    decreases s.len() - i,
{
    if i < 0 || i >= s.len() {
        s.len() as int
    } else if time_lt(s[i].time(), t) {
        i
    } else {
        time_pos(s, t, i + 1)
    }
}

/// The items sorted newest first, equal times in their order (a stable
/// sort, as `sort_by` comparing the times the other way round does it).
pub open spec fn newest_first<T: Timed>(s: Seq<T>) -> Seq<T>
    decreases s.len(),
{
    if s.len() == 0 {
        seq![]
    } else {
        let t = newest_first(s.drop_last());
        t.insert(time_pos(t, s.last().time(), 0), s.last())
    }
}

/// The items in their order reversed, moved into a new vector.
fn reversed<T>(v: Vec<T>) -> (r: Vec<T>)
    ensures
        r@ == v@.reverse(),
{
    let ghost all = v@;
    let mut v = v;
    let mut out: Vec<T> = Vec::new();
    while v.len() > 0
        invariant
            all == v@ + out@.reverse(),
        decreases v.len(),
    {
        let ghost before = v@;
        let x = v.pop().unwrap();
        let ghost o = out@;
        out.push(x);
        assert(out@.reverse() =~= seq![x] + o.reverse());
        assert(before =~= v@.push(x));
        assert(all =~= v@ + out@.reverse());
    }
    assert(all =~= out@.reverse());
    assert(out@ =~= all.reverse());
    out
}

/// Sorts by key, keeping equal keys in order.
pub fn sort_by_key<T: Keyed>(v: Vec<T>) -> (r: Vec<T>)
    ensures
        r@ == sorted_by_key(v@),
{
    let ghost all = v@;
    let mut rest = reversed(v);
    let mut out: Vec<T> = Vec::new();
    let ghost mut i: int = 0;
    while rest.len() > 0
        invariant
            0 <= i <= all.len(),
            rest@ == all.skip(i).reverse(),
            out@ == sorted_by_key(all.take(i)),
        decreases rest.len(),
    {
        let ghost before = rest@;
        let x = rest.pop().unwrap();
        proof {
            assert(all.skip(i).reverse().last() == all[i]);
            assert(x == all[i]);
            assert(rest@ =~= all.skip(i + 1).reverse());
        }
        let k = x.key_chars();
        let mut p: usize = 0;
        while p < out.len() && !lex_less(&k, &out[p].key_chars())
            invariant
                p <= out.len(),
                k@ == x.key(),
                key_pos(out@, x.key(), 0) == key_pos(out@, x.key(), p as int),
            decreases out.len() - p,
        {
            p = p + 1;
        }
        let ghost o = out@;
        out.insert(p, x);
        proof {
            assert(all.take(i + 1).drop_last() =~= all.take(i));
            assert(all.take(i + 1).last() == x);
            i = i + 1;
        }
    }
    proof {
        assert(all.skip(i).len() == 0);
        assert(all.take(i) =~= all);
    }
    out
}

/// Sorts newest first, keeping equal times in order.
pub fn sort_newest_first<T: Timed>(v: Vec<T>) -> (r: Vec<T>)
    ensures
        r@ == newest_first(v@),
{
    let ghost all = v@;
    let mut rest = reversed(v);
    let mut out: Vec<T> = Vec::new();
    let ghost mut i: int = 0;
    while rest.len() > 0
        invariant
            0 <= i <= all.len(),
            rest@ == all.skip(i).reverse(),
            out@ == newest_first(all.take(i)),
        decreases rest.len(),
    {
        let x = rest.pop().unwrap();
        proof {
            assert(all.skip(i).reverse().last() == all[i]);
            assert(x == all[i]);
            assert(rest@ =~= all.skip(i + 1).reverse());
        }
        let t = x.time_of();
        let mut p: usize = 0;
        while p < out.len() && !time_less(out[p].time_of(), t)
            invariant
                p <= out.len(),
                t == x.time(),
                time_pos(out@, x.time(), 0) == time_pos(out@, x.time(), p as int),
            decreases out.len() - p,
        {
            p = p + 1;
        }
        out.insert(p, x);
        proof {
            assert(all.take(i + 1).drop_last() =~= all.take(i));
            assert(all.take(i + 1).last() == x);
            i = i + 1;
        }
    }
    proof {
        assert(all.skip(i).len() == 0);
        assert(all.take(i) =~= all);
    }
    out
}

fn time_less(a: Option<u64>, b: Option<u64>) -> (r: bool)
    ensures
        r == time_lt(a, b),
{
    match (a, b) {
        (None, Some(_)) => true,
        (Some(x), Some(y)) => x < y,
        _ => false,
    }
}

proof fn lemma_key_pos_props<T: Keyed>(s: Seq<T>, k: Seq<char>, i: int)
    requires
        0 <= i <= s.len(),
    ensures
        i <= key_pos(s, k, i) <= s.len(),
        forall|j: int| i <= j < key_pos(s, k, i) ==> !lex_lt(k, #[trigger] s[j].key()),
        key_pos(s, k, i) < s.len() ==> lex_lt(k, s[key_pos(s, k, i)].key()),
    decreases s.len() - i,
{
    if i < s.len() && !lex_lt(k, s[i].key()) {
        lemma_key_pos_props(s, k, i + 1);
    }
}

/// In key order: no item's key is greater than that of an item after it.
pub open spec fn in_key_order<T: Keyed>(s: Seq<T>) -> bool {
    forall|i: int, j: int| 0 <= i < j < s.len() ==> !lex_lt(#[trigger] s[j].key(), #[trigger] s[i].key())
}

/// Sorting by key puts the items in key order, and keeps their number.
pub proof fn law_sorted_by_key_in_order<T: Keyed>(s: Seq<T>)
    ensures
        in_key_order(sorted_by_key(s)),
        sorted_by_key(s).len() == s.len(),
    decreases s.len(),
{
    if s.len() > 0 {
        let t = sorted_by_key(s.drop_last());
        law_sorted_by_key_in_order(s.drop_last());
        let x = s.last();
        let k = x.key();
        lemma_key_pos_props(t, k, 0);
        let p = key_pos(t, k, 0);
        let n = t.insert(p, x);
        assert forall|i: int, j: int| 0 <= i < j < n.len() implies !lex_lt(#[trigger] n[j].key(), #[trigger] n[i].key()) by {
            if j < p {
                assert(n[i] == t[i] && n[j] == t[j]);
            } else if j == p {
                assert(n[i] == t[i]);
            } else if i == p {
                assert(n[j] == t[j - 1]);
                if lex_lt(t[j - 1].key(), k) {
                    lemma_lex_trans(t[j - 1].key(), k, t[p].key());
                    if j - 1 == p {
                        lemma_lex_irreflexive(t[p].key());
                    }
                }
            } else if i < p {
                assert(n[i] == t[i] && n[j] == t[j - 1]);
            } else {
                assert(n[i] == t[i - 1] && n[j] == t[j - 1]);
            }
        }
    }
}

proof fn lemma_time_pos_props<T: Timed>(s: Seq<T>, t: Option<u64>, i: int)
    requires
        0 <= i <= s.len(),
    ensures
        i <= time_pos(s, t, i) <= s.len(),
        forall|j: int| i <= j < time_pos(s, t, i) ==> !time_lt(#[trigger] s[j].time(), t),
        time_pos(s, t, i) < s.len() ==> time_lt(s[time_pos(s, t, i)].time(), t),
    decreases s.len() - i,
{
    if i < s.len() && !time_lt(s[i].time(), t) {
        lemma_time_pos_props(s, t, i + 1);
    }
}

/// Newest first: no item is older than one after it.
pub open spec fn newest_to_oldest<T: Timed>(s: Seq<T>) -> bool {
    forall|i: int, j: int| 0 <= i < j < s.len() ==> !time_lt(#[trigger] s[i].time(), #[trigger] s[j].time())
}

/// Sorting newest first puts no item before a newer one, and keeps their number.
pub proof fn law_newest_first_in_order<T: Timed>(s: Seq<T>)
    ensures
        newest_to_oldest(newest_first(s)),
        newest_first(s).len() == s.len(),
    decreases s.len(),
{
    if s.len() > 0 {
        let t = newest_first(s.drop_last());
        law_newest_first_in_order(s.drop_last());
        let x = s.last();
        let k = x.time();
        lemma_time_pos_props(t, k, 0);
        let p = time_pos(t, k, 0);
        let n = t.insert(p, x);
        assert forall|i: int, j: int| 0 <= i < j < n.len() implies !time_lt(#[trigger] n[i].time(), #[trigger] n[j].time()) by {
            if j < p {
                assert(n[i] == t[i] && n[j] == t[j]);
            } else if j == p {
                assert(n[i] == t[i]);
            } else if i == p {
                assert(n[j] == t[j - 1]);
            } else if i < p {
                assert(n[i] == t[i] && n[j] == t[j - 1]);
            } else {
                assert(n[i] == t[i - 1] && n[j] == t[j - 1]);
            }
        }
    }
}

/// One component of a path, as `std::path::Component` is ordered: its kind
/// (prefix 0, root 1, `.` 2, `..` 3, a name 4), then its text.
pub open spec fn component_view(c: (u8, String)) -> (u8, Seq<char>) {
    (c.0, c.1@)
}

pub open spec fn path_view(p: Seq<(u8, String)>) -> Seq<(u8, Seq<char>)> {
    p.map_values(|c: (u8, String)| component_view(c))
}

/// Component `a` comes before component `b`: by kind, then by text.
pub open spec fn component_lt(a: (u8, Seq<char>), b: (u8, Seq<char>)) -> bool {
    a.0 < b.0 || (a.0 == b.0 && lex_lt(a.1, b.1))
}

/// Path `a` comes before path `b`: component by component, a path before any
/// longer path that it begins.
pub open spec fn path_lt(a: Seq<(u8, Seq<char>)>, b: Seq<(u8, Seq<char>)>) -> bool
    decreases a.len(),
{
    if b.len() == 0 {
        false
    } else if a.len() == 0 {
        true
    } else if a[0] != b[0] {
        component_lt(a[0], b[0])
    } else {
        path_lt(a.drop_first(), b.drop_first())
    }
}

pub proof fn lemma_path_irreflexive(a: Seq<(u8, Seq<char>)>)
    ensures
        !path_lt(a, a),
    decreases a.len(),
{
    if a.len() > 0 {
        lemma_path_irreflexive(a.drop_first());
    }
}

pub proof fn lemma_path_total(a: Seq<(u8, Seq<char>)>, b: Seq<(u8, Seq<char>)>)
    ensures
        a != b ==> path_lt(a, b) || path_lt(b, a),
    decreases a.len(),
{
    if a.len() > 0 && b.len() > 0 && a[0] == b[0] {
        lemma_path_total(a.drop_first(), b.drop_first());
        if a.drop_first() == b.drop_first() {
            assert(a =~= seq![a[0]] + a.drop_first());
            assert(b =~= seq![b[0]] + b.drop_first());
        }
    } else if a.len() == 0 && b.len() == 0 {
        assert(a =~= b);
    } else if a.len() > 0 && b.len() > 0 {
        lemma_lex_total(a[0].1, b[0].1);
        if a[0].0 == b[0].0 && a[0].1 == b[0].1 {
            assert(a[0] == b[0]);
        }
    }
}

pub proof fn lemma_path_trans(
    a: Seq<(u8, Seq<char>)>,
    b: Seq<(u8, Seq<char>)>,
    c: Seq<(u8, Seq<char>)>,
)
    requires
        path_lt(a, b),
        path_lt(b, c),
    ensures
        path_lt(a, c),
    decreases a.len(),
{
    if a.len() > 0 && b.len() > 0 && c.len() > 0 {
        if a[0] == b[0] && b[0] == c[0] {
            lemma_path_trans(a.drop_first(), b.drop_first(), c.drop_first());
        } else if a[0] != b[0] && b[0] != c[0] && a[0].0 == b[0].0 && b[0].0 == c[0].0 {
            lemma_lex_trans(a[0].1, b[0].1, c[0].1);
            if a[0] == c[0] {
                lemma_lex_irreflexive(a[0].1);
            }
        } else if a[0] != b[0] && b[0] != c[0] && a[0] == c[0] {
            lemma_lex_trans(a[0].1, b[0].1, a[0].1);
            lemma_lex_irreflexive(a[0].1);
        }
    }
}

/// Whether path `a` comes before path `b` in component order.
pub fn path_less(a: &Vec<(u8, String)>, b: &Vec<(u8, String)>) -> (r: bool)
    ensures
        r == path_lt(path_view(a@), path_view(b@)),
{
    let ghost pa = path_view(a@);
    let ghost pb = path_view(b@);
    let mut i: usize = 0;
    assert(pa.skip(0) =~= pa);
    assert(pb.skip(0) =~= pb);
    while i < a.len() && i < b.len()
        invariant
            i <= a.len(),
            i <= b.len(),
            pa == path_view(a@),
            pb == path_view(b@),
            path_lt(pa, pb) == path_lt(pa.skip(i as int), pb.skip(i as int)),
        decreases a.len() - i,
    {
        let x = &a[i];
        let y = &b[i];
        assert(pa.skip(i as int)[0] == component_view(*x));
        assert(pb.skip(i as int)[0] == component_view(*y));
        if x.0 != y.0 {
            return x.0 < y.0;
        }
        let xs = chars_of(x.1.as_str());
        let ys = chars_of(y.1.as_str());
        if lex_less(xs.as_slice(), ys.as_slice()) {
            proof {
                lemma_lex_irreflexive(x.1@);
            }
            return true;
        }
        if lex_less(ys.as_slice(), xs.as_slice()) {
            proof {
                lemma_lex_irreflexive(x.1@);
            }
            return false;
        }
        proof {
            lemma_lex_total(x.1@, y.1@);
            assert(pa.skip(i as int).drop_first() =~= pa.skip(i + 1));
            assert(pb.skip(i as int).drop_first() =~= pb.skip(i + 1));
        }
        i = i + 1;
    }
    proof {
        if i == b.len() {
            assert(pb.skip(i as int).len() == 0);
        } else {
            assert(pa.skip(i as int).len() == 0);
        }
    }
    i < b.len()
}

} // verus!
