//! Counting keys, kept in the order of their text (as a `BTreeMap` would).
use vstd::prelude::*;

use crate::rules::subsystem::{lex_less, lex_lt};

verus! {

/// Index of the entry for `key`, from index `i` on.
pub open spec fn tally_index<V>(t: Seq<(Seq<char>, V)>, key: Seq<char>, i: int) -> Option<int>
    decreases t.len() - i,
{
    if i < 0 || i >= t.len() {
        None
    } else if t[i].0 == key {
        Some(i)
    } else {
        tally_index(t, key, i + 1)
    }
}

/// Where `key` goes among the entries: before the first greater key.
pub open spec fn tally_pos<V>(t: Seq<(Seq<char>, V)>, key: Seq<char>, i: int) -> int
    decreases t.len() - i,
{
    if i < 0 || i >= t.len() {
        t.len() as int
    } else if lex_lt(key, t[i].0) {
        i
    } else {
        tally_pos(t, key, i + 1)
    }
}

/// Counts one more `key`.
pub open spec fn tally_add(t: Seq<(Seq<char>, nat)>, key: Seq<char>) -> Seq<(Seq<char>, nat)> {
    match tally_index(t, key, 0) {
        Some(i) => t.update(i, (key, t[i].1 + 1)),
        None => t.insert(tally_pos(t, key, 0), (key, 1nat)),
    }
}

/// Each distinct key with how often it occurs.
pub open spec fn tally(keys: Seq<Seq<char>>) -> Seq<(Seq<char>, nat)>
    decreases keys.len(),
{
    if keys.len() == 0 {
        seq![]
    } else {
        tally_add(tally(keys.drop_last()), keys.last())
    }
}

pub open spec fn tally_view(t: Seq<(Vec<char>, usize)>) -> Seq<(Seq<char>, nat)> {
    t.map_values(|e: (Vec<char>, usize)| (e.0@, e.1 as nat))
}

pub proof fn lemma_tally_index<V>(t: Seq<(Seq<char>, V)>, key: Seq<char>, i: int)
    requires
        0 <= i,
    ensures
        match tally_index(t, key, i) {
            Some(k) => i <= k < t.len() && t[k].0 == key,
            None => forall|j: int| i <= j < t.len() ==> t[j].0 != key,
        },
    decreases t.len() - i,
{
    if i < t.len() && t[i].0 != key {
        lemma_tally_index(t, key, i + 1);
    }
}

pub proof fn lemma_tally_pos<V>(t: Seq<(Seq<char>, V)>, key: Seq<char>, i: int)
    requires
        0 <= i <= t.len(),
    ensures
        i <= tally_pos(t, key, i) <= t.len(),
    decreases t.len() - i,
{
    if i < t.len() && !lex_lt(key, t[i].0) {
        lemma_tally_pos(t, key, i + 1);
    }
}

/// No count exceeds the number of keys counted.
pub proof fn lemma_tally_bound(keys: Seq<Seq<char>>)
    ensures
        forall|j: int| 0 <= j < tally(keys).len() ==> #[trigger] tally(keys)[j].1 <= keys.len(),
        tally(keys).len() <= keys.len(),
    decreases keys.len(),
{
    if keys.len() > 0 {
        let prev = tally(keys.drop_last());
        lemma_tally_bound(keys.drop_last());
        lemma_tally_index(prev, keys.last(), 0);
        lemma_tally_pos(prev, keys.last(), 0);
    }
}

/// Adds one `key` to a table kept like [`tally`].
pub fn tally_push(t: &mut Vec<(Vec<char>, usize)>, key: Vec<char>)
    requires
        forall|j: int| 0 <= j < old(t)@.len() ==> #[trigger] old(t)@[j].1 < usize::MAX,
    ensures
        tally_view(final(t)@) == tally_add(tally_view(old(t)@), key@),
{
    let ghost tv = tally_view(t@);
    let mut i: usize = 0;
    while i < t.len()
        invariant
            i <= t.len(),
            tv == tally_view(t@),
            tv == tally_view(old(t)@),
            forall|j: int| 0 <= j < t@.len() ==> #[trigger] t@[j].1 < usize::MAX,
            tally_index(tv, key@, 0) == tally_index(tv, key@, i as int),
        decreases t.len() - i,
    {
        if crate::rules::evidence::slice_eq(t[i].0.as_slice(), key.as_slice()) {
            let c = t[i].1;
            assert(tv[i as int].0 == key@);
            assert(tally_index(tv, key@, i as int) == Some(i as int));
            let ghost kv = key@;
            t.set(i, (key, c + 1));
            assert(tally_view(t@) =~= tv.update(i as int, (kv, tv[i as int].1 + 1)));
            return;
        }
        i = i + 1;
    }
    let mut p: usize = 0;
    while p < t.len() && !lex_less(key.as_slice(), t[p].0.as_slice())
        invariant
            p <= t.len(),
            tv == tally_view(t@),
            tv == tally_view(old(t)@),
            tally_index(tv, key@, 0) is None,
            tally_pos(tv, key@, 0) == tally_pos(tv, key@, p as int),
        decreases t.len() - p,
    {
        p = p + 1;
    }
    let ghost kv = key@;
    t.insert(p, (key, 1));
    assert(tally_view(t@) =~= tv.insert(p as int, (kv, 1nat)));
}

/// The keys are in strictly increasing text order (so each occurs once).
pub open spec fn keys_in_order<V>(t: Seq<(Seq<char>, V)>) -> bool {
    forall|i: int, j: int| 0 <= i < j < t.len() ==> lex_lt(#[trigger] t[i].0, #[trigger] t[j].0)
}

proof fn lemma_tally_pos_props<V>(t: Seq<(Seq<char>, V)>, key: Seq<char>, i: int)
    requires
        0 <= i <= t.len(),
    ensures
        forall|j: int| i <= j < tally_pos(t, key, i) ==> !lex_lt(key, #[trigger] t[j].0),
        tally_pos(t, key, i) < t.len() ==> lex_lt(key, t[tally_pos(t, key, i)].0),
    decreases t.len() - i,
{
    if i < t.len() && !lex_lt(key, t[i].0) {
        lemma_tally_pos_props(t, key, i + 1);
    }
}

/// Inserting a new key where [`tally_pos`] puts it keeps the keys in order.
pub proof fn lemma_insert_in_order<V>(t: Seq<(Seq<char>, V)>, key: Seq<char>, v: V)
    requires
        keys_in_order(t),
        tally_index(t, key, 0) is None,
    ensures
        keys_in_order(t.insert(tally_pos(t, key, 0), (key, v))),
{
    lemma_tally_index(t, key, 0);
    lemma_tally_pos(t, key, 0);
    lemma_tally_pos_props(t, key, 0);
    let p = tally_pos(t, key, 0);
    let n = t.insert(p, (key, v));
    assert forall|j: int| 0 <= j < p implies lex_lt(#[trigger] t[j].0, key) by {
        crate::order::lemma_lex_total(t[j].0, key);
    }
    assert forall|j: int| p <= j < t.len() implies lex_lt(key, #[trigger] t[j].0) by {
        if j > p {
            crate::order::lemma_lex_trans(key, t[p].0, t[j].0);
        }
    }
    assert forall|i: int, j: int| 0 <= i < j < n.len() implies lex_lt(#[trigger] n[i].0, #[trigger] n[j].0) by {
        if j < p {
            assert(n[i] == t[i] && n[j] == t[j]);
        } else if j == p {
            assert(n[i] == t[i]);
        } else if i == p {
            assert(n[j] == t[j - 1]);
        } else if i < p {
            assert(n[i] == t[i] && n[j] == t[j - 1]);
            crate::order::lemma_lex_trans(t[i].0, key, t[j - 1].0);
        } else {
            assert(n[i] == t[i - 1] && n[j] == t[j - 1]);
        }
    }
}

/// Counting a key keeps the keys in order.
pub proof fn lemma_tally_add_in_order(t: Seq<(Seq<char>, nat)>, key: Seq<char>)
    requires
        keys_in_order(t),
    ensures
        keys_in_order(tally_add(t, key)),
{
    lemma_tally_index(t, key, 0);
    match tally_index(t, key, 0) {
        Some(i) => {
            let u = t.update(i, (key, t[i].1 + 1));
            assert forall|a: int, b: int| 0 <= a < b < u.len() implies lex_lt(#[trigger] u[a].0, #[trigger] u[b].0) by {
                assert(u[a].0 == t[a].0 && u[b].0 == t[b].0);
            }
        },
        None => {
            lemma_insert_in_order(t, key, 1nat);
        },
    }
}

/// The counted keys come in strictly increasing text order: each distinct
/// key once, as a `BTreeMap` lists them.
pub proof fn law_tally_in_key_order(keys: Seq<Seq<char>>)
    ensures
        keys_in_order(tally(keys)),
    decreases keys.len(),
{
    if keys.len() > 0 {
        law_tally_in_key_order(keys.drop_last());
        lemma_tally_add_in_order(tally(keys.drop_last()), keys.last());
    }
}

/// How many times `key` occurs among the first `n` keys.
pub open spec fn count_of(keys: Seq<Seq<char>>, key: Seq<char>) -> nat
    decreases keys.len(),
{
    if keys.len() == 0 {
        0
    } else {
        count_of(keys.drop_last(), key) + if keys.last() == key {
            1nat
        } else {
            0nat
        }
    }
}

/// Each key is counted exactly as often as it occurs, and keys that do not
/// occur are not listed.
pub proof fn law_tally_counts(keys: Seq<Seq<char>>)
    ensures
        forall|i: int| 0 <= i < tally(keys).len() ==> #[trigger] tally(keys)[i].1 == count_of(keys, tally(keys)[i].0) && tally(keys)[i].1 >= 1,
        forall|k: Seq<char>| count_of(keys, k) > 0 ==> exists|i: int| 0 <= i < tally(keys).len() && #[trigger] tally(keys)[i].0 == k,
    decreases keys.len(),
{
    if keys.len() > 0 {
        let prev = tally(keys.drop_last());
        let key = keys.last();
        law_tally_counts(keys.drop_last());
        law_tally_in_key_order(keys.drop_last());
        lemma_tally_index(prev, key, 0);
        lemma_tally_pos(prev, key, 0);
        let cur = tally(keys);
        match tally_index(prev, key, 0) {
            Some(j) => {
                assert forall|i: int| 0 <= i < cur.len() implies #[trigger] cur[i].1 == count_of(keys, cur[i].0) && cur[i].1 >= 1 by {
                    if i != j {
                        assert(cur[i] == prev[i]);
                        assert(prev[i].0 != key) by {
                            if prev[i].0 == key {
                                crate::order::lemma_lex_irreflexive(key);
                                if i < j {
                                    assert(lex_lt(prev[i].0, prev[j].0));
                                } else {
                                    assert(lex_lt(prev[j].0, prev[i].0));
                                }
                            }
                        }
                    }
                }
                assert forall|k: Seq<char>| count_of(keys, k) > 0 implies exists|i: int| 0 <= i < cur.len() && #[trigger] cur[i].0 == k by {
                    if k == key {
                        assert(cur[j].0 == k);
                    } else {
                        assert(count_of(keys.drop_last(), k) > 0);
                        let i = choose|i: int| 0 <= i < prev.len() && #[trigger] prev[i].0 == k;
                        assert(cur[i].0 == k);
                    }
                }
            },
            None => {
                let p = tally_pos(prev, key, 0);
                assert(count_of(keys.drop_last(), key) == 0) by {
                    if count_of(keys.drop_last(), key) > 0 {
                        let i = choose|i: int| 0 <= i < prev.len() && #[trigger] prev[i].0 == key;
                    }
                }
                assert forall|i: int| 0 <= i < cur.len() implies #[trigger] cur[i].1 == count_of(keys, cur[i].0) && cur[i].1 >= 1 by {
                    if i < p {
                        assert(cur[i] == prev[i]);
                    } else if i > p {
                        assert(cur[i] == prev[i - 1]);
                    }
                }
                assert forall|k: Seq<char>| count_of(keys, k) > 0 implies exists|i: int| 0 <= i < cur.len() && #[trigger] cur[i].0 == k by {
                    if k == key {
                        assert(cur[p].0 == k);
                    } else {
                        assert(count_of(keys.drop_last(), k) > 0);
                        let i = choose|i: int| 0 <= i < prev.len() && #[trigger] prev[i].0 == k;
                        if i < p {
                            assert(cur[i].0 == k);
                        } else {
                            assert(cur[i + 1].0 == k);
                        }
                    }
                }
            },
        }
    }
}

} // verus!
