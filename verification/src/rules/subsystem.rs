//! One broad finding per X-Plane channel that logged warnings or errors.
use vstd::prelude::*;

use crate::i18n::Locale;
use crate::model::{strs_of, Confidence, Finding, FindingView, Severity};
use crate::rules::channels::{
    channel_severity, channel_suggestion, error_channel, parse_xplane_error_channel,
    xplane_channel_severity, xplane_channel_suggestion,
};
use crate::rules::evidence::{
    evidence_line, evidence_text, push_extra_evidence, slice_eq, with_extra,
};
use crate::text::{push_chars, push_str, seqs_of, string_from};

verus! {

/// Strict lexicographic order on characters (the order of `String`).
pub open spec fn lex_lt(a: Seq<char>, b: Seq<char>) -> bool
    decreases a.len(),
{
    if b.len() == 0 {
        false
    } else if a.len() == 0 {
        true
    } else if a[0] != b[0] {
        a[0] < b[0]
    } else {
        lex_lt(a.drop_first(), b.drop_first())
    }
}

pub fn lex_less(a: &[char], b: &[char]) -> (r: bool)
    ensures
        r == lex_lt(a@, b@),
{
    let mut i: usize = 0;
    assert(a@.skip(0) =~= a@);
    assert(b@.skip(0) =~= b@);
    while i < a.len() && i < b.len() && a[i] == b[i]
        invariant
            i <= a.len(),
            i <= b.len(),
            lex_lt(a@, b@) == lex_lt(a@.skip(i as int), b@.skip(i as int)),
        decreases a.len() - i,
    {
        assert(a@.skip(i as int).drop_first() =~= a@.skip(i + 1));
        assert(b@.skip(i as int).drop_first() =~= b@.skip(i + 1));
        i = i + 1;
    }
    if i == b.len() {
        assert(b@.skip(i as int).len() == 0);
        return false;
    }
    if i == a.len() {
        assert(a@.skip(i as int).len() == 0);
        return true;
    }
    assert(a@.skip(i as int)[0] == a@[i as int]);
    assert(b@.skip(i as int)[0] == b@[i as int]);
    a[i] < b[i]
}

/// The finding for a channel before any of its lines is counted.
pub open spec fn channel_finding(ch: Seq<char>, idx: nat, line: Seq<char>, loc: Locale) -> FindingView {
    FindingView {
        severity: channel_severity(ch),
        confidence: Confidence::High,
        kind: "xplane_subsystem_errors"@,
        title: "X-Plane subsystem "@ + ch + " messages"@,
        evidence: evidence_text(idx, line),
        occurrences: 0,
        extra_evidence: seq![],
        explanation: "X-Plane logged warning/error lines on the "@ + ch
            + " channel. This is a broad structural scan of X-Plane's own log format, so it can catch real issues even when no specific keyword rule matches."@,
        suggestion: channel_suggestion(ch, loc),
    }
}

/// Counts one more line of a channel.
pub open spec fn count_line(f: FindingView, ev: Seq<char>) -> FindingView {
    let g = FindingView { occurrences: f.occurrences + 1, ..f };
    if g.occurrences > 1 {
        with_extra(g, ev)
    } else {
        g
    }
}

/// Index of the entry for `key`.
pub open spec fn key_index(t: Seq<(Seq<char>, FindingView)>, key: Seq<char>, i: int) -> Option<int>
    decreases t.len() - i,
{
    if i < 0 || i >= t.len() {
        None
    } else if t[i].0 == key {
        Some(i)
    } else {
        key_index(t, key, i + 1)
    }
}

/// Where `key` goes among the sorted entries: before the first greater key.
pub open spec fn insert_pos(t: Seq<(Seq<char>, FindingView)>, key: Seq<char>, i: int) -> int
    decreases t.len() - i,
{
    if i < 0 || i >= t.len() {
        t.len() as int
    } else if lex_lt(key, t[i].0) {
        i
    } else {
        insert_pos(t, key, i + 1)
    }
}

/// The channel table after the line at index `idx`.
pub open spec fn table_step(
    t: Seq<(Seq<char>, FindingView)>,
    idx: nat,
    line: Seq<char>,
    loc: Locale,
) -> Seq<(Seq<char>, FindingView)> {
    match error_channel(line) {
        None => t,
        Some(ch) => {
            let ev = evidence_text(idx, line);
            match key_index(t, ch, 0) {
                Some(i) => t.update(i, (ch, count_line(t[i].1, ev))),
                None => t.insert(
                    insert_pos(t, ch, 0),
                    (ch, count_line(channel_finding(ch, idx, line, loc), ev)),
                ),
            }
        },
    }
}

/// The channel table over the first `n` lines, sorted by channel.
pub open spec fn channel_table(ls: Seq<Seq<char>>, n: nat, loc: Locale) -> Seq<(Seq<char>, FindingView)>
    decreases n,
{
    if n == 0 || n > ls.len() {
        seq![]
    } else {
        table_step(channel_table(ls, (n - 1) as nat, loc), (n - 1) as nat, ls[n - 1], loc)
    }
}

/// One finding per channel, in channel order (`detect_xplane_subsystem_errors`).
pub open spec fn subsystem_findings(ls: Seq<Seq<char>>, loc: Locale) -> Seq<FindingView> {
    channel_table(ls, ls.len(), loc).map_values(|e: (Seq<char>, FindingView)| e.1)
}

pub open spec fn table_view(t: Seq<(Vec<char>, Finding)>) -> Seq<(Seq<char>, FindingView)> {
    t.map_values(|e: (Vec<char>, Finding)| (e.0@, e.1@))
}

fn new_channel_finding(ch: &[char], idx: usize, line: &[char], loc: Locale) -> (r: Finding)
    requires
        idx < usize::MAX,
    ensures
        r@ == channel_finding(ch@, idx as nat, line@, loc),
{
    let mut title = string_from("X-Plane subsystem ");
    push_chars(&mut title, ch);
    push_str(&mut title, " messages");
    let mut explanation = string_from("X-Plane logged warning/error lines on the ");
    push_chars(&mut explanation, ch);
    push_str(
        &mut explanation,
        " channel. This is a broad structural scan of X-Plane's own log format, so it can catch real issues even when no specific keyword rule matches.",
    );
    let r = Finding {
        severity: xplane_channel_severity(ch),
        confidence: Confidence::High,
        kind: string_from("xplane_subsystem_errors"),
        title,
        evidence: evidence_line(idx, line),
        occurrences: 0,
        extra_evidence: Vec::new(),
        explanation,
        suggestion: string_from(xplane_channel_suggestion(ch, loc)),
    };
    assert(strs_of(r.extra_evidence@) =~= seq![]);
    r
}

fn count_line_exec(f: &mut Finding, ev: String)
    requires
        old(f).occurrences < usize::MAX,
    ensures
        final(f)@ == count_line(old(f)@, ev@),
{
    f.occurrences = f.occurrences + 1;
    if f.occurrences > 1 {
        push_extra_evidence(f, ev);
    }
}

/// One finding per channel that logged warnings or errors, ordered by
/// channel; each counts the channel's lines and keeps their first evidence.
pub fn detect_xplane_subsystem_errors(lines: &Vec<Vec<char>>, loc: Locale) -> (r: Vec<Finding>)
    requires
        lines.len() < usize::MAX,
    ensures
        r@.map_values(|f: Finding| f@) == subsystem_findings(seqs_of(lines@), loc),
{
    let ghost ls = seqs_of(lines@);
    let mut table: Vec<(Vec<char>, Finding)> = Vec::new();
    let mut idx: usize = 0;
    while idx < lines.len()
        invariant
            idx <= lines.len() < usize::MAX,
            ls == seqs_of(lines@),
            table_view(table@) == channel_table(ls, idx as nat, loc),
            forall|j: int| 0 <= j < table@.len() ==> table@[j].1.occurrences <= idx,
        decreases lines.len() - idx,
    {
        let line: &[char] = lines[idx].as_slice();
        assert(line@ == ls[idx as int]);
        let ghost t0 = table_view(table@);
        match parse_xplane_error_channel(line) {
            None => {},
            Some(ch) => {
                let ev = evidence_line(idx, line);
                let mut k: usize = 0;
                while k < table.len() && !slice_eq(&table[k].0, &ch)
                    invariant
                        k <= table.len(),
                        t0 == table_view(table@),
                        key_index(t0, ch@, 0) == key_index(t0, ch@, k as int),
                    decreases table.len() - k,
                {
                    k = k + 1;
                }
                if k < table.len() {
                    assert(key_index(t0, ch@, 0) == Some(k as int));
                    let mut entry = table.remove(k);
                    count_line_exec(&mut entry.1, ev);
                    table.insert(k, entry);
                    assert(table_view(table@) =~= t0.update(k as int, (ch@, count_line(t0[k as int].1, ev@))));
                } else {
                    assert(key_index(t0, ch@, 0) is None);
                    let mut pos: usize = 0;
                    while pos < table.len() && !lex_less(&ch, &table[pos].0)
                        invariant
                            pos <= table.len(),
                            t0 == table_view(table@),
                            insert_pos(t0, ch@, 0) == insert_pos(t0, ch@, pos as int),
                        decreases table.len() - pos,
                    {
                        pos = pos + 1;
                    }
                    let mut f = new_channel_finding(&ch, idx, line, loc);
                    count_line_exec(&mut f, ev);
                    let ghost fv = f@;
                    table.insert(pos, (ch, f));
                    assert(table_view(table@) =~= t0.insert(pos as int, (ch@, fv)));
                }
            },
        }
        proof {
            assert(ls.take(idx + 1).len() == idx + 1);
        }
        idx = idx + 1;
    }
    let ghost full = table_view(table@).map_values(|e: (Seq<char>, FindingView)| e.1);
    let mut out: Vec<Finding> = Vec::new();
    while table.len() > 0
        invariant
            full == channel_table(ls, lines.len() as nat, loc).map_values(
                |e: (Seq<char>, FindingView)| e.1,
            ),
            out@.map_values(|f: Finding| f@) + table_view(table@).map_values(
                |e: (Seq<char>, FindingView)| e.1,
            ) == full,
        decreases table.len(),
    {
        let ghost before = out@.map_values(|f: Finding| f@);
        let ghost rest = table_view(table@);
        let entry = table.remove(0);
        assert(table_view(table@) =~= rest.drop_first());
        out.push(entry.1);
        assert(out@.map_values(|f: Finding| f@) =~= before.push(rest[0].1));
        assert(rest.map_values(|e: (Seq<char>, FindingView)| e.1) =~= seq![rest[0].1] + rest.drop_first().map_values(|e: (Seq<char>, FindingView)| e.1));
        assert(before.push(rest[0].1) + rest.drop_first().map_values(|e: (Seq<char>, FindingView)| e.1) =~= before + (seq![rest[0].1] + rest.drop_first().map_values(|e: (Seq<char>, FindingView)| e.1)));
    }
    assert(table_view(table@).map_values(|e: (Seq<char>, FindingView)| e.1) =~= seq![]);
    assert(out@.map_values(|f: Finding| f@) =~= out@.map_values(|f: Finding| f@) + seq![]);
    out
}

} // verus!

verus! {

pub proof fn lemma_key_index_range(t: Seq<(Seq<char>, FindingView)>, key: Seq<char>, i: int)
    ensures
        key_index(t, key, i) matches Some(k) ==> 0 <= k < t.len() && t[k].0 == key,
    decreases t.len() - i,
{
    if 0 <= i < t.len() && t[i].0 != key {
        lemma_key_index_range(t, key, i + 1);
    }
}

pub proof fn lemma_insert_pos_range(t: Seq<(Seq<char>, FindingView)>, key: Seq<char>, i: int)
    requires
        0 <= i,
    ensures
        0 <= insert_pos(t, key, i) <= t.len(),
    decreases t.len() - i,
{
    if i < t.len() && !lex_lt(key, t[i].0) {
        lemma_insert_pos_range(t, key, i + 1);
    }
}

/// Occurrences counted in a channel table.
pub open spec fn table_occ(t: Seq<(Seq<char>, FindingView)>) -> nat {
    crate::rules::merge::total_occ(t.map_values(|e: (Seq<char>, FindingView)| e.1))
}

/// A channel table over `n` lines counts at most `n` lines.
pub proof fn lemma_table_occ(ls: Seq<Seq<char>>, n: nat, loc: Locale)
    requires
        n <= ls.len(),
    ensures
        table_occ(channel_table(ls, n, loc)) <= n,
    decreases n,
{
    if n > 0 {
        lemma_table_occ(ls, (n - 1) as nat, loc);
        let t = channel_table(ls, (n - 1) as nat, loc);
        let m = t.map_values(|e: (Seq<char>, FindingView)| e.1);
        let line = ls[n - 1];
        match error_channel(line) {
            None => {},
            Some(ch) => {
                let ev = evidence_text((n - 1) as nat, line);
                lemma_key_index_range(t, ch, 0);
                match key_index(t, ch, 0) {
                    Some(i) => {
                        let nv = count_line(t[i].1, ev);
                        assert(t.update(i, (ch, nv)).map_values(|e: (Seq<char>, FindingView)| e.1)
                            =~= m.update(i, nv));
                        crate::rules::merge::lemma_total_occ_update_eq(m, i, nv);
                    },
                    None => {
                        lemma_insert_pos_range(t, ch, 0);
                        let p = insert_pos(t, ch, 0);
                        let nv = count_line(channel_finding(ch, (n - 1) as nat, line, loc), ev);
                        assert(t.insert(p, (ch, nv)).map_values(|e: (Seq<char>, FindingView)| e.1)
                            =~= m.insert(p, nv));
                        crate::rules::merge::lemma_total_occ_insert(m, p, nv);
                    },
                }
            },
        }
    }
}

/// The channel findings count at most one occurrence per line.
pub proof fn lemma_subsystem_occ(ls: Seq<Seq<char>>, loc: Locale)
    ensures
        crate::rules::merge::total_occ(subsystem_findings(ls, loc)) <= ls.len(),
{
    lemma_table_occ(ls, ls.len(), loc);
}

} // verus!
