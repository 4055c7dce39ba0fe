//! What holds of the analysis as a whole: how findings merge, what moving
//! findings to the background may change, which findings a crash marker or a
//! macOS log decides, that the language changes only texts, and the order and
//! distinctness of what the scans list.
use vstd::prelude::*;

use crate::model::{severity_rank, Confidence, FindingView, Severity};
use crate::rules::analyze::{capped, lemma_capped_concat, lemma_opt_occ, opt_seq, raw_findings};
use crate::rules::context::{
    lemma_abrupt_termination_once, lemma_early_silent_crash_once, lemma_last_loaded_context_once,
    lemma_pre_crash_context_once, lemma_scenery_load_crash_context_once, spec_abrupt_termination,
    spec_early_silent_crash, spec_last_loaded_context, spec_pre_crash_context,
    spec_scenery_load_crash_context,
};
use crate::rules::evidence::{with_extra, MAX_EXTRA_EVIDENCE};
use crate::rules::merge::{
    dedupe, dedupe_key, dedupe_state, key_pos, lemma_merge_occ, merge, suppress, suppress_one,
    total_occ, with_extras,
};

verus! {

#[verifier::spinoff_prover]
proof fn lemma_with_extras_fields(e: FindingView, xs: Seq<Seq<char>>)
    ensures
        with_extras(e, xs).kind == e.kind,
        with_extras(e, xs).title == e.title,
        with_extras(e, xs).severity == e.severity,
        with_extras(e, xs).occurrences == e.occurrences,
        e.extra_evidence.len() <= MAX_EXTRA_EVIDENCE ==> with_extras(e, xs).extra_evidence.len()
            <= MAX_EXTRA_EVIDENCE,
    decreases xs.len(),
{
    if xs.len() > 0 {
        lemma_with_extras_fields(with_extra(e, xs[0]), xs.drop_first());
    }
}

/// Merging keeps the kind of the first finding and the title of one of the two.
#[verifier::spinoff_prover]
proof fn lemma_merge_fields(e: FindingView, f: FindingView)
    ensures
        merge(e, f).kind == e.kind,
        merge(e, f).title == e.title || merge(e, f).title == f.title,
        e.extra_evidence.len() <= MAX_EXTRA_EVIDENCE ==> merge(e, f).extra_evidence.len()
            <= MAX_EXTRA_EVIDENCE,
        severity_rank(merge(e, f).severity) == if severity_rank(f.severity) < severity_rank(
            e.severity,
        ) {
            severity_rank(f.severity)
        } else {
            severity_rank(e.severity)
        },
{
    let e1 = if severity_rank(f.severity) < severity_rank(e.severity) {
        with_extra(
            FindingView {
                evidence: f.evidence,
                severity: f.severity,
                confidence: f.confidence,
                title: f.title,
                explanation: f.explanation,
                suggestion: f.suggestion,
                ..e
            },
            e.evidence,
        )
    } else {
        with_extra(e, f.evidence)
    };
    lemma_with_extras_fields(
        FindingView { occurrences: e1.occurrences + f.occurrences, ..e1 },
        f.extra_evidence,
    );
}

/// Merging two findings counts the occurrences of both, and the merged
/// finding has the more urgent severity of the two.
#[verifier::spinoff_prover]
pub proof fn law_merge_counts_both_and_keeps_most_urgent(e: FindingView, f: FindingView)
    ensures
        merge(e, f).occurrences == e.occurrences + f.occurrences,
        severity_rank(merge(e, f).severity) <= severity_rank(e.severity),
        severity_rank(merge(e, f).severity) <= severity_rank(f.severity),
        merge(e, f).severity == e.severity || merge(e, f).severity == f.severity,
{
    lemma_merge_occ(e, f);
    lemma_merge_fields(e, f);
    if severity_rank(f.severity) < severity_rank(e.severity) {
        assert(merge(e, f).severity == f.severity) by {
            assert(severity_rank(merge(e, f).severity) == severity_rank(f.severity));
        }
    } else {
        assert(merge(e, f).severity == e.severity) by {
            assert(severity_rank(merge(e, f).severity) == severity_rank(e.severity));
        }
    }
}

#[verifier::spinoff_prover]
proof fn lemma_key_pos(keys: Seq<Seq<char>>, k: Seq<char>, i: int)
    requires
        0 <= i,
    ensures
        match key_pos(keys, k, i) {
            Some(j) => i <= j < keys.len() && keys[j] == k,
            None => forall|j: int| i <= j < keys.len() ==> keys[j] != k,
        },
    decreases keys.len() - i,
{
    if i < keys.len() && keys[i] != k {
        lemma_key_pos(keys, k, i + 1);
    }
}

/// What holds of the merging after the first `n` findings: as many keys
/// as merged findings, and their occurrences those of the findings so far.
#[verifier::spinoff_prover]
proof fn lemma_dedupe_state(fs: Seq<FindingView>, n: nat)
    requires
        n <= fs.len(),
    ensures
        dedupe_state(fs, n).0.len() == dedupe_state(fs, n).1.len(),
        total_occ(dedupe_state(fs, n).1) == total_occ(fs.take(n as int)),
        (forall|i: int| 0 <= i < fs.len() ==> (#[trigger] fs[i]).extra_evidence.len() <= MAX_EXTRA_EVIDENCE)
            ==> forall|i: int|
            0 <= i < dedupe_state(fs, n).1.len() ==> (#[trigger] dedupe_state(fs, n).1[i]).extra_evidence.len()
                <= MAX_EXTRA_EVIDENCE,
    decreases n,
{
    if n == 0 {
        assert(fs.take(0) =~= Seq::<FindingView>::empty());
    } else {
        let m = (n - 1) as nat;
        lemma_dedupe_state(fs, m);
        let prev = dedupe_state(fs, m);
        let f = fs[m as int];
        let k = dedupe_key(f);
        lemma_key_pos(prev.0, k, 0);
        assert(fs.take(n as int).drop_last() =~= fs.take(m as int));
        match key_pos(prev.0, k, 0) {
            Some(j) => {
                lemma_merge_occ(prev.1[j], f);
                lemma_merge_fields(prev.1[j], f);
                lemma_total_occ_update(prev.1, j, merge(prev.1[j], f));
            },
            None => {
                assert(prev.1.push(f).drop_last() =~= prev.1);
            },
        }
    }
}

#[verifier::spinoff_prover]
proof fn lemma_total_occ_update(fs: Seq<FindingView>, j: int, x: FindingView)
    requires
        0 <= j < fs.len(),
    ensures
        total_occ(fs.update(j, x)) + fs[j].occurrences == total_occ(fs) + x.occurrences,
    decreases fs.len(),
{
    if j == fs.len() - 1 {
        assert(fs.update(j, x).drop_last() =~= fs.drop_last());
    } else {
        lemma_total_occ_update(fs.drop_last(), j, x);
        assert(fs.update(j, x).drop_last() =~= fs.drop_last().update(j, x));
    }
}

/// Merging loses no occurrence: the merged findings count as many
/// occurrences as the findings they were merged from.
#[verifier::spinoff_prover]
pub proof fn law_dedupe_keeps_occurrences(fs: Seq<FindingView>)
    ensures
        total_occ(dedupe(fs)) == total_occ(fs),
{
    lemma_dedupe_state(fs, fs.len());
    assert(fs.take(fs.len() as int) =~= fs);
}

/// After merging, no finding has more than four further evidence lines
/// (five in all), when none had more before.
#[verifier::spinoff_prover]
pub proof fn law_dedupe_caps_evidence(fs: Seq<FindingView>)
    requires
        forall|i: int| 0 <= i < fs.len() ==> (#[trigger] fs[i]).extra_evidence.len() <= MAX_EXTRA_EVIDENCE,
    ensures
        forall|i: int|
            0 <= i < dedupe(fs).len() ==> (#[trigger] dedupe(fs)[i]).extra_evidence.len() <= MAX_EXTRA_EVIDENCE,
{
    lemma_dedupe_state(fs, fs.len());
}

/// Findings whose kinds are those of the rules: two findings of different
/// kinds never share a merge key.
pub open spec fn keys_name_kinds(fs: Seq<FindingView>) -> bool {
    forall|i: int, j: int|
        0 <= i < fs.len() && 0 <= j < fs.len() && dedupe_key(#[trigger] fs[i]) == dedupe_key(
            #[trigger] fs[j],
        ) ==> fs[i].kind == fs[j].kind
}

#[verifier::spinoff_prover]
proof fn lemma_key_stable(e: FindingView, f: FindingView)
    requires
        dedupe_key(e) == dedupe_key(f),
        e.kind == f.kind,
    ensures
        dedupe_key(merge(e, f)) == dedupe_key(e),
{
    lemma_merge_fields(e, f);
    if e.kind == "xplane_subsystem_errors"@ || e.kind == "third_party_plugin_error"@ {
        let p = e.kind + seq![':'];
        assert(dedupe_key(e) == p + e.title);
        assert(dedupe_key(f) == p + f.title);
        assert(e.title =~= (p + e.title).skip(p.len() as int));
        assert(f.title =~= (p + f.title).skip(p.len() as int));
    }
}

#[verifier::spinoff_prover]
proof fn lemma_dedupe_keys(fs: Seq<FindingView>, n: nat)
    requires
        n <= fs.len(),
        keys_name_kinds(fs),
    ensures
        dedupe_state(fs, n).0.len() == dedupe_state(fs, n).1.len(),
        forall|i: int|
            0 <= i < dedupe_state(fs, n).0.len() ==> #[trigger] dedupe_state(fs, n).0[i] == dedupe_key(
                dedupe_state(fs, n).1[i],
            ),
        forall|i: int, j: int|
            0 <= i < j < dedupe_state(fs, n).0.len() ==> #[trigger] dedupe_state(fs, n).0[i]
                != #[trigger] dedupe_state(fs, n).0[j],
        forall|i: int|
            0 <= i < dedupe_state(fs, n).1.len() ==> exists|a: int|
                0 <= a < n && #[trigger] fs[a].kind == (#[trigger] dedupe_state(fs, n).1[i]).kind
                    && dedupe_key(fs[a]) == dedupe_state(fs, n).0[i],
    decreases n,
{
    if n > 0 {
        let m = (n - 1) as nat;
        lemma_dedupe_keys(fs, m);
        lemma_dedupe_state(fs, m);
        let prev = dedupe_state(fs, m);
        let f = fs[m as int];
        let k = dedupe_key(f);
        lemma_key_pos(prev.0, k, 0);
        let cur = dedupe_state(fs, n);
        match key_pos(prev.0, k, 0) {
            Some(j) => {
                let a = choose|a: int|
                    0 <= a < m && #[trigger] fs[a].kind == (#[trigger] prev.1[j]).kind && dedupe_key(
                        fs[a],
                    ) == prev.0[j];
                assert(fs[a].kind == f.kind);
                lemma_key_stable(prev.1[j], f);
                lemma_merge_fields(prev.1[j], f);
                assert forall|i: int| 0 <= i < cur.1.len() implies exists|b: int|
                    0 <= b < n && #[trigger] fs[b].kind == (#[trigger] cur.1[i]).kind && dedupe_key(
                        fs[b],
                    ) == cur.0[i] by {
                    if i != j {
                        let b = choose|b: int|
                            0 <= b < m && #[trigger] fs[b].kind == (#[trigger] prev.1[i]).kind
                                && dedupe_key(fs[b]) == prev.0[i];
                        assert(fs[b].kind == cur.1[i].kind);
                    } else {
                        assert(fs[a].kind == cur.1[i].kind);
                    }
                }
            },
            None => {
                assert forall|i: int| 0 <= i < cur.1.len() implies exists|b: int|
                    0 <= b < n && #[trigger] fs[b].kind == (#[trigger] cur.1[i]).kind && dedupe_key(
                        fs[b],
                    ) == cur.0[i] by {
                    if i < prev.1.len() {
                        let b = choose|b: int|
                            0 <= b < m && #[trigger] fs[b].kind == (#[trigger] prev.1[i]).kind
                                && dedupe_key(fs[b]) == prev.0[i];
                        assert(fs[b].kind == cur.1[i].kind);
                    } else {
                        assert(fs[m as int].kind == cur.1[i].kind);
                    }
                }
            },
        }
    }
}

/// Merging leaves one finding per merge key, when findings of different
/// kinds never share a key (as with the kinds the rules give).
#[verifier::spinoff_prover]
pub proof fn law_dedupe_one_finding_per_key(fs: Seq<FindingView>)
    requires
        keys_name_kinds(fs),
    ensures
        forall|i: int, j: int|
            0 <= i < j < dedupe(fs).len() ==> dedupe_key(#[trigger] dedupe(fs)[i]) != dedupe_key(
                #[trigger] dedupe(fs)[j],
            ),
{
    lemma_dedupe_keys(fs, fs.len());
    let st = dedupe_state(fs, fs.len());
    assert forall|i: int, j: int| 0 <= i < j < dedupe(fs).len() implies dedupe_key(
        #[trigger] dedupe(fs)[i],
    ) != dedupe_key(#[trigger] dedupe(fs)[j]) by {
        assert(st.0[i] == dedupe_key(st.1[i]));
        assert(st.0[j] == dedupe_key(st.1[j]));
        assert(st.0[i] != st.0[j]);
    }
}

/// Moving findings to the background adds, drops and reorders nothing; it
/// changes only channel findings (`xplane_subsystem_errors`), and those only
/// to severity `Info` with confidence `Low`.
#[verifier::spinoff_prover]
pub proof fn law_suppress_only_demotes_channel_findings(fs: Seq<FindingView>)
    ensures
        suppress(fs).len() == fs.len(),
        forall|i: int|
            0 <= i < fs.len() ==> {
                let g = #[trigger] suppress(fs)[i];
                let f = fs[i];
                ||| g == f
                ||| (f.kind == "xplane_subsystem_errors"@ && g == FindingView {
                    severity: Severity::Info,
                    confidence: Confidence::Low,
                    ..f
                })
            },
{
}

#[verifier::spinoff_prover]
proof fn lemma_subsystem_positions(t: Seq<(Seq<char>, FindingView)>, key: Seq<char>, i: int)
    ensures
        crate::rules::subsystem::key_index(t, key, i) == crate::tally::tally_index(t, key, i),
        crate::rules::subsystem::insert_pos(t, key, i) == crate::tally::tally_pos(t, key, i),
    decreases t.len() - i,
{
    if 0 <= i < t.len() {
        lemma_subsystem_positions(t, key, i + 1);
    }
}

/// The channel findings come one per channel, in the text order of the
/// channel names (as the `BTreeMap` of channels lists them).
#[verifier::spinoff_prover]
pub proof fn law_subsystem_channels_in_order(ls: Seq<Seq<char>>, n: nat, loc: crate::i18n::Locale)
    ensures
        crate::tally::keys_in_order(crate::rules::subsystem::channel_table(ls, n, loc)),
    decreases n,
{
    if n > 0 && n <= ls.len() {
        let m = (n - 1) as nat;
        law_subsystem_channels_in_order(ls, m, loc);
        let t = crate::rules::subsystem::channel_table(ls, m, loc);
        let line = ls[m as int];
        match crate::rules::channels::error_channel(line) {
            None => {},
            Some(ch) => {
                lemma_subsystem_positions(t, ch, 0);
                crate::tally::lemma_tally_index(t, ch, 0);
                match crate::rules::subsystem::key_index(t, ch, 0) {
                    Some(i) => {
                        let u = crate::rules::subsystem::table_step(t, m, line, loc);
                        assert forall|a: int, b: int| 0 <= a < b < u.len() implies crate::rules::subsystem::lex_lt(
                            #[trigger] u[a].0,
                            #[trigger] u[b].0,
                        ) by {
                            assert(u[a].0 == t[a].0 && u[b].0 == t[b].0);
                        }
                    },
                    None => {
                        let ev = crate::rules::evidence::evidence_text(m, line);
                        crate::tally::lemma_insert_in_order(
                            t,
                            ch,
                            crate::rules::subsystem::count_line(
                                crate::rules::subsystem::channel_finding(ch, m, line, loc),
                                ev,
                            ),
                        );
                    },
                }
            },
        }
    }
}

/// The groups of plugin folder names that differ only by ASCII case come in
/// the text order of their lower-cased names, each once.
#[verifier::spinoff_prover]
pub proof fn law_plugin_groups_in_order(names: Seq<Seq<char>>)
    ensures
        crate::tally::keys_in_order(crate::plugin_scan::name_groups(names)),
    decreases names.len(),
{
    if names.len() > 0 {
        law_plugin_groups_in_order(names.drop_last());
        let t = crate::plugin_scan::name_groups(names.drop_last());
        let name = names.last();
        let key = crate::text::lower(name);
        crate::tally::lemma_tally_index(t, key, 0);
        match crate::tally::tally_index(t, key, 0) {
            Some(i) => {
                let u = t.update(i, (key, t[i].1.push(name)));
                assert forall|a: int, b: int| 0 <= a < b < u.len() implies crate::rules::subsystem::lex_lt(
                    #[trigger] u[a].0,
                    #[trigger] u[b].0,
                ) by {
                    assert(u[a].0 == t[a].0 && u[b].0 == t[b].0);
                }
            },
            None => {
                crate::tally::lemma_insert_in_order(t, key, seq![name]);
            },
        }
    }
}

#[verifier::spinoff_prover]
proof fn lemma_table_capped(ls: Seq<Seq<char>>, n: nat, loc: crate::i18n::Locale)
    ensures
        forall|i: int|
            0 <= i < crate::rules::subsystem::channel_table(ls, n, loc).len() ==> (#[trigger] crate::rules::subsystem::channel_table(
                ls,
                n,
                loc,
            )[i]).1.extra_evidence.len() <= MAX_EXTRA_EVIDENCE,
    decreases n,
{
    if n > 0 && n <= ls.len() {
        let m = (n - 1) as nat;
        lemma_table_capped(ls, m, loc);
        let t = crate::rules::subsystem::channel_table(ls, m, loc);
        let line = ls[m as int];
        match crate::rules::channels::error_channel(line) {
            None => {},
            Some(ch) => {
                lemma_subsystem_positions(t, ch, 0);
                crate::tally::lemma_tally_index(t, ch, 0);
                crate::tally::lemma_tally_pos(t, ch, 0);
                let u = crate::rules::subsystem::table_step(t, m, line, loc);
                assert forall|i: int| 0 <= i < u.len() implies (#[trigger] u[i]).1.extra_evidence.len()
                    <= MAX_EXTRA_EVIDENCE by {
                    match crate::rules::subsystem::key_index(t, ch, 0) {
                        Some(j) => {
                            if i != j {
                                assert(u[i] == t[i]);
                            }
                        },
                        None => {
                            let p = crate::rules::subsystem::insert_pos(t, ch, 0);
                            if i < p {
                                assert(u[i] == t[i]);
                            } else if i > p {
                                assert(u[i] == t[i - 1]);
                            }
                        },
                    }
                }
            },
        }
    }
}

#[verifier::spinoff_prover]
proof fn lemma_lines_capped(ls: Seq<Seq<char>>, n: nat, macos: bool, loc: crate::i18n::Locale)
    ensures
        crate::rules::analyze::capped(crate::rules::analyze::all_line_findings(ls, n, macos, loc)),
    decreases n,
{
    if n > 0 && n <= ls.len() {
        let m = (n - 1) as nat;
        lemma_lines_capped(ls, m, macos, loc);
        crate::rules::analyze::lemma_line_occ(m, ls, macos, loc);
        crate::rules::analyze::lemma_capped_concat(
            crate::rules::analyze::all_line_findings(ls, m, macos, loc),
            crate::rules::analyze::line_findings(m, ls, macos, loc),
        );
    }
}

/// Every finding the analysis of a log reports has at most four further
/// evidence lines: five lines in all, however often it was seen.
#[verifier::spinoff_prover]
pub proof fn law_reported_findings_have_at_most_five_evidence_lines(
    text: Seq<char>,
    loc: crate::i18n::Locale,
)
    ensures
        forall|i: int|
            0 <= i < crate::rules::analyze::log_findings(text, loc).len() ==> (#[trigger] crate::rules::analyze::log_findings(
                text,
                loc,
            )[i]).extra_evidence.len() <= MAX_EXTRA_EVIDENCE,
{
    let ls = crate::text::lines(text);
    let sub = crate::rules::subsystem::subsystem_findings(ls, loc);
    lemma_table_capped(ls, ls.len(), loc);
    assert(capped(sub)) by {
        let t = crate::rules::subsystem::channel_table(ls, ls.len(), loc);
        assert forall|i: int| 0 <= i < sub.len() implies (#[trigger] sub[i]).extra_evidence.len()
            <= MAX_EXTRA_EVIDENCE by {
            assert(sub[i] == t[i].1);
        }
    }
    let macos = crate::rules::analyze::is_macos_log(ls);
    let lf = crate::rules::analyze::all_line_findings(ls, ls.len(), macos, loc);
    lemma_lines_capped(ls, ls.len(), macos, loc);
    lemma_capped_concat(sub, lf);
    let f1 = sub + lf;
    let raw = raw_findings(ls, loc);
    if crate::rules::context::crash_index(ls) is Some || crate::rules::analyze::has_gpu_crash_signal(ls) {
        lemma_scenery_load_crash_context_once(ls, loc);
        lemma_last_loaded_context_once(ls, loc);
        lemma_pre_crash_context_once(ls, loc);
        lemma_opt_occ(spec_scenery_load_crash_context(ls, loc));
        lemma_opt_occ(spec_last_loaded_context(ls, loc));
        lemma_opt_occ(spec_pre_crash_context(ls, loc));
        let a = f1 + opt_seq(spec_scenery_load_crash_context(ls, loc));
        lemma_capped_concat(f1, opt_seq(spec_scenery_load_crash_context(ls, loc)));
        let b = a + opt_seq(spec_last_loaded_context(ls, loc));
        lemma_capped_concat(a, opt_seq(spec_last_loaded_context(ls, loc)));
        let g = b + opt_seq(spec_pre_crash_context(ls, loc));
        lemma_capped_concat(b, opt_seq(spec_pre_crash_context(ls, loc)));
        lemma_early_silent_crash_once(ls, g, loc);
        lemma_opt_occ(spec_early_silent_crash(ls, g, loc));
        lemma_capped_concat(g, opt_seq(spec_early_silent_crash(ls, g, loc)));
    } else {
        lemma_abrupt_termination_once(ls, loc);
        lemma_opt_occ(spec_abrupt_termination(ls, loc));
        lemma_capped_concat(f1, opt_seq(spec_abrupt_termination(ls, loc)));
    }
    assert(capped(raw));
    law_dedupe_caps_evidence(raw);
    let d = dedupe(raw);
    assert forall|i: int| 0 <= i < suppress(d).len() implies (#[trigger] suppress(d)[i]).extra_evidence.len()
        <= MAX_EXTRA_EVIDENCE by {
        assert(suppress(d)[i].extra_evidence == d[i].extra_evidence);
    }
}

/// UUIDs in lower case, each once.
pub open spec fn distinct_lower_uuids(found: Seq<Seq<char>>) -> bool {
    &&& forall|i: int| 0 <= i < found.len() ==> crate::collect::is_uuid(#[trigger] found[i])
    &&& forall|i: int| 0 <= i < found.len() ==> crate::text::lower(#[trigger] found[i]) == found[i]
    &&& forall|i: int, j: int| 0 <= i < j < found.len() ==> #[trigger] found[i] != #[trigger] found[j]
}

#[verifier::spinoff_prover]
proof fn lemma_lower_uuid(u: Seq<char>)
    requires
        crate::collect::is_uuid(u),
    ensures
        crate::collect::is_uuid(crate::text::lower(u)),
        crate::text::lower(crate::text::lower(u)) == crate::text::lower(u),
{
    let l = crate::text::lower(u);
    assert(crate::text::lower(l) =~= l);
}

#[verifier::spinoff_prover]
proof fn lemma_uuid_scan(t: Seq<char>, start: int, found: Seq<Seq<char>>)
    requires
        distinct_lower_uuids(found),
    ensures
        distinct_lower_uuids(crate::collect::uuid_scan(t, start, found)),
    decreases t.len() - start,
{
    match crate::text::find_from(t, crate::collect::uuid_marker(), start) {
        None => {},
        Some(m) => match crate::text::find_from(t, crate::collect::uuid_terminator(), m + 10) {
            None => {},
            Some(e) => if start < e + 5 <= t.len() && m + 10 <= e {
                let u = crate::text::trim(t.subrange(m + 10, e));
                if crate::collect::is_uuid(u) && !found.contains(crate::text::lower(u)) {
                    lemma_lower_uuid(u);
                    let next = found.push(crate::text::lower(u));
                    assert forall|i: int, j: int| 0 <= i < j < next.len() implies #[trigger] next[i]
                        != #[trigger] next[j] by {
                        if j == found.len() {
                            assert(found.contains(found[i]));
                        }
                    }
                    lemma_uuid_scan(t, e + 5, next);
                } else {
                    lemma_uuid_scan(t, e + 5, found);
                }
            },
        },
    }
}

/// The crash UUIDs read from a log are UUIDs, in lower case, each once.
#[verifier::spinoff_prover]
pub proof fn law_crash_uuids_are_distinct_lower_case_uuids(t: Seq<char>)
    ensures
        distinct_lower_uuids(crate::collect::crash_uuids(t)),
{
    lemma_uuid_scan(t, 0, seq![]);
}

/// The candidate installation paths, once each: no two are equal when ASCII
/// case is ignored, and every candidate is among them in some case.
#[verifier::spinoff_prover]
pub proof fn law_detected_paths_are_distinct(ps: Seq<Seq<char>>)
    ensures
        forall|i: int, j: int|
            0 <= i < j < crate::detect::distinct_paths(ps).len() ==> crate::text::lower(
                #[trigger] crate::detect::distinct_paths(ps)[i],
            ) != crate::text::lower(#[trigger] crate::detect::distinct_paths(ps)[j]),
        forall|k: int|
            0 <= k < ps.len() ==> exists|i: int|
                0 <= i < crate::detect::distinct_paths(ps).len() && crate::text::lower(
                    #[trigger] crate::detect::distinct_paths(ps)[i],
                ) == crate::text::lower(#[trigger] ps[k]),
    decreases ps.len(),
{
    if ps.len() > 0 {
        let prev = ps.drop_last();
        law_detected_paths_are_distinct(prev);
        let d = crate::detect::distinct_paths(prev);
        let cur = crate::detect::distinct_paths(ps);
        assert forall|k: int| 0 <= k < ps.len() implies exists|i: int|
            0 <= i < cur.len() && crate::text::lower(#[trigger] cur[i]) == crate::text::lower(
                #[trigger] ps[k],
            ) by {
            if k < prev.len() {
                assert(ps[k] == prev[k]);
                let i = choose|i: int|
                    0 <= i < d.len() && crate::text::lower(#[trigger] d[i]) == crate::text::lower(
                        #[trigger] prev[k],
                    );
                assert(cur[i] == d[i]);
            } else {
                if exists|j: int| 0 <= j < d.len() && crate::text::lower(#[trigger] d[j]) == crate::text::lower(
                    ps.last(),
                ) {
                    let j = choose|j: int|
                        0 <= j < d.len() && crate::text::lower(#[trigger] d[j]) == crate::text::lower(
                            ps.last(),
                        );
                    assert(cur[j] == d[j]);
                } else {
                    assert(cur[d.len() as int] == ps.last());
                }
            }
        }
    }
}

/// The crash UUIDs of the current log and of archived logs, once each: no
/// two matches are equal when ASCII case is ignored, and each UUID found is
/// matched in some case.
#[verifier::spinoff_prover]
pub proof fn law_uuid_matches_are_distinct(c: Seq<crate::collect::MatchView>)
    ensures
        forall|i: int, j: int|
            0 <= i < j < crate::collect::first_of_each(c).len() ==> !crate::collect::same_ignoring_case(
                #[trigger] crate::collect::first_of_each(c)[i].uuid,
                #[trigger] crate::collect::first_of_each(c)[j].uuid,
            ),
    decreases c.len(),
{
    if c.len() > 0 {
        law_uuid_matches_are_distinct(c.drop_last());
    }
}

#[verifier::spinoff_prover]
proof fn lemma_of_severity(fs: Seq<FindingView>, sev: Severity)
    ensures
        forall|i: int|
            0 <= i < crate::report::of_severity(fs, sev).len() ==> (#[trigger] crate::report::of_severity(
                fs,
                sev,
            )[i]).severity == sev,
        crate::report::of_severity(fs, sev).len() <= fs.len(),
    decreases fs.len(),
{
    if fs.len() > 0 {
        lemma_of_severity(fs.drop_last(), sev);
    }
}

#[verifier::spinoff_prover]
proof fn lemma_groups_cover(fs: Seq<FindingView>)
    ensures
        crate::report::of_severity(fs, Severity::High).len() + crate::report::of_severity(
            fs,
            Severity::Medium,
        ).len() + crate::report::of_severity(fs, Severity::Low).len() + crate::report::of_severity(
            fs,
            Severity::Info,
        ).len() == fs.len(),
    decreases fs.len(),
{
    if fs.len() > 0 {
        lemma_groups_cover(fs.drop_last());
    }
}

/// The HTML report shows every finding once: the main problems (high and
/// medium), the things to check (low) and the background (info) hold
/// exactly as many findings as the report, each group only its severities.
#[verifier::spinoff_prover]
pub proof fn law_report_groups_cover_every_finding(fs: Seq<FindingView>)
    ensures
        (crate::report::of_severity(fs, Severity::High) + crate::report::of_severity(
            fs,
            Severity::Medium,
        )).len() + crate::report::of_severity(fs, Severity::Low).len() + crate::report::of_severity(
            fs,
            Severity::Info,
        ).len() == fs.len(),
        forall|i: int|
            0 <= i < crate::report::of_severity(fs, Severity::Low).len() ==> (#[trigger] crate::report::of_severity(
                fs,
                Severity::Low,
            )[i]).severity == Severity::Low,
        forall|i: int|
            0 <= i < crate::report::of_severity(fs, Severity::Info).len() ==> (#[trigger] crate::report::of_severity(
                fs,
                Severity::Info,
            )[i]).severity == Severity::Info,
{
    lemma_groups_cover(fs);
    lemma_of_severity(fs, Severity::Low);
    lemma_of_severity(fs, Severity::Info);
}

/// The forum summary names at most eight main problems, all high or medium
/// and the high ones first, and at most six background notes, all info.
#[verifier::spinoff_prover]
pub proof fn law_forum_summary_limits(fs: Seq<FindingView>)
    ensures
        crate::report::important(fs).len() <= 8,
        forall|i: int|
            0 <= i < crate::report::important(fs).len() ==> (#[trigger] crate::report::important(
                fs,
            )[i]).severity == Severity::High || crate::report::important(fs)[i].severity
                == Severity::Medium,
        forall|i: int, j: int|
            0 <= i < j < crate::report::important(fs).len() && (#[trigger] crate::report::important(
                fs,
            )[j]).severity == Severity::High ==> (#[trigger] crate::report::important(fs)[i]).severity
                == Severity::High,
        crate::report::background(fs).len() <= 6,
        forall|i: int|
            0 <= i < crate::report::background(fs).len() ==> (#[trigger] crate::report::background(
                fs,
            )[i]).severity == Severity::Info,
{
    lemma_of_severity(fs, Severity::High);
    lemma_of_severity(fs, Severity::Medium);
    lemma_of_severity(fs, Severity::Info);
    let h = crate::report::of_severity(fs, Severity::High);
    let m = crate::report::of_severity(fs, Severity::Medium);
    let all = h + m;
    assert forall|i: int| 0 <= i < all.len() implies (#[trigger] all[i]).severity == Severity::High
        || all[i].severity == Severity::Medium by {
        if i < h.len() {
            assert(all[i] == h[i]);
        } else {
            assert(all[i] == m[i - h.len()]);
        }
    }
    assert forall|i: int, j: int| 0 <= i < j < all.len() && (#[trigger] all[j]).severity == Severity::High
        implies (#[trigger] all[i]).severity == Severity::High by {
        if j >= h.len() {
            assert(all[j] == m[j - h.len()]);
        } else {
            assert(all[i] == h[i]);
        }
    }
}

} // verus!

verus! {

/// Some finding of the list has one of the kinds that explain scenery
/// channel messages.
pub open spec fn has_scenery_specific(fs: Seq<FindingView>) -> bool {
    crate::rules::merge::has_kind(fs, "missing_scenery_object"@) || crate::rules::merge::has_kind(
        fs,
        "missing_scenery_asset"@,
    ) || crate::rules::merge::has_kind(fs, "missing_scenery_library"@)
}

/// Some finding of the list has one of the kinds that explain graphics
/// channel messages.
pub open spec fn has_gpu_specific(fs: Seq<FindingView>) -> bool {
    crate::rules::merge::has_kind(fs, "vulkan_device_lost"@) || crate::rules::merge::has_kind(
        fs,
        "vulkan_result_error"@,
    ) || crate::rules::merge::has_kind(fs, "graphics_vulkan_error"@)
}

/// Some finding of the list has one of the kinds that explain plugin
/// channel messages.
pub open spec fn has_plugin_specific(fs: Seq<FindingView>) -> bool {
    crate::rules::merge::has_kind(fs, "plugin_load_failed"@) || crate::rules::merge::has_kind(
        fs,
        "plugin_encountered_error"@,
    )
}

/// Moving to the background changes nothing but the severity and confidence
/// of channel findings (`X-Plane subsystem <ch> messages`), which become
/// Info and Low exactly when: the channel is `E/SCN`, `W/SCN` or `E/OBJ` and
/// a missing scenery object, asset or library was found; the channel starts
/// with `E/GFX` and a Vulkan or graphics error was found; the channel is
/// `E/PLG` or `W/PLG` and a plugin failed to load or reported an error; or
/// the channel is `E/SYS`, `W/SYS`, `E/ACF` or `W/ACF`, an aircraft failed to
/// open, and the finding's evidence names an aircraft.
#[verifier::spinoff_prover]
pub proof fn law_suppress_demotes_exactly_the_explained_channels(fs: Seq<FindingView>)
    ensures
        suppress(fs).len() == fs.len(),
        forall|i: int|
            0 <= i < fs.len() ==> {
                let f = fs[i];
                let demoted = f.kind == "xplane_subsystem_errors"@ && match crate::rules::merge::title_channel(
                    f.title,
                ) {
                    None => false,
                    Some(ch) => {
                        ||| ((ch == "E/SCN"@ || ch == "W/SCN"@ || ch == "E/OBJ"@) && has_scenery_specific(fs))
                        ||| (crate::text::starts_with(ch, "E/GFX"@) && has_gpu_specific(fs))
                        ||| ((ch == "E/PLG"@ || ch == "W/PLG"@) && has_plugin_specific(fs))
                        ||| ((ch == "E/SYS"@ || ch == "W/SYS"@ || ch == "E/ACF"@ || ch == "W/ACF"@)
                            && crate::rules::merge::has_kind(fs, "aircraft_open_failure"@)
                            && crate::rules::merge::evidence_mentions_aircraft(f))
                    },
                };
                #[trigger] suppress(fs)[i] == if demoted {
                    FindingView { severity: Severity::Info, confidence: Confidence::Low, ..f }
                } else {
                    f
                }
            },
{
    reveal_strlit("E/SCN");
    reveal_strlit("W/SCN");
    reveal_strlit("E/OBJ");
    reveal_strlit("E/GFX");
    reveal_strlit("E/PLG");
    reveal_strlit("W/PLG");
    reveal_strlit("E/SYS");
    reveal_strlit("W/SYS");
    reveal_strlit("E/ACF");
    reveal_strlit("W/ACF");
    assert("E/SYS"@ != "E/SCN"@) by {
        assert("E/SYS"@[3] != "E/SCN"@[3]);
    }
    assert("E/SYS"@ != "W/SCN"@) by {
        assert("E/SYS"@[0] != "W/SCN"@[0]);
    }
    assert("E/SYS"@ != "E/OBJ"@) by {
        assert("E/SYS"@[2] != "E/OBJ"@[2]);
    }
    assert("E/SYS"@ != "E/PLG"@) by {
        assert("E/SYS"@[2] != "E/PLG"@[2]);
    }
    assert("E/SYS"@ != "W/PLG"@) by {
        assert("E/SYS"@[0] != "W/PLG"@[0]);
    }
    assert("W/SYS"@ != "E/SCN"@) by {
        assert("W/SYS"@[0] != "E/SCN"@[0]);
    }
    assert("W/SYS"@ != "W/SCN"@) by {
        assert("W/SYS"@[3] != "W/SCN"@[3]);
    }
    assert("W/SYS"@ != "E/OBJ"@) by {
        assert("W/SYS"@[0] != "E/OBJ"@[0]);
    }
    assert("W/SYS"@ != "E/PLG"@) by {
        assert("W/SYS"@[0] != "E/PLG"@[0]);
    }
    assert("W/SYS"@ != "W/PLG"@) by {
        assert("W/SYS"@[2] != "W/PLG"@[2]);
    }
    assert("E/ACF"@ != "E/SCN"@) by {
        assert("E/ACF"@[2] != "E/SCN"@[2]);
    }
    assert("E/ACF"@ != "W/SCN"@) by {
        assert("E/ACF"@[0] != "W/SCN"@[0]);
    }
    assert("E/ACF"@ != "E/OBJ"@) by {
        assert("E/ACF"@[2] != "E/OBJ"@[2]);
    }
    assert("E/ACF"@ != "E/PLG"@) by {
        assert("E/ACF"@[2] != "E/PLG"@[2]);
    }
    assert("E/ACF"@ != "W/PLG"@) by {
        assert("E/ACF"@[0] != "W/PLG"@[0]);
    }
    assert("W/ACF"@ != "E/SCN"@) by {
        assert("W/ACF"@[0] != "E/SCN"@[0]);
    }
    assert("W/ACF"@ != "W/SCN"@) by {
        assert("W/ACF"@[2] != "W/SCN"@[2]);
    }
    assert("W/ACF"@ != "E/OBJ"@) by {
        assert("W/ACF"@[0] != "E/OBJ"@[0]);
    }
    assert("W/ACF"@ != "E/PLG"@) by {
        assert("W/ACF"@[0] != "E/PLG"@[0]);
    }
    assert("W/ACF"@ != "W/PLG"@) by {
        assert("W/ACF"@[2] != "W/PLG"@[2]);
    }
    assert("E/SCN"@ != "E/PLG"@) by {
        assert("E/SCN"@[2] != "E/PLG"@[2]);
    }
    assert("E/SCN"@ != "W/PLG"@) by {
        assert("E/SCN"@[0] != "W/PLG"@[0]);
    }
    assert("W/SCN"@ != "E/PLG"@) by {
        assert("W/SCN"@[0] != "E/PLG"@[0]);
    }
    assert("W/SCN"@ != "W/PLG"@) by {
        assert("W/SCN"@[2] != "W/PLG"@[2]);
    }
    assert("E/OBJ"@ != "E/PLG"@) by {
        assert("E/OBJ"@[2] != "E/PLG"@[2]);
    }
    assert("E/OBJ"@ != "W/PLG"@) by {
        assert("E/OBJ"@[0] != "W/PLG"@[0]);
    }
    let sp = crate::rules::merge::specifics(fs);
    assert forall|i: int| 0 <= i < fs.len() implies suppress(fs)[i] == suppress_one(fs[i], sp) by {}
    assert forall|i: int| 0 <= i < fs.len() implies {
        let f = fs[i];
        let demoted = f.kind == "xplane_subsystem_errors"@ && match crate::rules::merge::title_channel(
            f.title,
        ) {
            None => false,
            Some(ch) => {
                ||| ((ch == "E/SCN"@ || ch == "W/SCN"@ || ch == "E/OBJ"@) && has_scenery_specific(fs))
                ||| (crate::text::starts_with(ch, "E/GFX"@) && has_gpu_specific(fs))
                ||| ((ch == "E/PLG"@ || ch == "W/PLG"@) && has_plugin_specific(fs))
                ||| ((ch == "E/SYS"@ || ch == "W/SYS"@ || ch == "E/ACF"@ || ch == "W/ACF"@)
                    && crate::rules::merge::has_kind(fs, "aircraft_open_failure"@)
                    && crate::rules::merge::evidence_mentions_aircraft(f))
            },
        };
        #[trigger] suppress(fs)[i] == if demoted {
            FindingView { severity: Severity::Info, confidence: Confidence::Low, ..f }
        } else {
            f
        }
    } by {
        let f = fs[i];
        assert(suppress(fs)[i] == suppress_one(f, sp));
        assert(sp.scenery == has_scenery_specific(fs));
        assert(sp.gpu == has_gpu_specific(fs));
        assert(sp.plugin == has_plugin_specific(fs));
        if f.kind == "xplane_subsystem_errors"@ {
            match crate::rules::merge::title_channel(f.title) {
                None => {
                    assert(!crate::rules::merge::explained(f, sp));
                },
                Some(ch) => {
                    if ch == "E/SYS"@ || ch == "W/SYS"@ || ch == "E/ACF"@ || ch == "W/ACF"@ {
                        assert(ch.take(5)[2] == ch[2]);
                        assert(!crate::text::starts_with(ch, "E/GFX"@));
                        assert(crate::rules::merge::explained(f, sp) == (sp.aircraft
                            && crate::rules::merge::evidence_mentions_aircraft(f)));
                    } else if ch == "E/SCN"@ || ch == "W/SCN"@ || ch == "E/OBJ"@ {
                        assert(ch.take(5)[2] == ch[2]);
                        assert(!crate::text::starts_with(ch, "E/GFX"@));
                        assert(ch != "E/PLG"@ && ch != "W/PLG"@);
                        assert(crate::rules::merge::explained(f, sp) == sp.scenery);
                    } else if crate::text::starts_with(ch, "E/GFX"@) {
                        assert(ch.take(5)[2] == ch[2]);
                        assert(ch != "E/PLG"@ && ch != "W/PLG"@);
                        assert(crate::rules::merge::explained(f, sp) == sp.gpu);
                    } else {
                        assert(crate::rules::merge::explained(f, sp) == ((ch == "E/PLG"@ || ch
                            == "W/PLG"@) && sp.plugin));
                    }
                },
            }
        }
    }
}

/// A channel finding of `E/SYS`, `W/SYS`, `E/ACF` or `W/ACF` drops to Info
/// and Low when an aircraft failed to open and its evidence (main or
/// further) names an aircraft (`failed to open`, `.acf`, `aircraft/` or
/// `unknown aircraft`, in any case); otherwise it is left as it was.
#[verifier::spinoff_prover]
pub proof fn law_aircraft_channels_drop_only_with_an_aircraft_failure(fs: Seq<FindingView>, i: int)
    requires
        0 <= i < fs.len(),
        fs[i].kind == "xplane_subsystem_errors"@,
        crate::rules::merge::title_channel(fs[i].title) matches Some(ch) && (ch == "E/SYS"@ || ch
            == "W/SYS"@ || ch == "E/ACF"@ || ch == "W/ACF"@),
    ensures
        suppress(fs)[i] == if crate::rules::merge::has_kind(fs, "aircraft_open_failure"@)
            && crate::rules::merge::evidence_mentions_aircraft(fs[i]) {
            FindingView { severity: Severity::Info, confidence: Confidence::Low, ..fs[i] }
        } else {
            fs[i]
        },
{
    law_suppress_demotes_exactly_the_explained_channels(fs);
    reveal_strlit("E/SYS");
    reveal_strlit("W/SYS");
    reveal_strlit("E/ACF");
    reveal_strlit("W/ACF");
    reveal_strlit("E/SCN");
    reveal_strlit("W/SCN");
    reveal_strlit("E/OBJ");
    reveal_strlit("E/GFX");
    reveal_strlit("E/PLG");
    reveal_strlit("W/PLG");
}

} // verus!

verus! {

/// The kinds after merging come from the findings merged, and every key of
/// the findings merged is the key of a finding of that kind.
#[verifier::spinoff_prover]
proof fn lemma_dedupe_kinds(fs: Seq<FindingView>, n: nat)
    requires
        n <= fs.len(),
    ensures
        dedupe_state(fs, n).0.len() == dedupe_state(fs, n).1.len(),
        forall|i: int|
            0 <= i < dedupe_state(fs, n).1.len() ==> exists|a: int|
                0 <= a < n && #[trigger] fs[a].kind == (#[trigger] dedupe_state(fs, n).1[i]).kind
                    && dedupe_key(fs[a]) == dedupe_state(fs, n).0[i],
        forall|a: int|
            0 <= a < n ==> exists|i: int|
                0 <= i < dedupe_state(fs, n).0.len() && #[trigger] dedupe_state(fs, n).0[i]
                    == dedupe_key(#[trigger] fs[a]),
    decreases n,
{
    if n > 0 {
        let m = (n - 1) as nat;
        lemma_dedupe_kinds(fs, m);
        let prev = dedupe_state(fs, m);
        let f = fs[m as int];
        let k = dedupe_key(f);
        lemma_key_pos(prev.0, k, 0);
        let cur = dedupe_state(fs, n);
        match key_pos(prev.0, k, 0) {
            Some(j) => {
                lemma_merge_fields(prev.1[j], f);
                assert(cur.0 == prev.0);
                assert forall|i: int| 0 <= i < cur.1.len() implies exists|b: int|
                    0 <= b < n && #[trigger] fs[b].kind == (#[trigger] cur.1[i]).kind && dedupe_key(
                        fs[b],
                    ) == cur.0[i] by {
                    let b = choose|b: int|
                        0 <= b < m && #[trigger] fs[b].kind == (#[trigger] prev.1[i]).kind
                            && dedupe_key(fs[b]) == prev.0[i];
                    assert(fs[b].kind == cur.1[i].kind);
                }
                assert forall|a: int| 0 <= a < n implies exists|i: int|
                    0 <= i < cur.0.len() && #[trigger] cur.0[i] == dedupe_key(#[trigger] fs[a]) by {
                    if a < m {
                        let i = choose|i: int|
                            0 <= i < prev.0.len() && #[trigger] prev.0[i] == dedupe_key(
                                #[trigger] fs[a],
                            );
                        assert(cur.0[i] == dedupe_key(fs[a]));
                    } else {
                        assert(cur.0[j] == dedupe_key(fs[a]));
                    }
                }
            },
            None => {
                assert forall|i: int| 0 <= i < cur.1.len() implies exists|b: int|
                    0 <= b < n && #[trigger] fs[b].kind == (#[trigger] cur.1[i]).kind && dedupe_key(
                        fs[b],
                    ) == cur.0[i] by {
                    if i < prev.1.len() {
                        let b = choose|b: int|
                            0 <= b < m && #[trigger] fs[b].kind == (#[trigger] prev.1[i]).kind
                                && dedupe_key(fs[b]) == prev.0[i];
                        assert(fs[b].kind == cur.1[i].kind);
                    } else {
                        assert(fs[m as int].kind == cur.1[i].kind);
                    }
                }
                assert forall|a: int| 0 <= a < n implies exists|i: int|
                    0 <= i < cur.0.len() && #[trigger] cur.0[i] == dedupe_key(#[trigger] fs[a]) by {
                    if a < m {
                        let i = choose|i: int|
                            0 <= i < prev.0.len() && #[trigger] prev.0[i] == dedupe_key(
                                #[trigger] fs[a],
                            );
                        assert(cur.0[i] == dedupe_key(fs[a]));
                    } else {
                        assert(cur.0[prev.0.len() as int] == dedupe_key(fs[a]));
                    }
                }
            },
        }
    }
}

/// A kind whose merge key is the kind itself and cannot be read as the key
/// of a channel or third-party plugin finding.
pub open spec fn plain_kind(k: Seq<char>) -> bool {
    k.len() > 0 && k[0] != 'x' && k[0] != 't'
}

#[verifier::spinoff_prover]
proof fn lemma_key_first_char(f: FindingView)
    ensures
        f.kind == "xplane_subsystem_errors"@ ==> dedupe_key(f).len() > 0 && dedupe_key(f)[0] == 'x',
        f.kind == "third_party_plugin_error"@ ==> dedupe_key(f).len() > 0 && dedupe_key(f)[0] == 't',
        f.kind != "xplane_subsystem_errors"@ && f.kind != "third_party_plugin_error"@ ==> dedupe_key(f) == f.kind,
{
    reveal_strlit("xplane_subsystem_errors");
    reveal_strlit("third_party_plugin_error");
}

/// Merging keeps exactly the kinds of the findings merged: every kind it
/// gives is one of theirs, and every plain kind of theirs is still there.
#[verifier::spinoff_prover]
pub proof fn law_dedupe_keeps_kinds(fs: Seq<FindingView>)
    ensures
        forall|i: int|
            0 <= i < dedupe(fs).len() ==> exists|a: int|
                0 <= a < fs.len() && #[trigger] fs[a].kind == (#[trigger] dedupe(fs)[i]).kind,
        forall|k: Seq<char>|
            plain_kind(k) ==> (crate::rules::merge::has_kind(fs, k)
                ==> #[trigger] crate::rules::merge::has_kind(dedupe(fs), k)),
{
    lemma_dedupe_kinds(fs, fs.len());
    let st = dedupe_state(fs, fs.len());
    assert forall|i: int| 0 <= i < dedupe(fs).len() implies exists|a: int|
        0 <= a < fs.len() && #[trigger] fs[a].kind == (#[trigger] dedupe(fs)[i]).kind by {
        let a = choose|a: int|
            0 <= a < fs.len() && #[trigger] fs[a].kind == (#[trigger] st.1[i]).kind && dedupe_key(fs[a])
                == st.0[i];
        assert(fs[a].kind == dedupe(fs)[i].kind);
    }
    assert forall|k: Seq<char>|
        plain_kind(k) && crate::rules::merge::has_kind(fs, k) implies #[trigger] crate::rules::merge::has_kind(
        dedupe(fs),
        k,
    ) by {
        let a = choose|a: int| 0 <= a < fs.len() && fs[a].kind == k;
        lemma_key_first_char(fs[a]);
        reveal_strlit("xplane_subsystem_errors");
        reveal_strlit("third_party_plugin_error");
        assert(k != "xplane_subsystem_errors"@) by {
            assert("xplane_subsystem_errors"@[0] == 'x');
        }
        assert(k != "third_party_plugin_error"@) by {
            assert("third_party_plugin_error"@[0] == 't');
        }
        let i = choose|i: int| 0 <= i < st.0.len() && #[trigger] st.0[i] == dedupe_key(#[trigger] fs[a]);
        let b = choose|b: int|
            0 <= b < fs.len() && #[trigger] fs[b].kind == (#[trigger] st.1[i]).kind && dedupe_key(fs[b])
                == st.0[i];
        lemma_key_first_char(fs[b]);
        assert(dedupe(fs)[i].kind == k);
    }
}

} // verus!

verus! {

#[verifier::spinoff_prover]
proof fn lemma_with_extra_kind(e: FindingView, x: Seq<char>)
    ensures
        with_extra(e, x).kind == e.kind,
{
}

#[verifier::spinoff_prover]
proof fn lemma_table_kinds(ls: Seq<Seq<char>>, n: nat, loc: crate::i18n::Locale)
    ensures
        forall|i: int|
            0 <= i < crate::rules::subsystem::channel_table(ls, n, loc).len() ==> (#[trigger] crate::rules::subsystem::channel_table(
                ls,
                n,
                loc,
            )[i]).1.kind == "xplane_subsystem_errors"@,
    decreases n,
{
    if n > 0 && n <= ls.len() {
        let m = (n - 1) as nat;
        lemma_table_kinds(ls, m, loc);
        let t = crate::rules::subsystem::channel_table(ls, m, loc);
        let line = ls[m as int];
        match crate::rules::channels::error_channel(line) {
            None => {},
            Some(ch) => {
                let ev = crate::rules::evidence::evidence_text(m, line);
                let u = crate::rules::subsystem::table_step(t, m, line, loc);
                assert forall|i: int| 0 <= i < u.len() implies (#[trigger] u[i]).1.kind
                    == "xplane_subsystem_errors"@ by {
                    match crate::rules::subsystem::key_index(t, ch, 0) {
                        Some(j) => {
                            crate::rules::subsystem::lemma_key_index_range(t, ch, 0);
                            if i != j {
                                assert(u[i] == t[i]);
                            } else {
                                let g = FindingView { occurrences: t[j].1.occurrences + 1, ..t[j].1 };
                                lemma_with_extra_kind(g, ev);
                            }
                        },
                        None => {
                            lemma_subsystem_positions(t, ch, 0);
                            crate::tally::lemma_tally_pos(t, ch, 0);
                            let p = crate::rules::subsystem::insert_pos(t, ch, 0);
                            if i < p {
                                assert(u[i] == t[i]);
                            } else if i > p {
                                assert(u[i] == t[i - 1]);
                            } else {
                                let f0 = crate::rules::subsystem::channel_finding(ch, m, line, loc);
                                let g = FindingView { occurrences: f0.occurrences + 1, ..f0 };
                                lemma_with_extra_kind(g, ev);
                            }
                        },
                    }
                }
            },
        }
    }
}

/// The macOS security rule fires on this line (`notarized`, `code
/// signature` or `quarantine`, in any case, but not FlyWithLua's scripts
/// quarantine folder).
pub open spec fn macos_security_line(line: Seq<char>) -> bool {
    let l = crate::text::lower(line);
    !(crate::text::contains(l, "flywithlua"@) && crate::text::contains(l, "scripts quarantine dir"@))
        && (crate::text::contains(l, "notarized"@) || crate::text::contains(l, "code signature"@)
        || crate::text::contains(l, "quarantine"@))
}

#[verifier::spinoff_prover]
proof fn lemma_line_kinds(idx: nat, ls: Seq<Seq<char>>, macos: bool, loc: crate::i18n::Locale)
    requires
        idx < ls.len(),
    ensures
        forall|i: int|
            0 <= i < crate::rules::analyze::line_findings(idx, ls, macos, loc).len()
                ==> crate::rules::kinds::line_rule_kind(
                (#[trigger] crate::rules::analyze::line_findings(idx, ls, macos, loc)[i]).kind,
            ),
        forall|i: int|
            0 <= i < crate::rules::analyze::line_findings(idx, ls, macos, loc).len() && (#[trigger] crate::rules::analyze::line_findings(
                idx,
                ls,
                macos,
                loc,
            )[i]).kind == "macos_security_block"@ ==> macos && macos_security_line(ls[idx as int]),
        macos && macos_security_line(ls[idx as int]) ==> exists|i: int|
            0 <= i < crate::rules::analyze::line_findings(idx, ls, macos, loc).len() && (#[trigger] crate::rules::analyze::line_findings(
                idx,
                ls,
                macos,
                loc,
            )[i]).kind == "macos_security_block"@,
{
    reveal(crate::rules::analyze::line_findings);
    let line = ls[idx as int];
    let lw = crate::text::lower(line);
    let p1 = crate::rules::analyze::part1(idx, line, lw, loc);
    let p2 = crate::rules::analyze::part2(idx, line, lw, loc);
    let p3 = crate::rules::analyze::part3(idx, line, lw, ls, loc);
    let p4 = crate::rules::analyze::part4(idx, line, lw, ls, macos, loc);
    let lf = crate::rules::analyze::line_findings(idx, ls, macos, loc);
    assert(lf == p1 + p2 + p3 + p4);
    crate::rules::kinds::lemma_part1_kinds(idx, line, lw, loc);
    crate::rules::kinds::lemma_part2_kinds(idx, line, lw, loc);
    crate::rules::kinds::lemma_part3_kinds(idx, line, lw, ls, loc);
    crate::rules::kinds::lemma_part4_kinds(idx, line, lw, ls, macos, loc);
    assert(crate::rules::keywords::spec_macos_security_block(idx, line, lw, loc) is Some
        <==> macos_security_line(line));
    assert forall|i: int| 0 <= i < lf.len() implies crate::rules::kinds::line_rule_kind(
        (#[trigger] lf[i]).kind,
    ) && (lf[i].kind == "macos_security_block"@ ==> macos && macos_security_line(line)) by {
        crate::rules::kinds::lemma_in4(p1, p2, p3, p4, i);
        crate::rules::kinds::lemma_kinds_differ(lf[i].kind);
    }
    if macos && macos_security_line(line) {
        let j = choose|j: int| 0 <= j < p4.len() && (#[trigger] p4[j]).kind == "macos_security_block"@;
        assert(lf[p1.len() + p2.len() + p3.len() + j] == p4[j]);
    }
}

#[verifier::spinoff_prover]
proof fn lemma_all_line_kinds(ls: Seq<Seq<char>>, n: nat, macos: bool, loc: crate::i18n::Locale)
    requires
        n <= ls.len(),
    ensures
        forall|i: int|
            0 <= i < crate::rules::analyze::all_line_findings(ls, n, macos, loc).len()
                ==> crate::rules::kinds::line_rule_kind(
                (#[trigger] crate::rules::analyze::all_line_findings(ls, n, macos, loc)[i]).kind,
            ),
        crate::rules::merge::has_kind(
            crate::rules::analyze::all_line_findings(ls, n, macos, loc),
            "macos_security_block"@,
        ) <==> macos && exists|j: int| 0 <= j < n && macos_security_line(#[trigger] ls[j]),
    decreases n,
{
    let all = crate::rules::analyze::all_line_findings(ls, n, macos, loc);
    let k = "macos_security_block"@;
    if n == 0 {
        assert(all.len() == 0);
    } else {
        let m = (n - 1) as nat;
        lemma_all_line_kinds(ls, m, macos, loc);
        lemma_line_kinds(m, ls, macos, loc);
        let prev = crate::rules::analyze::all_line_findings(ls, m, macos, loc);
        let lf = crate::rules::analyze::line_findings(m, ls, macos, loc);
        assert(all == prev + lf);
        assert forall|i: int| 0 <= i < all.len() implies crate::rules::kinds::line_rule_kind(
            (#[trigger] all[i]).kind,
        ) by {
            crate::rules::kinds::lemma_in2(prev, lf, i);
        }
        if crate::rules::merge::has_kind(all, k) {
            let i = choose|i: int| 0 <= i < all.len() && all[i].kind == k;
            crate::rules::kinds::lemma_in2(prev, lf, i);
            if i < prev.len() {
                assert(crate::rules::merge::has_kind(prev, k));
            } else {
                assert(lf[i - prev.len()].kind == k);
            }
        }
        if macos && exists|j: int| 0 <= j < n && macos_security_line(#[trigger] ls[j]) {
            let j = choose|j: int| 0 <= j < n && macos_security_line(#[trigger] ls[j]);
            if j < m {
                let i = choose|i: int| 0 <= i < prev.len() && prev[i].kind == k;
                assert(all[i] == prev[i]);
            } else {
                let i = choose|i: int| 0 <= i < lf.len() && (#[trigger] lf[i]).kind == k;
                assert(all[prev.len() + i] == lf[i]);
            }
        }
    }
}

/// Each finding before merging comes from a line rule, the channel scan, or
/// the crash or truncation findings, as the log has a crash marker or not.
#[verifier::rlimit(100)]
#[verifier::spinoff_prover]
proof fn lemma_raw_kinds(ls: Seq<Seq<char>>, loc: crate::i18n::Locale)
    ensures
        forall|i: int|
            0 <= i < raw_findings(ls, loc).len() ==> {
                let k = (#[trigger] raw_findings(ls, loc)[i]).kind;
                ||| crate::rules::kinds::line_rule_kind(k)
                ||| k == "xplane_subsystem_errors"@
                ||| (crate::rules::context::crash_index(ls) is Some
                    || crate::rules::analyze::has_gpu_crash_signal(ls))
                    && crate::rules::kinds::context_kind(k)
                ||| !(crate::rules::context::crash_index(ls) is Some
                    || crate::rules::analyze::has_gpu_crash_signal(ls)) && k == "abrupt_termination"@
            },
        crate::rules::merge::has_kind(raw_findings(ls, loc), "macos_security_block"@)
            <==> crate::rules::analyze::is_macos_log(ls) && exists|j: int|
            0 <= j < ls.len() && macos_security_line(#[trigger] ls[j]),
{
    let sub = crate::rules::subsystem::subsystem_findings(ls, loc);
    let macos = crate::rules::analyze::is_macos_log(ls);
    let lf = crate::rules::analyze::all_line_findings(ls, ls.len(), macos, loc);
    lemma_table_kinds(ls, ls.len(), loc);
    lemma_all_line_kinds(ls, ls.len(), macos, loc);
    let t = crate::rules::subsystem::channel_table(ls, ls.len(), loc);
    assert forall|i: int| 0 <= i < sub.len() implies (#[trigger] sub[i]).kind == "xplane_subsystem_errors"@ by {
        assert(sub[i] == t[i].1);
    }
    let f1 = sub + lf;
    let raw = raw_findings(ls, loc);
    let mk = "macos_security_block"@;
    assert forall|i: int| 0 <= i < f1.len() implies crate::rules::kinds::line_rule_kind(
        (#[trigger] f1[i]).kind,
    ) || f1[i].kind == "xplane_subsystem_errors"@ by {
        crate::rules::kinds::lemma_in2(sub, lf, i);
    }
    let crash = crate::rules::context::crash_index(ls) is Some
        || crate::rules::analyze::has_gpu_crash_signal(ls);
    let tail = if crash {
        let g = f1 + opt_seq(spec_scenery_load_crash_context(ls, loc)) + opt_seq(
            spec_last_loaded_context(ls, loc),
        ) + opt_seq(spec_pre_crash_context(ls, loc));
        lemma_scenery_load_crash_context_once(ls, loc);
        lemma_last_loaded_context_once(ls, loc);
        lemma_pre_crash_context_once(ls, loc);
        lemma_early_silent_crash_once(ls, g, loc);
        opt_seq(spec_scenery_load_crash_context(ls, loc)) + opt_seq(spec_last_loaded_context(ls, loc))
            + opt_seq(spec_pre_crash_context(ls, loc)) + opt_seq(spec_early_silent_crash(ls, g, loc))
    } else {
        lemma_abrupt_termination_once(ls, loc);
        opt_seq(spec_abrupt_termination(ls, loc))
    };
    assert(raw =~= f1 + tail);
    assert forall|i: int| 0 <= i < tail.len() implies (crash && crate::rules::kinds::context_kind(
        (#[trigger] tail[i]).kind,
    )) || (!crash && tail[i].kind == "abrupt_termination"@) by {
        if crash {
            let g = f1 + opt_seq(spec_scenery_load_crash_context(ls, loc)) + opt_seq(
                spec_last_loaded_context(ls, loc),
            ) + opt_seq(spec_pre_crash_context(ls, loc));
            crate::rules::kinds::lemma_in4(
                opt_seq(spec_scenery_load_crash_context(ls, loc)),
                opt_seq(spec_last_loaded_context(ls, loc)),
                opt_seq(spec_pre_crash_context(ls, loc)),
                opt_seq(spec_early_silent_crash(ls, g, loc)),
                i,
            );
        }
    }
    assert forall|i: int| 0 <= i < raw.len() implies {
        let k = (#[trigger] raw[i]).kind;
        ||| crate::rules::kinds::line_rule_kind(k)
        ||| k == "xplane_subsystem_errors"@
        ||| crash && crate::rules::kinds::context_kind(k)
        ||| !crash && k == "abrupt_termination"@
    } by {
        crate::rules::kinds::lemma_in2(f1, tail, i);
    }
    if crate::rules::merge::has_kind(raw, mk) {
        let i = choose|i: int| 0 <= i < raw.len() && raw[i].kind == mk;
        crate::rules::kinds::lemma_in2(f1, tail, i);
        crate::rules::kinds::lemma_kinds_differ(raw[i].kind);
        if i < f1.len() {
            crate::rules::kinds::lemma_in2(sub, lf, i);
            assert(lf[i - sub.len()].kind == mk);
            assert(crate::rules::merge::has_kind(lf, mk));
        }
    }
    if macos && exists|j: int| 0 <= j < ls.len() && macos_security_line(#[trigger] ls[j]) {
        let i = choose|i: int| 0 <= i < lf.len() && lf[i].kind == mk;
        assert(raw[sub.len() + i] == lf[i]);
    }
}

/// A log with a crash marker (or `VK_ERROR_DEVICE_LOST`) never gets the
/// truncation finding, and a log without one never gets the crash context
/// findings (scenery loading, last loaded, pre-crash, early silent crash).
#[verifier::spinoff_prover]
pub proof fn law_crash_markers_decide_the_context_findings(text: Seq<char>, loc: crate::i18n::Locale)
    ensures
        ({
            let ls = crate::text::lines(text);
            let r = crate::rules::analyze::log_findings(text, loc);
            let crash = crate::rules::context::crash_index(ls) is Some
                || crate::rules::analyze::has_gpu_crash_signal(ls);
            &&& crash ==> forall|i: int| 0 <= i < r.len() ==> (#[trigger] r[i]).kind != "abrupt_termination"@
            &&& !crash ==> forall|i: int|
                0 <= i < r.len() ==> !crate::rules::kinds::context_kind((#[trigger] r[i]).kind)
        }),
{
    let ls = crate::text::lines(text);
    let raw = raw_findings(ls, loc);
    let d = dedupe(raw);
    let r = crate::rules::analyze::log_findings(text, loc);
    lemma_raw_kinds(ls, loc);
    law_dedupe_keeps_kinds(raw);
    law_suppress_only_demotes_channel_findings(d);
    assert forall|i: int| 0 <= i < r.len() implies {
        let k = (#[trigger] r[i]).kind;
        ||| crate::rules::kinds::line_rule_kind(k)
        ||| k == "xplane_subsystem_errors"@
        ||| (crate::rules::context::crash_index(ls) is Some
            || crate::rules::analyze::has_gpu_crash_signal(ls)) && crate::rules::kinds::context_kind(k)
        ||| !(crate::rules::context::crash_index(ls) is Some
            || crate::rules::analyze::has_gpu_crash_signal(ls)) && k == "abrupt_termination"@
    } by {
        assert(r[i].kind == d[i].kind);
        let a = choose|a: int| 0 <= a < raw.len() && #[trigger] raw[a].kind == (#[trigger] d[i]).kind;
        assert(raw[a].kind == r[i].kind);
    }
    assert forall|i: int| 0 <= i < r.len() implies {
        let k = (#[trigger] r[i]).kind;
        &&& (crate::rules::context::crash_index(ls) is Some
            || crate::rules::analyze::has_gpu_crash_signal(ls)) ==> k != "abrupt_termination"@
        &&& !(crate::rules::context::crash_index(ls) is Some
            || crate::rules::analyze::has_gpu_crash_signal(ls)) ==> !crate::rules::kinds::context_kind(k)
    } by {
        crate::rules::kinds::lemma_kinds_differ(r[i].kind);
    }
}

/// The macOS security finding is reported exactly when one of the first
/// 250 lines says the system is macOS and some line names notarization, a
/// code signature or quarantine (other than FlyWithLua's scripts
/// quarantine folder).
#[verifier::spinoff_prover]
pub proof fn law_macos_security_finding_only_on_macos(text: Seq<char>, loc: crate::i18n::Locale)
    ensures
        crate::rules::merge::has_kind(
            crate::rules::analyze::log_findings(text, loc),
            "macos_security_block"@,
        ) <==> crate::rules::analyze::is_macos_log(crate::text::lines(text)) && exists|j: int|
            0 <= j < crate::text::lines(text).len() && macos_security_line(
                #[trigger] crate::text::lines(text)[j],
            ),
{
    let ls = crate::text::lines(text);
    let raw = raw_findings(ls, loc);
    let d = dedupe(raw);
    let r = crate::rules::analyze::log_findings(text, loc);
    let mk = "macos_security_block"@;
    lemma_raw_kinds(ls, loc);
    law_dedupe_keeps_kinds(raw);
    law_suppress_only_demotes_channel_findings(d);
    crate::rules::kinds::lemma_kinds_differ(mk);
    if crate::rules::merge::has_kind(raw, mk) {
        assert(crate::rules::merge::has_kind(d, mk));
        let i = choose|i: int| 0 <= i < d.len() && d[i].kind == mk;
        assert(r[i].kind == mk);
    }
    if crate::rules::merge::has_kind(r, mk) {
        let i = choose|i: int| 0 <= i < r.len() && r[i].kind == mk;
        assert(d[i].kind == mk);
        let a = choose|a: int| 0 <= a < raw.len() && #[trigger] raw[a].kind == (#[trigger] d[i]).kind;
        assert(crate::rules::merge::has_kind(raw, mk));
    }
}

} // verus!

verus! {

/// A finding seen at least once, with its evidence in `Log.txt`.
pub open spec fn seen_in_log(f: FindingView) -> bool {
    f.occurrences >= 1 && crate::rules::evidence::log_evidence(f.evidence)
}

#[verifier::spinoff_prover]
proof fn lemma_line_seen(idx: nat, ls: Seq<Seq<char>>, macos: bool, loc: crate::i18n::Locale)
    requires
        idx < ls.len(),
    ensures
        forall|i: int|
            0 <= i < crate::rules::analyze::line_findings(idx, ls, macos, loc).len() ==> seen_in_log(
                #[trigger] crate::rules::analyze::line_findings(idx, ls, macos, loc)[i],
            ),
{
    reveal(crate::rules::analyze::line_findings);
    let line = ls[idx as int];
    let lw = crate::text::lower(line);
    let p1 = crate::rules::analyze::part1(idx, line, lw, loc);
    let p2 = crate::rules::analyze::part2(idx, line, lw, loc);
    let p3 = crate::rules::analyze::part3(idx, line, lw, ls, loc);
    let p4 = crate::rules::analyze::part4(idx, line, lw, ls, macos, loc);
    let lf = crate::rules::analyze::line_findings(idx, ls, macos, loc);
    assert(lf == p1 + p2 + p3 + p4);
    crate::rules::kinds::lemma_part1_kinds(idx, line, lw, loc);
    crate::rules::kinds::lemma_part2_kinds(idx, line, lw, loc);
    crate::rules::kinds::lemma_part3_kinds(idx, line, lw, ls, loc);
    crate::rules::kinds::lemma_part4_kinds(idx, line, lw, ls, macos, loc);
    assert forall|i: int| 0 <= i < lf.len() implies seen_in_log(#[trigger] lf[i]) by {
        crate::rules::kinds::lemma_in4(p1, p2, p3, p4, i);
    }
}

#[verifier::spinoff_prover]
proof fn lemma_all_line_seen(ls: Seq<Seq<char>>, n: nat, macos: bool, loc: crate::i18n::Locale)
    requires
        n <= ls.len(),
    ensures
        forall|i: int|
            0 <= i < crate::rules::analyze::all_line_findings(ls, n, macos, loc).len() ==> seen_in_log(
                #[trigger] crate::rules::analyze::all_line_findings(ls, n, macos, loc)[i],
            ),
    decreases n,
{
    if n > 0 {
        let m = (n - 1) as nat;
        lemma_all_line_seen(ls, m, macos, loc);
        lemma_line_seen(m, ls, macos, loc);
        let prev = crate::rules::analyze::all_line_findings(ls, m, macos, loc);
        let lf = crate::rules::analyze::line_findings(m, ls, macos, loc);
        let all = crate::rules::analyze::all_line_findings(ls, n, macos, loc);
        assert(all == prev + lf);
        assert forall|i: int| 0 <= i < all.len() implies seen_in_log(#[trigger] all[i]) by {
            crate::rules::kinds::lemma_in2(prev, lf, i);
        }
    }
}

#[verifier::spinoff_prover]
proof fn lemma_table_seen(ls: Seq<Seq<char>>, n: nat, loc: crate::i18n::Locale)
    ensures
        forall|i: int|
            0 <= i < crate::rules::subsystem::channel_table(ls, n, loc).len() ==> seen_in_log(
                (#[trigger] crate::rules::subsystem::channel_table(ls, n, loc)[i]).1,
            ),
    decreases n,
{
    broadcast use crate::rules::evidence::lemma_evidence_text_in_log;

    if n > 0 && n <= ls.len() {
        let m = (n - 1) as nat;
        lemma_table_seen(ls, m, loc);
        let t = crate::rules::subsystem::channel_table(ls, m, loc);
        let line = ls[m as int];
        match crate::rules::channels::error_channel(line) {
            None => {},
            Some(ch) => {
                let u = crate::rules::subsystem::table_step(t, m, line, loc);
                assert forall|i: int| 0 <= i < u.len() implies seen_in_log((#[trigger] u[i]).1) by {
                    match crate::rules::subsystem::key_index(t, ch, 0) {
                        Some(j) => {
                            crate::rules::subsystem::lemma_key_index_range(t, ch, 0);
                            if i != j {
                                assert(u[i] == t[i]);
                            }
                        },
                        None => {
                            lemma_subsystem_positions(t, ch, 0);
                            crate::tally::lemma_tally_pos(t, ch, 0);
                            let p = crate::rules::subsystem::insert_pos(t, ch, 0);
                            if i < p {
                                assert(u[i] == t[i]);
                            } else if i > p {
                                assert(u[i] == t[i - 1]);
                            }
                        },
                    }
                }
            },
        }
    }
}

#[verifier::rlimit(100)]
#[verifier::spinoff_prover]
proof fn lemma_raw_seen(ls: Seq<Seq<char>>, loc: crate::i18n::Locale)
    ensures
        forall|i: int|
            0 <= i < raw_findings(ls, loc).len() ==> seen_in_log(#[trigger] raw_findings(ls, loc)[i]),
{
    let sub = crate::rules::subsystem::subsystem_findings(ls, loc);
    let macos = crate::rules::analyze::is_macos_log(ls);
    let lf = crate::rules::analyze::all_line_findings(ls, ls.len(), macos, loc);
    lemma_table_seen(ls, ls.len(), loc);
    lemma_all_line_seen(ls, ls.len(), macos, loc);
    let t = crate::rules::subsystem::channel_table(ls, ls.len(), loc);
    assert forall|i: int| 0 <= i < sub.len() implies seen_in_log(#[trigger] sub[i]) by {
        assert(sub[i] == t[i].1);
    }
    let f1 = sub + lf;
    let raw = raw_findings(ls, loc);
    assert forall|i: int| 0 <= i < f1.len() implies seen_in_log(#[trigger] f1[i]) by {
        crate::rules::kinds::lemma_in2(sub, lf, i);
    }
    let crash = crate::rules::context::crash_index(ls) is Some
        || crate::rules::analyze::has_gpu_crash_signal(ls);
    let tail = if crash {
        let g = f1 + opt_seq(spec_scenery_load_crash_context(ls, loc)) + opt_seq(
            spec_last_loaded_context(ls, loc),
        ) + opt_seq(spec_pre_crash_context(ls, loc));
        lemma_scenery_load_crash_context_once(ls, loc);
        lemma_last_loaded_context_once(ls, loc);
        lemma_pre_crash_context_once(ls, loc);
        lemma_early_silent_crash_once(ls, g, loc);
        opt_seq(spec_scenery_load_crash_context(ls, loc)) + opt_seq(spec_last_loaded_context(ls, loc))
            + opt_seq(spec_pre_crash_context(ls, loc)) + opt_seq(spec_early_silent_crash(ls, g, loc))
    } else {
        lemma_abrupt_termination_once(ls, loc);
        opt_seq(spec_abrupt_termination(ls, loc))
    };
    assert(raw =~= f1 + tail);
    assert forall|i: int| 0 <= i < tail.len() implies seen_in_log(#[trigger] tail[i]) by {
        if crash {
            let g = f1 + opt_seq(spec_scenery_load_crash_context(ls, loc)) + opt_seq(
                spec_last_loaded_context(ls, loc),
            ) + opt_seq(spec_pre_crash_context(ls, loc));
            crate::rules::kinds::lemma_in4(
                opt_seq(spec_scenery_load_crash_context(ls, loc)),
                opt_seq(spec_last_loaded_context(ls, loc)),
                opt_seq(spec_pre_crash_context(ls, loc)),
                opt_seq(spec_early_silent_crash(ls, g, loc)),
                i,
            );
        }
    }
    assert forall|i: int| 0 <= i < raw.len() implies seen_in_log(#[trigger] raw[i]) by {
        crate::rules::kinds::lemma_in2(f1, tail, i);
    }
}

#[verifier::spinoff_prover]
proof fn lemma_with_extras_evidence(e: FindingView, xs: Seq<Seq<char>>)
    ensures
        with_extras(e, xs).evidence == e.evidence,
    decreases xs.len(),
{
    if xs.len() > 0 {
        lemma_with_extras_evidence(with_extra(e, xs[0]), xs.drop_first());
    }
}

#[verifier::spinoff_prover]
proof fn lemma_merge_seen(e: FindingView, f: FindingView)
    requires
        seen_in_log(e),
        seen_in_log(f),
    ensures
        seen_in_log(merge(e, f)),
{
    lemma_merge_occ(e, f);
    let e1 = if severity_rank(f.severity) < severity_rank(e.severity) {
        with_extra(
            FindingView {
                evidence: f.evidence,
                severity: f.severity,
                confidence: f.confidence,
                title: f.title,
                explanation: f.explanation,
                suggestion: f.suggestion,
                ..e
            },
            e.evidence,
        )
    } else {
        with_extra(e, f.evidence)
    };
    lemma_with_extras_evidence(FindingView { occurrences: e1.occurrences + f.occurrences, ..e1 }, f.extra_evidence);
}

#[verifier::spinoff_prover]
proof fn lemma_dedupe_seen(fs: Seq<FindingView>, n: nat)
    requires
        n <= fs.len(),
        forall|i: int| 0 <= i < fs.len() ==> seen_in_log(#[trigger] fs[i]),
    ensures
        forall|i: int|
            0 <= i < dedupe_state(fs, n).1.len() ==> seen_in_log(#[trigger] dedupe_state(fs, n).1[i]),
    decreases n,
{
    if n > 0 {
        let m = (n - 1) as nat;
        lemma_dedupe_seen(fs, m);
        lemma_dedupe_state(fs, m);
        let prev = dedupe_state(fs, m);
        let f = fs[m as int];
        let k = dedupe_key(f);
        lemma_key_pos(prev.0, k, 0);
        match key_pos(prev.0, k, 0) {
            Some(j) => {
                lemma_merge_seen(prev.1[j], f);
            },
            None => {},
        }
    }
}

/// A key of a channel or third-party plugin finding is never the kind of
/// another rule.
#[verifier::spinoff_prover]
proof fn lemma_special_key_not(s: Seq<char>, t: Seq<char>, k: Seq<char>, j: int)
    requires
        (0 <= j < s.len() && j < k.len() && s[j] != k[j]) || k.len() < s.len() + 1,
    ensures
        s + seq![':'] + t != k,
{
    if 0 <= j < s.len() && j < k.len() && s[j] != k[j] {
        assert((s + seq![':'] + t)[j] == s[j]);
    }
}

} // verus!

verus! {

/// A kind that the analysis gives.
pub open spec fn known_kind(k: Seq<char>) -> bool {
    crate::rules::kinds::line_rule_kind(k) || k == "xplane_subsystem_errors"@
        || crate::rules::kinds::context_kind(k) || k == "abrupt_termination"@
}

/// A channel or third-party plugin key is never the key of another kind
/// that the analysis gives.
#[verifier::rlimit(80)]
#[verifier::spinoff_prover]
proof fn lemma_special_key_alone(f: FindingView, g: FindingView)
    requires
        known_kind(g.kind),
        f.kind == "xplane_subsystem_errors"@ || f.kind == "third_party_plugin_error"@,
        !(g.kind == "xplane_subsystem_errors"@ || g.kind == "third_party_plugin_error"@),
    ensures
        dedupe_key(f) != dedupe_key(g),
{
    reveal_strlit("abrupt_termination");
    reveal_strlit("aircraft_open_failure");
    reveal_strlit("application_crash");
    reveal_strlit("duplicate_scenery_log");
    reveal_strlit("early_silent_crash");
    reveal_strlit("flywithlua_error");
    reveal_strlit("graphics_vulkan_error");
    reveal_strlit("last_loaded_context");
    reveal_strlit("macos_security_block");
    reveal_strlit("memory_or_vram");
    reveal_strlit("missing_global_scenery_tile");
    reveal_strlit("missing_scenery_asset");
    reveal_strlit("missing_scenery_library");
    reveal_strlit("missing_scenery_object");
    reveal_strlit("plugin_encountered_error");
    reveal_strlit("plugin_load_failed");
    reveal_strlit("pre_crash_context");
    reveal_strlit("scenery_load_crash_context");
    reveal_strlit("texture_vram_pressure");
    reveal_strlit("third_party_plugin_error");
    reveal_strlit("threading_violation");
    reveal_strlit("vulkan_device_lost");
    reveal_strlit("vulkan_result_error");
    reveal_strlit("xplane_subsystem_errors");
    reveal_strlit("xplm_bypass");
    lemma_key_first_char(f);
    lemma_key_first_char(g);
        if g.kind == "plugin_load_failed"@ {
            if f.kind == "xplane_subsystem_errors"@ {
                lemma_special_key_not(f.kind, f.title, g.kind, 0);
            }
            if f.kind == "third_party_plugin_error"@ {
                lemma_special_key_not(f.kind, f.title, g.kind, 0);
            }
        } else if g.kind == "vulkan_result_error"@ {
            if f.kind == "xplane_subsystem_errors"@ {
                lemma_special_key_not(f.kind, f.title, g.kind, 0);
            }
            if f.kind == "third_party_plugin_error"@ {
                lemma_special_key_not(f.kind, f.title, g.kind, 0);
            }
        } else if g.kind == "graphics_vulkan_error"@ {
            if f.kind == "xplane_subsystem_errors"@ {
                lemma_special_key_not(f.kind, f.title, g.kind, 0);
            }
            if f.kind == "third_party_plugin_error"@ {
                lemma_special_key_not(f.kind, f.title, g.kind, 0);
            }
        } else if g.kind == "memory_or_vram"@ {
            if f.kind == "xplane_subsystem_errors"@ {
                lemma_special_key_not(f.kind, f.title, g.kind, 0);
            }
            if f.kind == "third_party_plugin_error"@ {
                lemma_special_key_not(f.kind, f.title, g.kind, 0);
            }
        } else if g.kind == "texture_vram_pressure"@ {
            if f.kind == "xplane_subsystem_errors"@ {
                lemma_special_key_not(f.kind, f.title, g.kind, 0);
            }
            if f.kind == "third_party_plugin_error"@ {
                lemma_special_key_not(f.kind, f.title, g.kind, 0);
            }
        } else if g.kind == "missing_scenery_asset"@ {
            if f.kind == "xplane_subsystem_errors"@ {
                lemma_special_key_not(f.kind, f.title, g.kind, 0);
            }
            if f.kind == "third_party_plugin_error"@ {
                lemma_special_key_not(f.kind, f.title, g.kind, 0);
            }
        } else if g.kind == "missing_scenery_object"@ {
            if f.kind == "xplane_subsystem_errors"@ {
                lemma_special_key_not(f.kind, f.title, g.kind, 0);
            }
            if f.kind == "third_party_plugin_error"@ {
                lemma_special_key_not(f.kind, f.title, g.kind, 0);
            }
        } else if g.kind == "missing_scenery_library"@ {
            if f.kind == "xplane_subsystem_errors"@ {
                lemma_special_key_not(f.kind, f.title, g.kind, 0);
            }
            if f.kind == "third_party_plugin_error"@ {
                lemma_special_key_not(f.kind, f.title, g.kind, 0);
            }
        } else if g.kind == "missing_global_scenery_tile"@ {
            if f.kind == "xplane_subsystem_errors"@ {
                lemma_special_key_not(f.kind, f.title, g.kind, 0);
            }
            if f.kind == "third_party_plugin_error"@ {
                lemma_special_key_not(f.kind, f.title, g.kind, 0);
            }
        } else if g.kind == "vulkan_device_lost"@ {
            if f.kind == "xplane_subsystem_errors"@ {
                lemma_special_key_not(f.kind, f.title, g.kind, 0);
            }
            if f.kind == "third_party_plugin_error"@ {
                lemma_special_key_not(f.kind, f.title, g.kind, 0);
            }
        } else if g.kind == "threading_violation"@ {
            if f.kind == "xplane_subsystem_errors"@ {
                lemma_special_key_not(f.kind, f.title, g.kind, 0);
            }
            if f.kind == "third_party_plugin_error"@ {
                lemma_special_key_not(f.kind, f.title, g.kind, 0);
            }
        } else if g.kind == "xplm_bypass"@ {
            if f.kind == "xplane_subsystem_errors"@ {
                lemma_special_key_not(f.kind, f.title, g.kind, 0);
            }
            if f.kind == "third_party_plugin_error"@ {
                lemma_special_key_not(f.kind, f.title, g.kind, 0);
            }
        } else if g.kind == "flywithlua_error"@ {
            if f.kind == "xplane_subsystem_errors"@ {
                lemma_special_key_not(f.kind, f.title, g.kind, 0);
            }
            if f.kind == "third_party_plugin_error"@ {
                lemma_special_key_not(f.kind, f.title, g.kind, 0);
            }
        } else if g.kind == "plugin_encountered_error"@ {
            if f.kind == "xplane_subsystem_errors"@ {
                lemma_special_key_not(f.kind, f.title, g.kind, 0);
            }
            if f.kind == "third_party_plugin_error"@ {
                lemma_special_key_not(f.kind, f.title, g.kind, 0);
            }
        } else if g.kind == "aircraft_open_failure"@ {
            if f.kind == "xplane_subsystem_errors"@ {
                lemma_special_key_not(f.kind, f.title, g.kind, 0);
            }
            if f.kind == "third_party_plugin_error"@ {
                lemma_special_key_not(f.kind, f.title, g.kind, 0);
            }
        } else if g.kind == "macos_security_block"@ {
            if f.kind == "xplane_subsystem_errors"@ {
                lemma_special_key_not(f.kind, f.title, g.kind, 0);
            }
            if f.kind == "third_party_plugin_error"@ {
                lemma_special_key_not(f.kind, f.title, g.kind, 0);
            }
        } else if g.kind == "application_crash"@ {
            if f.kind == "xplane_subsystem_errors"@ {
                lemma_special_key_not(f.kind, f.title, g.kind, 0);
            }
            if f.kind == "third_party_plugin_error"@ {
                lemma_special_key_not(f.kind, f.title, g.kind, 0);
            }
        } else if g.kind == "duplicate_scenery_log"@ {
            if f.kind == "xplane_subsystem_errors"@ {
                lemma_special_key_not(f.kind, f.title, g.kind, 0);
            }
            if f.kind == "third_party_plugin_error"@ {
                lemma_special_key_not(f.kind, f.title, g.kind, 0);
            }
        } else if g.kind == "scenery_load_crash_context"@ {
            if f.kind == "xplane_subsystem_errors"@ {
                lemma_special_key_not(f.kind, f.title, g.kind, 0);
            }
            if f.kind == "third_party_plugin_error"@ {
                lemma_special_key_not(f.kind, f.title, g.kind, 0);
            }
        } else if g.kind == "last_loaded_context"@ {
            if f.kind == "xplane_subsystem_errors"@ {
                lemma_special_key_not(f.kind, f.title, g.kind, 0);
            }
            if f.kind == "third_party_plugin_error"@ {
                lemma_special_key_not(f.kind, f.title, g.kind, 0);
            }
        } else if g.kind == "pre_crash_context"@ {
            if f.kind == "xplane_subsystem_errors"@ {
                lemma_special_key_not(f.kind, f.title, g.kind, 0);
            }
            if f.kind == "third_party_plugin_error"@ {
                lemma_special_key_not(f.kind, f.title, g.kind, 0);
            }
        } else if g.kind == "early_silent_crash"@ {
            if f.kind == "xplane_subsystem_errors"@ {
                lemma_special_key_not(f.kind, f.title, g.kind, 0);
            }
            if f.kind == "third_party_plugin_error"@ {
                lemma_special_key_not(f.kind, f.title, g.kind, 0);
            }
        } else if g.kind == "abrupt_termination"@ {
            if f.kind == "xplane_subsystem_errors"@ {
                lemma_special_key_not(f.kind, f.title, g.kind, 0);
            }
            if f.kind == "third_party_plugin_error"@ {
                lemma_special_key_not(f.kind, f.title, g.kind, 0);
            }
        }
}

/// Findings of the kinds the analysis gives share a merge key only when
/// they share their kind.
#[verifier::spinoff_prover]
proof fn lemma_key_kinds(f: FindingView, g: FindingView)
    requires
        known_kind(f.kind),
        known_kind(g.kind),
        dedupe_key(f) == dedupe_key(g),
    ensures
        f.kind == g.kind,
{
    lemma_key_first_char(f);
    lemma_key_first_char(g);
    let fs = f.kind == "xplane_subsystem_errors"@ || f.kind == "third_party_plugin_error"@;
    let gs = g.kind == "xplane_subsystem_errors"@ || g.kind == "third_party_plugin_error"@;
    if fs && !gs {
        lemma_special_key_alone(f, g);
    } else if gs && !fs {
        lemma_special_key_alone(g, f);
    } else if fs && gs && f.kind != g.kind {
        reveal_strlit("xplane_subsystem_errors");
        reveal_strlit("third_party_plugin_error");
        assert(dedupe_key(f)[0] != dedupe_key(g)[0]);
    }
}

} // verus!

verus! {

/// Every finding the analysis of a log reports was seen at least once, has
/// its evidence in `Log.txt` (`Log.txt:<line>: ...`), has at most four
/// further evidence lines, and no two reported findings share a merge key
/// (the kind, and for channel and third-party plugin findings the title).
#[verifier::spinoff_prover]
pub proof fn law_reported_findings_are_well_formed(text: Seq<char>, loc: crate::i18n::Locale)
    ensures
        forall|i: int|
            0 <= i < crate::rules::analyze::log_findings(text, loc).len() ==> {
                let f = #[trigger] crate::rules::analyze::log_findings(text, loc)[i];
                &&& f.occurrences >= 1
                &&& crate::rules::evidence::log_evidence(f.evidence)
                &&& f.extra_evidence.len() <= MAX_EXTRA_EVIDENCE
            },
        forall|i: int, j: int|
            0 <= i < j < crate::rules::analyze::log_findings(text, loc).len() ==> dedupe_key(
                #[trigger] crate::rules::analyze::log_findings(text, loc)[i],
            ) != dedupe_key(#[trigger] crate::rules::analyze::log_findings(text, loc)[j]),
{
    let ls = crate::text::lines(text);
    let raw = raw_findings(ls, loc);
    let d = dedupe(raw);
    let r = crate::rules::analyze::log_findings(text, loc);
    lemma_raw_seen(ls, loc);
    lemma_dedupe_seen(raw, raw.len());
    law_reported_findings_have_at_most_five_evidence_lines(text, loc);
    law_suppress_only_demotes_channel_findings(d);
    lemma_raw_kinds(ls, loc);
    assert forall|a: int, b: int|
        0 <= a < raw.len() && 0 <= b < raw.len() && dedupe_key(#[trigger] raw[a]) == dedupe_key(
            #[trigger] raw[b],
        ) implies raw[a].kind == raw[b].kind by {
        lemma_key_kinds(raw[a], raw[b]);
    }
    assert(keys_name_kinds(raw));
    law_dedupe_one_finding_per_key(raw);
    assert forall|i: int| 0 <= i < r.len() implies {
        let f = #[trigger] r[i];
        &&& f.occurrences >= 1
        &&& crate::rules::evidence::log_evidence(f.evidence)
        &&& f.extra_evidence.len() <= MAX_EXTRA_EVIDENCE
    } by {
        assert(seen_in_log(d[i]));
    }
    assert forall|i: int, j: int| 0 <= i < j < r.len() implies dedupe_key(#[trigger] r[i]) != dedupe_key(
        #[trigger] r[j],
    ) by {
        assert(dedupe_key(r[i]) == dedupe_key(d[i]));
        assert(dedupe_key(r[j]) == dedupe_key(d[j]));
    }
}

} // verus!

verus! {

/// The findings with merge key `k`, in their order.
pub open spec fn group(fs: Seq<FindingView>, k: Seq<char>) -> Seq<FindingView>
    decreases fs.len(),
{
    if fs.len() == 0 {
        seq![]
    } else {
        let g = group(fs.drop_last(), k);
        if dedupe_key(fs.last()) == k {
            g.push(fs.last())
        } else {
            g
        }
    }
}

/// The findings of a group merged one after another, from the first.
pub open spec fn merged(g: Seq<FindingView>) -> FindingView
    decreases g.len(),
{
    if g.len() <= 1 {
        g[0]
    } else {
        merge(merged(g.drop_last()), g.last())
    }
}

/// The most urgent severity rank in a group.
pub open spec fn min_rank(g: Seq<FindingView>) -> nat
    decreases g.len(),
{
    if g.len() <= 1 {
        severity_rank(g[0].severity)
    } else if severity_rank(g.last().severity) < min_rank(g.drop_last()) {
        severity_rank(g.last().severity)
    } else {
        min_rank(g.drop_last())
    }
}

/// The first finding of a group with the most urgent severity.
pub open spec fn first_most_urgent(g: Seq<FindingView>) -> int
    decreases g.len(),
{
    if g.len() <= 1 {
        0
    } else if severity_rank(g.last().severity) < min_rank(g.drop_last()) {
        g.len() - 1
    } else {
        first_most_urgent(g.drop_last())
    }
}

#[verifier::spinoff_prover]
proof fn lemma_group_nonempty(fs: Seq<FindingView>, k: Seq<char>)
    ensures
        group(fs, k).len() > 0 ==> exists|a: int| 0 <= a < fs.len() && dedupe_key(#[trigger] fs[a]) == k,
        (exists|a: int| 0 <= a < fs.len() && dedupe_key(#[trigger] fs[a]) == k) ==> group(fs, k).len() > 0,
    decreases fs.len(),
{
    if fs.len() > 0 {
        let p = fs.drop_last();
        lemma_group_nonempty(p, k);
        if group(fs, k).len() > 0 && dedupe_key(fs.last()) != k {
            let a = choose|a: int| 0 <= a < p.len() && dedupe_key(#[trigger] p[a]) == k;
            assert(fs[a] == p[a]);
        }
        if exists|a: int| 0 <= a < fs.len() && dedupe_key(#[trigger] fs[a]) == k {
            let a = choose|a: int| 0 <= a < fs.len() && dedupe_key(#[trigger] fs[a]) == k;
            if a < fs.len() - 1 {
                assert(p[a] == fs[a]);
            }
        }
    }
}

/// After `n` findings, each slot holds its key's group merged, the keys are
/// distinct, and every key seen has a slot.
#[verifier::spinoff_prover]
proof fn lemma_dedupe_groups(fs: Seq<FindingView>, n: nat)
    requires
        n <= fs.len(),
    ensures
        dedupe_state(fs, n).0.len() == dedupe_state(fs, n).1.len(),
        forall|i: int|
            0 <= i < dedupe_state(fs, n).1.len() ==> group(fs.take(n as int), dedupe_state(fs, n).0[i]).len()
                > 0 && #[trigger] dedupe_state(fs, n).1[i] == merged(
                group(fs.take(n as int), dedupe_state(fs, n).0[i]),
            ),
        forall|i: int, j: int|
            0 <= i < j < dedupe_state(fs, n).0.len() ==> #[trigger] dedupe_state(fs, n).0[i]
                != #[trigger] dedupe_state(fs, n).0[j],
        forall|a: int|
            0 <= a < n ==> exists|i: int|
                0 <= i < dedupe_state(fs, n).0.len() && #[trigger] dedupe_state(fs, n).0[i]
                    == dedupe_key(#[trigger] fs[a]),
    decreases n,
{
    lemma_dedupe_kinds(fs, n);
    if n == 0 {
    } else {
        let m = (n - 1) as nat;
        lemma_dedupe_groups(fs, m);
        let prev = dedupe_state(fs, m);
        let cur = dedupe_state(fs, n);
        let f = fs[m as int];
        let k = dedupe_key(f);
        lemma_key_pos(prev.0, k, 0);
        let tm = fs.take(m as int);
        let tn = fs.take(n as int);
        assert(tn.drop_last() =~= tm);
        assert(tn.last() == f);
        assert forall|q: Seq<char>| q != k implies #[trigger] group(tn, q) == group(tm, q) by {}
        assert(group(tn, k) == group(tm, k).push(f));
        match key_pos(prev.0, k, 0) {
            Some(j) => {
                assert(group(tm, k).len() > 0);
                assert(group(tm, k).push(f).drop_last() =~= group(tm, k));
                assert forall|i: int| 0 <= i < cur.1.len() implies group(tn, cur.0[i]).len() > 0
                    && #[trigger] cur.1[i] == merged(group(tn, cur.0[i])) by {
                    if i != j {
                        assert(cur.0[i] != k);
                    }
                }
            },
            None => {
                if group(tm, k).len() > 0 {
                    lemma_group_nonempty(tm, k);
                    let a = choose|a: int| 0 <= a < tm.len() && dedupe_key(#[trigger] tm[a]) == k;
                    assert(tm[a] == fs[a]);
                }
                assert(group(tm, k).len() == 0);
                assert(group(tn, k) =~= seq![f]);
                assert forall|i: int| 0 <= i < cur.1.len() implies group(tn, cur.0[i]).len() > 0
                    && #[trigger] cur.1[i] == merged(group(tn, cur.0[i])) by {
                    if i < prev.1.len() {
                        assert(cur.0[i] == prev.0[i]);
                        assert(prev.0[i] != k);
                    }
                }
            },
        }
    }
}

} // verus!

verus! {

#[verifier::spinoff_prover]
proof fn lemma_with_extras_keeps(e: FindingView, xs: Seq<Seq<char>>)
    ensures
        with_extras(e, xs) == (FindingView { extra_evidence: with_extras(e, xs).extra_evidence, ..e }),
    decreases xs.len(),
{
    if xs.len() > 0 {
        lemma_with_extras_keeps(with_extra(e, xs[0]), xs.drop_first());
    }
}

/// What a merge keeps: the kind of the first, both counts, and the texts
/// and severity of the second only when it is more urgent.
#[verifier::spinoff_prover]
proof fn lemma_merge_texts(e: FindingView, f: FindingView)
    ensures
        merge(e, f).kind == e.kind,
        merge(e, f).occurrences == e.occurrences + f.occurrences,
        severity_rank(f.severity) < severity_rank(e.severity) ==> {
            &&& merge(e, f).severity == f.severity
            &&& merge(e, f).confidence == f.confidence
            &&& merge(e, f).title == f.title
            &&& merge(e, f).evidence == f.evidence
            &&& merge(e, f).explanation == f.explanation
            &&& merge(e, f).suggestion == f.suggestion
        },
        !(severity_rank(f.severity) < severity_rank(e.severity)) ==> {
            &&& merge(e, f).severity == e.severity
            &&& merge(e, f).confidence == e.confidence
            &&& merge(e, f).title == e.title
            &&& merge(e, f).evidence == e.evidence
            &&& merge(e, f).explanation == e.explanation
            &&& merge(e, f).suggestion == e.suggestion
        },
{
    lemma_merge_occ(e, f);
    let e1 = if severity_rank(f.severity) < severity_rank(e.severity) {
        with_extra(
            FindingView {
                evidence: f.evidence,
                severity: f.severity,
                confidence: f.confidence,
                title: f.title,
                explanation: f.explanation,
                suggestion: f.suggestion,
                ..e
            },
            e.evidence,
        )
    } else {
        with_extra(e, f.evidence)
    };
    lemma_with_extras_keeps(FindingView { occurrences: e1.occurrences + f.occurrences, ..e1 }, f.extra_evidence);
}

/// The same texts and severity.
pub open spec fn same_texts(a: FindingView, b: FindingView) -> bool {
    &&& a.severity == b.severity
    &&& a.confidence == b.confidence
    &&& a.title == b.title
    &&& a.evidence == b.evidence
    &&& a.explanation == b.explanation
    &&& a.suggestion == b.suggestion
}

#[verifier::spinoff_prover]
proof fn lemma_merged_props(g: Seq<FindingView>)
    requires
        g.len() > 0,
    ensures
        merged(g).kind == g[0].kind,
        merged(g).occurrences == total_occ(g),
        severity_rank(merged(g).severity) == min_rank(g),
        forall|j: int| 0 <= j < g.len() ==> min_rank(g) <= severity_rank((#[trigger] g[j]).severity),
        0 <= first_most_urgent(g) < g.len(),
        severity_rank(g[first_most_urgent(g)].severity) == min_rank(g),
        forall|j: int|
            0 <= j < first_most_urgent(g) ==> min_rank(g) < severity_rank((#[trigger] g[j]).severity),
        same_texts(merged(g), g[first_most_urgent(g)]),
    decreases g.len(),
{
    if g.len() == 1 {
        assert(g.drop_last().len() == 0);
        assert(total_occ(g.drop_last()) == 0);
    } else {
        let p = g.drop_last();
        lemma_merged_props(p);
        lemma_merge_texts(merged(p), g.last());
        assert forall|j: int| 0 <= j < g.len() implies min_rank(g) <= severity_rank(
            (#[trigger] g[j]).severity,
        ) by {
            if j < p.len() {
                assert(g[j] == p[j]);
            }
        }
        assert forall|j: int| 0 <= j < first_most_urgent(g) implies min_rank(g) < severity_rank(
            (#[trigger] g[j]).severity,
        ) by {
            assert(g[j] == p[j]);
        }
        if !(severity_rank(g.last().severity) < min_rank(p)) {
            assert(g[first_most_urgent(p)] == p[first_most_urgent(p)]);
        }
        assert(g[0] == p[0]);
    }
}

/// Merging lists one finding per merge key. The finding for a key counts
/// the occurrences of all findings with that key, carries the most urgent
/// of their severities, and takes its severity, confidence, title,
/// evidence, explanation and suggestion from the first of them with that
/// severity; every key of the input has its finding. This holds when
/// findings of different kinds never share a key, as with the kinds the
/// rules give.
#[verifier::spinoff_prover]
#[verifier::rlimit(50)]
pub proof fn law_dedupe_merges_each_key(fs: Seq<FindingView>)
    requires
        keys_name_kinds(fs),
    ensures
        forall|i: int|
            0 <= i < dedupe(fs).len() ==> {
                let r = #[trigger] dedupe(fs)[i];
                let g = group(fs, dedupe_key(r));
                &&& g.len() > 0
                &&& r.kind == g[0].kind
                &&& r.occurrences == total_occ(g)
                &&& severity_rank(r.severity) == min_rank(g)
                &&& forall|j: int| 0 <= j < g.len() ==> min_rank(g) <= severity_rank((#[trigger] g[j]).severity)
                &&& forall|j: int|
                    0 <= j < first_most_urgent(g) ==> min_rank(g) < severity_rank((#[trigger] g[j]).severity)
                &&& 0 <= first_most_urgent(g) < g.len()
                &&& severity_rank(g[first_most_urgent(g)].severity) == min_rank(g)
                &&& same_texts(r, g[first_most_urgent(g)])
            },
        forall|a: int|
            0 <= a < fs.len() ==> exists|i: int|
                0 <= i < dedupe(fs).len() && dedupe_key(#[trigger] dedupe(fs)[i]) == dedupe_key(
                    #[trigger] fs[a],
                ),
{
    lemma_dedupe_groups(fs, fs.len());
    lemma_dedupe_keys(fs, fs.len());
    let st = dedupe_state(fs, fs.len());
    assert(fs.take(fs.len() as int) =~= fs);
    assert forall|i: int| 0 <= i < dedupe(fs).len() implies {
        let r = #[trigger] dedupe(fs)[i];
        let g = group(fs, dedupe_key(r));
        &&& g.len() > 0
        &&& r.kind == g[0].kind
        &&& r.occurrences == total_occ(g)
        &&& severity_rank(r.severity) == min_rank(g)
        &&& forall|j: int| 0 <= j < g.len() ==> min_rank(g) <= severity_rank((#[trigger] g[j]).severity)
        &&& forall|j: int|
            0 <= j < first_most_urgent(g) ==> min_rank(g) < severity_rank((#[trigger] g[j]).severity)
        &&& 0 <= first_most_urgent(g) < g.len()
        &&& severity_rank(g[first_most_urgent(g)].severity) == min_rank(g)
        &&& same_texts(r, g[first_most_urgent(g)])
    } by {
        assert(st.0[i] == dedupe_key(st.1[i]));
        lemma_merged_props(group(fs, st.0[i]));
    }
    assert forall|a: int| 0 <= a < fs.len() implies exists|i: int|
        0 <= i < dedupe(fs).len() && dedupe_key(#[trigger] dedupe(fs)[i]) == dedupe_key(#[trigger] fs[a]) by {
        let i = choose|i: int| 0 <= i < st.0.len() && #[trigger] st.0[i] == dedupe_key(#[trigger] fs[a]);
        assert(st.0[i] == dedupe_key(st.1[i]));
    }
}

} // verus!

verus! {

/// The keys come in the order of their first appearance: before any finding
/// with a later key, a finding with each earlier key was seen.
#[verifier::spinoff_prover]
proof fn lemma_dedupe_order(fs: Seq<FindingView>, n: nat)
    requires
        n <= fs.len(),
    ensures
        forall|i: int, j: int, b: int|
            #![trigger dedupe_state(fs, n).0[i], dedupe_state(fs, n).0[j], fs[b]]
            0 <= i < j < dedupe_state(fs, n).0.len() && 0 <= b < n && dedupe_key(fs[b])
                == dedupe_state(fs, n).0[j] ==> exists|a: int|
                0 <= a < b && dedupe_key(#[trigger] fs[a]) == dedupe_state(fs, n).0[i],
    decreases n,
{
    if n > 0 {
        let m = (n - 1) as nat;
        lemma_dedupe_order(fs, m);
        lemma_dedupe_kinds(fs, m);
        lemma_dedupe_groups(fs, m);
        let prev = dedupe_state(fs, m);
        let cur = dedupe_state(fs, n);
        let f = fs[m as int];
        let k = dedupe_key(f);
        lemma_key_pos(prev.0, k, 0);
        assert forall|i: int, j: int, b: int|
            #![trigger cur.0[i], cur.0[j], fs[b]]
            0 <= i < j < cur.0.len() && 0 <= b < n && dedupe_key(fs[b]) == cur.0[j] implies exists|a: int|
            0 <= a < b && dedupe_key(#[trigger] fs[a]) == cur.0[i] by {
            assert(cur.0[i] == prev.0[i]);
            let ai = choose|a: int|
                0 <= a < m && #[trigger] fs[a].kind == (#[trigger] prev.1[i]).kind && dedupe_key(fs[a])
                    == prev.0[i];
            if b == m {
                assert(dedupe_key(fs[ai]) == cur.0[i]);
            } else if j < prev.0.len() {
                assert(cur.0[j] == prev.0[j]);
                assert(prev.0[i] == prev.0[i] && prev.0[j] == prev.0[j] && fs[b] == fs[b]);
            } else {
                let s = choose|s: int| 0 <= s < prev.0.len() && #[trigger] prev.0[s] == dedupe_key(
                    #[trigger] fs[b],
                );
                assert(prev.0[s] == k);
            }
        }
    }
}

/// Before a finding with the key of entry `j` of `r`, a finding with the key
/// of entry `i` was seen in `fs`.
pub open spec fn seen_before(fs: Seq<FindingView>, r: Seq<FindingView>, i: int, j: int, b: int) -> bool {
    0 <= i < j < r.len() && 0 <= b < fs.len() && dedupe_key(fs[b]) == dedupe_key(r[j]) ==> exists|a: int|
        0 <= a < b && dedupe_key(#[trigger] fs[a]) == dedupe_key(r[i])
}

/// Before any finding with the key of a later entry of `r`, a finding with
/// the key of each earlier entry was seen in `fs`.
pub open spec fn keys_in_first_order(fs: Seq<FindingView>, r: Seq<FindingView>) -> bool {
    forall|i: int, j: int, b: int| #[trigger] seen_before(fs, r, i, j, b)
}

/// Merging lists the keys in the order in which they first appear.
#[verifier::spinoff_prover]
pub proof fn law_dedupe_keeps_first_appearance_order(fs: Seq<FindingView>)
    requires
        keys_name_kinds(fs),
    ensures
        keys_in_first_order(fs, dedupe(fs)),
{
    lemma_dedupe_order(fs, fs.len());
    lemma_dedupe_keys(fs, fs.len());
    let st = dedupe_state(fs, fs.len());
    let r = dedupe(fs);
    assert forall|i: int, j: int, b: int| #[trigger] seen_before(fs, r, i, j, b) by {
        if 0 <= i < j < r.len() && 0 <= b < fs.len() && dedupe_key(fs[b]) == dedupe_key(r[j]) {
            assert(st.0[j] == dedupe_key(st.1[j]));
            assert(st.0[i] == dedupe_key(st.1[i]));
            assert(st.0[i] == st.0[i] && st.0[j] == st.0[j] && fs[b] == fs[b]);
            let a = choose|a: int| 0 <= a < b && dedupe_key(#[trigger] fs[a]) == st.0[i];
            assert(dedupe_key(fs[a]) == dedupe_key(r[i]));
        }
    }
}

} // verus!

verus! {

#[verifier::spinoff_prover]
proof fn lemma_middle_cancel(p: Seq<char>, n: Seq<char>, m: Seq<char>, q: Seq<char>)
    requires
        p + n + q == p + m + q,
    ensures
        n == m,
{
    assert((p + n + q).len() == (p + n).len() + q.len());
    assert((p + m + q).len() == (p + m).len() + q.len());
    assert((p + n).len() == p.len() + n.len());
    assert((p + m).len() == p.len() + m.len());
    assert(n.len() == m.len());
    assert forall|i: int| 0 <= i < n.len() implies n[i] == m[i] by {
        assert((p + n + q)[p.len() + i] == n[i]);
        assert((p + m + q)[p.len() + i] == m[i]);
    }
    assert(n =~= m);
}

/// Twins in two languages share a merge key exactly when their twins do.
#[verifier::spinoff_prover]
proof fn lemma_key_twins(a1: FindingView, b1: FindingView, a2: FindingView, b2: FindingView)
    requires
        crate::rules::langs::twins(a1, b1),
        crate::rules::langs::twins(a2, b2),
        known_kind(a1.kind),
        known_kind(a2.kind),
    ensures
        (dedupe_key(a1) == dedupe_key(a2)) == (dedupe_key(b1) == dedupe_key(b2)),
{
    if dedupe_key(a1) == dedupe_key(a2) {
        lemma_key_kinds(a1, a2);
    }
    if dedupe_key(b1) == dedupe_key(b2) {
        lemma_key_kinds(b1, b2);
    }
    lemma_key_first_char(a1);
    lemma_key_first_char(a2);
    lemma_key_first_char(b1);
    lemma_key_first_char(b2);
    if a1.kind == a2.kind && a1.kind == "third_party_plugin_error"@ {
        reveal_strlit("xplane_subsystem_errors");
        reveal_strlit("third_party_plugin_error");
        assert("xplane_subsystem_errors"@.len() != "third_party_plugin_error"@.len());
        let n1 = choose|n: Seq<char>|
            a1.title == #[trigger] crate::rules::langs::plugin_error_title(crate::i18n::Locale::Zh, n)
                && b1.title == crate::rules::langs::plugin_error_title(crate::i18n::Locale::En, n);
        let n2 = choose|n: Seq<char>|
            a2.title == #[trigger] crate::rules::langs::plugin_error_title(crate::i18n::Locale::Zh, n)
                && b2.title == crate::rules::langs::plugin_error_title(crate::i18n::Locale::En, n);
        let k = a1.kind + seq![':'];
        if dedupe_key(a1) == dedupe_key(a2) {
            lemma_middle_cancel(k, a1.title, a2.title, seq![]);
            assert(k + a1.title + seq![] =~= k + a1.title);
            assert(k + a2.title + seq![] =~= k + a2.title);
            lemma_middle_cancel("第三方插件报告错误："@, n1, n2, ""@);
        }
        if dedupe_key(b1) == dedupe_key(b2) {
            assert(k + b1.title + seq![] =~= k + b1.title);
            assert(k + b2.title + seq![] =~= k + b2.title);
            lemma_middle_cancel(k, b1.title, b2.title, seq![]);
            lemma_middle_cancel("Third-party plugin reported an error: "@, n1, n2, ""@);
        }
    }
}

#[verifier::spinoff_prover]
proof fn lemma_key_pos_twins(ks1: Seq<Seq<char>>, ks2: Seq<Seq<char>>, k1: Seq<char>, k2: Seq<char>, i: int)
    requires
        ks1.len() == ks2.len(),
        forall|q: int| 0 <= q < ks1.len() ==> (#[trigger] ks1[q] == k1) == (ks2[q] == k2),
    ensures
        key_pos(ks1, k1, i) == key_pos(ks2, k2, i),
    decreases ks1.len() - i,
{
    if 0 <= i < ks1.len() {
        lemma_key_pos_twins(ks1, ks2, k1, k2, i + 1);
    }
}

#[verifier::spinoff_prover]
proof fn lemma_with_extras_same(e1: FindingView, e2: FindingView, xs: Seq<Seq<char>>)
    requires
        e1.evidence == e2.evidence,
        e1.extra_evidence == e2.extra_evidence,
    ensures
        with_extras(e1, xs).extra_evidence == with_extras(e2, xs).extra_evidence,
    decreases xs.len(),
{
    lemma_with_extras_keeps(e1, xs);
    lemma_with_extras_keeps(e2, xs);
    if xs.len() > 0 {
        lemma_with_extras_same(with_extra(e1, xs[0]), with_extra(e2, xs[0]), xs.drop_first());
    }
}

#[verifier::spinoff_prover]
proof fn lemma_merge_twins(e1: FindingView, e2: FindingView, f1: FindingView, f2: FindingView)
    requires
        crate::rules::langs::twins(e1, e2),
        crate::rules::langs::twins(f1, f2),
        e1.kind == f1.kind,
    ensures
        crate::rules::langs::twins(merge(e1, f1), merge(e2, f2)),
{
    lemma_merge_texts(e1, f1);
    lemma_merge_texts(e2, f2);
    let x1 = if severity_rank(f1.severity) < severity_rank(e1.severity) {
        with_extra(
            FindingView {
                evidence: f1.evidence,
                severity: f1.severity,
                confidence: f1.confidence,
                title: f1.title,
                explanation: f1.explanation,
                suggestion: f1.suggestion,
                ..e1
            },
            e1.evidence,
        )
    } else {
        with_extra(e1, f1.evidence)
    };
    let x2 = if severity_rank(f2.severity) < severity_rank(e2.severity) {
        with_extra(
            FindingView {
                evidence: f2.evidence,
                severity: f2.severity,
                confidence: f2.confidence,
                title: f2.title,
                explanation: f2.explanation,
                suggestion: f2.suggestion,
                ..e2
            },
            e2.evidence,
        )
    } else {
        with_extra(e2, f2.evidence)
    };
    assert(x1.evidence == x2.evidence && x1.extra_evidence == x2.extra_evidence);
    lemma_with_extras_same(
        FindingView { occurrences: x1.occurrences + f1.occurrences, ..x1 },
        FindingView { occurrences: x2.occurrences + f2.occurrences, ..x2 },
        f1.extra_evidence,
    );
}

#[verifier::rlimit(60)]
#[verifier::spinoff_prover]
proof fn lemma_dedupe_twins(fs1: Seq<FindingView>, fs2: Seq<FindingView>, n: nat)
    requires
        n <= fs1.len(),
        crate::rules::langs::seq_twins(fs1, fs2),
        forall|i: int| 0 <= i < fs1.len() ==> known_kind((#[trigger] fs1[i]).kind),
    ensures
        dedupe_state(fs1, n).0.len() == dedupe_state(fs2, n).0.len(),
        dedupe_state(fs1, n).0.len() == dedupe_state(fs1, n).1.len(),
        crate::rules::langs::seq_twins(dedupe_state(fs1, n).1, dedupe_state(fs2, n).1),
        forall|i: int|
            0 <= i < dedupe_state(fs1, n).0.len() ==> exists|a: int|
                0 <= a < n && dedupe_key(#[trigger] fs1[a]) == #[trigger] dedupe_state(fs1, n).0[i]
                    && dedupe_key(fs2[a]) == dedupe_state(fs2, n).0[i] && fs1[a].kind == dedupe_state(
                    fs1,
                    n,
                ).1[i].kind,
    decreases n,
{
    if n > 0 {
        let m = (n - 1) as nat;
        lemma_dedupe_twins(fs1, fs2, m);
        let p1 = dedupe_state(fs1, m);
        let p2 = dedupe_state(fs2, m);
        let f1 = fs1[m as int];
        let f2 = fs2[m as int];
        assert(crate::rules::langs::twins(f1, f2));
        assert forall|q: int| 0 <= q < p1.0.len() implies (#[trigger] p1.0[q] == dedupe_key(f1)) == (
        p2.0[q] == dedupe_key(f2)) by {
            let a = choose|a: int|
                0 <= a < m && dedupe_key(#[trigger] fs1[a]) == #[trigger] p1.0[q] && dedupe_key(fs2[a])
                    == p2.0[q] && fs1[a].kind == p1.1[q].kind;
            assert(crate::rules::langs::twins(fs1[a], fs2[a]));
            lemma_key_twins(fs1[a], fs2[a], f1, f2);
        }
        lemma_key_pos_twins(p1.0, p2.0, dedupe_key(f1), dedupe_key(f2), 0);
        lemma_key_pos(p1.0, dedupe_key(f1), 0);
        let c1 = dedupe_state(fs1, n);
        let c2 = dedupe_state(fs2, n);
        match key_pos(p1.0, dedupe_key(f1), 0) {
            Some(j) => {
                let a = choose|a: int|
                    0 <= a < m && dedupe_key(#[trigger] fs1[a]) == #[trigger] p1.0[j] && dedupe_key(fs2[a])
                        == p2.0[j] && fs1[a].kind == p1.1[j].kind;
                lemma_key_kinds(fs1[a], f1);
                assert(crate::rules::langs::twins(p1.1[j], p2.1[j]));
                lemma_merge_twins(p1.1[j], p2.1[j], f1, f2);
                assert forall|i: int| 0 <= i < c1.1.len() implies crate::rules::langs::twins(
                    #[trigger] c1.1[i],
                    c2.1[i],
                ) by {
                    if i != j {
                        assert(crate::rules::langs::twins(p1.1[i], p2.1[i]));
                    }
                }
                assert forall|i: int| 0 <= i < c1.0.len() implies exists|b: int|
                    0 <= b < n && dedupe_key(#[trigger] fs1[b]) == #[trigger] c1.0[i] && dedupe_key(fs2[b])
                        == c2.0[i] && fs1[b].kind == c1.1[i].kind by {
                    let b = choose|b: int|
                        0 <= b < m && dedupe_key(#[trigger] fs1[b]) == #[trigger] p1.0[i] && dedupe_key(
                            fs2[b],
                        ) == p2.0[i] && fs1[b].kind == p1.1[i].kind;
                    if i == j {
                        lemma_merge_texts(p1.1[j], f1);
                    }
                }
            },
            None => {
                assert forall|i: int| 0 <= i < c1.1.len() implies crate::rules::langs::twins(
                    #[trigger] c1.1[i],
                    c2.1[i],
                ) by {
                    if i < p1.1.len() {
                        assert(crate::rules::langs::twins(p1.1[i], p2.1[i]));
                    }
                }
                assert forall|i: int| 0 <= i < c1.0.len() implies exists|b: int|
                    0 <= b < n && dedupe_key(#[trigger] fs1[b]) == #[trigger] c1.0[i] && dedupe_key(fs2[b])
                        == c2.0[i] && fs1[b].kind == c1.1[i].kind by {
                    if i < p1.0.len() {
                        let b = choose|b: int|
                            0 <= b < m && dedupe_key(#[trigger] fs1[b]) == #[trigger] p1.0[i]
                                && dedupe_key(fs2[b]) == p2.0[i] && fs1[b].kind == p1.1[i].kind;
                    } else {
                        assert(dedupe_key(fs1[m as int]) == c1.0[i]);
                    }
                }
            },
        }
    }
}

} // verus!

verus! {

#[verifier::spinoff_prover]
proof fn lemma_suppress_twins(fs1: Seq<FindingView>, fs2: Seq<FindingView>)
    requires
        crate::rules::langs::seq_twins(fs1, fs2),
    ensures
        crate::rules::langs::seq_twins(suppress(fs1), suppress(fs2)),
{
    let sp1 = crate::rules::merge::specifics(fs1);
    let sp2 = crate::rules::merge::specifics(fs2);
    assert forall|k: Seq<char>| #[trigger] crate::rules::merge::has_kind(fs1, k) == crate::rules::merge::has_kind(fs2, k) by {
        if crate::rules::merge::has_kind(fs1, k) {
            let i = choose|i: int| 0 <= i < fs1.len() && fs1[i].kind == k;
            assert(crate::rules::langs::twins(fs1[i], fs2[i]));
        }
        if crate::rules::merge::has_kind(fs2, k) {
            let i = choose|i: int| 0 <= i < fs2.len() && fs2[i].kind == k;
            assert(crate::rules::langs::twins(fs1[i], fs2[i]));
        }
    }
    assert(sp1 == sp2);
    assert forall|i: int| 0 <= i < fs1.len() implies crate::rules::langs::twins(
        #[trigger] suppress(fs1)[i],
        suppress(fs2)[i],
    ) by {
        assert(crate::rules::langs::twins(fs1[i], fs2[i]));
        assert(suppress(fs1)[i] == suppress_one(fs1[i], sp1));
        assert(suppress(fs2)[i] == suppress_one(fs2[i], sp2));
    }
}

/// The analysis of a log in Chinese and in English reports the same
/// findings in the same order: the same kinds, severities, confidences,
/// evidence, counts and further evidence; only titles, explanations and
/// suggestions are written in the other language.
#[verifier::spinoff_prover]
pub proof fn law_languages_change_only_the_texts(text: Seq<char>)
    ensures
        crate::rules::analyze::log_findings(text, crate::i18n::Locale::Zh).len()
            == crate::rules::analyze::log_findings(text, crate::i18n::Locale::En).len(),
        forall|i: int|
            0 <= i < crate::rules::analyze::log_findings(text, crate::i18n::Locale::Zh).len()
                ==> crate::rules::langs::same_but_text(
                #[trigger] crate::rules::analyze::log_findings(text, crate::i18n::Locale::Zh)[i],
                crate::rules::analyze::log_findings(text, crate::i18n::Locale::En)[i],
            ),
{
    let ls = crate::text::lines(text);
    let r1 = raw_findings(ls, crate::i18n::Locale::Zh);
    let r2 = raw_findings(ls, crate::i18n::Locale::En);
    crate::rules::langs::lemma_twins_raw(ls);
    lemma_raw_kinds(ls, crate::i18n::Locale::Zh);
    assert forall|i: int| 0 <= i < r1.len() implies known_kind((#[trigger] r1[i]).kind) by {}
    lemma_dedupe_twins(r1, r2, r1.len());
    assert(dedupe(r1) == dedupe_state(r1, r1.len()).1);
    assert(dedupe(r2) == dedupe_state(r2, r2.len()).1);
    lemma_suppress_twins(dedupe(r1), dedupe(r2));
    let l1 = crate::rules::analyze::log_findings(text, crate::i18n::Locale::Zh);
    let l2 = crate::rules::analyze::log_findings(text, crate::i18n::Locale::En);
    assert forall|i: int| 0 <= i < l1.len() implies crate::rules::langs::same_but_text(#[trigger] l1[i], l2[i]) by {
        assert(crate::rules::langs::twins(l1[i], l2[i]));
    }
}

} // verus!

verus! {

/// Line `c` is the first crash marker of the log.
pub open spec fn first_crash_marker(ls: Seq<Seq<char>>, c: int) -> bool {
    0 <= c < ls.len() && crate::rules::keywords::is_crash_marker(ls[c]) && forall|k: int|
        0 <= k < c ==> !crate::rules::keywords::is_crash_marker(#[trigger] ls[k])
}

/// Line `j` is the last line before line `c` that is neither blank, a
/// `--==={` marker line nor `upload successful`.
pub open spec fn last_meaningful_before(ls: Seq<Seq<char>>, j: int, c: int) -> bool {
    0 <= j < c <= ls.len() && !crate::rules::context::is_noise(crate::text::trim(ls[j])) && forall|k: int|
        j < k < c ==> crate::rules::context::is_noise(crate::text::trim(#[trigger] ls[k]))
}

/// Line `j` is the last non-blank line of the log that starts with a
/// simulator time.
pub open spec fn last_timed_line(ls: Seq<Seq<char>>, j: int) -> bool {
    &&& 0 <= j < ls.len()
    &&& crate::text::trim(ls[j]).len() > 0
    &&& crate::rules::simtime::sim_time(ls[j]) is Some
    &&& forall|k: int|
        j < k < ls.len() ==> !(crate::text::trim(#[trigger] ls[k]).len() > 0
            && crate::rules::simtime::sim_time(ls[k]) is Some)
}

#[verifier::spinoff_prover]
proof fn lemma_crash_from(ls: Seq<Seq<char>>, i: int)
    requires
        0 <= i,
    ensures
        match crate::rules::context::crash_from(ls, i) {
            Some(c) => i <= c < ls.len() && crate::rules::keywords::is_crash_marker(ls[c]) && forall|k: int|
                i <= k < c ==> !crate::rules::keywords::is_crash_marker(#[trigger] ls[k]),
            None => forall|k: int| i <= k < ls.len() ==> !crate::rules::keywords::is_crash_marker(#[trigger] ls[k]),
        },
    decreases ls.len() - i,
{
    if i < ls.len() && !crate::rules::keywords::is_crash_marker(ls[i]) {
        lemma_crash_from(ls, i + 1);
    }
}

#[verifier::spinoff_prover]
#[verifier::rlimit(100)]
proof fn lemma_last_meaningful(ls: Seq<Seq<char>>, hi: int)
    requires
        0 <= hi <= ls.len(),
    ensures
        match crate::rules::context::last_meaningful(ls, hi) {
            Some(j) => last_meaningful_before(ls, j, hi),
            None => forall|k: int| 0 <= k < hi ==> crate::rules::context::is_noise(crate::text::trim(#[trigger] ls[k])),
        },
    decreases hi,
{
    if hi > 0 && crate::rules::context::is_noise(crate::text::trim(ls[hi - 1])) {
        lemma_last_meaningful(ls, hi - 1);
    }
}

#[verifier::spinoff_prover]
#[verifier::rlimit(100)]
proof fn lemma_last_timed(ls: Seq<Seq<char>>, hi: int)
    requires
        0 <= hi <= ls.len(),
    ensures
        match crate::rules::context::last_timed(ls, hi) {
            Some(j) => 0 <= j < hi && crate::text::trim(ls[j]).len() > 0
                && crate::rules::simtime::sim_time(ls[j]) is Some && forall|k: int|
                j < k < hi ==> !(crate::text::trim(#[trigger] ls[k]).len() > 0
                    && crate::rules::simtime::sim_time(ls[k]) is Some),
            None => forall|k: int|
                0 <= k < hi ==> !(crate::text::trim(#[trigger] ls[k]).len() > 0
                    && crate::rules::simtime::sim_time(ls[k]) is Some),
        },
    decreases hi,
{
    if hi > 0 && !(crate::text::trim(ls[hi - 1]).len() > 0
        && crate::rules::simtime::sim_time(ls[hi - 1]) is Some) {
        lemma_last_timed(ls, hi - 1);
    }
}

/// The early silent crash hint: it is given exactly when no high finding
/// other than the crash itself was made, the log has a crash marker, some
/// meaningful line comes before the first one, and that last meaningful
/// line's simulator time is under five seconds; its evidence is that line.
#[verifier::spinoff_prover]
#[verifier::rlimit(100)]
pub proof fn law_early_silent_crash_hint(
    ls: Seq<Seq<char>>,
    fs: Seq<FindingView>,
    loc: crate::i18n::Locale,
    c: int,
    j: int,
)
    requires
        first_crash_marker(ls, c),
        last_meaningful_before(ls, j, c),
    ensures
        spec_early_silent_crash(ls, fs, loc) is Some <==> (!crate::rules::context::has_explaining_high(fs)
            && (crate::rules::simtime::sim_time(crate::text::trim(ls[j])) matches Some(t) && t < 5
            * crate::rules::simtime::SIM_UNIT)),
        spec_early_silent_crash(ls, fs, loc) matches Some(f) ==> f.kind == "early_silent_crash"@
            && f.severity == Severity::Info && f.confidence == Confidence::Low && f.evidence
            == crate::rules::evidence::evidence_text(j as nat, crate::text::trim(ls[j])),
{
    lemma_crash_from(ls, 0);
    match crate::rules::context::crash_from(ls, 0) {
        Some(c0) => {
            if c0 < c {
            } else if c < c0 {
                assert(!crate::rules::keywords::is_crash_marker(ls[c]));
            }
            assert(c0 == c);
            lemma_last_meaningful(ls, c);
            match crate::rules::context::last_meaningful(ls, c) {
                Some(j0) => {
                    if j0 < j {
                        assert(crate::rules::context::is_noise(crate::text::trim(ls[j])));
                    } else if j < j0 {
                        assert(crate::rules::context::is_noise(crate::text::trim(ls[j0])));
                    }
                },
                None => {
                    assert(crate::rules::context::is_noise(crate::text::trim(ls[j])));
                },
            }
        },
        None => {
            assert(!crate::rules::keywords::is_crash_marker(ls[c]));
        },
    }
}

/// No early silent crash hint without a crash marker, or without a
/// meaningful line before the first one.
#[verifier::spinoff_prover]
pub proof fn law_early_silent_crash_needs_a_marker_and_a_line(
    ls: Seq<Seq<char>>,
    fs: Seq<FindingView>,
    loc: crate::i18n::Locale,
)
    requires
        !(exists|c: int, j: int| first_crash_marker(ls, c) && last_meaningful_before(ls, j, c)),
    ensures
        spec_early_silent_crash(ls, fs, loc) is None,
{
    lemma_crash_from(ls, 0);
    match crate::rules::context::crash_from(ls, 0) {
        Some(c) => {
            assert(first_crash_marker(ls, c));
            lemma_last_meaningful(ls, c);
            match crate::rules::context::last_meaningful(ls, c) {
                Some(j) => {
                    assert(last_meaningful_before(ls, j, c));
                },
                None => {},
            }
        },
        None => {},
    }
}

/// The truncation hint: never with a clean shutdown line; otherwise given
/// exactly when the last non-blank time-stamped line is at two minutes of
/// simulator time or later, with that line as evidence.
#[verifier::spinoff_prover]
#[verifier::rlimit(100)]
pub proof fn law_abrupt_termination_hint(ls: Seq<Seq<char>>, loc: crate::i18n::Locale)
    ensures
        crate::rules::context::has_clean_shutdown(ls) ==> spec_abrupt_termination(ls, loc) is None,
        !crate::rules::context::has_clean_shutdown(ls) ==> (spec_abrupt_termination(ls, loc) is Some
            <==> exists|j: int|
            last_timed_line(ls, j) && crate::rules::simtime::sim_time(ls[j]).unwrap() >= 120
                * crate::rules::simtime::SIM_UNIT),
        forall|j: int|
            last_timed_line(ls, j) ==> (spec_abrupt_termination(ls, loc) matches Some(f) ==> f.kind
                == "abrupt_termination"@ && f.severity == Severity::Info && f.confidence
                == Confidence::Low && f.evidence == crate::rules::evidence::evidence_text(
                j as nat,
                ls[j],
            )),
{
    lemma_last_timed(ls, ls.len() as int);
    match crate::rules::context::last_timed(ls, ls.len() as int) {
        Some(j0) => {
            assert(last_timed_line(ls, j0));
            assert forall|j: int| last_timed_line(ls, j) implies j == j0 by {
                if j < j0 {
                    assert(!(crate::text::trim(ls[j0]).len() > 0
                        && crate::rules::simtime::sim_time(ls[j0]) is Some));
                } else if j0 < j {
                    assert(!(crate::text::trim(ls[j]).len() > 0
                        && crate::rules::simtime::sim_time(ls[j]) is Some));
                }
            }
        },
        None => {
            assert forall|j: int| last_timed_line(ls, j) implies false by {
                assert(!(crate::text::trim(ls[j]).len() > 0
                    && crate::rules::simtime::sim_time(ls[j]) is Some));
            }
        },
    }
}

} // verus!

verus! {

#[verifier::spinoff_prover]
proof fn lemma_digit_of(d: nat)
    ensures
        crate::text::is_digit(crate::text::digit_of(d)),
        crate::text::digit_of(d) as int == (d % 10) + 48,
{
}

#[verifier::spinoff_prover]
proof fn lemma_decimal_digits(n: nat)
    ensures
        crate::text::decimal(n).len() >= 1,
        n >= 10 ==> crate::text::decimal(n).len() >= 2,
        forall|k: int|
            0 <= k < crate::text::decimal(n).len() ==> crate::text::is_digit(#[trigger] crate::text::decimal(n)[k]),
    decreases n,
{
    lemma_digit_of(n);
    if n >= 10 {
        lemma_decimal_digits(n / 10);
        lemma_digit_of(n % 10);
    }
}

#[verifier::spinoff_prover]
proof fn lemma_decimal_injective(n: nat, m: nat)
    requires
        crate::text::decimal(n) == crate::text::decimal(m),
    ensures
        n == m,
    decreases n,
{
    lemma_decimal_digits(n);
    lemma_decimal_digits(m);
    lemma_digit_of(n);
    lemma_digit_of(m);
    lemma_digit_of(n % 10);
    lemma_digit_of(m % 10);
    if n >= 10 && m >= 10 {
        let dn = crate::text::decimal(n);
        let dm = crate::text::decimal(m);
        assert(dn.last() == crate::text::digit_of(n % 10));
        assert(dm.last() == crate::text::digit_of(m % 10));
        assert(dn.drop_last() =~= crate::text::decimal(n / 10));
        assert(dm.drop_last() =~= crate::text::decimal(m / 10));
        lemma_decimal_injective(n / 10, m / 10);
        assert((n % 10) % 10 == n % 10);
        assert((m % 10) % 10 == m % 10);
        assert(dn.last() == dm.last());
        assert(n % 10 == m % 10);
        assert(n == 10 * (n / 10) + n % 10) by (nonlinear_arith);
        assert(m == 10 * (m / 10) + m % 10) by (nonlinear_arith);
        assert(n == m);
    } else if n < 10 && m < 10 {
        assert(crate::text::decimal(n) == seq![crate::text::digit_of(n)]);
        assert(crate::text::decimal(m) == seq![crate::text::digit_of(m)]);
        assert(seq![crate::text::digit_of(n)][0] == crate::text::digit_of(n));
        assert(seq![crate::text::digit_of(m)][0] == crate::text::digit_of(m));
        assert(crate::text::decimal(n)[0] == crate::text::decimal(m)[0]);
        assert(n % 10 == n && m % 10 == m);
        assert(crate::text::digit_of(n) == crate::text::digit_of(m));
        assert(n == m);
    } else if n < 10 {
        assert(crate::text::decimal(n).len() == 1);
        assert(crate::text::decimal(m).len() >= 2);
    } else {
        assert(crate::text::decimal(m).len() == 1);
        assert(crate::text::decimal(n).len() >= 2);
    }
}

/// Evidence lines of different lines of the log differ.
#[verifier::spinoff_prover]
pub proof fn lemma_evidence_text_injective(a: nat, la: Seq<char>, b: nat, lb: Seq<char>)
    requires
        crate::rules::evidence::evidence_text(a, la) == crate::rules::evidence::evidence_text(b, lb),
    ensures
        a == b,
{
    reveal_strlit("Log.txt:");
    reveal_strlit(": ");
    let da = crate::text::decimal(a + 1);
    let db = crate::text::decimal(b + 1);
    lemma_decimal_digits(a + 1);
    lemma_decimal_digits(b + 1);
    let ea = crate::rules::evidence::evidence_text(a, la);
    let eb = crate::rules::evidence::evidence_text(b, lb);
    let ta = crate::rules::evidence::truncated(crate::text::trim(la));
    let tb = crate::rules::evidence::truncated(crate::text::trim(lb));
    assert(ea == "Log.txt:"@ + da + ": "@ + ta);
    assert(eb == "Log.txt:"@ + db + ": "@ + tb);
    assert forall|k: int| 0 <= k < da.len() implies ea[8 + k] == da[k] by {}
    assert forall|k: int| 0 <= k < db.len() implies eb[8 + k] == db[k] by {}
    assert(ea[8 + da.len() as int] == ':');
    assert(eb[8 + db.len() as int] == ':');
    if da.len() < db.len() {
        assert(crate::text::is_digit(db[da.len() as int]));
        assert(eb[8 + da.len() as int] == db[da.len() as int]);
    } else if db.len() < da.len() {
        assert(crate::text::is_digit(da[db.len() as int]));
        assert(ea[8 + db.len() as int] == da[db.len() as int]);
    }
    assert(da =~= db);
    lemma_decimal_injective((a + 1) as nat, (b + 1) as nat);
}

} // verus!

verus! {

/// The indices of the first `n` lines that are messages of channel `c`, in order.
pub open spec fn channel_lines(ls: Seq<Seq<char>>, c: Seq<char>, n: nat) -> Seq<int>
    decreases n,
{
    if n == 0 || n > ls.len() {
        seq![]
    } else {
        let p = channel_lines(ls, c, (n - 1) as nat);
        if crate::rules::channels::error_channel(ls[n - 1]) == Some(c) {
            p.push(n - 1)
        } else {
            p
        }
    }
}

/// The evidence lines of the given lines.
pub open spec fn evidence_of_lines(ls: Seq<Seq<char>>, idxs: Seq<int>) -> Seq<Seq<char>> {
    idxs.map_values(|i: int| crate::rules::evidence::evidence_text(i as nat, ls[i]))
}

/// The finding for channel `c` seen on lines `idxs`: its severity and texts,
/// counted once per line, with the first line as evidence and the next four
/// as further evidence.
pub open spec fn channel_summary(ls: Seq<Seq<char>>, c: Seq<char>, idxs: Seq<int>, loc: crate::i18n::Locale) -> FindingView {
    FindingView {
        occurrences: idxs.len(),
        extra_evidence: evidence_of_lines(
            ls,
            idxs.subrange(1, if idxs.len() < 5 { idxs.len() as int } else { 5 }),
        ),
        ..crate::rules::subsystem::channel_finding(c, idxs[0] as nat, ls[idxs[0]], loc)
    }
}

#[verifier::spinoff_prover]
proof fn lemma_channel_lines(ls: Seq<Seq<char>>, c: Seq<char>, n: nat)
    ensures
        forall|k: int|
            0 <= k < channel_lines(ls, c, n).len() ==> 0 <= #[trigger] channel_lines(ls, c, n)[k] < n
                && channel_lines(ls, c, n)[k] < ls.len(),
        forall|k: int, l: int|
            0 <= k < l < channel_lines(ls, c, n).len() ==> #[trigger] channel_lines(ls, c, n)[k]
                < #[trigger] channel_lines(ls, c, n)[l],
        n <= ls.len() ==> (channel_lines(ls, c, n).len() > 0 <==> exists|i: int|
            0 <= i < n && crate::rules::channels::error_channel(#[trigger] ls[i]) == Some(c)),
    decreases n,
{
    if n > 0 && n <= ls.len() {
        let m = (n - 1) as nat;
        lemma_channel_lines(ls, c, m);
        if exists|i: int| 0 <= i < n && crate::rules::channels::error_channel(#[trigger] ls[i]) == Some(c) {
            let i = choose|i: int| 0 <= i < n && crate::rules::channels::error_channel(#[trigger] ls[i]) == Some(c);
            if i < m {
                assert(channel_lines(ls, c, m).len() > 0);
            }
        }
    }
}

#[verifier::spinoff_prover]
proof fn lemma_evidence_distinct(ls: Seq<Seq<char>>, a: int, b: int)
    requires
        a != b,
        0 <= a,
        0 <= b,
    ensures
        crate::rules::evidence::evidence_text(a as nat, ls[a]) != crate::rules::evidence::evidence_text(b as nat, ls[b]),
{
    if crate::rules::evidence::evidence_text(a as nat, ls[a]) == crate::rules::evidence::evidence_text(b as nat, ls[b]) {
        lemma_evidence_text_injective(a as nat, ls[a], b as nat, ls[b]);
    }
}

/// The channel table after `n` lines holds one entry per channel seen, with
/// distinct keys, each the summary of that channel's lines.
pub open spec fn table_ok(ls: Seq<Seq<char>>, n: nat, t: Seq<(Seq<char>, FindingView)>, loc: crate::i18n::Locale) -> bool {
    &&& forall|i: int|
        0 <= i < t.len() ==> channel_lines(ls, (#[trigger] t[i]).0, n).len() > 0 && t[i].1 == channel_summary(
            ls,
            t[i].0,
            channel_lines(ls, t[i].0, n),
            loc,
        )
    &&& forall|i: int, j: int| 0 <= i < j < t.len() ==> (#[trigger] t[i]).0 != (#[trigger] t[j]).0
    &&& forall|k: int|
        0 <= k < n && crate::rules::channels::error_channel(#[trigger] ls[k]) is Some ==> exists|i: int|
            0 <= i < t.len() && Some((#[trigger] t[i]).0) == crate::rules::channels::error_channel(ls[k])
}

#[verifier::spinoff_prover]
proof fn lemma_table_step_found(ls: Seq<Seq<char>>, m: nat, loc: crate::i18n::Locale, t: Seq<(Seq<char>, FindingView)>, ch: Seq<char>, j: int)
    requires
        m < ls.len(),
        table_ok(ls, m, t, loc),
        crate::rules::channels::error_channel(ls[m as int]) == Some(ch),
        0 <= j < t.len(),
        t[j].0 == ch,
        crate::rules::subsystem::key_index(t, ch, 0) == Some(j),
    ensures
        table_ok(ls, m + 1, crate::rules::subsystem::table_step(t, m, ls[m as int], loc), loc),
{
    let n = m + 1;
    let line = ls[m as int];
    let u = crate::rules::subsystem::table_step(t, m, line, loc);
    let ev = crate::rules::evidence::evidence_text(m, line);
    assert forall|c: Seq<char>| c != ch implies #[trigger] channel_lines(ls, c, n) == channel_lines(ls, c, m) by {}
    let old_idx = channel_lines(ls, ch, m);
    let new_idx = channel_lines(ls, ch, n);
    assert(new_idx == old_idx.push(m as int));
    lemma_channel_lines(ls, ch, m);
    let f = t[j].1;
    assert(f == channel_summary(ls, ch, old_idx, loc));
    assert(new_idx[0] == old_idx[0]);
    lemma_evidence_distinct(ls, old_idx[0], m as int);
    if old_idx.len() < 5 {
        assert(new_idx.subrange(1, new_idx.len() as int) =~= old_idx.subrange(1, old_idx.len() as int).push(m as int));
        assert(evidence_of_lines(ls, new_idx.subrange(1, new_idx.len() as int)) =~= evidence_of_lines(
            ls,
            old_idx.subrange(1, old_idx.len() as int),
        ).push(ev));
    } else {
        assert(new_idx.subrange(1, 5) =~= old_idx.subrange(1, 5));
    }
    assert(u[j].1 == channel_summary(ls, ch, new_idx, loc));
    assert forall|i: int| 0 <= i < u.len() implies channel_lines(ls, (#[trigger] u[i]).0, n).len() > 0
        && u[i].1 == channel_summary(ls, u[i].0, channel_lines(ls, u[i].0, n), loc) by {
        if i != j {
            assert(u[i] == t[i]);
            assert(t[i].0 != ch);
        }
    }
    assert forall|i: int, k: int| 0 <= i < k < u.len() implies (#[trigger] u[i]).0 != (#[trigger] u[k]).0 by {
        assert(u[i].0 == t[i].0 && u[k].0 == t[k].0);
    }
    assert forall|k: int|
        0 <= k < n && crate::rules::channels::error_channel(#[trigger] ls[k]) is Some implies exists|i: int|
        0 <= i < u.len() && Some((#[trigger] u[i]).0) == crate::rules::channels::error_channel(ls[k]) by {
        if k < m {
            let i = choose|i: int|
                0 <= i < t.len() && Some((#[trigger] t[i]).0) == crate::rules::channels::error_channel(ls[k]);
            assert(u[i].0 == t[i].0);
        } else {
            assert(u[j].0 == ch);
        }
    }
}

#[verifier::spinoff_prover]
proof fn lemma_table_step_new(ls: Seq<Seq<char>>, m: nat, loc: crate::i18n::Locale, t: Seq<(Seq<char>, FindingView)>, ch: Seq<char>)
    requires
        m < ls.len(),
        table_ok(ls, m, t, loc),
        crate::rules::channels::error_channel(ls[m as int]) == Some(ch),
        crate::rules::subsystem::key_index(t, ch, 0) is None,
    ensures
        table_ok(ls, m + 1, crate::rules::subsystem::table_step(t, m, ls[m as int], loc), loc),
{
    let n = m + 1;
    let line = ls[m as int];
    let u = crate::rules::subsystem::table_step(t, m, line, loc);
    assert forall|c: Seq<char>| c != ch implies #[trigger] channel_lines(ls, c, n) == channel_lines(ls, c, m) by {}
    assert(channel_lines(ls, ch, n) == channel_lines(ls, ch, m).push(m as int));
    lemma_channel_lines(ls, ch, m);
    lemma_subsystem_positions(t, ch, 0);
    crate::tally::lemma_tally_index(t, ch, 0);
    crate::rules::subsystem::lemma_insert_pos_range(t, ch, 0);
    let p = crate::rules::subsystem::insert_pos(t, ch, 0);
    if channel_lines(ls, ch, m).len() > 0 {
        let k = choose|k: int| 0 <= k < m && crate::rules::channels::error_channel(#[trigger] ls[k]) == Some(ch);
        let i = choose|i: int|
            0 <= i < t.len() && Some((#[trigger] t[i]).0) == crate::rules::channels::error_channel(ls[k]);
        assert(t[i].0 == ch);
    }
    assert(channel_lines(ls, ch, m) =~= Seq::<int>::empty());
    let new_idx = channel_lines(ls, ch, n);
    assert(new_idx =~= seq![m as int]);
    assert(new_idx.subrange(1, 1) =~= Seq::<int>::empty());
    assert(evidence_of_lines(ls, new_idx.subrange(1, 1)) =~= Seq::<Seq<char>>::empty());
    assert(u[p].1 == channel_summary(ls, ch, new_idx, loc));
    assert forall|i: int| 0 <= i < u.len() implies channel_lines(ls, (#[trigger] u[i]).0, n).len() > 0
        && u[i].1 == channel_summary(ls, u[i].0, channel_lines(ls, u[i].0, n), loc) by {
        if i < p {
            assert(u[i] == t[i]);
        } else if i > p {
            assert(u[i] == t[i - 1]);
        }
    }
    assert forall|a: int, b: int| 0 <= a < b < u.len() implies (#[trigger] u[a]).0 != (#[trigger] u[b]).0 by {
        if a < p && b < p {
            assert(u[a] == t[a] && u[b] == t[b]);
        } else if a < p && b == p {
            assert(u[a] == t[a]);
        } else if a < p {
            assert(u[a] == t[a] && u[b] == t[b - 1]);
        } else if a == p {
            assert(u[b] == t[b - 1]);
        } else {
            assert(u[a] == t[a - 1] && u[b] == t[b - 1]);
        }
    }
    assert forall|k: int|
        0 <= k < n && crate::rules::channels::error_channel(#[trigger] ls[k]) is Some implies exists|i: int|
        0 <= i < u.len() && Some((#[trigger] u[i]).0) == crate::rules::channels::error_channel(ls[k]) by {
        if k < m {
            let i = choose|i: int|
                0 <= i < t.len() && Some((#[trigger] t[i]).0) == crate::rules::channels::error_channel(ls[k]);
            if i < p {
                assert(u[i] == t[i]);
            } else {
                assert(u[i + 1] == t[i]);
            }
        } else {
            assert(u[p].0 == ch);
        }
    }
}

#[verifier::spinoff_prover]
proof fn lemma_table_summaries(ls: Seq<Seq<char>>, n: nat, loc: crate::i18n::Locale)
    requires
        n <= ls.len(),
    ensures
        table_ok(ls, n, crate::rules::subsystem::channel_table(ls, n, loc), loc),
    decreases n,
{
    if n > 0 {
        let m = (n - 1) as nat;
        lemma_table_summaries(ls, m, loc);
        let t = crate::rules::subsystem::channel_table(ls, m, loc);
        match crate::rules::channels::error_channel(ls[m as int]) {
            None => {
                assert forall|c: Seq<char>| #[trigger] channel_lines(ls, c, n) == channel_lines(ls, c, m) by {}
            },
            Some(ch) => {
                crate::rules::subsystem::lemma_key_index_range(t, ch, 0);
                match crate::rules::subsystem::key_index(t, ch, 0) {
                    Some(j) => lemma_table_step_found(ls, m, loc, t, ch, j),
                    None => lemma_table_step_new(ls, m, loc, t, ch),
                }
            },
        }
    }
}

} // verus!

verus! {

/// The channel scan: each channel finding summarizes the lines of one
/// channel (`X-Plane subsystem <c> messages`, the channel's severity, high
/// confidence, one count per line, the first line as evidence and the next
/// four as further evidence); every channel that some line names has its
/// finding, and no two findings share a channel.
/// The channel of entry `i` of the channel table of the whole log.
pub open spec fn channel_at(ls: Seq<Seq<char>>, loc: crate::i18n::Locale, i: int) -> Seq<char> {
    crate::rules::subsystem::channel_table(ls, ls.len(), loc)[i].0
}

/// The channel scan: each channel finding summarizes the lines of one
/// channel (`X-Plane subsystem <c> messages`, the channel's severity, high
/// confidence, one count per line, the first line as evidence and the next
/// four as further evidence); no two findings share a channel, and every
/// channel that some line names has its finding.
#[verifier::spinoff_prover]
pub proof fn law_channel_findings_summarize_each_channel(ls: Seq<Seq<char>>, loc: crate::i18n::Locale)
    ensures
        forall|i: int|
            0 <= i < crate::rules::subsystem::subsystem_findings(ls, loc).len() ==> channel_lines(
                ls,
                channel_at(ls, loc, i),
                ls.len(),
            ).len() > 0 && #[trigger] crate::rules::subsystem::subsystem_findings(ls, loc)[i]
                == channel_summary(ls, channel_at(ls, loc, i), channel_lines(ls, channel_at(ls, loc, i), ls.len()), loc),
        forall|i: int, j: int|
            0 <= i < j < crate::rules::subsystem::subsystem_findings(ls, loc).len() ==> #[trigger] channel_at(ls, loc, i)
                != #[trigger] channel_at(ls, loc, j),
        forall|k: int|
            0 <= k < ls.len() && crate::rules::channels::error_channel(#[trigger] ls[k]) is Some ==> exists|i: int|
                0 <= i < crate::rules::subsystem::subsystem_findings(ls, loc).len() && Some(
                    #[trigger] channel_at(ls, loc, i),
                ) == crate::rules::channels::error_channel(ls[k]),
{
    let n = ls.len();
    lemma_table_summaries(ls, n, loc);
    let t = crate::rules::subsystem::channel_table(ls, n, loc);
    let sub = crate::rules::subsystem::subsystem_findings(ls, loc);
    assert forall|i: int| 0 <= i < sub.len() implies channel_lines(ls, channel_at(ls, loc, i), ls.len()).len() > 0
        && #[trigger] sub[i] == channel_summary(ls, channel_at(ls, loc, i), channel_lines(ls, channel_at(ls, loc, i), ls.len()), loc) by {
        assert(sub[i] == t[i].1);
    }
    assert forall|i: int, j: int| 0 <= i < j < sub.len() implies #[trigger] channel_at(ls, loc, i)
        != #[trigger] channel_at(ls, loc, j) by {
        assert(t[i].0 != t[j].0);
    }
    assert forall|k: int| 0 <= k < ls.len() && crate::rules::channels::error_channel(#[trigger] ls[k]) is Some implies exists|i: int|
        0 <= i < sub.len() && Some(#[trigger] channel_at(ls, loc, i)) == crate::rules::channels::error_channel(ls[k]) by {
        let i = choose|i: int| 0 <= i < t.len() && Some((#[trigger] t[i]).0) == crate::rules::channels::error_channel(ls[k]);
        assert(channel_at(ls, loc, i) == t[i].0);
    }
}

} // verus!

verus! {

/// The findings of one severity, in report order.
pub open spec fn with_severity(fs: Seq<FindingView>, s: Severity) -> Seq<FindingView> {
    fs.filter(|f: FindingView| f.severity == s)
}

#[verifier::spinoff_prover]
proof fn lemma_of_severity_is_filter(fs: Seq<FindingView>, s: Severity)
    ensures
        crate::report::of_severity(fs, s) == with_severity(fs, s),
    decreases fs.len(),
{
    reveal(Seq::filter);
    if fs.len() > 0 {
        lemma_of_severity_is_filter(fs.drop_last(), s);
        let p = crate::report::of_severity(fs.drop_last(), s);
        if fs.last().severity == s {
            assert(p + seq![fs.last()] =~= p.push(fs.last()));
        } else {
            assert(p + seq![] =~= p);
        }
    }
}

/// The forum summary's main problems are the first eight of the high
/// findings followed by the medium ones, each in report order, and its
/// background notes are the first six info findings; there are background
/// notes exactly when some finding is info, no low finding is listed, and
/// the main problems are exactly as many as there are high and medium
/// findings, up to eight.
#[verifier::spinoff_prover]
pub proof fn law_forum_summary_lists(fs: Seq<FindingView>)
    ensures
        crate::report::important(fs) == crate::report::first_n(
            with_severity(fs, Severity::High) + with_severity(fs, Severity::Medium),
            8,
        ),
        crate::report::important(fs).len() == if with_severity(fs, Severity::High).len() + with_severity(
            fs,
            Severity::Medium,
        ).len() < 8 {
            with_severity(fs, Severity::High).len() + with_severity(fs, Severity::Medium).len()
        } else {
            8
        },
        crate::report::background(fs) == crate::report::first_n(with_severity(fs, Severity::Info), 6),
        crate::report::background(fs).len() > 0 <==> exists|i: int|
            0 <= i < fs.len() && (#[trigger] fs[i]).severity == Severity::Info,
        forall|i: int|
            0 <= i < crate::report::important(fs).len() ==> (#[trigger] crate::report::important(fs)[i]).severity
                != Severity::Low,
        forall|i: int|
            0 <= i < crate::report::background(fs).len() ==> (#[trigger] crate::report::background(fs)[i]).severity
                != Severity::Low,
{
    lemma_of_severity_is_filter(fs, Severity::High);
    lemma_of_severity_is_filter(fs, Severity::Medium);
    lemma_of_severity_is_filter(fs, Severity::Info);
    law_forum_summary_limits(fs);
    let info = with_severity(fs, Severity::Info);
    if exists|i: int| 0 <= i < fs.len() && (#[trigger] fs[i]).severity == Severity::Info {
        let i = choose|i: int| 0 <= i < fs.len() && (#[trigger] fs[i]).severity == Severity::Info;
        fs.lemma_filter_contains(|f: FindingView| f.severity == Severity::Info, i);
        assert(info.contains(fs[i]));
    }
    lemma_of_severity_nonempty(fs, Severity::Info);
}

#[verifier::spinoff_prover]
proof fn lemma_of_severity_nonempty(fs: Seq<FindingView>, s: Severity)
    ensures
        crate::report::of_severity(fs, s).len() > 0 ==> exists|i: int|
            0 <= i < fs.len() && (#[trigger] fs[i]).severity == s,
    decreases fs.len(),
{
    if fs.len() > 0 {
        lemma_of_severity_nonempty(fs.drop_last(), s);
        if crate::report::of_severity(fs.drop_last(), s).len() > 0 {
            let i = choose|i: int| 0 <= i < fs.drop_last().len() && (#[trigger] fs.drop_last()[i]).severity == s;
            assert(fs[i] == fs.drop_last()[i]);
        } else if crate::report::of_severity(fs, s).len() > 0 {
            assert(fs[fs.len() - 1].severity == s);
        }
    }
}

} // verus!

verus! {

#[verifier::spinoff_prover]
proof fn lemma_replace_from_absent(s: Seq<char>, a: char, r: Seq<char>, c: char, i: int)
    requires
        0 <= i <= s.len(),
        c == a || forall|j: int| i <= j < s.len() ==> s[j] != c,
        forall|k: int| 0 <= k < r.len() ==> r[k] != c,
    ensures
        forall|k: int|
            0 <= k < crate::text::replace_from(s, seq![a], r, i).len() ==> #[trigger] crate::text::replace_from(
                s,
                seq![a],
                r,
                i,
            )[k] != c,
    decreases s.len() - i,
{
    let p = seq![a];
    let out = crate::text::replace_from(s, p, r, i);
    {
        crate::text::lemma_find_from(s, p, i);
        assert forall|j: int| i <= j < s.len() && !crate::text::matches_at(s, p, j) implies s[j] != a by {
            if s[j] == a {
                assert(s.subrange(j, j + 1) =~= p);
            }
        }
        match crate::text::find_from(s, p, i) {
            Some(k) => {
                if i <= k && k + 1 <= s.len() {
                    lemma_replace_from_absent(s, a, r, c, k + 1);
                    let rest = crate::text::replace_from(s, p, r, k + 1);
                    assert(out == s.subrange(i, k) + r + rest);
                    assert forall|q: int| 0 <= q < out.len() implies #[trigger] out[q] != c by {
                        if q < k - i {
                            assert(out[q] == s[i + q]);
                        } else if q < k - i + r.len() {
                            assert(out[q] == r[q - (k - i)]);
                        } else {
                            assert(out[q] == rest[q - (k - i) - r.len()]);
                        }
                    }
                }
            },
            None => {
                assert forall|q: int| 0 <= q < out.len() implies #[trigger] out[q] != c by {
                    assert(out[q] == s[i + q]);
                }
            },
        }
    }
}

#[verifier::spinoff_prover]
proof fn lemma_replace_absent(s: Seq<char>, a: char, r: Seq<char>, c: char)
    requires
        c == a || forall|j: int| 0 <= j < s.len() ==> s[j] != c,
        forall|k: int| 0 <= k < r.len() ==> r[k] != c,
    ensures
        forall|k: int|
            0 <= k < crate::text::replace(s, seq![a], r).len() ==> #[trigger] crate::text::replace(
                s,
                seq![a],
                r,
            )[k] != c,
{
    lemma_replace_from_absent(s, a, r, c, 0);
}

/// Escaped text holds no `<`, `>` or `"`: what it shows cannot open or close
/// an HTML tag or an attribute.
#[verifier::spinoff_prover]
pub proof fn law_escaped_text_has_no_markup(s: Seq<char>)
    ensures
        forall|k: int|
            0 <= k < crate::report::escape(s).len() ==> {
                let c = #[trigger] crate::report::escape(s)[k];
                c != '<' && c != '>' && c != '"'
            },
{
    reveal_strlit("&");
    reveal_strlit("<");
    reveal_strlit(">");
    reveal_strlit("\"");
    reveal_strlit("&amp;");
    reveal_strlit("&lt;");
    reveal_strlit("&gt;");
    reveal_strlit("&quot;");
    assert("&"@ =~= seq!['&']);
    assert("<"@ =~= seq!['<']);
    assert(">"@ =~= seq!['>']);
    assert("\""@ =~= seq!['"']);
    let s1 = crate::text::replace(s, "&"@, "&amp;"@);
    let s2 = crate::text::replace(s1, "<"@, "&lt;"@);
    let s3 = crate::text::replace(s2, ">"@, "&gt;"@);
    let s4 = crate::text::replace(s3, "\""@, "&quot;"@);
    lemma_replace_absent(s1, '<', "&lt;"@, '<');
    lemma_replace_absent(s2, '>', "&gt;"@, '<');
    lemma_replace_absent(s3, '"', "&quot;"@, '<');
    lemma_replace_absent(s2, '>', "&gt;"@, '>');
    lemma_replace_absent(s3, '"', "&quot;"@, '>');
    lemma_replace_absent(s3, '"', "&quot;"@, '"');
    assert(crate::report::escape(s) == s4);
}

/// The HTML report's three groups hold, in report order, the high then
/// medium findings, the low ones and the info ones; each finding is one
/// section, its texts escaped.
#[verifier::spinoff_prover]
pub proof fn law_report_groups_are_severity_filters(fs: Seq<FindingView>, loc: crate::i18n::Locale)
    ensures
        crate::report::groups_html(fs, loc) == crate::report::group_html(
            crate::i18n::pick(loc, "主要问题"@, "Main Problems"@),
            with_severity(fs, Severity::High) + with_severity(fs, Severity::Medium),
            crate::i18n::pick(loc, "当前规则未发现高或中优先级问题。"@, "No high or medium priority problems were found by the current rules."@),
            loc,
        ) + crate::report::group_html(
            crate::i18n::pick(loc, "建议检查"@, "Things To Check"@),
            with_severity(fs, Severity::Low),
            crate::i18n::pick(loc, "未发现低优先级检查项。"@, "No low priority checks were found."@),
            loc,
        ) + crate::report::group_html(
            crate::i18n::pick(loc, "背景 / 技术细节"@, "Background / Technical Details"@),
            with_severity(fs, Severity::Info),
            crate::i18n::pick(loc, "未记录背景信息。"@, "No background notes were recorded."@),
            loc,
        ),
        forall|n: int|
            0 < n <= fs.len() ==> #[trigger] crate::report::findings_html(fs.take(n), loc)
                == crate::report::findings_html(fs.take(n - 1), loc) + crate::report::finding_html(fs[n - 1], loc),
{
    lemma_of_severity_is_filter(fs, Severity::High);
    lemma_of_severity_is_filter(fs, Severity::Medium);
    lemma_of_severity_is_filter(fs, Severity::Low);
    lemma_of_severity_is_filter(fs, Severity::Info);
    assert forall|n: int| 0 < n <= fs.len() implies #[trigger] crate::report::findings_html(fs.take(n), loc)
        == crate::report::findings_html(fs.take(n - 1), loc) + crate::report::finding_html(fs[n - 1], loc) by {
        assert(fs.take(n).drop_last() =~= fs.take(n - 1));
    }
}

} // verus!

verus! {

/// The scenery list's entries are its scenery pack lines, in the order of
/// the file: every line that names a pack, and no other.
#[verifier::spinoff_prover]
pub proof fn law_scenery_packs_in_file_order(ls: Seq<Seq<char>>)
    ensures
        crate::scenery::packs(ls) == ls.filter_map(|l: Seq<char>| crate::scenery::pack_of(l)),
    decreases ls.len(),
{
    if ls.len() > 0 {
        law_scenery_packs_in_file_order(ls.drop_last());
        let p = crate::scenery::packs(ls.drop_last());
        match crate::scenery::pack_of(ls.last()) {
            Some(x) => {},
            None => {
                assert(p + seq![] =~= p);
            },
        }
    }
}

/// The positions `i` below `n` where `keep(i)` holds, in order.
pub open spec fn positions(n: nat, keep: spec_fn(int) -> bool) -> Seq<int>
    decreases n,
{
    if n == 0 {
        seq![]
    } else if keep(n - 1) {
        positions((n - 1) as nat, keep).push(n - 1)
    } else {
        positions((n - 1) as nat, keep)
    }
}

/// A scan of the scenery list reports, in list order, one missing-folder
/// finding for each enabled, non-special entry whose folder does not exist,
/// naming that entry's line.
#[verifier::spinoff_prover]
pub proof fn law_scenery_scan_reports_each_missing_folder(
    ps: Seq<crate::scenery::PackView>,
    exists: Seq<bool>,
    n: nat,
    loc: crate::i18n::Locale,
)
    requires
        n <= ps.len(),
    ensures
        crate::scenery::missing_findings(ps, exists, n, loc) == positions(
            n,
            |i: int| crate::scenery::is_active(ps[i]) && !exists[i],
        ).map_values(|i: int| crate::scenery::missing_path_finding(ps[i].raw, loc)),
    decreases n,
{
    let keep = |i: int| crate::scenery::is_active(ps[i]) && !exists[i];
    if n > 0 {
        law_scenery_scan_reports_each_missing_folder(ps, exists, (n - 1) as nat, loc);
        let prev = positions((n - 1) as nat, keep);
        let f = |i: int| crate::scenery::missing_path_finding(ps[i].raw, loc);
        if keep(n - 1) {
            assert(prev.push(n - 1).map_values(f) =~= prev.map_values(f) + seq![f(n - 1)]);
        } else {
            assert(prev.map_values(f) + seq![] =~= prev.map_values(f));
        }
    }
}

} // verus!

verus! {

#[verifier::spinoff_prover]
proof fn lemma_line_from_line(idx: nat, ls: Seq<Seq<char>>, macos: bool, loc: crate::i18n::Locale)
    requires
        idx < ls.len(),
    ensures
        crate::rules::kinds::kinds_distinct(crate::rules::analyze::line_findings(idx, ls, macos, loc)),
        forall|i: int|
            0 <= i < crate::rules::analyze::line_findings(idx, ls, macos, loc).len() ==> crate::rules::kinds::from_line(
                #[trigger] crate::rules::analyze::line_findings(idx, ls, macos, loc)[i],
                idx,
                ls[idx as int],
            ),
{
    reveal(crate::rules::analyze::line_findings);
    let line = ls[idx as int];
    let lw = crate::text::lower(line);
    let p1 = crate::rules::analyze::part1(idx, line, lw, loc);
    let p2 = crate::rules::analyze::part2(idx, line, lw, loc);
    let p3 = crate::rules::analyze::part3(idx, line, lw, ls, loc);
    let p4 = crate::rules::analyze::part4(idx, line, lw, ls, macos, loc);
    let lf = crate::rules::analyze::line_findings(idx, ls, macos, loc);
    assert(lf == p1 + p2 + p3 + p4);
    crate::rules::kinds::lemma_part1_kinds(idx, line, lw, loc);
    crate::rules::kinds::lemma_part2_kinds(idx, line, lw, loc);
    crate::rules::kinds::lemma_part3_kinds(idx, line, lw, ls, loc);
    crate::rules::kinds::lemma_part4_kinds(idx, line, lw, ls, macos, loc);
    crate::rules::kinds::lemma_parts_distinct(idx, line, lw, ls, macos, loc);
    crate::rules::kinds::lemma_rule_kinds_differ();
    let k1 = |k: Seq<char>| crate::rules::kinds::part1_kind(k);
    let k2 = |k: Seq<char>| crate::rules::kinds::part2_kind(k);
    let k12 = |k: Seq<char>| k1(k) || k2(k);
    let k3 = |k: Seq<char>| crate::rules::kinds::part3_kind(k);
    let k123 = |k: Seq<char>| k12(k) || k3(k);
    let k4 = |k: Seq<char>| crate::rules::kinds::part4_kind(k);
    crate::rules::kinds::lemma_concat_distinct_by(p1, p2, k1, k2);
    crate::rules::kinds::lemma_concat_distinct_by(p1 + p2, p3, k12, k3);
    crate::rules::kinds::lemma_concat_distinct_by(p1 + p2 + p3, p4, k123, k4);
    assert forall|i: int| 0 <= i < lf.len() implies crate::rules::kinds::from_line(#[trigger] lf[i], idx, line) by {
        crate::rules::kinds::lemma_in4(p1, p2, p3, p4, i);
    }
}

/// The finding comes from one of the first `n` lines, as its only evidence.
pub open spec fn from_some_line(f: FindingView, ls: Seq<Seq<char>>, n: nat) -> bool {
    exists|i: int| 0 <= i < n && crate::rules::kinds::from_line(f, i as nat, #[trigger] ls[i])
}

/// Findings of the per-line rules that share a kind come from different
/// lines, and so have different evidence; none has further evidence.
#[verifier::spinoff_prover]
proof fn lemma_all_lines_apart(ls: Seq<Seq<char>>, n: nat, macos: bool, loc: crate::i18n::Locale)
    requires
        n <= ls.len(),
    ensures
        forall|a: int|
            0 <= a < crate::rules::analyze::all_line_findings(ls, n, macos, loc).len() ==> from_some_line(
                #[trigger] crate::rules::analyze::all_line_findings(ls, n, macos, loc)[a],
                ls,
                n,
            ),
        forall|a: int, b: int|
            0 <= a < b < crate::rules::analyze::all_line_findings(ls, n, macos, loc).len() && (#[trigger] crate::rules::analyze::all_line_findings(
                ls,
                n,
                macos,
                loc,
            )[a]).kind == (#[trigger] crate::rules::analyze::all_line_findings(ls, n, macos, loc)[b]).kind
                ==> crate::rules::analyze::all_line_findings(ls, n, macos, loc)[a].evidence
                != crate::rules::analyze::all_line_findings(ls, n, macos, loc)[b].evidence,
    decreases n,
{
    if n > 0 {
        let m = (n - 1) as nat;
        lemma_all_lines_apart(ls, m, macos, loc);
        lemma_line_from_line(m, ls, macos, loc);
        let prev = crate::rules::analyze::all_line_findings(ls, m, macos, loc);
        let lf = crate::rules::analyze::line_findings(m, ls, macos, loc);
        let all = crate::rules::analyze::all_line_findings(ls, n, macos, loc);
        assert(all == prev + lf);
        assert forall|a: int| 0 <= a < all.len() implies from_some_line(#[trigger] all[a], ls, n) by {
            if a < prev.len() {
                assert(all[a] == prev[a]);
                assert(from_some_line(prev[a], ls, m));
                let i = choose|i: int| 0 <= i < m && crate::rules::kinds::from_line(prev[a], i as nat, #[trigger] ls[i]);
                assert(crate::rules::kinds::from_line(all[a], i as nat, ls[i]));
            } else {
                assert(all[a] == lf[a - prev.len()]);
                assert(crate::rules::kinds::from_line(lf[a - prev.len()], m, ls[m as int]));
                assert(crate::rules::kinds::from_line(all[a], m, ls[m as int]));
            }
        }
        assert forall|a: int, b: int|
            0 <= a < b < all.len() && (#[trigger] all[a]).kind == (#[trigger] all[b]).kind implies all[a].evidence
            != all[b].evidence by {
            if b < prev.len() {
                assert(all[a] == prev[a] && all[b] == prev[b]);
            } else if a >= prev.len() {
                assert(all[a] == lf[a - prev.len()] && all[b] == lf[b - prev.len()]);
            } else {
                assert(all[a] == prev[a] && all[b] == lf[b - prev.len()]);
                assert(from_some_line(prev[a], ls, m));
                let i = choose|i: int| 0 <= i < m && crate::rules::kinds::from_line(prev[a], i as nat, #[trigger] ls[i]);
                assert(crate::rules::kinds::from_line(lf[b - prev.len()], m, ls[m as int]));
                lemma_evidence_distinct(ls, i, m as int);
            }
        }
    }
}

} // verus!

verus! {

/// No further evidence line repeats the main one.
pub open spec fn ev_ok(f: FindingView) -> bool {
    forall|k: int| 0 <= k < f.extra_evidence.len() ==> #[trigger] f.extra_evidence[k] != f.evidence
}

/// `x` is the main or a further evidence line of `f`.
pub open spec fn in_evs(f: FindingView, x: Seq<char>) -> bool {
    x == f.evidence || exists|k: int| 0 <= k < f.extra_evidence.len() && #[trigger] f.extra_evidence[k] == x
}

/// A later finding never has as main evidence an evidence line of an earlier
/// finding with the same merge key.
pub open spec fn groups_apart(fs: Seq<FindingView>) -> bool {
    forall|a: int, b: int|
        0 <= a < b < fs.len() && dedupe_key(#[trigger] fs[a]) == dedupe_key(#[trigger] fs[b]) ==> !in_evs(
            fs[a],
            fs[b].evidence,
        )
}

proof fn lemma_sub_apart(ls: Seq<Seq<char>>, loc: crate::i18n::Locale)
    ensures
        forall|i: int|
            0 <= i < crate::rules::subsystem::subsystem_findings(ls, loc).len() ==> ev_ok(
                #[trigger] crate::rules::subsystem::subsystem_findings(ls, loc)[i],
            ),
        forall|i: int, j: int|
            0 <= i < j < crate::rules::subsystem::subsystem_findings(ls, loc).len() ==> dedupe_key(
                #[trigger] crate::rules::subsystem::subsystem_findings(ls, loc)[i],
            ) != dedupe_key(#[trigger] crate::rules::subsystem::subsystem_findings(ls, loc)[j]),
{
    let sub = crate::rules::subsystem::subsystem_findings(ls, loc);
    law_channel_findings_summarize_each_channel(ls, loc);
    assert forall|i: int| 0 <= i < sub.len() implies ev_ok(#[trigger] sub[i]) by {
        let c = channel_at(ls, loc, i);
        let idxs = channel_lines(ls, c, ls.len());
        lemma_channel_lines(ls, c, ls.len());
        let f = sub[i];
        assert(f == channel_summary(ls, c, idxs, loc));
        let hi: int = if idxs.len() < 5 { idxs.len() as int } else { 5 };
        assert forall|k: int| 0 <= k < f.extra_evidence.len() implies #[trigger] f.extra_evidence[k] != f.evidence by {
            assert(f.extra_evidence[k] == crate::rules::evidence::evidence_text(idxs[k + 1] as nat, ls[idxs[k + 1]]));
            assert(idxs[0] < idxs[k + 1]);
            lemma_evidence_distinct(ls, idxs[0], idxs[k + 1]);
        }
    }
    reveal_strlit("X-Plane subsystem ");
    reveal_strlit(" messages");
    lemma_table_kinds(ls, ls.len(), loc);
    let t = crate::rules::subsystem::channel_table(ls, ls.len(), loc);
    assert forall|i: int, j: int| 0 <= i < j < sub.len() implies dedupe_key(#[trigger] sub[i]) != dedupe_key(#[trigger] sub[j]) by {
        let ci = channel_at(ls, loc, i);
        let cj = channel_at(ls, loc, j);
        assert(sub[i] == t[i].1 && sub[j] == t[j].1);
        assert(sub[i].kind == "xplane_subsystem_errors"@ && sub[j].kind == "xplane_subsystem_errors"@);
        assert(sub[i] == channel_summary(ls, ci, channel_lines(ls, ci, ls.len()), loc));
        assert(sub[j] == channel_summary(ls, cj, channel_lines(ls, cj, ls.len()), loc));
        if dedupe_key(sub[i]) == dedupe_key(sub[j]) {
            let p = sub[i].kind + seq![':'];
            assert(p + sub[i].title + seq![] =~= dedupe_key(sub[i]));
            assert(p + sub[j].title + seq![] =~= dedupe_key(sub[j]));
            lemma_middle_cancel(p, sub[i].title, sub[j].title, seq![]);
            lemma_middle_cancel("X-Plane subsystem "@, ci, cj, " messages"@);
        }
    }
}

} // verus!

verus! {

/// The findings about the log as a whole that follow the channel and
/// per-line findings.
pub open spec fn raw_tail(ls: Seq<Seq<char>>, loc: crate::i18n::Locale) -> Seq<FindingView> {
    let f1 = crate::rules::subsystem::subsystem_findings(ls, loc) + crate::rules::analyze::all_line_findings(
        ls,
        ls.len(),
        crate::rules::analyze::is_macos_log(ls),
        loc,
    );
    if crate::rules::context::crash_index(ls) is Some || crate::rules::analyze::has_gpu_crash_signal(ls) {
        let g = f1 + opt_seq(spec_scenery_load_crash_context(ls, loc)) + opt_seq(
            spec_last_loaded_context(ls, loc),
        ) + opt_seq(spec_pre_crash_context(ls, loc));
        opt_seq(spec_scenery_load_crash_context(ls, loc)) + opt_seq(spec_last_loaded_context(ls, loc))
            + opt_seq(spec_pre_crash_context(ls, loc)) + opt_seq(spec_early_silent_crash(ls, g, loc))
    } else {
        opt_seq(spec_abrupt_termination(ls, loc))
    }
}

#[verifier::spinoff_prover]
#[verifier::rlimit(60)]
proof fn lemma_tail_apart(ls: Seq<Seq<char>>, loc: crate::i18n::Locale)
    ensures
        raw_findings(ls, loc) =~= crate::rules::subsystem::subsystem_findings(ls, loc) + crate::rules::analyze::all_line_findings(
            ls,
            ls.len(),
            crate::rules::analyze::is_macos_log(ls),
            loc,
        ) + raw_tail(ls, loc),
        crate::rules::kinds::kinds_distinct(raw_tail(ls, loc)),
        forall|i: int| 0 <= i < raw_tail(ls, loc).len() ==> ev_ok(#[trigger] raw_tail(ls, loc)[i]),
        forall|i: int|
            0 <= i < raw_tail(ls, loc).len() ==> crate::rules::kinds::context_kind((#[trigger] raw_tail(ls, loc)[i]).kind)
                || raw_tail(ls, loc)[i].kind == "abrupt_termination"@,
{
    let f1 = crate::rules::subsystem::subsystem_findings(ls, loc) + crate::rules::analyze::all_line_findings(
        ls,
        ls.len(),
        crate::rules::analyze::is_macos_log(ls),
        loc,
    );
    let tail = raw_tail(ls, loc);
    reveal_strlit("scenery_load_crash_context");
    reveal_strlit("last_loaded_context");
    reveal_strlit("pre_crash_context");
    reveal_strlit("early_silent_crash");
    assert("scenery_load_crash_context"@.len() != "last_loaded_context"@.len());
    assert("scenery_load_crash_context"@.len() != "pre_crash_context"@.len());
    assert("scenery_load_crash_context"@.len() != "early_silent_crash"@.len());
    assert("last_loaded_context"@.len() != "pre_crash_context"@.len());
    assert("last_loaded_context"@.len() != "early_silent_crash"@.len());
    assert("pre_crash_context"@.len() != "early_silent_crash"@.len());
    if crate::rules::context::crash_index(ls) is Some || crate::rules::analyze::has_gpu_crash_signal(ls) {
        let g = f1 + opt_seq(spec_scenery_load_crash_context(ls, loc)) + opt_seq(
            spec_last_loaded_context(ls, loc),
        ) + opt_seq(spec_pre_crash_context(ls, loc));
        lemma_scenery_load_crash_context_once(ls, loc);
        lemma_last_loaded_context_once(ls, loc);
        lemma_pre_crash_context_once(ls, loc);
        lemma_early_silent_crash_once(ls, g, loc);
        let a = opt_seq(spec_scenery_load_crash_context(ls, loc));
        let b = opt_seq(spec_last_loaded_context(ls, loc));
        let c = opt_seq(spec_pre_crash_context(ls, loc));
        let d = opt_seq(spec_early_silent_crash(ls, g, loc));
        let q1 = |k: Seq<char>| k == "scenery_load_crash_context"@;
        let q2 = |k: Seq<char>| k == "last_loaded_context"@;
        let q12 = |k: Seq<char>| q1(k) || q2(k);
        let q3 = |k: Seq<char>| k == "pre_crash_context"@;
        let q123 = |k: Seq<char>| q12(k) || q3(k);
        let q4 = |k: Seq<char>| k == "early_silent_crash"@;
        crate::rules::kinds::lemma_concat_distinct_by(a, b, q1, q2);
        crate::rules::kinds::lemma_concat_distinct_by(a + b, c, q12, q3);
        crate::rules::kinds::lemma_concat_distinct_by(a + b + c, d, q123, q4);
        assert(tail == a + b + c + d);
        assert forall|i: int| 0 <= i < tail.len() implies ev_ok(#[trigger] tail[i]) by {
            crate::rules::kinds::lemma_in4(a, b, c, d, i);
        }
    } else {
        lemma_abrupt_termination_once(ls, loc);
    }
}

#[verifier::spinoff_prover]
#[verifier::rlimit(100)]
proof fn lemma_raw_apart(ls: Seq<Seq<char>>, loc: crate::i18n::Locale)
    ensures
        forall|i: int| 0 <= i < raw_findings(ls, loc).len() ==> ev_ok(#[trigger] raw_findings(ls, loc)[i]),
        groups_apart(raw_findings(ls, loc)),
{
    let sub = crate::rules::subsystem::subsystem_findings(ls, loc);
    let macos = crate::rules::analyze::is_macos_log(ls);
    let lf = crate::rules::analyze::all_line_findings(ls, ls.len(), macos, loc);
    lemma_sub_apart(ls, loc);
    lemma_all_lines_apart(ls, ls.len(), macos, loc);
    lemma_raw_kinds(ls, loc);
    lemma_tail_apart(ls, loc);
    let f1 = sub + lf;
    let raw = raw_findings(ls, loc);
    let tail = raw_tail(ls, loc);
    assert(raw == f1 + tail);
    assert forall|i: int| 0 <= i < raw.len() implies ev_ok(#[trigger] raw[i]) by {
        crate::rules::kinds::lemma_in2(f1, tail, i);
        if i < f1.len() {
            crate::rules::kinds::lemma_in2(sub, lf, i);
            if i >= sub.len() {
                assert(from_some_line(lf[i - sub.len()], ls, ls.len()));
            }
        }
    }
    assert forall|a: int, b: int|
        0 <= a < b < raw.len() && dedupe_key(#[trigger] raw[a]) == dedupe_key(#[trigger] raw[b]) implies !in_evs(
        raw[a],
        raw[b].evidence,
    ) by {
        lemma_key_kinds(raw[a], raw[b]);
        lemma_component_kinds(ls, loc, a);
        lemma_component_kinds(ls, loc, b);
        crate::rules::kinds::lemma_kinds_differ(raw[a].kind);
        if b < f1.len() {
            if b < sub.len() {
                assert(raw[a] == sub[a] && raw[b] == sub[b]);
            } else if a >= sub.len() {
                assert(raw[a] == lf[a - sub.len()] && raw[b] == lf[b - sub.len()]);
                assert(from_some_line(lf[a - sub.len()], ls, ls.len()));
            }
        } else if a >= f1.len() {
            assert(raw[a] == tail[a - f1.len()] && raw[b] == tail[b - f1.len()]);
        }
    }
}

/// Which part of the findings before merging a position falls in decides
/// its kind: channel, per-line rule, or whole-log.
#[verifier::spinoff_prover]
proof fn lemma_component_kinds(ls: Seq<Seq<char>>, loc: crate::i18n::Locale, i: int)
    requires
        0 <= i < raw_findings(ls, loc).len(),
    ensures
        ({
            let sub = crate::rules::subsystem::subsystem_findings(ls, loc);
            let lf = crate::rules::analyze::all_line_findings(ls, ls.len(), crate::rules::analyze::is_macos_log(ls), loc);
            let k = raw_findings(ls, loc)[i].kind;
            &&& i < sub.len() ==> k == "xplane_subsystem_errors"@
            &&& sub.len() <= i < sub.len() + lf.len() ==> crate::rules::kinds::line_rule_kind(k)
            &&& sub.len() + lf.len() <= i ==> crate::rules::kinds::context_kind(k) || k == "abrupt_termination"@
        }),
{
    let sub = crate::rules::subsystem::subsystem_findings(ls, loc);
    let macos = crate::rules::analyze::is_macos_log(ls);
    let lf = crate::rules::analyze::all_line_findings(ls, ls.len(), macos, loc);
    lemma_tail_apart(ls, loc);
    lemma_all_line_kinds(ls, ls.len(), macos, loc);
    lemma_table_kinds(ls, ls.len(), loc);
    let t = crate::rules::subsystem::channel_table(ls, ls.len(), loc);
    let raw = raw_findings(ls, loc);
    let tail = raw_tail(ls, loc);
    if i < sub.len() {
        assert(raw[i] == sub[i]);
        assert(sub[i] == t[i].1);
    } else if i < sub.len() + lf.len() {
        assert(raw[i] == lf[i - sub.len()]);
    } else {
        assert(raw[i] == tail[i - sub.len() - lf.len()]);
    }
}

} // verus!

verus! {

proof fn lemma_with_extra_evs(e: FindingView, x: Seq<char>)
    ensures
        with_extra(e, x).evidence == e.evidence,
        ev_ok(e) ==> ev_ok(with_extra(e, x)),
        forall|y: Seq<char>| #[trigger] in_evs(with_extra(e, x), y) ==> in_evs(e, y) || y == x,
{
    let g = with_extra(e, x);
    assert forall|y: Seq<char>| #[trigger] in_evs(g, y) implies in_evs(e, y) || y == x by {
        if y != g.evidence {
            let k = choose|k: int| 0 <= k < g.extra_evidence.len() && #[trigger] g.extra_evidence[k] == y;
            if k < e.extra_evidence.len() {
                assert(e.extra_evidence[k] == y);
            }
        }
    }
}

proof fn lemma_with_extras_evs(e: FindingView, xs: Seq<Seq<char>>)
    ensures
        with_extras(e, xs).evidence == e.evidence,
        ev_ok(e) ==> ev_ok(with_extras(e, xs)),
        forall|y: Seq<char>|
            #[trigger] in_evs(with_extras(e, xs), y) ==> in_evs(e, y) || exists|k: int| 0 <= k < xs.len() && xs[k] == y,
    decreases xs.len(),
{
    if xs.len() > 0 {
        let e1 = with_extra(e, xs[0]);
        lemma_with_extra_evs(e, xs[0]);
        lemma_with_extras_evs(e1, xs.drop_first());
        assert forall|y: Seq<char>| #[trigger] in_evs(with_extras(e, xs), y) implies in_evs(e, y) || exists|k: int|
            0 <= k < xs.len() && xs[k] == y by {
            if !in_evs(e1, y) {
                let k = choose|k: int| 0 <= k < xs.drop_first().len() && xs.drop_first()[k] == y;
                assert(xs[k + 1] == y);
            } else if !in_evs(e, y) {
                assert(xs[0] == y);
            }
        }
    }
}

proof fn lemma_merge_evs(e: FindingView, f: FindingView)
    requires
        ev_ok(e),
        !in_evs(e, f.evidence) || !(severity_rank(f.severity) < severity_rank(e.severity)),
    ensures
        ev_ok(merge(e, f)),
        forall|y: Seq<char>| #[trigger] in_evs(merge(e, f), y) ==> in_evs(e, y) || in_evs(f, y),
{
    let urgent = severity_rank(f.severity) < severity_rank(e.severity);
    let x0 = FindingView {
        evidence: f.evidence,
        severity: f.severity,
        confidence: f.confidence,
        title: f.title,
        explanation: f.explanation,
        suggestion: f.suggestion,
        ..e
    };
    let e1 = if urgent {
        with_extra(x0, e.evidence)
    } else {
        with_extra(e, f.evidence)
    };
    if urgent {
        assert(ev_ok(x0)) by {
            assert forall|k: int| 0 <= k < x0.extra_evidence.len() implies #[trigger] x0.extra_evidence[k] != x0.evidence by {
                if x0.extra_evidence[k] == f.evidence {
                    assert(e.extra_evidence[k] == f.evidence);
                }
            }
        }
        lemma_with_extra_evs(x0, e.evidence);
        assert forall|y: Seq<char>| #[trigger] in_evs(x0, y) implies in_evs(e, y) || in_evs(f, y) by {
            if y != x0.evidence {
                let k = choose|k: int| 0 <= k < x0.extra_evidence.len() && #[trigger] x0.extra_evidence[k] == y;
                assert(e.extra_evidence[k] == y);
            }
        }
    } else {
        lemma_with_extra_evs(e, f.evidence);
    }
    let e2 = FindingView { occurrences: e1.occurrences + f.occurrences, ..e1 };
    assert(ev_ok(e2));
    assert forall|y: Seq<char>| #[trigger] in_evs(e2, y) implies in_evs(e1, y) by {}
    lemma_with_extras_evs(e2, f.extra_evidence);
    assert forall|y: Seq<char>| #[trigger] in_evs(merge(e, f), y) implies in_evs(e, y) || in_evs(f, y) by {
        if in_evs(e2, y) {
            assert(in_evs(e1, y));
        } else {
            let k = choose|k: int| 0 <= k < f.extra_evidence.len() && f.extra_evidence[k] == y;
            assert(in_evs(f, y));
        }
    }
}

/// After `n` findings, no slot's further evidence repeats its main line, and
/// every evidence line of a slot comes from a finding merged into it.
proof fn lemma_dedupe_evs(fs: Seq<FindingView>, n: nat)
    requires
        n <= fs.len(),
        forall|i: int| 0 <= i < fs.len() ==> ev_ok(#[trigger] fs[i]),
        groups_apart(fs),
    ensures
        dedupe_state(fs, n).0.len() == dedupe_state(fs, n).1.len(),
        forall|i: int|
            0 <= i < dedupe_state(fs, n).1.len() ==> ev_ok(#[trigger] dedupe_state(fs, n).1[i]),
        forall|i: int, y: Seq<char>|
            0 <= i < dedupe_state(fs, n).1.len() && #[trigger] in_evs(dedupe_state(fs, n).1[i], y) ==> exists|a: int|
                0 <= a < n && dedupe_key(fs[a]) == dedupe_state(fs, n).0[i] && #[trigger] in_evs(fs[a], y),
    decreases n,
{
    lemma_dedupe_kinds(fs, n);
    if n > 0 {
        let m = (n - 1) as nat;
        lemma_dedupe_evs(fs, m);
        lemma_dedupe_kinds(fs, m);
        let prev = dedupe_state(fs, m);
        let cur = dedupe_state(fs, n);
        let f = fs[m as int];
        let k = dedupe_key(f);
        lemma_key_pos(prev.0, k, 0);
        match key_pos(prev.0, k, 0) {
            Some(j) => {
                let e = prev.1[j];
                if in_evs(e, f.evidence) {
                    let a = choose|a: int| 0 <= a < m && dedupe_key(fs[a]) == prev.0[j] && #[trigger] in_evs(fs[a], f.evidence);
                    assert(dedupe_key(fs[a]) == dedupe_key(fs[m as int]));
                    assert(!in_evs(fs[a], fs[m as int].evidence));
                }
                lemma_merge_evs(e, f);
                assert forall|i: int, y: Seq<char>|
                    0 <= i < cur.1.len() && #[trigger] in_evs(cur.1[i], y) implies exists|a: int|
                    0 <= a < n && dedupe_key(fs[a]) == cur.0[i] && #[trigger] in_evs(fs[a], y) by {
                    if i != j {
                        assert(cur.1[i] == prev.1[i]);
                        let a = choose|a: int| 0 <= a < m && dedupe_key(fs[a]) == prev.0[i] && #[trigger] in_evs(fs[a], y);
                    } else if in_evs(e, y) {
                        let a = choose|a: int| 0 <= a < m && dedupe_key(fs[a]) == prev.0[i] && #[trigger] in_evs(fs[a], y);
                    } else {
                        assert(in_evs(fs[m as int], y));
                    }
                }
                assert forall|i: int| 0 <= i < cur.1.len() implies ev_ok(#[trigger] cur.1[i]) by {
                    if i != j {
                        assert(cur.1[i] == prev.1[i]);
                    }
                }
            },
            None => {
                assert forall|i: int, y: Seq<char>|
                    0 <= i < cur.1.len() && #[trigger] in_evs(cur.1[i], y) implies exists|a: int|
                    0 <= a < n && dedupe_key(fs[a]) == cur.0[i] && #[trigger] in_evs(fs[a], y) by {
                    if i < prev.1.len() {
                        assert(cur.1[i] == prev.1[i]);
                        let a = choose|a: int| 0 <= a < m && dedupe_key(fs[a]) == prev.0[i] && #[trigger] in_evs(fs[a], y);
                    } else {
                        assert(cur.1[i] == fs[m as int]);
                    }
                }
                assert forall|i: int| 0 <= i < cur.1.len() implies ev_ok(#[trigger] cur.1[i]) by {
                    if i < prev.1.len() {
                        assert(cur.1[i] == prev.1[i]);
                    }
                }
            },
        }
    }
}

/// No finding the analysis reports lists its main evidence line again among
/// its further evidence lines.
pub proof fn law_extra_evidence_never_repeats_the_main_line(text: Seq<char>, loc: crate::i18n::Locale)
    ensures
        forall|i: int|
            0 <= i < crate::rules::analyze::log_findings(text, loc).len() ==> ev_ok(
                #[trigger] crate::rules::analyze::log_findings(text, loc)[i],
            ),
{
    let ls = crate::text::lines(text);
    let raw = raw_findings(ls, loc);
    lemma_raw_apart(ls, loc);
    lemma_dedupe_evs(raw, raw.len());
    let d = dedupe(raw);
    law_suppress_only_demotes_channel_findings(d);
    let r = crate::rules::analyze::log_findings(text, loc);
    assert forall|i: int| 0 <= i < r.len() implies ev_ok(#[trigger] r[i]) by {
        assert(ev_ok(d[i]));
        assert(r[i].extra_evidence == d[i].extra_evidence && r[i].evidence == d[i].evidence);
    }
}

} // verus!

verus! {

/// `q` does not occur in `s`.
pub open spec fn absent(s: Seq<char>, q: Seq<char>) -> bool {
    forall|j: int| !crate::text::matches_at(s, q, j)
}

/// `q` cannot occur across a written `r`: it holds neither the first nor the
/// last character of `r`, and some character of it is not in `r`.
pub open spec fn clashes(q: Seq<char>, r: Seq<char>) -> bool {
    &&& r.len() > 0
    &&& forall|k: int| 0 <= k < q.len() ==> #[trigger] q[k] != r[0] && q[k] != r.last()
    &&& exists|k: int| 0 <= k < q.len() && not_in(#[trigger] q[k], r)
}

/// `c` is not a character of `r`.
pub open spec fn not_in(c: char, r: Seq<char>) -> bool {
    forall|m: int| 0 <= m < r.len() ==> #[trigger] r[m] != c
}

/// An occurrence of `q` in `g + r + h` lies in `g` or in `h`.
proof fn lemma_occurrence_sides(g: Seq<char>, r: Seq<char>, h: Seq<char>, q: Seq<char>, j: int)
    requires
        q.len() > 0,
        clashes(q, r),
        crate::text::matches_at(g + r + h, q, j),
    ensures
        j + q.len() <= g.len() || j >= g.len() + r.len(),
{
    let t = g + r + h;
    let n = q.len() as int;
    assert(t.subrange(j, j + n) == q);
    assert forall|k: int| 0 <= k < n implies t[j + k] == q[k] by {
        assert(t.subrange(j, j + n)[k] == t[j + k]);
    }
    if !(j + n <= g.len() || j >= g.len() + r.len()) {
        if j <= g.len() {
            assert(t[g.len() as int] == r[0]);
            assert(q[g.len() - j] == r[0]);
        } else if j + n >= g.len() + r.len() {
            assert(t[g.len() + r.len() - 1] == r.last());
            assert(q[g.len() + r.len() - 1 - j] == r.last());
        } else {
            let k = choose|k: int| 0 <= k < q.len() && not_in(#[trigger] q[k], r);
            assert(t[j + k] == r[j + k - g.len()]);
        }
    }
}

proof fn lemma_sub_occurrence(s: Seq<char>, i: int, k: int, q: Seq<char>, j: int)
    requires
        0 <= i <= k <= s.len(),
        crate::text::matches_at(s.subrange(i, k), q, j),
    ensures
        crate::text::matches_at(s, q, i + j),
{
    assert(s.subrange(i, k).subrange(j, j + q.len()) =~= s.subrange(i + j, i + j + q.len()));
}

/// After every occurrence of a pattern is replaced, none is left.
proof fn lemma_replace_from_removes(s: Seq<char>, p: Seq<char>, r: Seq<char>, i: int)
    requires
        p.len() > 0,
        clashes(p, r),
        0 <= i <= s.len(),
    ensures
        absent(crate::text::replace_from(s, p, r, i), p),
    decreases s.len() - i,
{
    crate::text::lemma_find_from(s, p, i);
    let out = crate::text::replace_from(s, p, r, i);
    match crate::text::find_from(s, p, i) {
        Some(k) => {
            lemma_replace_from_removes(s, p, r, k + p.len());
            let g = s.subrange(i, k);
            let rest = crate::text::replace_from(s, p, r, k + p.len());
            assert(out == g + r + rest);
            assert forall|j: int| !crate::text::matches_at(out, p, j) by {
                if crate::text::matches_at(out, p, j) {
                    lemma_occurrence_sides(g, r, rest, p, j);
                    if j + p.len() <= g.len() {
                        assert((g + r + rest).subrange(j, j + p.len()) =~= g.subrange(j, j + p.len()));
                        lemma_sub_occurrence(s, i, k, p, j);
                    } else {
                        assert((g + r + rest).subrange(j, j + p.len()) =~= rest.subrange(
                            j - g.len() - r.len(),
                            j - g.len() - r.len() + p.len(),
                        ));
                        assert(crate::text::matches_at(rest, p, j - g.len() - r.len()));
                    }
                }
            }
        },
        None => {
            assert forall|j: int| !crate::text::matches_at(out, p, j) by {
                if crate::text::matches_at(out, p, j) {
                    assert(out.subrange(j, j + p.len()) =~= s.subrange(i + j, i + j + p.len()));
                    assert(crate::text::matches_at(s, p, i + j));
                }
            }
        },
    }
}

/// Replacing keeps an absent text absent, when it cannot occur across the
/// replacement.
proof fn lemma_replace_from_keeps_absent(s: Seq<char>, p: Seq<char>, r: Seq<char>, i: int, q: Seq<char>)
    requires
        p.len() > 0,
        q.len() > 0,
        clashes(q, r),
        absent(s, q),
        0 <= i <= s.len(),
    ensures
        absent(crate::text::replace_from(s, p, r, i), q),
    decreases s.len() - i,
{
    crate::text::lemma_find_from(s, p, i);
    let out = crate::text::replace_from(s, p, r, i);
    match crate::text::find_from(s, p, i) {
        Some(k) => {
            lemma_replace_from_keeps_absent(s, p, r, k + p.len(), q);
            let g = s.subrange(i, k);
            let rest = crate::text::replace_from(s, p, r, k + p.len());
            assert(out == g + r + rest);
            assert forall|j: int| !crate::text::matches_at(out, q, j) by {
                if crate::text::matches_at(out, q, j) {
                    lemma_occurrence_sides(g, r, rest, q, j);
                    if j + q.len() <= g.len() {
                        assert((g + r + rest).subrange(j, j + q.len()) =~= g.subrange(j, j + q.len()));
                        lemma_sub_occurrence(s, i, k, q, j);
                    } else {
                        assert((g + r + rest).subrange(j, j + q.len()) =~= rest.subrange(
                            j - g.len() - r.len(),
                            j - g.len() - r.len() + q.len(),
                        ));
                        assert(crate::text::matches_at(rest, q, j - g.len() - r.len()));
                    }
                }
            }
        },
        None => {
            assert forall|j: int| !crate::text::matches_at(out, q, j) by {
                if crate::text::matches_at(out, q, j) {
                    assert(out.subrange(j, j + q.len()) =~= s.subrange(i + j, i + j + q.len()));
                    assert(crate::text::matches_at(s, q, i + j));
                }
            }
        },
    }
}

} // verus!

verus! {

proof fn lemma_replace_removes(s: Seq<char>, p: Seq<char>, r: Seq<char>)
    requires
        p.len() > 0,
        clashes(p, r),
    ensures
        absent(crate::text::replace(s, p, r), p),
{
    lemma_replace_from_removes(s, p, r, 0);
}

proof fn lemma_replace_keeps_absent(s: Seq<char>, p: Seq<char>, r: Seq<char>, q: Seq<char>)
    requires
        p.len() > 0,
        q.len() > 0,
        clashes(q, r),
        absent(s, q),
    ensures
        absent(crate::text::replace(s, p, r), q),
{
    lemma_replace_from_keeps_absent(s, p, r, 0, q);
}

proof fn lemma_absent_skip(s: Seq<char>, d: int, q: Seq<char>)
    requires
        0 <= d <= s.len(),
        absent(s, q),
    ensures
        absent(s.skip(d), q),
{
    assert forall|j: int| !crate::text::matches_at(s.skip(d), q, j) by {
        if crate::text::matches_at(s.skip(d), q, j) {
            assert(s.skip(d).subrange(j, j + q.len()) =~= s.subrange(d + j, d + j + q.len()));
            assert(crate::text::matches_at(s, q, d + j));
        }
    }
}

/// Writing `<user>` for user names keeps an absent text absent, when it
/// cannot occur across `<user>`.
proof fn lemma_segments_keep_absent(s: Seq<char>, u: Seq<char>, q: Seq<char>)
    requires
        q.len() > 0,
        clashes(q, crate::redact::user_mark()),
        absent(s, q),
    ensures
        absent(crate::redact::redact_segments(s, u), q),
    decreases s.len(),
{
    let mark = crate::redact::user_mark();
    let out = crate::redact::redact_segments(s, u);
    if s.len() == 0 {
    } else if crate::redact::user_segment_at(s, u, 0) {
        let t = s.skip(7 + u.len() as int);
        lemma_absent_skip(s, 7 + u.len() as int, q);
        lemma_segments_keep_absent(t, u, q);
        let rt = crate::redact::redact_segments(t, u);
        assert(out == s.take(7) + mark + rt);
        assert forall|j: int| !crate::text::matches_at(out, q, j) by {
            if crate::text::matches_at(out, q, j) {
                lemma_occurrence_sides(s.take(7), mark, rt, q, j);
                if j + q.len() <= 7 {
                    assert(out.subrange(j, j + q.len()) =~= s.subrange(j, j + q.len()));
                    assert(crate::text::matches_at(s, q, j));
                } else {
                    assert(out.subrange(j, j + q.len()) =~= rt.subrange(j - 7 - mark.len(), j - 7 - mark.len() + q.len()));
                    assert(crate::text::matches_at(rt, q, j - 7 - mark.len()));
                }
            }
        }
    } else {
        let s1 = s.skip(1);
        lemma_absent_skip(s, 1, q);
        lemma_segments_keep_absent(s1, u, q);
        let r1 = crate::redact::redact_segments(s1, u);
        assert(out == seq![s[0]] + r1);
        assert forall|j: int| !crate::text::matches_at(out, q, j) by {
            if crate::text::matches_at(out, q, j) {
                if j >= 1 {
                    assert(out.subrange(j, j + q.len()) =~= r1.subrange(j - 1, j - 1 + q.len()));
                    assert(crate::text::matches_at(r1, q, j - 1));
                } else {
                    match crate::redact::first_segment(s1, u, s1.len() as int) {
                        None => {
                            crate::redact::lemma_keep_prefix(s1, u, s1.len() as int);
                            assert(s1.take(s1.len() as int) =~= s1);
                            assert(s1.skip(s1.len() as int) =~= Seq::<char>::empty());
                            assert(r1 =~= s1);
                            assert(out =~= s);
                        },
                        Some(p0) => {
                            crate::redact::lemma_keep_prefix(s1, u, p0);
                            crate::redact::lemma_segment_shift(s1, u, p0, 0);
                            let tail = s1.skip(p0);
                            assert(tail.skip(0) =~= tail);
                            let z = crate::redact::redact_segments(tail.skip(7 + u.len() as int), u);
                            assert(crate::redact::redact_segments(tail, u) == tail.take(7) + mark + z);
                            let g = s.take(p0 + 8);
                            assert(out =~= g + mark + z);
                            lemma_occurrence_sides(g, mark, z, q, 0);
                            assert(out.subrange(0, q.len() as int) =~= s.subrange(0, q.len() as int));
                            assert(crate::text::matches_at(s, q, 0));
                        },
                    }
                }
            }
        }
    }
}

/// A path that the root redaction can take out: not empty, with a path
/// separator, and without `<`, `>` or `~`.
pub open spec fn redactable_root(root: Seq<char>) -> bool {
    &&& root.len() > 0
    &&& forall|k: int| 0 <= k < root.len() ==> #[trigger] root[k] != '<' && root[k] != '>' && root[k] != '~'
    &&& exists|k: int| 0 <= k < root.len() && (#[trigger] root[k] == '/' || root[k] == '\\')
}

proof fn lemma_root_clashes(root: Seq<char>)
    requires
        redactable_root(root),
    ensures
        clashes(root, "<xplane>"@),
        clashes(root, "~"@),
        clashes(root, crate::redact::user_mark()),
{
    reveal_strlit("<xplane>");
    reveal_strlit("~");
    let k = choose|k: int| 0 <= k < root.len() && (#[trigger] root[k] == '/' || root[k] == '\\');
    assert(not_in(root[k], "<xplane>"@));
    assert(not_in(root[k], "~"@));
    assert(not_in(root[k], crate::redact::user_mark()));
}

proof fn lemma_homes_keep_absent(s: Seq<char>, homes: Seq<Seq<char>>, q: Seq<char>)
    requires
        q.len() > 0,
        clashes(q, "~"@),
        absent(s, q),
    ensures
        absent(crate::redact::without_homes(s, homes), q),
    decreases homes.len(),
{
    if homes.len() > 0 {
        lemma_homes_keep_absent(s, homes.drop_last(), q);
        let out = crate::redact::without_homes(s, homes.drop_last());
        let v = homes.last();
        if v.len() > 0 {
            lemma_replace_keeps_absent(out, v, "~"@, q);
            let v2 = crate::text::replace_char(v, '\\', '/');
            assert(v2.len() == v.len());
            lemma_replace_keeps_absent(crate::text::replace(out, v, "~"@), v2, "~"@, q);
        }
    }
}

/// Once the installation folder is taken out of a text, it does not occur in
/// the redacted text, whatever the home folders: for a folder path with a
/// separator and without `<`, `>` or `~`.
pub proof fn law_root_never_survives_redaction(input: Seq<char>, root: Seq<char>, homes: Seq<Seq<char>>)
    requires
        redactable_root(root),
    ensures
        absent(crate::redact::redacted(crate::redact::without_root(input, root), homes), root),
{
    lemma_root_clashes(root);
    let x = "<xplane>"@;
    let slash = crate::text::replace_char(root, '\\', '/');
    let mixed = crate::text::replace_first(slash, ":/"@, ":\\"@);
    let s1 = crate::text::replace(input, root, x);
    lemma_replace_removes(input, root, x);
    assert(slash.len() == root.len());
    lemma_replace_keeps_absent(s1, slash, x, root);
    let s2 = crate::text::replace(s1, slash, x);
    reveal_strlit(":/");
    reveal_strlit(":\\");
    match crate::text::find(slash, ":/"@) {
        Some(k) => {
            crate::text::lemma_find_from(slash, ":/"@, 0);
            assert(mixed.len() == slash.len());
        },
        None => {},
    }
    lemma_replace_keeps_absent(s2, mixed, x, root);
    let s3 = crate::text::replace(s2, mixed, x);
    assert(crate::redact::without_root(input, root) == s3);
    lemma_homes_keep_absent(s3, homes, root);
    let s4 = crate::redact::without_homes(s3, homes);
    match crate::redact::user_name_in(s4) {
        None => {},
        Some(u) => {
            lemma_segments_keep_absent(s4, u, root);
        },
    }
}

} // verus!

verus! {

/// A line that, in lower case, reports a duplicate runway, airport or
/// scenery package.
pub open spec fn duplicate_scenery_line(line: Seq<char>) -> bool {
    let l = crate::text::lower(line);
    crate::text::contains(l, "we found a duplicate runway"@) || crate::text::contains(
        l,
        "duplicate airport"@,
    ) || crate::text::contains(l, "duplicate scenery"@)
}

proof fn lemma_duplicate_kind_apart(k: Seq<char>)
    ensures
        crate::rules::kinds::part4_kind("duplicate_scenery_log"@),
        plain_kind("duplicate_scenery_log"@),
        crate::rules::kinds::part1_kind(k) || crate::rules::kinds::part2_kind(k)
            || crate::rules::kinds::part3_kind(k) || k == "aircraft_open_failure"@ || k
            == "macos_security_block"@ || k == "application_crash"@ ==> k != "duplicate_scenery_log"@,
{
    let d = "duplicate_scenery_log"@;
    reveal_strlit("duplicate_scenery_log");
    reveal_strlit("plugin_load_failed");
    reveal_strlit("vulkan_result_error");
    reveal_strlit("graphics_vulkan_error");
    reveal_strlit("memory_or_vram");
    reveal_strlit("texture_vram_pressure");
    reveal_strlit("missing_scenery_asset");
    reveal_strlit("missing_scenery_object");
    reveal_strlit("missing_scenery_library");
    reveal_strlit("missing_global_scenery_tile");
    reveal_strlit("vulkan_device_lost");
    reveal_strlit("threading_violation");
    reveal_strlit("xplm_bypass");
    reveal_strlit("flywithlua_error");
    reveal_strlit("third_party_plugin_error");
    reveal_strlit("plugin_encountered_error");
    reveal_strlit("aircraft_open_failure");
    reveal_strlit("macos_security_block");
    reveal_strlit("application_crash");
    assert(d.len() != "plugin_load_failed"@.len());
    assert(d.len() != "vulkan_result_error"@.len());
    assert(d[0] != "graphics_vulkan_error"@[0]);
    assert(d.len() != "memory_or_vram"@.len());
    assert(d[0] != "texture_vram_pressure"@[0]);
    assert(d[0] != "missing_scenery_asset"@[0]);
    assert(d.len() != "missing_scenery_object"@.len());
    assert(d.len() != "missing_scenery_library"@.len());
    assert(d.len() != "missing_global_scenery_tile"@.len());
    assert(d.len() != "vulkan_device_lost"@.len());
    assert(d.len() != "threading_violation"@.len());
    assert(d.len() != "xplm_bypass"@.len());
    assert(d.len() != "flywithlua_error"@.len());
    assert(d.len() != "third_party_plugin_error"@.len());
    assert(d.len() != "plugin_encountered_error"@.len());
    assert(d[0] != "aircraft_open_failure"@[0]);
    assert(d.len() != "macos_security_block"@.len());
    assert(d.len() != "application_crash"@.len());
}

/// A line's rules report a duplicate runway, airport or scenery package
/// exactly when the line, in lower case, mentions one; that finding is
/// counted once, at medium severity, with the line itself as its evidence.
#[verifier::spinoff_prover]
#[verifier::rlimit(50)]
pub proof fn law_duplicate_scenery_line_rule(
    idx: nat,
    ls: Seq<Seq<char>>,
    macos: bool,
    loc: crate::i18n::Locale,
)
    requires
        idx < ls.len(),
    ensures
        crate::rules::merge::has_kind(
            crate::rules::analyze::line_findings(idx, ls, macos, loc),
            "duplicate_scenery_log"@,
        ) <==> duplicate_scenery_line(ls[idx as int]),
        forall|i: int|
            0 <= i < crate::rules::analyze::line_findings(idx, ls, macos, loc).len() && (#[trigger] crate::rules::analyze::line_findings(
                idx,
                ls,
                macos,
                loc,
            )[i]).kind == "duplicate_scenery_log"@ ==> {
                let f = crate::rules::analyze::line_findings(idx, ls, macos, loc)[i];
                &&& f.evidence == crate::rules::evidence::evidence_text(idx, ls[idx as int])
                &&& f.occurrences == 1
                &&& f.severity == Severity::Medium
            },
{
    reveal(crate::rules::analyze::line_findings);
    let line = ls[idx as int];
    let lw = crate::text::lower(line);
    let dk = "duplicate_scenery_log"@;
    let p1 = crate::rules::analyze::part1(idx, line, lw, loc);
    let p2 = crate::rules::analyze::part2(idx, line, lw, loc);
    let p3 = crate::rules::analyze::part3(idx, line, lw, ls, loc);
    let p4 = crate::rules::analyze::part4(idx, line, lw, ls, macos, loc);
    let lf = crate::rules::analyze::line_findings(idx, ls, macos, loc);
    assert(lf == p1 + p2 + p3 + p4);
    crate::rules::kinds::lemma_part1_kinds(idx, line, lw, loc);
    crate::rules::kinds::lemma_part2_kinds(idx, line, lw, loc);
    crate::rules::kinds::lemma_part3_kinds(idx, line, lw, ls, loc);
    crate::rules::kinds::lemma_part4_kinds(idx, line, lw, ls, macos, loc);
    let a = opt_seq(crate::rules::assets::spec_aircraft_open_failure(idx, line, lw, ls, loc));
    let b = if macos {
        opt_seq(crate::rules::keywords::spec_macos_security_block(idx, line, lw, loc))
    } else {
        seq![]
    };
    let c = opt_seq(crate::rules::assets::spec_application_crash(idx, line, loc));
    let d = opt_seq(crate::rules::keywords::spec_duplicate_scenery(idx, line, lw, loc));
    assert(p4 == a + b + c + d);
    lemma_duplicate_kind_apart(dk);
    assert forall|i: int| 0 <= i < lf.len() && (#[trigger] lf[i]).kind == dk implies crate::rules::keywords::spec_duplicate_scenery(
        idx,
        line,
        lw,
        loc,
    ) == Some(lf[i]) by {
        crate::rules::kinds::lemma_in4(p1, p2, p3, p4, i);
        lemma_duplicate_kind_apart(lf[i].kind);
        if exists|j: int| 0 <= j < p4.len() && lf[i] == p4[j] {
            let j = choose|j: int| 0 <= j < p4.len() && lf[i] == p4[j];
            crate::rules::kinds::lemma_in4(a, b, c, d, j);
            reveal_strlit("duplicate_scenery_log");
            reveal_strlit("aircraft_open_failure");
            reveal_strlit("macos_security_block");
            reveal_strlit("application_crash");
            assert(dk.len() != "macos_security_block"@.len());
            assert(dk.len() != "application_crash"@.len());
            assert(dk[0] != "aircraft_open_failure"@[0]);
        }
    }
    if crate::rules::merge::has_kind(lf, dk) {
        let i = choose|i: int| 0 <= i < lf.len() && lf[i].kind == dk;
        assert(crate::rules::keywords::spec_duplicate_scenery(idx, line, lw, loc) == Some(lf[i]));
    }
    if duplicate_scenery_line(line) {
        let x = crate::rules::keywords::spec_duplicate_scenery(idx, line, lw, loc).unwrap();
        assert(p4[(a.len() + b.len() + c.len()) as int] == x);
        assert(lf[(p1.len() + p2.len() + p3.len() + a.len() + b.len() + c.len()) as int] == x);
        assert(x.kind == dk);
    }
}

/// A kind that only the line rules give is in the findings before merging
/// exactly when some line's rules give it.
#[verifier::spinoff_prover]
#[verifier::rlimit(100)]
proof fn lemma_raw_line_kind(ls: Seq<Seq<char>>, loc: crate::i18n::Locale, k: Seq<char>)
    requires
        crate::rules::kinds::line_rule_kind(k),
    ensures
        crate::rules::merge::has_kind(raw_findings(ls, loc), k) <==> crate::rules::merge::has_kind(
            crate::rules::analyze::all_line_findings(ls, ls.len(), crate::rules::analyze::is_macos_log(ls), loc),
            k,
        ),
{
    let sub = crate::rules::subsystem::subsystem_findings(ls, loc);
    let macos = crate::rules::analyze::is_macos_log(ls);
    let lf = crate::rules::analyze::all_line_findings(ls, ls.len(), macos, loc);
    lemma_table_kinds(ls, ls.len(), loc);
    let t = crate::rules::subsystem::channel_table(ls, ls.len(), loc);
    assert forall|i: int| 0 <= i < sub.len() implies (#[trigger] sub[i]).kind == "xplane_subsystem_errors"@ by {
        assert(sub[i] == t[i].1);
    }
    let f1 = sub + lf;
    let raw = raw_findings(ls, loc);
    let crash = crate::rules::context::crash_index(ls) is Some
        || crate::rules::analyze::has_gpu_crash_signal(ls);
    let tail = if crash {
        let g = f1 + opt_seq(spec_scenery_load_crash_context(ls, loc)) + opt_seq(
            spec_last_loaded_context(ls, loc),
        ) + opt_seq(spec_pre_crash_context(ls, loc));
        lemma_scenery_load_crash_context_once(ls, loc);
        lemma_last_loaded_context_once(ls, loc);
        lemma_pre_crash_context_once(ls, loc);
        lemma_early_silent_crash_once(ls, g, loc);
        opt_seq(spec_scenery_load_crash_context(ls, loc)) + opt_seq(spec_last_loaded_context(ls, loc))
            + opt_seq(spec_pre_crash_context(ls, loc)) + opt_seq(spec_early_silent_crash(ls, g, loc))
    } else {
        lemma_abrupt_termination_once(ls, loc);
        opt_seq(spec_abrupt_termination(ls, loc))
    };
    assert(raw =~= f1 + tail);
    assert forall|i: int| 0 <= i < tail.len() implies (crash && crate::rules::kinds::context_kind(
        (#[trigger] tail[i]).kind,
    )) || (!crash && tail[i].kind == "abrupt_termination"@) by {
        if crash {
            let g = f1 + opt_seq(spec_scenery_load_crash_context(ls, loc)) + opt_seq(
                spec_last_loaded_context(ls, loc),
            ) + opt_seq(spec_pre_crash_context(ls, loc));
            crate::rules::kinds::lemma_in4(
                opt_seq(spec_scenery_load_crash_context(ls, loc)),
                opt_seq(spec_last_loaded_context(ls, loc)),
                opt_seq(spec_pre_crash_context(ls, loc)),
                opt_seq(spec_early_silent_crash(ls, g, loc)),
                i,
            );
        }
    }
    crate::rules::kinds::lemma_kinds_differ(k);
    if crate::rules::merge::has_kind(raw, k) {
        let i = choose|i: int| 0 <= i < raw.len() && raw[i].kind == k;
        crate::rules::kinds::lemma_in2(f1, tail, i);
        if i < f1.len() {
            crate::rules::kinds::lemma_in2(sub, lf, i);
            assert(lf[i - sub.len()].kind == k);
        }
    }
    if crate::rules::merge::has_kind(lf, k) {
        let i = choose|i: int| 0 <= i < lf.len() && lf[i].kind == k;
        assert(raw[sub.len() + i] == lf[i]);
    }
}

/// The rules of the first `n` lines give a kind exactly when those of one
/// of those lines do.
#[verifier::spinoff_prover]
proof fn lemma_all_line_has_kind(
    ls: Seq<Seq<char>>,
    n: nat,
    macos: bool,
    loc: crate::i18n::Locale,
    k: Seq<char>,
)
    requires
        n <= ls.len(),
    ensures
        crate::rules::merge::has_kind(crate::rules::analyze::all_line_findings(ls, n, macos, loc), k)
            <==> exists|j: nat|
            j < n && #[trigger] crate::rules::merge::has_kind(
                crate::rules::analyze::line_findings(j, ls, macos, loc),
                k,
            ),
    decreases n,
{
    let all = crate::rules::analyze::all_line_findings(ls, n, macos, loc);
    if n == 0 {
        assert(all.len() == 0);
    } else {
        let m = (n - 1) as nat;
        lemma_all_line_has_kind(ls, m, macos, loc, k);
        let prev = crate::rules::analyze::all_line_findings(ls, m, macos, loc);
        let lf = crate::rules::analyze::line_findings(m, ls, macos, loc);
        assert(all == prev + lf);
        if crate::rules::merge::has_kind(all, k) {
            let i = choose|i: int| 0 <= i < all.len() && all[i].kind == k;
            crate::rules::kinds::lemma_in2(prev, lf, i);
            if i < prev.len() {
                assert(crate::rules::merge::has_kind(prev, k));
                let j = choose|j: nat|
                    j < m && #[trigger] crate::rules::merge::has_kind(
                        crate::rules::analyze::line_findings(j, ls, macos, loc),
                        k,
                    );
                assert(j < n);
            } else {
                assert(lf[i - prev.len()].kind == k);
                assert(crate::rules::merge::has_kind(lf, k));
            }
        }
        if exists|j: nat|
            j < n && #[trigger] crate::rules::merge::has_kind(
                crate::rules::analyze::line_findings(j, ls, macos, loc),
                k,
            ) {
            let j = choose|j: nat|
                j < n && #[trigger] crate::rules::merge::has_kind(
                    crate::rules::analyze::line_findings(j, ls, macos, loc),
                    k,
                );
            if j < m {
                let i = choose|i: int| 0 <= i < prev.len() && prev[i].kind == k;
                assert(all[i] == prev[i]);
            } else {
                let i = choose|i: int| 0 <= i < lf.len() && lf[i].kind == k;
                assert(all[prev.len() + i] == lf[i]);
            }
        }
    }
}

/// The analysis of a log reports a duplicate runway, airport or scenery
/// package exactly when some line of it, in lower case, mentions one.
#[verifier::spinoff_prover]
pub proof fn law_duplicate_scenery_reported(text: Seq<char>, loc: crate::i18n::Locale)
    ensures
        crate::rules::merge::has_kind(
            crate::rules::analyze::log_findings(text, loc),
            "duplicate_scenery_log"@,
        ) <==> exists|j: int|
            0 <= j < crate::text::lines(text).len() && duplicate_scenery_line(
                #[trigger] crate::text::lines(text)[j],
            ),
{
    let ls = crate::text::lines(text);
    let raw = raw_findings(ls, loc);
    let d = dedupe(raw);
    let r = crate::rules::analyze::log_findings(text, loc);
    let dk = "duplicate_scenery_log"@;
    let macos = crate::rules::analyze::is_macos_log(ls);
    lemma_duplicate_kind_apart(dk);
    lemma_raw_line_kind(ls, loc, dk);
    lemma_all_line_has_kind(ls, ls.len(), macos, loc, dk);
    law_dedupe_keeps_kinds(raw);
    law_suppress_only_demotes_channel_findings(d);
    crate::rules::kinds::lemma_kinds_differ(dk);
    if crate::rules::merge::has_kind(raw, dk) {
        assert(crate::rules::merge::has_kind(d, dk));
        let i = choose|i: int| 0 <= i < d.len() && d[i].kind == dk;
        assert(r[i].kind == dk);
    }
    if crate::rules::merge::has_kind(r, dk) {
        let i = choose|i: int| 0 <= i < r.len() && r[i].kind == dk;
        assert(d[i].kind == dk);
        let a = choose|a: int| 0 <= a < raw.len() && #[trigger] raw[a].kind == (#[trigger] d[i]).kind;
        assert(crate::rules::merge::has_kind(raw, dk));
        let j = choose|j: nat|
            j < ls.len() && #[trigger] crate::rules::merge::has_kind(
                crate::rules::analyze::line_findings(j, ls, macos, loc),
                dk,
            );
        law_duplicate_scenery_line_rule(j, ls, macos, loc);
        assert(duplicate_scenery_line(ls[j as int]));
    }
    if exists|j: int| 0 <= j < ls.len() && duplicate_scenery_line(#[trigger] ls[j]) {
        let j = choose|j: int| 0 <= j < ls.len() && duplicate_scenery_line(#[trigger] ls[j]);
        law_duplicate_scenery_line_rule(j as nat, ls, macos, loc);
        assert(crate::rules::merge::has_kind(
            crate::rules::analyze::line_findings(j as nat, ls, macos, loc),
            dk,
        ));
    }
}

/// The first line of a log that mentions a duplicate runway, airport or
/// scenery package stands at `j`.
pub open spec fn first_duplicate_line(ls: Seq<Seq<char>>, j: int) -> bool {
    &&& 0 <= j < ls.len()
    &&& duplicate_scenery_line(ls[j])
    &&& forall|m: int| 0 <= m < j ==> !duplicate_scenery_line(#[trigger] ls[m])
}

/// `x` is the first place in `s` holding a finding of kind `k`.
pub open spec fn first_of_kind(s: Seq<FindingView>, k: Seq<char>, x: int) -> bool {
    &&& 0 <= x < s.len()
    &&& s[x].kind == k
    &&& forall|y: int| 0 <= y < x ==> (#[trigger] s[y]).kind != k
}

proof fn lemma_duplicate_key(f: FindingView)
    ensures
        f.kind == "duplicate_scenery_log"@ <==> dedupe_key(f) == "duplicate_scenery_log"@,
{
    lemma_key_first_char(f);
    reveal_strlit("duplicate_scenery_log");
    reveal_strlit("xplane_subsystem_errors");
    reveal_strlit("third_party_plugin_error");
    assert("duplicate_scenery_log"@[0] == 'd');
}

#[verifier::spinoff_prover]
proof fn lemma_group_first(fs: Seq<FindingView>, k: Seq<char>)
    ensures
        group(fs, k).len() > 0 ==> exists|a: int|
            0 <= a < fs.len() && dedupe_key(fs[a]) == k && group(fs, k)[0] == fs[a] && forall|b: int|
                0 <= b < a ==> dedupe_key(#[trigger] fs[b]) != k,
        forall|m: int|
            0 <= m < group(fs, k).len() ==> exists|a: int|
                0 <= a < fs.len() && #[trigger] group(fs, k)[m] == fs[a] && dedupe_key(fs[a]) == k,
    decreases fs.len(),
{
    if fs.len() > 0 {
        let p = fs.drop_last();
        let last = fs.len() - 1;
        lemma_group_first(p, k);
        lemma_group_nonempty(p, k);
        let gp = group(p, k);
        let g = group(fs, k);
        if gp.len() > 0 {
            let a = choose|a: int|
                0 <= a < p.len() && dedupe_key(p[a]) == k && gp[0] == p[a] && forall|b: int|
                    0 <= b < a ==> dedupe_key(#[trigger] p[b]) != k;
            assert(g[0] == gp[0]);
            assert(fs[a] == p[a]);
            assert forall|b: int| 0 <= b < a implies dedupe_key(#[trigger] fs[b]) != k by {
                assert(fs[b] == p[b]);
            }
        } else if g.len() > 0 {
            assert(g[0] == fs[last]);
            assert forall|b: int| 0 <= b < last implies dedupe_key(#[trigger] fs[b]) != k by {
                assert(fs[b] == p[b]);
            }
        }
        assert forall|m: int| 0 <= m < g.len() implies exists|a: int|
            0 <= a < fs.len() && #[trigger] g[m] == fs[a] && dedupe_key(fs[a]) == k by {
            if m < gp.len() {
                assert(g[m] == gp[m]);
                let a = choose|a: int| 0 <= a < p.len() && #[trigger] gp[m] == p[a] && dedupe_key(p[a]) == k;
                assert(fs[a] == p[a]);
            } else {
                assert(g[m] == fs[last]);
            }
        }
    }
}

/// In the findings of the first `n` lines, each duplicate finding is at
/// medium severity, and the first one comes from the first line that
/// mentions a duplicate, with that line as its evidence.
#[verifier::spinoff_prover]
#[verifier::rlimit(50)]
proof fn lemma_first_duplicate_in_lines(
    ls: Seq<Seq<char>>,
    n: nat,
    macos: bool,
    loc: crate::i18n::Locale,
)
    requires
        n <= ls.len(),
    ensures
        forall|x: int|
            0 <= x < crate::rules::analyze::all_line_findings(ls, n, macos, loc).len() && (#[trigger] crate::rules::analyze::all_line_findings(
                ls,
                n,
                macos,
                loc,
            )[x]).kind == "duplicate_scenery_log"@ ==> crate::rules::analyze::all_line_findings(
                ls,
                n,
                macos,
                loc,
            )[x].severity == Severity::Medium,
        forall|x: int|
            #[trigger] first_of_kind(
                crate::rules::analyze::all_line_findings(ls, n, macos, loc),
                "duplicate_scenery_log"@,
                x,
            ) ==> exists|j: int|
                first_duplicate_line(ls, j) && j < n && crate::rules::analyze::all_line_findings(
                    ls,
                    n,
                    macos,
                    loc,
                )[x].evidence == crate::rules::evidence::evidence_text(j as nat, ls[j]),
    decreases n,
{
    let dk = "duplicate_scenery_log"@;
    let all = crate::rules::analyze::all_line_findings(ls, n, macos, loc);
    if n == 0 {
        assert(all.len() == 0);
    } else {
        let m = (n - 1) as nat;
        lemma_first_duplicate_in_lines(ls, m, macos, loc);
        law_duplicate_scenery_line_rule(m, ls, macos, loc);
        let prev = crate::rules::analyze::all_line_findings(ls, m, macos, loc);
        let lf = crate::rules::analyze::line_findings(m, ls, macos, loc);
        assert(all == prev + lf);
        assert forall|x: int| 0 <= x < all.len() && (#[trigger] all[x]).kind == dk implies all[x].severity
            == Severity::Medium by {
            crate::rules::kinds::lemma_in2(prev, lf, x);
        }
        assert forall|x: int| #[trigger] first_of_kind(all, dk, x) implies exists|j: int|
            first_duplicate_line(ls, j) && j < n && all[x].evidence
                == crate::rules::evidence::evidence_text(j as nat, ls[j]) by {
            crate::rules::kinds::lemma_in2(prev, lf, x);
            if x < prev.len() {
                assert forall|y: int| 0 <= y < x implies (#[trigger] prev[y]).kind != dk by {
                    assert(all[y] == prev[y]);
                }
                assert(first_of_kind(prev, dk, x));
                let j = choose|j: int|
                    first_duplicate_line(ls, j) && j < m && prev[x].evidence
                        == crate::rules::evidence::evidence_text(j as nat, ls[j]);
                assert(first_duplicate_line(ls, j) && j < n);
            } else {
                let x2 = x - prev.len();
                assert(lf[x2] == all[x]);
                assert(crate::rules::merge::has_kind(lf, dk));
                assert(!crate::rules::merge::has_kind(prev, dk)) by {
                    if crate::rules::merge::has_kind(prev, dk) {
                        let y = choose|y: int| 0 <= y < prev.len() && prev[y].kind == dk;
                        assert(all[y] == prev[y]);
                    }
                }
                lemma_all_line_has_kind(ls, m, macos, loc, dk);
                assert forall|q: int| 0 <= q < m implies !duplicate_scenery_line(#[trigger] ls[q]) by {
                    law_duplicate_scenery_line_rule(q as nat, ls, macos, loc);
                    if duplicate_scenery_line(ls[q]) {
                        assert(crate::rules::merge::has_kind(
                            crate::rules::analyze::line_findings(q as nat, ls, macos, loc),
                            dk,
                        ));
                    }
                }
                assert(first_duplicate_line(ls, m as int));
            }
        }
    }
}

/// The duplicate finding of a log's analysis has as its evidence the first
/// line that mentions a duplicate runway, airport or scenery package.
#[verifier::spinoff_prover]
#[verifier::rlimit(100)]
pub proof fn law_duplicate_scenery_evidence(text: Seq<char>, loc: crate::i18n::Locale)
    ensures
        forall|i: int|
            0 <= i < crate::rules::analyze::log_findings(text, loc).len() && (#[trigger] crate::rules::analyze::log_findings(
                text,
                loc,
            )[i]).kind == "duplicate_scenery_log"@ ==> exists|j: int|
                first_duplicate_line(crate::text::lines(text), j)
                    && crate::rules::analyze::log_findings(text, loc)[i].evidence
                    == crate::rules::evidence::evidence_text(j as nat, crate::text::lines(text)[j]),
{
    let ls = crate::text::lines(text);
    let raw = raw_findings(ls, loc);
    let d = dedupe(raw);
    let r = crate::rules::analyze::log_findings(text, loc);
    let dk = "duplicate_scenery_log"@;
    let macos = crate::rules::analyze::is_macos_log(ls);
    let sub = crate::rules::subsystem::subsystem_findings(ls, loc);
    let lf = crate::rules::analyze::all_line_findings(ls, ls.len(), macos, loc);
    let tail = raw_tail(ls, loc);
    lemma_tail_apart(ls, loc);
    assert(raw == sub + lf + tail);
    lemma_table_kinds(ls, ls.len(), loc);
    let t = crate::rules::subsystem::channel_table(ls, ls.len(), loc);
    assert forall|q: int| 0 <= q < sub.len() implies (#[trigger] sub[q]).kind == "xplane_subsystem_errors"@ by {
        assert(sub[q] == t[q].1);
    }
    lemma_duplicate_kind_apart(dk);
    crate::rules::kinds::lemma_kinds_differ(dk);
    lemma_raw_kinds(ls, loc);
    assert forall|a: int, b: int|
        0 <= a < raw.len() && 0 <= b < raw.len() && dedupe_key(#[trigger] raw[a]) == dedupe_key(
            #[trigger] raw[b],
        ) implies raw[a].kind == raw[b].kind by {
        lemma_key_kinds(raw[a], raw[b]);
    }
    assert(keys_name_kinds(raw));
    law_dedupe_merges_each_key(raw);
    law_suppress_only_demotes_channel_findings(d);
    lemma_first_duplicate_in_lines(ls, ls.len(), macos, loc);
    lemma_group_first(raw, dk);
    let f1 = sub + lf;
    // Where a finding of the merged kind stands before merging: among the line findings.
    assert forall|a: int| 0 <= a < raw.len() && (#[trigger] raw[a]).kind == dk implies sub.len() <= a
        < sub.len() + lf.len() && raw[a] == lf[a - sub.len()] by {
        crate::rules::kinds::lemma_in2(f1, tail, a);
        if a < f1.len() {
            crate::rules::kinds::lemma_in2(sub, lf, a);
        }
    }
    assert forall|i: int| 0 <= i < r.len() && (#[trigger] r[i]).kind == dk implies exists|j: int|
        first_duplicate_line(ls, j) && r[i].evidence == crate::rules::evidence::evidence_text(
            j as nat,
            ls[j],
        ) by {
        assert(d[i].kind == dk && r[i].evidence == d[i].evidence);
        lemma_duplicate_key(d[i]);
        let g = group(raw, dk);
        assert(g.len() > 0);
        let a = choose|a: int|
            0 <= a < raw.len() && dedupe_key(raw[a]) == dk && g[0] == raw[a] && forall|b: int|
                0 <= b < a ==> dedupe_key(#[trigger] raw[b]) != dk;
        lemma_duplicate_key(raw[a]);
        let x = a - sub.len();
        assert forall|y: int| 0 <= y < x implies (#[trigger] lf[y]).kind != dk by {
            assert(raw[sub.len() + y] == lf[y]);
            lemma_duplicate_key(lf[y]);
        }
        assert(first_of_kind(lf, dk, x));
        assert forall|mm: int| 0 <= mm < g.len() implies (#[trigger] g[mm]).severity == Severity::Medium by {
            let b = choose|b: int| 0 <= b < raw.len() && #[trigger] g[mm] == raw[b] && dedupe_key(raw[b]) == dk;
            lemma_duplicate_key(raw[b]);
            assert(lf[b - sub.len()].kind == dk);
        }
        let u = first_most_urgent(g);
        if u > 0 {
            assert(g[0].severity == Severity::Medium);
            assert(g[u].severity == Severity::Medium);
            assert(false);
        }
        assert(same_texts(d[i], g[0]));
    }
}

} // verus!
