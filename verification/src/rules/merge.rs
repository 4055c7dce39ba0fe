//! Merging findings of one kind, and keeping broad channel findings from
//! outranking the specific findings that explain them.
use vstd::prelude::*;

use crate::model::{rank_of, severity_rank, strs_of, Confidence, Finding, FindingView, Severity};
use crate::rules::evidence::{push_extra_evidence, slice_eq, with_extra};
use crate::text::{
    chars_of, contains, contains_str, equals_str, find, find_str, lemma_find_from, lower,
    lower_of, matches_at, push_chars, push_str, starts_with, starts_with_str, string_from,
};

verus! {

/// Findings merge when their keys are equal: the kind, and for channel and
/// third-party plugin findings also the title.
pub open spec fn dedupe_key(f: FindingView) -> Seq<char> {
    if f.kind == "xplane_subsystem_errors"@ || f.kind == "third_party_plugin_error"@ {
        f.kind + seq![':'] + f.title
    } else {
        f.kind
    }
}

/// Adds each evidence line of `xs` in turn.
pub open spec fn with_extras(e: FindingView, xs: Seq<Seq<char>>) -> FindingView
    decreases xs.len(),
{
    if xs.len() == 0 {
        e
    } else {
        with_extras(with_extra(e, xs[0]), xs.drop_first())
    }
}

/// Merges `f` into `e`: the more urgent of the two leads, and both count.
pub open spec fn merge(e: FindingView, f: FindingView) -> FindingView {
    let e1 = if severity_rank(f.severity) < severity_rank(e.severity) {
        with_extra(
            FindingView {
                evidence: f.evidence,
                severity: f.severity,
                confidence: f.confidence,
                title: f.title,
                explanation: f.explanation,
                suggestion: f.suggestion,
                ..e
            },
            e.evidence,
        )
    } else {
        with_extra(e, f.evidence)
    };
    with_extras(FindingView { occurrences: e1.occurrences + f.occurrences, ..e1 }, f.extra_evidence)
}

pub open spec fn key_pos(keys: Seq<Seq<char>>, k: Seq<char>, i: int) -> Option<int>
    decreases keys.len() - i,
{
    if i < 0 || i >= keys.len() {
        None
    } else if keys[i] == k {
        Some(i)
    } else {
        key_pos(keys, k, i + 1)
    }
}

/// Keys and merged findings after the first `n` findings.
pub open spec fn dedupe_state(fs: Seq<FindingView>, n: nat) -> (Seq<Seq<char>>, Seq<FindingView>)
    decreases n,
{
    if n == 0 || n > fs.len() {
        (seq![], seq![])
    } else {
        let prev = dedupe_state(fs, (n - 1) as nat);
        let f = fs[n - 1];
        let k = dedupe_key(f);
        match key_pos(prev.0, k, 0) {
            Some(j) => (prev.0, prev.1.update(j, merge(prev.1[j], f))),
            None => (prev.0.push(k), prev.1.push(f)),
        }
    }
}

/// One finding per key, in order of first appearance (`dedupe_findings`).
pub open spec fn dedupe(fs: Seq<FindingView>) -> Seq<FindingView> {
    dedupe_state(fs, fs.len()).1
}

/// Total occurrences.
pub open spec fn total_occ(fs: Seq<FindingView>) -> nat
    decreases fs.len(),
{
    if fs.len() == 0 {
        0
    } else {
        total_occ(fs.drop_last()) + fs.last().occurrences
    }
}

pub proof fn lemma_merge_occ(e: FindingView, f: FindingView)
    ensures
        merge(e, f).occurrences == e.occurrences + f.occurrences,
{
    let e1 = if severity_rank(f.severity) < severity_rank(e.severity) {
        with_extra(
            FindingView {
                evidence: f.evidence,
                severity: f.severity,
                confidence: f.confidence,
                title: f.title,
                explanation: f.explanation,
                suggestion: f.suggestion,
                ..e
            },
            e.evidence,
        )
    } else {
        with_extra(e, f.evidence)
    };
    lemma_with_extras_occ(FindingView { occurrences: e1.occurrences + f.occurrences, ..e1 }, f.extra_evidence);
}

pub proof fn lemma_with_extras_occ(e: FindingView, xs: Seq<Seq<char>>)
    ensures
        with_extras(e, xs).occurrences == e.occurrences,
    decreases xs.len(),
{
    if xs.len() > 0 {
        lemma_with_extras_occ(with_extra(e, xs[0]), xs.drop_first());
    }
}

proof fn lemma_total_occ_push(fs: Seq<FindingView>, x: FindingView)
    ensures
        total_occ(fs.push(x)) == total_occ(fs) + x.occurrences,
{
    assert(fs.push(x).drop_last() =~= fs);
}

proof fn lemma_total_occ_update(fs: Seq<FindingView>, j: int, x: FindingView)
    requires
        0 <= j < fs.len(),
    ensures
        total_occ(fs.update(j, x)) + fs[j].occurrences == total_occ(fs) + x.occurrences,
        fs[j].occurrences <= total_occ(fs),
    decreases fs.len(),
{
    if j == fs.len() - 1 {
        assert(fs.update(j, x).drop_last() =~= fs.drop_last());
    } else {
        lemma_total_occ_update(fs.drop_last(), j, x);
        assert(fs.update(j, x).drop_last() =~= fs.drop_last().update(j, x));
    }
}

pub proof fn lemma_total_occ_take(fs: Seq<FindingView>, n: int)
    requires
        0 <= n < fs.len(),
    ensures
        total_occ(fs.take(n + 1)) == total_occ(fs.take(n)) + fs[n].occurrences,
{
    assert(fs.take(n + 1).drop_last() =~= fs.take(n));
}

pub proof fn lemma_total_occ_take_le(fs: Seq<FindingView>, n: int)
    requires
        0 <= n <= fs.len(),
    ensures
        total_occ(fs.take(n)) <= total_occ(fs),
    decreases fs.len() - n,
{
    if n < fs.len() {
        lemma_total_occ_take_le(fs, n + 1);
        lemma_total_occ_take(fs, n);
    } else {
        assert(fs.take(n) =~= fs);
    }
}

pub fn dedupe_key_exec(f: &Finding) -> (r: Vec<char>)
    ensures
        r@ == dedupe_key(f@),
{
    let kind = chars_of(f.kind.as_str());
    if equals_str(&kind, "xplane_subsystem_errors") || equals_str(&kind, "third_party_plugin_error") {
        let mut k = kind;
        k.push(':');
        k.extend_from_slice(&chars_of(f.title.as_str()));
        k
    } else {
        kind
    }
}

fn merge_into(e: &mut Finding, f: Finding)
    requires
        old(e).occurrences + f.occurrences <= usize::MAX,
    ensures
        final(e)@ == merge(old(e)@, f@),
{
    let ghost fv = f@;
    let Finding {
        severity,
        confidence,
        kind: _,
        title,
        evidence,
        occurrences,
        extra_evidence,
        explanation,
        suggestion,
    } = f;
    if rank_of(severity) < rank_of(e.severity) {
        let mut previous = evidence;
        std::mem::swap(&mut e.evidence, &mut previous);
        e.severity = severity;
        e.confidence = confidence;
        e.title = title;
        e.explanation = explanation;
        e.suggestion = suggestion;
        push_extra_evidence(e, previous);
    } else {
        push_extra_evidence(e, evidence);
    }
    e.occurrences = e.occurrences + occurrences;
    let ghost start = e@;
    let mut i: usize = 0;
    assert(fv.extra_evidence.skip(0) =~= fv.extra_evidence);
    assert(strs_of(extra_evidence@) == fv.extra_evidence);
    while i < extra_evidence.len()
        invariant
            i <= extra_evidence.len(),
            strs_of(extra_evidence@) == fv.extra_evidence,
            with_extras(start, fv.extra_evidence) == with_extras(e@, fv.extra_evidence.skip(i as int)),
        decreases extra_evidence.len() - i,
    {
        let ghost before = e@;
        let x = extra_evidence[i].clone();
        assert(x@ == fv.extra_evidence[i as int]);
        push_extra_evidence(e, x);
        assert(fv.extra_evidence.skip(i as int).drop_first() =~= fv.extra_evidence.skip(i + 1));
        i = i + 1;
    }
    assert(fv.extra_evidence.skip(i as int) =~= seq![]);
}

/// Merges findings of one key into the first of them (`dedupe_findings`).
pub fn dedupe_findings(findings: Vec<Finding>) -> (r: Vec<Finding>)
    requires
        total_occ(findings@.map_values(|f: Finding| f@)) <= usize::MAX,
    ensures
        r@.map_values(|f: Finding| f@) == dedupe(findings@.map_values(|f: Finding| f@)),
{
    let ghost fs = findings@.map_values(|f: Finding| f@);
    let mut keys: Vec<Vec<char>> = Vec::new();
    let mut out: Vec<Finding> = Vec::new();
    let mut n: usize = 0;
    let ghost total = total_occ(fs);
    for f in it: findings
        invariant
            fs == it.seq().map_values(|f: Finding| f@),
            total == total_occ(fs),
            total <= usize::MAX,
            crate::text::seqs_of(keys@) == dedupe_state(fs, it.index() as nat).0,
            out@.map_values(|f: Finding| f@) == dedupe_state(fs, it.index() as nat).1,
            total_occ(out@.map_values(|f: Finding| f@)) == total_occ(fs.take(it.index() as int)),
            keys.len() == out.len(),
    {
        let ghost idx = it.index() as int;
        let ghost prev_out = out@.map_values(|f: Finding| f@);
        assert(f@ == fs[idx]);
        let k = dedupe_key_exec(&f);
        let mut j: usize = 0;
        while j < keys.len() && !slice_eq(&keys[j], &k)
            invariant
                j <= keys.len(),
                key_pos(crate::text::seqs_of(keys@), k@, 0) == key_pos(crate::text::seqs_of(keys@), k@, j as int),
            decreases keys.len() - j,
        {
            j = j + 1;
        }
        proof {
            lemma_total_occ_take(fs, idx);
            lemma_total_occ_take_le(fs, idx + 1);
        }
        if j < keys.len() {
            proof {
                lemma_total_occ_update(prev_out, j as int, merge(prev_out[j as int], f@));
                lemma_merge_occ(prev_out[j as int], f@);
            }
            let mut e = out.remove(j);
            assert(e@ == prev_out[j as int]);
            merge_into(&mut e, f);
            out.insert(j, e);
            assert(out@.map_values(|f: Finding| f@) =~= prev_out.update(j as int, merge(prev_out[j as int], fs[idx])));
        } else {
            let ghost kv = k@;
            let ghost prev_keys = crate::text::seqs_of(keys@);
            keys.push(k);
            assert(crate::text::seqs_of(keys@) =~= prev_keys.push(kv));
            out.push(f);
            assert(out@.map_values(|f: Finding| f@) =~= prev_out.push(fs[idx]));
            proof {
                lemma_total_occ_push(prev_out, fs[idx]);
            }
        }
    }
    out
}

} // verus!

verus! {

/// Some finding has this kind.
pub open spec fn has_kind(fs: Seq<FindingView>, k: Seq<char>) -> bool {
    exists|i: int| 0 <= i < fs.len() && fs[i].kind == k
}

/// The channel named in a channel finding's title `X-Plane subsystem <ch> messages`.
pub open spec fn title_channel(title: Seq<char>) -> Option<Seq<char>> {
    match find(title, "subsystem "@) {
        None => None,
        Some(s) => {
            let rest = title.skip(s + 10);
            match find(rest, " messages"@) {
                None => None,
                Some(e) => Some(rest.take(e)),
            }
        },
    }
}

pub open spec fn mentions_aircraft(s: Seq<char>) -> bool {
    let l = lower(s);
    contains(l, "failed to open"@) || contains(l, ".acf"@) || contains(l, "aircraft/"@) || contains(
        l,
        "unknown aircraft"@,
    )
}

/// The finding's evidence names an aircraft file.
pub open spec fn evidence_mentions_aircraft(f: FindingView) -> bool {
    mentions_aircraft(f.evidence) || exists|i: int|
        0 <= i < f.extra_evidence.len() && mentions_aircraft(f.extra_evidence[i])
}

/// Which specific findings are present: aircraft, scenery, GPU, plugin.
pub struct Specifics {
    pub aircraft: bool,
    pub scenery: bool,
    pub gpu: bool,
    pub plugin: bool,
}

pub open spec fn specifics(fs: Seq<FindingView>) -> Specifics {
    Specifics {
        aircraft: has_kind(fs, "aircraft_open_failure"@),
        scenery: has_kind(fs, "missing_scenery_object"@) || has_kind(fs, "missing_scenery_asset"@)
            || has_kind(fs, "missing_scenery_library"@),
        gpu: has_kind(fs, "vulkan_device_lost"@) || has_kind(fs, "vulkan_result_error"@) || has_kind(
            fs,
            "graphics_vulkan_error"@,
        ),
        plugin: has_kind(fs, "plugin_load_failed"@) || has_kind(fs, "plugin_encountered_error"@),
    }
}

/// A channel finding that a specific finding already explains.
pub open spec fn explained(f: FindingView, s: Specifics) -> bool {
    match title_channel(f.title) {
        None => false,
        Some(ch) => if ch == "E/SYS"@ || ch == "W/SYS"@ || ch == "E/ACF"@ || ch == "W/ACF"@ {
            s.aircraft && evidence_mentions_aircraft(f)
        } else if ch == "E/SCN"@ || ch == "W/SCN"@ || ch == "E/OBJ"@ {
            s.scenery
        } else if starts_with(ch, "E/GFX"@) {
            s.gpu
        } else if ch == "E/PLG"@ || ch == "W/PLG"@ {
            s.plugin
        } else {
            false
        },
    }
}

pub open spec fn suppress_one(f: FindingView, s: Specifics) -> FindingView {
    if f.kind == "xplane_subsystem_errors"@ && explained(f, s) {
        FindingView { severity: Severity::Info, confidence: Confidence::Low, ..f }
    } else {
        f
    }
}

/// Channel findings that specific findings explain drop to background
/// (`suppress_generic_findings`).
pub open spec fn suppress(fs: Seq<FindingView>) -> Seq<FindingView> {
    fs.map_values(|f: FindingView| suppress_one(f, specifics(fs)))
}

fn has_kind_exec(findings: &Vec<Finding>, k: &str) -> (r: bool)
    ensures
        r == has_kind(findings@.map_values(|f: Finding| f@), k@),
{
    let ghost fs = findings@.map_values(|f: Finding| f@);
    let mut i: usize = 0;
    while i < findings.len()
        invariant
            i <= findings.len(),
            fs == findings@.map_values(|f: Finding| f@),
            forall|j: int| 0 <= j < i ==> fs[j].kind != k@,
        decreases findings.len() - i,
    {
        if equals_str(&chars_of(findings[i].kind.as_str()), k) {
            assert(fs[i as int].kind == k@);
            return true;
        }
        assert(fs[i as int] == findings@[i as int]@);
        i = i + 1;
    }
    false
}

fn title_channel_exec(title: &[char]) -> (r: Option<&[char]>)
    ensures
        match r {
            Some(c) => title_channel(title@) == Some(c@),
            None => title_channel(title@) is None,
        },
{
    let s = match find_str(title, "subsystem ") {
        None => return None,
        Some(s) => s,
    };
    proof {
        lemma_find_from(title@, "subsystem "@, 0);
        reveal_strlit("subsystem ");
    }
    assert(matches_at(title@, "subsystem "@, s as int));
    let n = title.len();
    let rest = &title[s + 10..n];
    assert(rest@ =~= title@.skip(s + 10));
    match find_str(rest, " messages") {
        None => None,
        Some(e) => {
            proof {
                lemma_find_from(rest@, " messages"@, 0);
            }
            let c = &rest[0..e];
            assert(c@ =~= rest@.take(e as int));
            Some(c)
        },
    }
}

fn mentions_aircraft_exec(s: &[char]) -> (r: bool)
    ensures
        r == mentions_aircraft(s@),
{
    let l = lower_of(s);
    contains_str(&l, "failed to open") || contains_str(&l, ".acf") || contains_str(&l, "aircraft/")
        || contains_str(&l, "unknown aircraft")
}

fn evidence_mentions_aircraft_exec(f: &Finding) -> (r: bool)
    ensures
        r == evidence_mentions_aircraft(f@),
{
    if mentions_aircraft_exec(&chars_of(f.evidence.as_str())) {
        return true;
    }
    let mut i: usize = 0;
    while i < f.extra_evidence.len()
        invariant
            i <= f.extra_evidence.len(),
            forall|j: int| 0 <= j < i ==> !mentions_aircraft(f@.extra_evidence[j]),
        decreases f.extra_evidence.len() - i,
    {
        if mentions_aircraft_exec(&chars_of(f.extra_evidence[i].as_str())) {
            assert(f@.extra_evidence[i as int] == f.extra_evidence@[i as int]@);
            return true;
        }
        assert(f@.extra_evidence[i as int] == f.extra_evidence@[i as int]@);
        i = i + 1;
    }
    false
}

fn explained_exec(f: &Finding, air: bool, scn: bool, gpu: bool, plg: bool) -> (r: bool)
    ensures
        r == explained(f@, Specifics { aircraft: air, scenery: scn, gpu, plugin: plg }),
{
    let title = chars_of(f.title.as_str());
    match title_channel_exec(&title) {
        None => false,
        Some(ch) => {
            if equals_str(ch, "E/SYS") || equals_str(ch, "W/SYS") || equals_str(ch, "E/ACF")
                || equals_str(ch, "W/ACF") {
                air && evidence_mentions_aircraft_exec(f)
            } else if equals_str(ch, "E/SCN") || equals_str(ch, "W/SCN") || equals_str(ch, "E/OBJ") {
                scn
            } else if starts_with_str(ch, "E/GFX") {
                gpu
            } else if equals_str(ch, "E/PLG") || equals_str(ch, "W/PLG") {
                plg
            } else {
                false
            }
        },
    }
}

pub fn suppress_generic_findings(findings: &mut Vec<Finding>)
    ensures
        final(findings)@.map_values(|f: Finding| f@) == suppress(
            old(findings)@.map_values(|f: Finding| f@),
        ),
{
    let ghost fs = findings@.map_values(|f: Finding| f@);
    let air = has_kind_exec(findings, "aircraft_open_failure");
    let scn = has_kind_exec(findings, "missing_scenery_object") || has_kind_exec(
        findings,
        "missing_scenery_asset",
    ) || has_kind_exec(findings, "missing_scenery_library");
    let gpu = has_kind_exec(findings, "vulkan_device_lost") || has_kind_exec(
        findings,
        "vulkan_result_error",
    ) || has_kind_exec(findings, "graphics_vulkan_error");
    let plg = has_kind_exec(findings, "plugin_load_failed") || has_kind_exec(
        findings,
        "plugin_encountered_error",
    );
    let ghost sp = Specifics { aircraft: air, scenery: scn, gpu, plugin: plg };
    assert(sp == specifics(fs));
    let mut i: usize = 0;
    while i < findings.len()
        invariant
            i <= findings.len() == fs.len(),
            sp == specifics(fs),
            sp == (Specifics { aircraft: air, scenery: scn, gpu, plugin: plg }),
            forall|j: int|
                0 <= j < i ==> findings@[j]@ == suppress_one(fs[j], sp),
            forall|j: int| i <= j < findings.len() ==> findings@[j]@ == fs[j],
        decreases findings.len() - i,
    {
        let mut f = findings.remove(i);
        assert(f@ == fs[i as int]);
        let is_channel = equals_str(&chars_of(f.kind.as_str()), "xplane_subsystem_errors");
        if is_channel && explained_exec(&f, air, scn, gpu, plg) {
            f.severity = Severity::Info;
            f.confidence = Confidence::Low;
        }
        findings.insert(i, f);
        i = i + 1;
    }
    assert(findings@.map_values(|f: Finding| f@) =~= suppress(fs));
}

} // verus!

verus! {

pub proof fn lemma_total_occ_concat(a: Seq<FindingView>, b: Seq<FindingView>)
    ensures
        total_occ(a + b) == total_occ(a) + total_occ(b),
    decreases b.len(),
{
    if b.len() == 0 {
        assert(a + b =~= a);
    } else {
        lemma_total_occ_concat(a, b.drop_last());
        assert((a + b).drop_last() =~= a + b.drop_last());
    }
}

pub proof fn lemma_total_occ_insert(s: Seq<FindingView>, p: int, x: FindingView)
    requires
        0 <= p <= s.len(),
    ensures
        total_occ(s.insert(p, x)) == total_occ(s) + x.occurrences,
{
    assert(s.insert(p, x) =~= s.take(p) + (seq![x] + s.skip(p)));
    assert(s =~= s.take(p) + s.skip(p));
    lemma_total_occ_concat(s.take(p), seq![x] + s.skip(p));
    lemma_total_occ_concat(seq![x], s.skip(p));
    lemma_total_occ_concat(s.take(p), s.skip(p));
    assert(seq![x].drop_last() =~= Seq::<FindingView>::empty());
    assert(total_occ(Seq::<FindingView>::empty()) == 0);
    assert(total_occ(seq![x]) == x.occurrences);
}

pub proof fn lemma_total_occ_update_eq(fs: Seq<FindingView>, j: int, x: FindingView)
    requires
        0 <= j < fs.len(),
    ensures
        total_occ(fs.update(j, x)) + fs[j].occurrences == total_occ(fs) + x.occurrences,
{
    lemma_total_occ_update(fs, j, x);
}

} // verus!
