//! Evidence lines: where in `Log.txt` a finding was seen.
use vstd::prelude::*;

use crate::model::{strs_of, Finding, FindingView};
use crate::text::{
    chars_of, decimal, decimal_of, push_chars, push_str, string_from, string_of, trim, trim_slice,
};

verus! {

/// Evidence lines longer than this many characters are cut.
pub const MAX_EVIDENCE_CHARS: usize = 320;

/// A finding keeps at most this many evidence lines besides its first.
pub const MAX_EXTRA_EVIDENCE: usize = 4;

/// A line cut to its first `MAX_EVIDENCE_CHARS` characters, marked when cut.
pub open spec fn truncated(s: Seq<char>) -> Seq<char> {
    if s.len() > MAX_EVIDENCE_CHARS {
        s.take(MAX_EVIDENCE_CHARS as int) + " ...[truncated]"@
    } else {
        s
    }
}

/// `Log.txt:<line number>: <trimmed, truncated line>`, for the line at index `idx`.
pub open spec fn evidence_text(idx: nat, line: Seq<char>) -> Seq<char> {
    "Log.txt:"@ + decimal(idx + 1) + ": "@ + truncated(trim(line))
}

/// Evidence that points into `Log.txt`.
pub open spec fn log_evidence(e: Seq<char>) -> bool {
    crate::text::starts_with(e, "Log.txt:"@)
}

/// Every evidence line starts with `Log.txt:`.
pub broadcast proof fn lemma_evidence_text_in_log(idx: nat, line: Seq<char>)
    ensures
        log_evidence(#[trigger] evidence_text(idx, line)),
{
    reveal_strlit("Log.txt:");
    let e = evidence_text(idx, line);
    assert(e.take(8) =~= "Log.txt:"@);
}

pub fn truncate_evidence(line: &[char]) -> (r: String)
    ensures
        r@ == truncated(line@),
{
    if line.len() > MAX_EVIDENCE_CHARS {
        let mut r = string_of(&line[0..MAX_EVIDENCE_CHARS]);
        push_str(&mut r, " ...[truncated]");
        assert(line@.subrange(0, MAX_EVIDENCE_CHARS as int) =~= line@.take(MAX_EVIDENCE_CHARS as int));
        r
    } else {
        string_of(line)
    }
}

/// The evidence text for the line at index `idx`.
pub fn evidence_line(idx: usize, line: &[char]) -> (r: String)
    requires
        idx < usize::MAX,
    ensures
        r@ == evidence_text(idx as nat, line@),
{
    let mut r = string_from("Log.txt:");
    let num = decimal_of((idx + 1) as u64);
    push_chars(&mut r, &num);
    push_str(&mut r, ": ");
    let t = trim_slice(line);
    let cut = truncate_evidence(t);
    push_chars(&mut r, &chars_of(cut.as_str()));
    r
}

/// Adds an evidence line unless the finding already has its share, or the
/// line is the finding's first evidence.
pub open spec fn with_extra(f: FindingView, e: Seq<char>) -> FindingView {
    if f.extra_evidence.len() < MAX_EXTRA_EVIDENCE && e != f.evidence {
        FindingView { extra_evidence: f.extra_evidence.push(e), ..f }
    } else {
        f
    }
}

pub fn push_extra_evidence(f: &mut Finding, e: String)
    ensures
        final(f)@ == with_extra(old(f)@, e@),
{
    if f.extra_evidence.len() < MAX_EXTRA_EVIDENCE && !str_eq(&e, &f.evidence) {
        let ghost before = f.extra_evidence@;
        f.extra_evidence.push(e);
        assert(strs_of(f.extra_evidence@) =~= strs_of(before).push(e@));
    }
}

/// String equality.
pub fn str_eq(a: &String, b: &String) -> (r: bool)
    ensures
        r == (a@ == b@),
{
    let av = chars_of(a.as_str());
    let bv = chars_of(b.as_str());
    slice_eq(&av, &bv)
}

pub fn slice_eq(a: &[char], b: &[char]) -> (r: bool)
    ensures
        r == (a@ == b@),
{
    if a.len() != b.len() {
        return false;
    }
    let mut i: usize = 0;
    while i < a.len()
        invariant
            a.len() == b.len(),
            i <= a.len(),
            forall|j: int| 0 <= j < i ==> a@[j] == b@[j],
        decreases a.len() - i,
    {
        if a[i] != b[i] {
            return false;
        }
        i = i + 1;
    }
    assert(a@ =~= b@);
    true
}

} // verus!
