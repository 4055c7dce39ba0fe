//! The whole analysis of one `Log.txt`.
use vstd::prelude::*;

use crate::i18n::Locale;
use crate::model::{new_finding, views, Finding, FindingView};
use crate::rules::assets::{
    check_aircraft_open_failure, check_application_crash, check_missing_scenery_asset,
    check_missing_scenery_object, spec_aircraft_open_failure, spec_application_crash,
    spec_missing_scenery_asset, spec_missing_scenery_object,
};
use crate::rules::context::{
    abrupt_termination_finding, crash_index, early_silent_crash_finding, first_crash_index,
    last_loaded_context_finding, pre_crash_context_finding, scenery_load_crash_context_finding,
    spec_abrupt_termination, spec_early_silent_crash, spec_last_loaded_context,
    spec_pre_crash_context, spec_scenery_load_crash_context,
};
use crate::rules::keywords::{
    check_duplicate_scenery, check_flywithlua_error, check_graphics_api_error,
    check_macos_security_block, check_memory_vram, check_missing_global_scenery_tile,
    check_missing_scenery_library, check_plugin_load_failed, check_vulkan_device_lost, opt_view,
    spec_duplicate_scenery, spec_flywithlua_error, spec_graphics_api_error,
    spec_macos_security_block, spec_memory_vram, spec_missing_global_scenery_tile,
    spec_missing_scenery_library, spec_plugin_load_failed, spec_vulkan_device_lost,
};
use crate::rules::evidence::MAX_EXTRA_EVIDENCE;
use crate::rules::merge::{
    dedupe, dedupe_findings, lemma_total_occ_concat, suppress, suppress_generic_findings,
    total_occ,
};
use crate::rules::plugins::{
    check_plugin_encountered_error, check_third_party_plugin_error, check_threading_violation,
    check_xplm_bypass, spec_plugin_encountered_error, spec_third_party_plugin_error,
    spec_threading_violation, spec_xplm_bypass,
};
use crate::rules::subsystem::{
    detect_xplane_subsystem_errors, lemma_subsystem_occ, subsystem_findings,
};
use crate::rules::vram::{check_texture_vram_pressure, spec_texture_vram_pressure};
use crate::rules::vulkan::{
    check_vulkan_result_error, extract_vulkan_result_code, spec_vulkan_result_error, vk_code_in,
};
use crate::rules::assets::{lemma_missing_scenery_asset_once, lemma_missing_scenery_object_once, lemma_aircraft_open_failure_once, lemma_application_crash_once};
use crate::rules::context::{lemma_scenery_load_crash_context_once, lemma_last_loaded_context_once, lemma_pre_crash_context_once, lemma_early_silent_crash_once, lemma_abrupt_termination_once};
use crate::rules::keywords::{lemma_plugin_load_failed_once, lemma_graphics_api_error_once, lemma_memory_vram_once, lemma_missing_scenery_library_once, lemma_missing_global_scenery_tile_once, lemma_vulkan_device_lost_once, lemma_flywithlua_error_once, lemma_macos_security_block_once, lemma_duplicate_scenery_once};
use crate::rules::plugins::{lemma_third_party_plugin_error_once, lemma_plugin_encountered_error_once, lemma_xplm_bypass_once, lemma_threading_violation_once};
use crate::rules::vram::{lemma_texture_vram_pressure_once};
use crate::rules::vulkan::{lemma_vulkan_result_error_once};
use crate::text::{
    chars_of, contains, contains_str, lemma_lines_len, lines, lines_of, lower, lower_of, seqs_of,
    starts_with, starts_with_str,
};

verus! {

/// The longest log text, in characters, that the analysis takes.
pub open spec fn max_log_chars() -> nat {
    (usize::MAX / 32) as nat
}

pub open spec fn opt_seq(o: Option<FindingView>) -> Seq<FindingView> {
    match o {
        Some(f) => seq![f],
        None => seq![],
    }
}

/// A lower-cased line that says the system is macOS.
pub open spec fn is_macos_line(lower: Seq<char>) -> bool {
    (starts_with(lower, "os:"@) && (contains(lower, "macos"@) || contains(lower, "mac os"@)))
        || starts_with(lower, "macos"@) || starts_with(lower, "darwin"@)
}

/// One of the first 250 lines says the system is macOS.
pub open spec fn is_macos_log(ls: Seq<Seq<char>>) -> bool {
    exists|i: int| 0 <= i < ls.len() && i < 250 && is_macos_line(lower(ls[i]))
}

/// Some line names `VK_ERROR_DEVICE_LOST` (in any ASCII case).
pub open spec fn has_gpu_crash_signal(ls: Seq<Seq<char>>) -> bool {
    exists|i: int| 0 <= i < ls.len() && contains(lower(ls[i]), "vk_error_device_lost"@)
}

/// Rules on a line, first part: load failures, Vulkan, memory.
pub open spec fn part1(idx: nat, line: Seq<char>, lower: Seq<char>, loc: Locale) -> Seq<FindingView> {
    opt_seq(spec_plugin_load_failed(idx, line, lower, loc)) + match vk_code_in(line) {
        Some(c) => seq![spec_vulkan_result_error(idx, line, c, loc)],
        None => opt_seq(spec_graphics_api_error(idx, line, lower, loc)),
    } + opt_seq(spec_memory_vram(idx, line, lower, loc)) + opt_seq(
        spec_texture_vram_pressure(idx, line, lower, loc),
    )
}

/// Rules on a line, second part: scenery, and device loss without a code.
pub open spec fn part2(idx: nat, line: Seq<char>, lower: Seq<char>, loc: Locale) -> Seq<FindingView> {
    opt_seq(spec_missing_scenery_asset(idx, line, lower, loc)) + opt_seq(
        spec_missing_scenery_object(idx, line, lower, loc),
    ) + opt_seq(spec_missing_scenery_library(idx, line, lower, loc)) + opt_seq(
        spec_missing_global_scenery_tile(idx, line, lower, loc),
    ) + (if vk_code_in(line) is None {
        opt_seq(spec_vulkan_device_lost(idx, line, lower, loc))
    } else {
        seq![]
    })
}

/// Rules on a line, third part: plugins.
pub open spec fn part3(
    idx: nat,
    line: Seq<char>,
    lower: Seq<char>,
    ls: Seq<Seq<char>>,
    loc: Locale,
) -> Seq<FindingView> {
    opt_seq(spec_threading_violation(idx, line, lower, ls, loc)) + opt_seq(
        spec_xplm_bypass(idx, line, lower, loc),
    ) + opt_seq(spec_flywithlua_error(idx, line, lower, loc)) + opt_seq(
        spec_third_party_plugin_error(idx, line, lower, loc),
    ) + opt_seq(spec_plugin_encountered_error(idx, line, lower, loc))
}

/// Rules on a line, last part: aircraft, macOS security, crashes, duplicates.
pub open spec fn part4(
    idx: nat,
    line: Seq<char>,
    lower: Seq<char>,
    ls: Seq<Seq<char>>,
    macos: bool,
    loc: Locale,
) -> Seq<FindingView> {
    opt_seq(spec_aircraft_open_failure(idx, line, lower, ls, loc)) + (if macos {
        opt_seq(spec_macos_security_block(idx, line, lower, loc))
    } else {
        seq![]
    }) + opt_seq(spec_application_crash(idx, line, loc)) + opt_seq(
        spec_duplicate_scenery(idx, line, lower, loc),
    )
}

/// The findings of the per-line rules on the line at index `idx`, in rule order.
#[verifier::opaque]
pub open spec fn line_findings(idx: nat, ls: Seq<Seq<char>>, macos: bool, loc: Locale) -> Seq<
    FindingView,
> {
    let line = ls[idx as int];
    let lower = lower(line);
    part1(idx, line, lower, loc) + part2(idx, line, lower, loc) + part3(idx, line, lower, ls, loc)
        + part4(idx, line, lower, ls, macos, loc)
}

/// The per-line findings of the first `n` lines.
pub open spec fn all_line_findings(ls: Seq<Seq<char>>, n: nat, macos: bool, loc: Locale) -> Seq<
    FindingView,
>
    decreases n,
{
    if n == 0 || n > ls.len() {
        seq![]
    } else {
        all_line_findings(ls, (n - 1) as nat, macos, loc) + line_findings(
            (n - 1) as nat,
            ls,
            macos,
            loc,
        )
    }
}

/// All findings before merging: channel findings, per-line findings, and
/// the findings about the log as a whole.
pub open spec fn raw_findings(ls: Seq<Seq<char>>, loc: Locale) -> Seq<FindingView> {
    let f1 = subsystem_findings(ls, loc) + all_line_findings(ls, ls.len(), is_macos_log(ls), loc);
    if crash_index(ls) is Some || has_gpu_crash_signal(ls) {
        let g = f1 + opt_seq(spec_scenery_load_crash_context(ls, loc)) + opt_seq(
            spec_last_loaded_context(ls, loc),
        ) + opt_seq(spec_pre_crash_context(ls, loc));
        g + opt_seq(spec_early_silent_crash(ls, g, loc))
    } else {
        f1 + opt_seq(spec_abrupt_termination(ls, loc))
    }
}

/// The findings for a log text: merged by kind, with channel findings that
/// specific findings explain moved to the background.
pub open spec fn log_findings(text: Seq<char>, loc: Locale) -> Seq<FindingView> {
    suppress(dedupe(raw_findings(lines(text), loc)))
}

/// A finding counted once.
pub open spec fn once(o: Option<FindingView>) -> bool {
    o matches Some(f) ==> f.occurrences == 1 && f.extra_evidence.len() <= MAX_EXTRA_EVIDENCE
}

/// No finding has more than four further evidence lines.
pub open spec fn capped(fs: Seq<FindingView>) -> bool {
    forall|i: int| 0 <= i < fs.len() ==> (#[trigger] fs[i]).extra_evidence.len() <= MAX_EXTRA_EVIDENCE
}

pub proof fn lemma_capped_concat(a: Seq<FindingView>, b: Seq<FindingView>)
    ensures
        capped(a) && capped(b) ==> capped(a + b),
{
    if capped(a) && capped(b) {
        assert forall|i: int| 0 <= i < (a + b).len() implies (#[trigger] (a + b)[i]).extra_evidence.len()
            <= MAX_EXTRA_EVIDENCE by {
            if i < a.len() {
                assert((a + b)[i] == a[i]);
            } else {
                assert((a + b)[i] == b[i - a.len()]);
            }
        }
    }
}

pub proof fn lemma_opt_occ(o: Option<FindingView>)
    requires
        once(o),
    ensures
        total_occ(opt_seq(o)) <= 1,
        capped(opt_seq(o)),
{
    if o is Some {
        assert(opt_seq(o).drop_last() =~= Seq::<FindingView>::empty());
        assert(total_occ(Seq::<FindingView>::empty()) == 0);
    } else {
        assert(total_occ(Seq::<FindingView>::empty()) == 0);
    }
}

proof fn lemma_occ3(a: Seq<FindingView>, b: Seq<FindingView>, c: Seq<FindingView>)
    ensures
        total_occ(a + b + c) == total_occ(a) + total_occ(b) + total_occ(c),
        capped(a) && capped(b) && capped(c) ==> capped(a + b + c),
{
    lemma_total_occ_concat(a, b);
    lemma_total_occ_concat(a + b, c);
    lemma_capped_concat(a, b);
    lemma_capped_concat(a + b, c);
}

proof fn lemma_part1_occ(idx: nat, line: Seq<char>, lower: Seq<char>, loc: Locale)
    ensures
        total_occ(part1(idx, line, lower, loc)) <= 4,
        capped(part1(idx, line, lower, loc)),
{
    let a = opt_seq(spec_plugin_load_failed(idx, line, lower, loc));
    let b = match vk_code_in(line) {
        Some(c) => seq![spec_vulkan_result_error(idx, line, c, loc)],
        None => opt_seq(spec_graphics_api_error(idx, line, lower, loc)),
    };
    let c = opt_seq(spec_memory_vram(idx, line, lower, loc));
    let d = opt_seq(spec_texture_vram_pressure(idx, line, lower, loc));
    lemma_plugin_load_failed_once(idx, line, lower, loc);
    lemma_opt_occ(spec_plugin_load_failed(idx, line, lower, loc));
    match vk_code_in(line) {
        Some(k) => {
            lemma_vulkan_result_error_once(idx, line, k, loc);
            lemma_opt_occ(Some(spec_vulkan_result_error(idx, line, k, loc)));
        },
        None => {
            lemma_graphics_api_error_once(idx, line, lower, loc);
            lemma_opt_occ(spec_graphics_api_error(idx, line, lower, loc));
        },
    }
    lemma_memory_vram_once(idx, line, lower, loc);
    lemma_opt_occ(spec_memory_vram(idx, line, lower, loc));
    lemma_texture_vram_pressure_once(idx, line, lower, loc);
    lemma_opt_occ(spec_texture_vram_pressure(idx, line, lower, loc));
    lemma_occ3(a, b, c);
    lemma_total_occ_concat(a + b + c, d);
    lemma_capped_concat(a + b + c, d);
}

proof fn lemma_part2_occ(idx: nat, line: Seq<char>, lower: Seq<char>, loc: Locale)
    ensures
        total_occ(part2(idx, line, lower, loc)) <= 5,
        capped(part2(idx, line, lower, loc)),
{
    let a = opt_seq(spec_missing_scenery_asset(idx, line, lower, loc));
    let b = opt_seq(spec_missing_scenery_object(idx, line, lower, loc));
    let c = opt_seq(spec_missing_scenery_library(idx, line, lower, loc));
    let d = opt_seq(spec_missing_global_scenery_tile(idx, line, lower, loc));
    let e = if vk_code_in(line) is None {
        opt_seq(spec_vulkan_device_lost(idx, line, lower, loc))
    } else {
        seq![]
    };
    lemma_missing_scenery_asset_once(idx, line, lower, loc);
    lemma_opt_occ(spec_missing_scenery_asset(idx, line, lower, loc));
    lemma_missing_scenery_object_once(idx, line, lower, loc);
    lemma_opt_occ(spec_missing_scenery_object(idx, line, lower, loc));
    lemma_missing_scenery_library_once(idx, line, lower, loc);
    lemma_opt_occ(spec_missing_scenery_library(idx, line, lower, loc));
    lemma_missing_global_scenery_tile_once(idx, line, lower, loc);
    lemma_opt_occ(spec_missing_global_scenery_tile(idx, line, lower, loc));
    lemma_vulkan_device_lost_once(idx, line, lower, loc);
    lemma_opt_occ(spec_vulkan_device_lost(idx, line, lower, loc));
    lemma_opt_occ(None);
    lemma_occ3(a, b, c);
    lemma_occ3(a + b + c, d, e);
}

proof fn lemma_part3_occ(idx: nat, line: Seq<char>, lower: Seq<char>, ls: Seq<Seq<char>>, loc: Locale)
    ensures
        total_occ(part3(idx, line, lower, ls, loc)) <= 5,
        capped(part3(idx, line, lower, ls, loc)),
{
    let a = opt_seq(spec_threading_violation(idx, line, lower, ls, loc));
    let b = opt_seq(spec_xplm_bypass(idx, line, lower, loc));
    let c = opt_seq(spec_flywithlua_error(idx, line, lower, loc));
    let d = opt_seq(spec_third_party_plugin_error(idx, line, lower, loc));
    let e = opt_seq(spec_plugin_encountered_error(idx, line, lower, loc));
    lemma_threading_violation_once(idx, line, lower, ls, loc);
    lemma_opt_occ(spec_threading_violation(idx, line, lower, ls, loc));
    lemma_xplm_bypass_once(idx, line, lower, loc);
    lemma_opt_occ(spec_xplm_bypass(idx, line, lower, loc));
    lemma_flywithlua_error_once(idx, line, lower, loc);
    lemma_opt_occ(spec_flywithlua_error(idx, line, lower, loc));
    lemma_third_party_plugin_error_once(idx, line, lower, loc);
    lemma_opt_occ(spec_third_party_plugin_error(idx, line, lower, loc));
    lemma_plugin_encountered_error_once(idx, line, lower, loc);
    lemma_opt_occ(spec_plugin_encountered_error(idx, line, lower, loc));
    lemma_occ3(a, b, c);
    lemma_occ3(a + b + c, d, e);
}

proof fn lemma_part4_occ(
    idx: nat,
    line: Seq<char>,
    lower: Seq<char>,
    ls: Seq<Seq<char>>,
    macos: bool,
    loc: Locale,
)
    ensures
        total_occ(part4(idx, line, lower, ls, macos, loc)) <= 4,
        capped(part4(idx, line, lower, ls, macos, loc)),
{
    let a = opt_seq(spec_aircraft_open_failure(idx, line, lower, ls, loc));
    let b = if macos {
        opt_seq(spec_macos_security_block(idx, line, lower, loc))
    } else {
        seq![]
    };
    let c = opt_seq(spec_application_crash(idx, line, loc));
    let d = opt_seq(spec_duplicate_scenery(idx, line, lower, loc));
    lemma_aircraft_open_failure_once(idx, line, lower, ls, loc);
    lemma_opt_occ(spec_aircraft_open_failure(idx, line, lower, ls, loc));
    lemma_macos_security_block_once(idx, line, lower, loc);
    lemma_opt_occ(spec_macos_security_block(idx, line, lower, loc));
    lemma_opt_occ(None);
    lemma_application_crash_once(idx, line, loc);
    lemma_opt_occ(spec_application_crash(idx, line, loc));
    lemma_duplicate_scenery_once(idx, line, lower, loc);
    lemma_opt_occ(spec_duplicate_scenery(idx, line, lower, loc));
    lemma_occ3(a, b, c);
    lemma_total_occ_concat(a + b + c, d);
    lemma_capped_concat(a + b + c, d);
}

/// Each line yields at most 18 occurrences.
pub proof fn lemma_line_occ(idx: nat, ls: Seq<Seq<char>>, macos: bool, loc: Locale)
    requires
        idx < ls.len(),
    ensures
        total_occ(line_findings(idx, ls, macos, loc)) <= 18,
        capped(line_findings(idx, ls, macos, loc)),
{
    reveal(line_findings);
    let line = ls[idx as int];
    let lower = lower(line);
    let a = part1(idx, line, lower, loc);
    let b = part2(idx, line, lower, loc);
    let c = part3(idx, line, lower, ls, loc);
    let d = part4(idx, line, lower, ls, macos, loc);
    lemma_part1_occ(idx, line, lower, loc);
    lemma_part2_occ(idx, line, lower, loc);
    lemma_part3_occ(idx, line, lower, ls, loc);
    lemma_part4_occ(idx, line, lower, ls, macos, loc);
    lemma_occ3(a, b, c);
    lemma_total_occ_concat(a + b + c, d);
    lemma_capped_concat(a + b + c, d);
}

} // verus!

verus! {

fn push_opt(out: &mut Vec<Finding>, o: Option<Finding>)
    ensures
        views(final(out)@) == views(old(out)@) + opt_seq(opt_view(o)),
{
    let ghost before = views(out@);
    match o {
        Some(f) => {
            out.push(f);
            assert(views(out@) =~= before + seq![f@]);
        },
        None => {
            assert(views(out@) =~= before + Seq::<FindingView>::empty());
        },
    }
}

proof fn lemma_assoc(s: Seq<FindingView>, a: Seq<FindingView>, b: Seq<FindingView>)
    ensures
        s + a + b == s + (a + b),
{
    assert(s + a + b =~= s + (a + b));
}

fn push_part1(
    idx: usize,
    line: &[char],
    lower: &[char],
    vr: Option<usize>,
    loc: Locale,
    out: &mut Vec<Finding>,
)
    requires
        idx < usize::MAX,
        vr matches Some(c) ==> c < crate::rules::vulkan::VK_CODE_COUNT,
        match vr {
            Some(c) => vk_code_in(line@) == Some(c as nat),
            None => vk_code_in(line@) is None,
        },
    ensures
        views(final(out)@) == views(old(out)@) + part1(idx as nat, line@, lower@, loc),
{
    let ghost start = views(out@);
    let ghost i = idx as nat;
    let ghost a = opt_seq(spec_plugin_load_failed(i, line@, lower@, loc));
    let ghost b = match vk_code_in(line@) {
        Some(c) => seq![spec_vulkan_result_error(i, line@, c, loc)],
        None => opt_seq(spec_graphics_api_error(i, line@, lower@, loc)),
    };
    let ghost c = opt_seq(spec_memory_vram(i, line@, lower@, loc));
    let ghost d = opt_seq(spec_texture_vram_pressure(i, line@, lower@, loc));
    push_opt(out, check_plugin_load_failed(idx, line, lower, loc));
    match vr {
        Some(code) => {
            let f = check_vulkan_result_error(idx, line, code, loc);
            push_opt(out, Some(f));
        },
        None => {
            push_opt(out, check_graphics_api_error(idx, line, lower, loc));
        },
    }
    proof {
        lemma_assoc(start, a, b);
    }
    push_opt(out, check_memory_vram(idx, line, lower, loc));
    proof {
        lemma_assoc(start, a + b, c);
    }
    push_opt(out, check_texture_vram_pressure(idx, line, lower, loc));
    proof {
        lemma_assoc(start, a + b + c, d);
    }
}

fn push_part2(
    idx: usize,
    line: &[char],
    lower: &[char],
    vr: Option<usize>,
    loc: Locale,
    out: &mut Vec<Finding>,
)
    requires
        idx < usize::MAX,
        vr is None <==> vk_code_in(line@) is None,
    ensures
        views(final(out)@) == views(old(out)@) + part2(idx as nat, line@, lower@, loc),
{
    let ghost start = views(out@);
    let ghost i = idx as nat;
    let ghost a = opt_seq(spec_missing_scenery_asset(i, line@, lower@, loc));
    let ghost b = opt_seq(spec_missing_scenery_object(i, line@, lower@, loc));
    let ghost c = opt_seq(spec_missing_scenery_library(i, line@, lower@, loc));
    let ghost d = opt_seq(spec_missing_global_scenery_tile(i, line@, lower@, loc));
    let ghost e = if vk_code_in(line@) is None {
        opt_seq(spec_vulkan_device_lost(i, line@, lower@, loc))
    } else {
        seq![]
    };
    push_opt(out, check_missing_scenery_asset(idx, line, lower, loc));
    push_opt(out, check_missing_scenery_object(idx, line, lower, loc));
    proof {
        lemma_assoc(start, a, b);
    }
    push_opt(out, check_missing_scenery_library(idx, line, lower, loc));
    proof {
        lemma_assoc(start, a + b, c);
    }
    push_opt(out, check_missing_global_scenery_tile(idx, line, lower, loc));
    proof {
        lemma_assoc(start, a + b + c, d);
    }
    if vr.is_none() {
        push_opt(out, check_vulkan_device_lost(idx, line, lower, loc));
    } else {
        assert(views(out@) =~= views(out@) + e);
    }
    proof {
        lemma_assoc(start, a + b + c + d, e);
    }
}

fn push_part3(
    idx: usize,
    line: &[char],
    lower: &[char],
    lines: &Vec<Vec<char>>,
    loc: Locale,
    out: &mut Vec<Finding>,
)
    requires
        idx < usize::MAX,
    ensures
        views(final(out)@) == views(old(out)@) + part3(
            idx as nat,
            line@,
            lower@,
            seqs_of(lines@),
            loc,
        ),
{
    let ghost start = views(out@);
    let ghost i = idx as nat;
    let ghost ls = seqs_of(lines@);
    let ghost a = opt_seq(spec_threading_violation(i, line@, lower@, ls, loc));
    let ghost b = opt_seq(spec_xplm_bypass(i, line@, lower@, loc));
    let ghost c = opt_seq(spec_flywithlua_error(i, line@, lower@, loc));
    let ghost d = opt_seq(spec_third_party_plugin_error(i, line@, lower@, loc));
    let ghost e = opt_seq(spec_plugin_encountered_error(i, line@, lower@, loc));
    push_opt(out, check_threading_violation(idx, line, lower, lines, loc));
    push_opt(out, check_xplm_bypass(idx, line, lower, loc));
    proof {
        lemma_assoc(start, a, b);
    }
    push_opt(out, check_flywithlua_error(idx, line, lower, loc));
    proof {
        lemma_assoc(start, a + b, c);
    }
    push_opt(out, check_third_party_plugin_error(idx, line, lower, loc));
    proof {
        lemma_assoc(start, a + b + c, d);
    }
    push_opt(out, check_plugin_encountered_error(idx, line, lower, loc));
    proof {
        lemma_assoc(start, a + b + c + d, e);
    }
}

fn push_part4(
    idx: usize,
    line: &[char],
    lower: &[char],
    lines: &Vec<Vec<char>>,
    macos: bool,
    loc: Locale,
    out: &mut Vec<Finding>,
)
    requires
        idx < usize::MAX,
    ensures
        views(final(out)@) == views(old(out)@) + part4(
            idx as nat,
            line@,
            lower@,
            seqs_of(lines@),
            macos,
            loc,
        ),
{
    let ghost start = views(out@);
    let ghost i = idx as nat;
    let ghost ls = seqs_of(lines@);
    let ghost a = opt_seq(spec_aircraft_open_failure(i, line@, lower@, ls, loc));
    let ghost b = if macos {
        opt_seq(spec_macos_security_block(i, line@, lower@, loc))
    } else {
        seq![]
    };
    let ghost c = opt_seq(spec_application_crash(i, line@, loc));
    let ghost d = opt_seq(spec_duplicate_scenery(i, line@, lower@, loc));
    push_opt(out, check_aircraft_open_failure(idx, line, lower, lines, loc));
    if macos {
        push_opt(out, check_macos_security_block(idx, line, lower, loc));
    } else {
        assert(views(out@) =~= views(out@) + b);
    }
    proof {
        lemma_assoc(start, a, b);
    }
    push_opt(out, check_application_crash(idx, line, loc));
    proof {
        lemma_assoc(start, a + b, c);
    }
    push_opt(out, check_duplicate_scenery(idx, line, lower, loc));
    proof {
        lemma_assoc(start, a + b + c, d);
    }
}

fn push_line_findings(
    idx: usize,
    lines: &Vec<Vec<char>>,
    macos: bool,
    loc: Locale,
    out: &mut Vec<Finding>,
)
    requires
        idx < lines.len() < usize::MAX,
    ensures
        views(final(out)@) == views(old(out)@) + line_findings(idx as nat, seqs_of(lines@), macos, loc),
{
    let ghost ls = seqs_of(lines@);
    let ghost start = views(out@);
    let line: &[char] = lines[idx].as_slice();
    assert(line@ == ls[idx as int]);
    let lower = lower_of(line);
    let vr = extract_vulkan_result_code(line);
    let ghost i = idx as nat;
    let ghost a = part1(i, line@, lower@, loc);
    let ghost b = part2(i, line@, lower@, loc);
    let ghost c = part3(i, line@, lower@, ls, loc);
    let ghost d = part4(i, line@, lower@, ls, macos, loc);
    push_part1(idx, line, &lower, vr, loc, out);
    push_part2(idx, line, &lower, vr, loc, out);
    proof {
        lemma_assoc(start, a, b);
    }
    push_part3(idx, line, &lower, lines, loc, out);
    proof {
        lemma_assoc(start, a + b, c);
    }
    push_part4(idx, line, &lower, lines, macos, loc, out);
    proof {
        lemma_assoc(start, a + b + c, d);
        reveal(line_findings);
        assert(line_findings(i, ls, macos, loc) == a + b + c + d);
    }
}

fn is_macos_line_exec(lower: &[char]) -> (r: bool)
    ensures
        r == is_macos_line(lower@),
{
    (starts_with_str(lower, "os:") && (contains_str(lower, "macos") || contains_str(lower, "mac os")))
        || starts_with_str(lower, "macos") || starts_with_str(lower, "darwin")
}

fn is_macos_log_exec(lines: &Vec<Vec<char>>) -> (r: bool)
    ensures
        r == is_macos_log(seqs_of(lines@)),
{
    let ghost ls = seqs_of(lines@);
    let mut i: usize = 0;
    while i < lines.len() && i < 250
        invariant
            i <= lines.len(),
            ls == seqs_of(lines@),
            forall|j: int| 0 <= j < i ==> !is_macos_line(lower(ls[j])),
        decreases lines.len() - i,
    {
        let l = lower_of(lines[i].as_slice());
        assert(lines@[i as int]@ == ls[i as int]);
        if is_macos_line_exec(&l) {
            return true;
        }
        i = i + 1;
    }
    false
}

fn has_gpu_crash_signal_exec(lines: &Vec<Vec<char>>) -> (r: bool)
    ensures
        r == has_gpu_crash_signal(seqs_of(lines@)),
{
    let ghost ls = seqs_of(lines@);
    let mut i: usize = 0;
    while i < lines.len()
        invariant
            i <= lines.len(),
            ls == seqs_of(lines@),
            forall|j: int| 0 <= j < i ==> !contains(lower(ls[j]), "vk_error_device_lost"@),
        decreases lines.len() - i,
    {
        let l = lower_of(lines[i].as_slice());
        assert(lines@[i as int]@ == ls[i as int]);
        if contains_str(&l, "vk_error_device_lost") {
            return true;
        }
        i = i + 1;
    }
    false
}

/// Analyzes the text of a `Log.txt` with its messages in the given language.
pub fn analyze_log_in(log_text: &str, loc: Locale) -> (r: Vec<Finding>)
    requires
        log_text@.len() <= max_log_chars(),
    ensures
        views(r@) == log_findings(log_text@, loc),
{
    let text = chars_of(log_text);
    let log_lines = lines_of(&text);
    let ghost ls = seqs_of(log_lines@);
    proof {
        lemma_lines_len(text@);
        lemma_subsystem_occ(ls, loc);
    }
    let mut findings = detect_xplane_subsystem_errors(&log_lines, loc);
    let macos = is_macos_log_exec(&log_lines);
    let ghost sub = subsystem_findings(ls, loc);
    let mut idx: usize = 0;
    while idx < log_lines.len()
        invariant
            idx <= log_lines.len() <= max_log_chars(),
            ls == seqs_of(log_lines@),
            ls == crate::text::lines(log_text@),
            macos == is_macos_log(ls),
            sub == subsystem_findings(ls, loc),
            total_occ(sub) <= ls.len(),
            views(findings@) == sub + all_line_findings(ls, idx as nat, macos, loc),
            total_occ(all_line_findings(ls, idx as nat, macos, loc)) <= 18 * idx,
        decreases log_lines.len() - idx,
    {
        proof {
            lemma_line_occ(idx as nat, ls, macos, loc);
            lemma_total_occ_concat(
                all_line_findings(ls, idx as nat, macos, loc),
                line_findings(idx as nat, ls, macos, loc),
            );
        }
        push_line_findings(idx, &log_lines, macos, loc, &mut findings);
        assert(views(findings@) =~= sub + all_line_findings(ls, (idx + 1) as nat, macos, loc));
        idx = idx + 1;
    }
    let ghost f1 = views(findings@);
    proof {
        lemma_total_occ_concat(sub, all_line_findings(ls, ls.len(), macos, loc));
    }
    assert(total_occ(f1) <= 19 * ls.len());
    if first_crash_index(&log_lines).is_some() || has_gpu_crash_signal_exec(&log_lines) {
        let a = scenery_load_crash_context_finding(&log_lines, loc);
        proof {
            lemma_scenery_load_crash_context_once(ls, loc);
            lemma_opt_occ(opt_view(a));
            lemma_total_occ_concat(views(findings@), opt_seq(opt_view(a)));
        }
        push_opt(&mut findings, a);
        assert(total_occ(views(findings@)) <= total_occ(f1) + 1);
        let b = last_loaded_context_finding(&log_lines, loc);
        proof {
            lemma_last_loaded_context_once(ls, loc);
            lemma_opt_occ(opt_view(b));
            lemma_total_occ_concat(views(findings@), opt_seq(opt_view(b)));
        }
        push_opt(&mut findings, b);
        assert(total_occ(views(findings@)) <= total_occ(f1) + 2);
        let c = pre_crash_context_finding(&log_lines, loc);
        proof {
            lemma_pre_crash_context_once(ls, loc);
            lemma_opt_occ(opt_view(c));
            lemma_total_occ_concat(views(findings@), opt_seq(opt_view(c)));
        }
        push_opt(&mut findings, c);
        assert(total_occ(views(findings@)) <= total_occ(f1) + 3);
        let d = early_silent_crash_finding(&log_lines, &findings, loc);
        proof {
            lemma_early_silent_crash_once(ls, views(findings@), loc);
            lemma_opt_occ(opt_view(d));
            lemma_total_occ_concat(views(findings@), opt_seq(opt_view(d)));
        }
        push_opt(&mut findings, d);
        assert(total_occ(views(findings@)) <= total_occ(f1) + 4);
    } else {
        let a = abrupt_termination_finding(&log_lines, loc);
        proof {
            lemma_abrupt_termination_once(ls, loc);
            lemma_opt_occ(opt_view(a));
            lemma_total_occ_concat(views(findings@), opt_seq(opt_view(a)));
        }
        push_opt(&mut findings, a);
        assert(total_occ(views(findings@)) <= total_occ(f1) + 1);
    }
    assert(total_occ(views(findings@)) <= usize::MAX) by {
        assert(ls.len() <= usize::MAX / 32);
        assert(19 * ls.len() + 4 <= usize::MAX);
    }
    assert(views(findings@) == raw_findings(ls, loc));
    let mut merged = dedupe_findings(findings);
    suppress_generic_findings(&mut merged);
    merged
}

/// Analyzes the text of a `Log.txt`, with its messages in English.
pub fn analyze_log(log_text: &str) -> (r: Vec<Finding>)
    requires
        log_text@.len() <= max_log_chars(),
    ensures
        views(r@) == log_findings(log_text@, Locale::En),
{
    analyze_log_in(log_text, Locale::En)
}

} // verus!
