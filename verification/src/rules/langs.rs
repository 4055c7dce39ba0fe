//! The analysis in either language: the same findings, with other texts.
use vstd::prelude::*;

use crate::i18n::{filled, Locale};
use crate::model::FindingView;
use crate::rules::analyze::{opt_seq, part1, part2, part3, part4};
use crate::rules::assets::{
    spec_aircraft_open_failure, spec_application_crash, spec_missing_scenery_asset,
    spec_missing_scenery_object,
};
use crate::rules::context::{
    has_explaining_high, spec_abrupt_termination, spec_early_silent_crash, spec_last_loaded_context,
    spec_pre_crash_context, spec_scenery_load_crash_context,
};
use crate::rules::keywords::{
    spec_duplicate_scenery, spec_flywithlua_error, spec_graphics_api_error, spec_macos_security_block,
    spec_memory_vram, spec_missing_global_scenery_tile, spec_missing_scenery_library,
    spec_plugin_load_failed, spec_vulkan_device_lost,
};
use crate::rules::plugins::{
    spec_plugin_encountered_error, spec_third_party_plugin_error, spec_threading_violation,
    spec_xplm_bypass, third_party_name,
};
use crate::rules::vram::spec_texture_vram_pressure;
use crate::rules::vulkan::{spec_vulkan_result_error, vk_code_in};

verus! {

/// Two findings that differ at most in their title, explanation and suggestion.
pub open spec fn same_but_text(a: FindingView, b: FindingView) -> bool {
    &&& a.kind == b.kind
    &&& a.severity == b.severity
    &&& a.confidence == b.confidence
    &&& a.evidence == b.evidence
    &&& a.occurrences == b.occurrences
    &&& a.extra_evidence == b.extra_evidence
}

/// The title of a third-party plugin finding about the plugin `n`.
pub open spec fn plugin_error_title(loc: Locale, n: Seq<char>) -> Seq<char> {
    filled(
        loc,
        "第三方插件报告错误："@,
        ""@,
        "Third-party plugin reported an error: "@,
        ""@,
        n,
    )
}

/// The same finding in Chinese and in English: the same but for texts, with
/// one channel title, and the same plugin in a plugin error's title.
pub open spec fn twins(a: FindingView, b: FindingView) -> bool {
    &&& same_but_text(a, b)
    &&& a.kind == "xplane_subsystem_errors"@ ==> a.title == b.title
    &&& a.kind == "third_party_plugin_error"@ ==> exists|n: Seq<char>|
        a.title == #[trigger] plugin_error_title(Locale::Zh, n) && b.title == plugin_error_title(
            Locale::En,
            n,
        )
}

pub open spec fn opt_twins(a: Option<FindingView>, b: Option<FindingView>) -> bool {
    match (a, b) {
        (None, None) => true,
        (Some(x), Some(y)) => twins(x, y),
        _ => false,
    }
}

/// Two lists of findings, pair by pair the same finding in two languages.
pub open spec fn seq_twins(a: Seq<FindingView>, b: Seq<FindingView>) -> bool {
    a.len() == b.len() && forall|i: int| 0 <= i < a.len() ==> twins(#[trigger] a[i], b[i])
}

pub proof fn lemma_opt_seq_twins(a: Option<FindingView>, b: Option<FindingView>)
    requires
        opt_twins(a, b),
    ensures
        seq_twins(opt_seq(a), opt_seq(b)),
{
}

pub proof fn lemma_concat_twins(a1: Seq<FindingView>, a2: Seq<FindingView>, b1: Seq<FindingView>, b2: Seq<FindingView>)
    requires
        seq_twins(a1, a2),
        seq_twins(b1, b2),
    ensures
        seq_twins(a1 + b1, a2 + b2),
{
    assert forall|i: int| 0 <= i < (a1 + b1).len() implies twins(#[trigger] (a1 + b1)[i], (a2 + b2)[i]) by {
        if i < a1.len() {
            assert((a1 + b1)[i] == a1[i]);
            assert((a2 + b2)[i] == a2[i]);
        } else {
            assert((a1 + b1)[i] == b1[i - a1.len()]);
            assert((a2 + b2)[i] == b2[i - a1.len()]);
        }
    }
}

pub proof fn lemma_twins_plugin_load_failed(idx: nat, line: Seq<char>, lower: Seq<char>)
    ensures
        opt_twins(spec_plugin_load_failed(idx, line, lower, Locale::Zh), spec_plugin_load_failed(idx, line, lower, Locale::En)),
{
    reveal_strlit("plugin_load_failed");
    reveal_strlit("xplane_subsystem_errors");
    reveal_strlit("third_party_plugin_error");
    assert("plugin_load_failed"@.len() != "xplane_subsystem_errors"@.len());
    assert("plugin_load_failed"@.len() != "third_party_plugin_error"@.len());
}

pub proof fn lemma_twins_graphics_api_error(idx: nat, line: Seq<char>, lower: Seq<char>)
    ensures
        opt_twins(spec_graphics_api_error(idx, line, lower, Locale::Zh), spec_graphics_api_error(idx, line, lower, Locale::En)),
{
    reveal_strlit("graphics_vulkan_error");
    reveal_strlit("xplane_subsystem_errors");
    reveal_strlit("third_party_plugin_error");
    assert("graphics_vulkan_error"@.len() != "xplane_subsystem_errors"@.len());
    assert("graphics_vulkan_error"@.len() != "third_party_plugin_error"@.len());
}

pub proof fn lemma_twins_memory_vram(idx: nat, line: Seq<char>, lower: Seq<char>)
    ensures
        opt_twins(spec_memory_vram(idx, line, lower, Locale::Zh), spec_memory_vram(idx, line, lower, Locale::En)),
{
    reveal_strlit("memory_or_vram");
    reveal_strlit("xplane_subsystem_errors");
    reveal_strlit("third_party_plugin_error");
    assert("memory_or_vram"@.len() != "xplane_subsystem_errors"@.len());
    assert("memory_or_vram"@.len() != "third_party_plugin_error"@.len());
}

pub proof fn lemma_twins_texture_vram_pressure(idx: nat, line: Seq<char>, lower: Seq<char>)
    ensures
        opt_twins(spec_texture_vram_pressure(idx, line, lower, Locale::Zh), spec_texture_vram_pressure(idx, line, lower, Locale::En)),
{
    reveal_strlit("texture_vram_pressure");
    reveal_strlit("xplane_subsystem_errors");
    reveal_strlit("third_party_plugin_error");
    assert("texture_vram_pressure"@.len() != "xplane_subsystem_errors"@.len());
    assert("texture_vram_pressure"@.len() != "third_party_plugin_error"@.len());
}

pub proof fn lemma_twins_missing_scenery_asset(idx: nat, line: Seq<char>, lower: Seq<char>)
    ensures
        opt_twins(spec_missing_scenery_asset(idx, line, lower, Locale::Zh), spec_missing_scenery_asset(idx, line, lower, Locale::En)),
{
    reveal_strlit("missing_scenery_asset");
    reveal_strlit("xplane_subsystem_errors");
    reveal_strlit("third_party_plugin_error");
    assert("missing_scenery_asset"@.len() != "xplane_subsystem_errors"@.len());
    assert("missing_scenery_asset"@.len() != "third_party_plugin_error"@.len());
}

pub proof fn lemma_twins_missing_scenery_object(idx: nat, line: Seq<char>, lower: Seq<char>)
    ensures
        opt_twins(spec_missing_scenery_object(idx, line, lower, Locale::Zh), spec_missing_scenery_object(idx, line, lower, Locale::En)),
{
    reveal_strlit("missing_scenery_object");
    reveal_strlit("xplane_subsystem_errors");
    reveal_strlit("third_party_plugin_error");
    assert("missing_scenery_object"@.len() != "xplane_subsystem_errors"@.len());
    assert("missing_scenery_object"@.len() != "third_party_plugin_error"@.len());
}

pub proof fn lemma_twins_missing_scenery_library(idx: nat, line: Seq<char>, lower: Seq<char>)
    ensures
        opt_twins(spec_missing_scenery_library(idx, line, lower, Locale::Zh), spec_missing_scenery_library(idx, line, lower, Locale::En)),
{
    reveal_strlit("missing_scenery_library");
    reveal_strlit("xplane_subsystem_errors");
    reveal_strlit("third_party_plugin_error");
    assert("missing_scenery_library"@[0] != "xplane_subsystem_errors"@[0]);
    assert("missing_scenery_library"@.len() != "third_party_plugin_error"@.len());
}

pub proof fn lemma_twins_missing_global_scenery_tile(idx: nat, line: Seq<char>, lower: Seq<char>)
    ensures
        opt_twins(spec_missing_global_scenery_tile(idx, line, lower, Locale::Zh), spec_missing_global_scenery_tile(idx, line, lower, Locale::En)),
{
    reveal_strlit("missing_global_scenery_tile");
    reveal_strlit("xplane_subsystem_errors");
    reveal_strlit("third_party_plugin_error");
    assert("missing_global_scenery_tile"@.len() != "xplane_subsystem_errors"@.len());
    assert("missing_global_scenery_tile"@.len() != "third_party_plugin_error"@.len());
}

pub proof fn lemma_twins_vulkan_device_lost(idx: nat, line: Seq<char>, lower: Seq<char>)
    ensures
        opt_twins(spec_vulkan_device_lost(idx, line, lower, Locale::Zh), spec_vulkan_device_lost(idx, line, lower, Locale::En)),
{
    reveal_strlit("vulkan_device_lost");
    reveal_strlit("xplane_subsystem_errors");
    reveal_strlit("third_party_plugin_error");
    assert("vulkan_device_lost"@.len() != "xplane_subsystem_errors"@.len());
    assert("vulkan_device_lost"@.len() != "third_party_plugin_error"@.len());
}

pub proof fn lemma_twins_xplm_bypass(idx: nat, line: Seq<char>, lower: Seq<char>)
    ensures
        opt_twins(spec_xplm_bypass(idx, line, lower, Locale::Zh), spec_xplm_bypass(idx, line, lower, Locale::En)),
{
    reveal_strlit("xplm_bypass");
    reveal_strlit("xplane_subsystem_errors");
    reveal_strlit("third_party_plugin_error");
    assert("xplm_bypass"@.len() != "xplane_subsystem_errors"@.len());
    assert("xplm_bypass"@.len() != "third_party_plugin_error"@.len());
}

pub proof fn lemma_twins_flywithlua_error(idx: nat, line: Seq<char>, lower: Seq<char>)
    ensures
        opt_twins(spec_flywithlua_error(idx, line, lower, Locale::Zh), spec_flywithlua_error(idx, line, lower, Locale::En)),
{
    reveal_strlit("flywithlua_error");
    reveal_strlit("xplane_subsystem_errors");
    reveal_strlit("third_party_plugin_error");
    assert("flywithlua_error"@.len() != "xplane_subsystem_errors"@.len());
    assert("flywithlua_error"@.len() != "third_party_plugin_error"@.len());
}

pub proof fn lemma_twins_third_party_plugin_error(idx: nat, line: Seq<char>, lower: Seq<char>)
    ensures
        opt_twins(spec_third_party_plugin_error(idx, line, lower, Locale::Zh), spec_third_party_plugin_error(idx, line, lower, Locale::En)),
{
    reveal_strlit("third_party_plugin_error");
    reveal_strlit("xplane_subsystem_errors");
    reveal_strlit("third_party_plugin_error");
    assert("third_party_plugin_error"@.len() != "xplane_subsystem_errors"@.len());
    let n = third_party_name(line);
    assert(spec_third_party_plugin_error(idx, line, lower, Locale::Zh) is Some ==> spec_third_party_plugin_error(idx, line, lower, Locale::Zh).unwrap().title == plugin_error_title(Locale::Zh, n));
}

pub proof fn lemma_twins_plugin_encountered_error(idx: nat, line: Seq<char>, lower: Seq<char>)
    ensures
        opt_twins(spec_plugin_encountered_error(idx, line, lower, Locale::Zh), spec_plugin_encountered_error(idx, line, lower, Locale::En)),
{
    reveal_strlit("plugin_encountered_error");
    reveal_strlit("xplane_subsystem_errors");
    reveal_strlit("third_party_plugin_error");
    assert("plugin_encountered_error"@.len() != "xplane_subsystem_errors"@.len());
    assert("plugin_encountered_error"@[0] != "third_party_plugin_error"@[0]);
}

pub proof fn lemma_twins_macos_security_block(idx: nat, line: Seq<char>, lower: Seq<char>)
    ensures
        opt_twins(spec_macos_security_block(idx, line, lower, Locale::Zh), spec_macos_security_block(idx, line, lower, Locale::En)),
{
    reveal_strlit("macos_security_block");
    reveal_strlit("xplane_subsystem_errors");
    reveal_strlit("third_party_plugin_error");
    assert("macos_security_block"@.len() != "xplane_subsystem_errors"@.len());
    assert("macos_security_block"@.len() != "third_party_plugin_error"@.len());
}

pub proof fn lemma_twins_duplicate_scenery(idx: nat, line: Seq<char>, lower: Seq<char>)
    ensures
        opt_twins(spec_duplicate_scenery(idx, line, lower, Locale::Zh), spec_duplicate_scenery(idx, line, lower, Locale::En)),
{
    reveal_strlit("duplicate_scenery_log");
    reveal_strlit("xplane_subsystem_errors");
    reveal_strlit("third_party_plugin_error");
    assert("duplicate_scenery_log"@.len() != "xplane_subsystem_errors"@.len());
    assert("duplicate_scenery_log"@.len() != "third_party_plugin_error"@.len());
}

pub proof fn lemma_twins_threading_violation(idx: nat, line: Seq<char>, lower: Seq<char>, ls: Seq<Seq<char>>)
    ensures
        opt_twins(spec_threading_violation(idx, line, lower, ls, Locale::Zh), spec_threading_violation(idx, line, lower, ls, Locale::En)),
{
    reveal_strlit("threading_violation");
    reveal_strlit("xplane_subsystem_errors");
    reveal_strlit("third_party_plugin_error");
    assert("threading_violation"@.len() != "xplane_subsystem_errors"@.len());
    assert("threading_violation"@.len() != "third_party_plugin_error"@.len());
}

pub proof fn lemma_twins_aircraft_open_failure(idx: nat, line: Seq<char>, lower: Seq<char>, ls: Seq<Seq<char>>)
    ensures
        opt_twins(spec_aircraft_open_failure(idx, line, lower, ls, Locale::Zh), spec_aircraft_open_failure(idx, line, lower, ls, Locale::En)),
{
    reveal_strlit("aircraft_open_failure");
    reveal_strlit("xplane_subsystem_errors");
    reveal_strlit("third_party_plugin_error");
    assert("aircraft_open_failure"@.len() != "xplane_subsystem_errors"@.len());
    assert("aircraft_open_failure"@.len() != "third_party_plugin_error"@.len());
}

pub proof fn lemma_twins_application_crash(idx: nat, line: Seq<char>)
    ensures
        opt_twins(spec_application_crash(idx, line, Locale::Zh), spec_application_crash(idx, line, Locale::En)),
{
    reveal_strlit("application_crash");
    reveal_strlit("xplane_subsystem_errors");
    reveal_strlit("third_party_plugin_error");
    assert("application_crash"@.len() != "xplane_subsystem_errors"@.len());
    assert("application_crash"@.len() != "third_party_plugin_error"@.len());
}

pub proof fn lemma_twins_vulkan_result_error(idx: nat, line: Seq<char>, code: nat)
    ensures
        twins(spec_vulkan_result_error(idx, line, code, Locale::Zh), spec_vulkan_result_error(idx, line, code, Locale::En)),
{
    reveal_strlit("vulkan_result_error");
    reveal_strlit("xplane_subsystem_errors");
    reveal_strlit("third_party_plugin_error");
    assert("vulkan_result_error"@.len() != "xplane_subsystem_errors"@.len());
    assert("vulkan_result_error"@.len() != "third_party_plugin_error"@.len());
}

pub proof fn lemma_twins_scenery_load_crash_context(ls: Seq<Seq<char>>)
    ensures
        opt_twins(spec_scenery_load_crash_context(ls, Locale::Zh), spec_scenery_load_crash_context(ls, Locale::En)),
{
    reveal_strlit("scenery_load_crash_context");
    reveal_strlit("xplane_subsystem_errors");
    reveal_strlit("third_party_plugin_error");
    assert("scenery_load_crash_context"@.len() != "xplane_subsystem_errors"@.len());
    assert("scenery_load_crash_context"@.len() != "third_party_plugin_error"@.len());
}

pub proof fn lemma_twins_last_loaded_context(ls: Seq<Seq<char>>)
    ensures
        opt_twins(spec_last_loaded_context(ls, Locale::Zh), spec_last_loaded_context(ls, Locale::En)),
{
    reveal_strlit("last_loaded_context");
    reveal_strlit("xplane_subsystem_errors");
    reveal_strlit("third_party_plugin_error");
    assert("last_loaded_context"@.len() != "xplane_subsystem_errors"@.len());
    assert("last_loaded_context"@.len() != "third_party_plugin_error"@.len());
}

pub proof fn lemma_twins_pre_crash_context(ls: Seq<Seq<char>>)
    ensures
        opt_twins(spec_pre_crash_context(ls, Locale::Zh), spec_pre_crash_context(ls, Locale::En)),
{
    reveal_strlit("pre_crash_context");
    reveal_strlit("xplane_subsystem_errors");
    reveal_strlit("third_party_plugin_error");
    assert("pre_crash_context"@.len() != "xplane_subsystem_errors"@.len());
    assert("pre_crash_context"@.len() != "third_party_plugin_error"@.len());
}

pub proof fn lemma_twins_abrupt_termination(ls: Seq<Seq<char>>)
    ensures
        opt_twins(spec_abrupt_termination(ls, Locale::Zh), spec_abrupt_termination(ls, Locale::En)),
{
    reveal_strlit("abrupt_termination");
    reveal_strlit("xplane_subsystem_errors");
    reveal_strlit("third_party_plugin_error");
    assert("abrupt_termination"@.len() != "xplane_subsystem_errors"@.len());
    assert("abrupt_termination"@.len() != "third_party_plugin_error"@.len());
}

pub proof fn lemma_twins_early_silent_crash(ls: Seq<Seq<char>>, a: Seq<FindingView>, b: Seq<FindingView>)
    requires
        seq_twins(a, b),
    ensures
        opt_twins(spec_early_silent_crash(ls, a, Locale::Zh), spec_early_silent_crash(ls, b, Locale::En)),
{
    reveal_strlit("early_silent_crash");
    reveal_strlit("xplane_subsystem_errors");
    reveal_strlit("third_party_plugin_error");
    assert("early_silent_crash"@.len() != "xplane_subsystem_errors"@.len());
    assert("early_silent_crash"@.len() != "third_party_plugin_error"@.len());
    if has_explaining_high(a) {
        let j = choose|j: int| 0 <= j < a.len() && a[j].severity == crate::model::Severity::High && a[j].kind != "application_crash"@;
        assert(twins(a[j], b[j]));
    }
    if has_explaining_high(b) {
        let j = choose|j: int| 0 <= j < b.len() && b[j].severity == crate::model::Severity::High && b[j].kind != "application_crash"@;
        assert(twins(a[j], b[j]));
    }
}


pub proof fn lemma_twins_parts(idx: nat, line: Seq<char>, lower: Seq<char>, ls: Seq<Seq<char>>, macos: bool)
    ensures
        seq_twins(part1(idx, line, lower, Locale::Zh), part1(idx, line, lower, Locale::En)),
        seq_twins(part2(idx, line, lower, Locale::Zh), part2(idx, line, lower, Locale::En)),
        seq_twins(part3(idx, line, lower, ls, Locale::Zh), part3(idx, line, lower, ls, Locale::En)),
        seq_twins(part4(idx, line, lower, ls, macos, Locale::Zh), part4(idx, line, lower, ls, macos, Locale::En)),
{
    let z = Locale::Zh;
    let e = Locale::En;
    lemma_twins_plugin_load_failed(idx, line, lower);
    lemma_twins_graphics_api_error(idx, line, lower);
    lemma_twins_memory_vram(idx, line, lower);
    lemma_twins_texture_vram_pressure(idx, line, lower);
    lemma_opt_seq_twins(spec_plugin_load_failed(idx, line, lower, z), spec_plugin_load_failed(idx, line, lower, e));
    lemma_opt_seq_twins(spec_graphics_api_error(idx, line, lower, z), spec_graphics_api_error(idx, line, lower, e));
    lemma_opt_seq_twins(spec_memory_vram(idx, line, lower, z), spec_memory_vram(idx, line, lower, e));
    lemma_opt_seq_twins(spec_texture_vram_pressure(idx, line, lower, z), spec_texture_vram_pressure(idx, line, lower, e));
    let b1 = match vk_code_in(line) {
        Some(c) => seq![spec_vulkan_result_error(idx, line, c, z)],
        None => opt_seq(spec_graphics_api_error(idx, line, lower, z)),
    };
    let b2 = match vk_code_in(line) {
        Some(c) => seq![spec_vulkan_result_error(idx, line, c, e)],
        None => opt_seq(spec_graphics_api_error(idx, line, lower, e)),
    };
    match vk_code_in(line) {
        Some(c) => {
            lemma_twins_vulkan_result_error(idx, line, c);
        },
        None => {},
    }
    assert(seq_twins(b1, b2));
    lemma_concat_twins(opt_seq(spec_plugin_load_failed(idx, line, lower, z)), opt_seq(spec_plugin_load_failed(idx, line, lower, e)), b1, b2);
    lemma_concat_twins(opt_seq(spec_plugin_load_failed(idx, line, lower, z)) + b1, opt_seq(spec_plugin_load_failed(idx, line, lower, e)) + b2, opt_seq(spec_memory_vram(idx, line, lower, z)), opt_seq(spec_memory_vram(idx, line, lower, e)));
    lemma_concat_twins(opt_seq(spec_plugin_load_failed(idx, line, lower, z)) + b1 + opt_seq(spec_memory_vram(idx, line, lower, z)), opt_seq(spec_plugin_load_failed(idx, line, lower, e)) + b2 + opt_seq(spec_memory_vram(idx, line, lower, e)), opt_seq(spec_texture_vram_pressure(idx, line, lower, z)), opt_seq(spec_texture_vram_pressure(idx, line, lower, e)));

    lemma_twins_missing_scenery_asset(idx, line, lower);
    lemma_twins_missing_scenery_object(idx, line, lower);
    lemma_twins_missing_scenery_library(idx, line, lower);
    lemma_twins_missing_global_scenery_tile(idx, line, lower);
    lemma_twins_vulkan_device_lost(idx, line, lower);
    let a1 = opt_seq(spec_missing_scenery_asset(idx, line, lower, z));
    let a2 = opt_seq(spec_missing_scenery_asset(idx, line, lower, e));
    let c1 = opt_seq(spec_missing_scenery_object(idx, line, lower, z));
    let c2 = opt_seq(spec_missing_scenery_object(idx, line, lower, e));
    let d1 = opt_seq(spec_missing_scenery_library(idx, line, lower, z));
    let d2 = opt_seq(spec_missing_scenery_library(idx, line, lower, e));
    let g1 = opt_seq(spec_missing_global_scenery_tile(idx, line, lower, z));
    let g2 = opt_seq(spec_missing_global_scenery_tile(idx, line, lower, e));
    let v1 = if vk_code_in(line) is None { opt_seq(spec_vulkan_device_lost(idx, line, lower, z)) } else { seq![] };
    let v2 = if vk_code_in(line) is None { opt_seq(spec_vulkan_device_lost(idx, line, lower, e)) } else { seq![] };
    lemma_opt_seq_twins(spec_missing_scenery_asset(idx, line, lower, z), spec_missing_scenery_asset(idx, line, lower, e));
    lemma_opt_seq_twins(spec_missing_scenery_object(idx, line, lower, z), spec_missing_scenery_object(idx, line, lower, e));
    lemma_opt_seq_twins(spec_missing_scenery_library(idx, line, lower, z), spec_missing_scenery_library(idx, line, lower, e));
    lemma_opt_seq_twins(spec_missing_global_scenery_tile(idx, line, lower, z), spec_missing_global_scenery_tile(idx, line, lower, e));
    lemma_opt_seq_twins(spec_vulkan_device_lost(idx, line, lower, z), spec_vulkan_device_lost(idx, line, lower, e));
    assert(seq_twins(v1, v2));
    lemma_concat_twins(a1, a2, c1, c2);
    lemma_concat_twins(a1 + c1, a2 + c2, d1, d2);
    lemma_concat_twins(a1 + c1 + d1, a2 + c2 + d2, g1, g2);
    lemma_concat_twins(a1 + c1 + d1 + g1, a2 + c2 + d2 + g2, v1, v2);

    lemma_twins_threading_violation(idx, line, lower, ls);
    lemma_twins_xplm_bypass(idx, line, lower);
    lemma_twins_flywithlua_error(idx, line, lower);
    lemma_twins_third_party_plugin_error(idx, line, lower);
    lemma_twins_plugin_encountered_error(idx, line, lower);
    let t1 = opt_seq(spec_threading_violation(idx, line, lower, ls, z));
    let t2 = opt_seq(spec_threading_violation(idx, line, lower, ls, e));
    let x1 = opt_seq(spec_xplm_bypass(idx, line, lower, z));
    let x2 = opt_seq(spec_xplm_bypass(idx, line, lower, e));
    let f1 = opt_seq(spec_flywithlua_error(idx, line, lower, z));
    let f2 = opt_seq(spec_flywithlua_error(idx, line, lower, e));
    let p1 = opt_seq(spec_third_party_plugin_error(idx, line, lower, z));
    let p2 = opt_seq(spec_third_party_plugin_error(idx, line, lower, e));
    let q1 = opt_seq(spec_plugin_encountered_error(idx, line, lower, z));
    let q2 = opt_seq(spec_plugin_encountered_error(idx, line, lower, e));
    lemma_opt_seq_twins(spec_threading_violation(idx, line, lower, ls, z), spec_threading_violation(idx, line, lower, ls, e));
    lemma_opt_seq_twins(spec_xplm_bypass(idx, line, lower, z), spec_xplm_bypass(idx, line, lower, e));
    lemma_opt_seq_twins(spec_flywithlua_error(idx, line, lower, z), spec_flywithlua_error(idx, line, lower, e));
    lemma_opt_seq_twins(spec_third_party_plugin_error(idx, line, lower, z), spec_third_party_plugin_error(idx, line, lower, e));
    lemma_opt_seq_twins(spec_plugin_encountered_error(idx, line, lower, z), spec_plugin_encountered_error(idx, line, lower, e));
    lemma_concat_twins(t1, t2, x1, x2);
    lemma_concat_twins(t1 + x1, t2 + x2, f1, f2);
    lemma_concat_twins(t1 + x1 + f1, t2 + x2 + f2, p1, p2);
    lemma_concat_twins(t1 + x1 + f1 + p1, t2 + x2 + f2 + p2, q1, q2);

    lemma_twins_aircraft_open_failure(idx, line, lower, ls);
    lemma_twins_macos_security_block(idx, line, lower);
    lemma_twins_application_crash(idx, line);
    lemma_twins_duplicate_scenery(idx, line, lower);
    let r1 = opt_seq(spec_aircraft_open_failure(idx, line, lower, ls, z));
    let r2 = opt_seq(spec_aircraft_open_failure(idx, line, lower, ls, e));
    let m1 = if macos { opt_seq(spec_macos_security_block(idx, line, lower, z)) } else { seq![] };
    let m2 = if macos { opt_seq(spec_macos_security_block(idx, line, lower, e)) } else { seq![] };
    let k1 = opt_seq(spec_application_crash(idx, line, z));
    let k2 = opt_seq(spec_application_crash(idx, line, e));
    let u1 = opt_seq(spec_duplicate_scenery(idx, line, lower, z));
    let u2 = opt_seq(spec_duplicate_scenery(idx, line, lower, e));
    lemma_opt_seq_twins(spec_aircraft_open_failure(idx, line, lower, ls, z), spec_aircraft_open_failure(idx, line, lower, ls, e));
    lemma_opt_seq_twins(spec_macos_security_block(idx, line, lower, z), spec_macos_security_block(idx, line, lower, e));
    lemma_opt_seq_twins(spec_application_crash(idx, line, z), spec_application_crash(idx, line, e));
    lemma_opt_seq_twins(spec_duplicate_scenery(idx, line, lower, z), spec_duplicate_scenery(idx, line, lower, e));
    assert(seq_twins(m1, m2));
    lemma_concat_twins(r1, r2, m1, m2);
    lemma_concat_twins(r1 + m1, r2 + m2, k1, k2);
    lemma_concat_twins(r1 + m1 + k1, r2 + m2 + k2, u1, u2);
}


pub proof fn lemma_twins_line(idx: nat, ls: Seq<Seq<char>>, macos: bool)
    requires
        idx < ls.len(),
    ensures
        seq_twins(
            crate::rules::analyze::line_findings(idx, ls, macos, Locale::Zh),
            crate::rules::analyze::line_findings(idx, ls, macos, Locale::En),
        ),
{
    reveal(crate::rules::analyze::line_findings);
    let line = ls[idx as int];
    let lw = crate::text::lower(line);
    lemma_twins_parts(idx, line, lw, ls, macos);
    let z = Locale::Zh;
    let e = Locale::En;
    lemma_concat_twins(part1(idx, line, lw, z), part1(idx, line, lw, e), part2(idx, line, lw, z), part2(idx, line, lw, e));
    lemma_concat_twins(part1(idx, line, lw, z) + part2(idx, line, lw, z), part1(idx, line, lw, e) + part2(idx, line, lw, e), part3(idx, line, lw, ls, z), part3(idx, line, lw, ls, e));
    lemma_concat_twins(part1(idx, line, lw, z) + part2(idx, line, lw, z) + part3(idx, line, lw, ls, z), part1(idx, line, lw, e) + part2(idx, line, lw, e) + part3(idx, line, lw, ls, e), part4(idx, line, lw, ls, macos, z), part4(idx, line, lw, ls, macos, e));
}

pub proof fn lemma_twins_all_lines(ls: Seq<Seq<char>>, n: nat, macos: bool)
    ensures
        seq_twins(
            crate::rules::analyze::all_line_findings(ls, n, macos, Locale::Zh),
            crate::rules::analyze::all_line_findings(ls, n, macos, Locale::En),
        ),
    decreases n,
{
    if n > 0 && n <= ls.len() {
        let m = (n - 1) as nat;
        lemma_twins_all_lines(ls, m, macos);
        lemma_twins_line(m, ls, macos);
        lemma_concat_twins(
            crate::rules::analyze::all_line_findings(ls, m, macos, Locale::Zh),
            crate::rules::analyze::all_line_findings(ls, m, macos, Locale::En),
            crate::rules::analyze::line_findings(m, ls, macos, Locale::Zh),
            crate::rules::analyze::line_findings(m, ls, macos, Locale::En),
        );
    }
}

/// Two channel tables with the same channels, in the same order, and twin findings.
pub open spec fn table_twins(a: Seq<(Seq<char>, FindingView)>, b: Seq<(Seq<char>, FindingView)>) -> bool {
    a.len() == b.len() && forall|i: int|
        0 <= i < a.len() ==> (#[trigger] a[i]).0 == b[i].0 && twins(a[i].1, b[i].1) && a[i].1.kind
            == "xplane_subsystem_errors"@
}

proof fn lemma_table_positions(a: Seq<(Seq<char>, FindingView)>, b: Seq<(Seq<char>, FindingView)>, key: Seq<char>, i: int)
    requires
        table_twins(a, b),
    ensures
        crate::rules::subsystem::key_index(a, key, i) == crate::rules::subsystem::key_index(b, key, i),
        crate::rules::subsystem::insert_pos(a, key, i) == crate::rules::subsystem::insert_pos(b, key, i),
    decreases a.len() - i,
{
    if 0 <= i < a.len() {
        lemma_table_positions(a, b, key, i + 1);
    }
}

proof fn lemma_insert_pos_range(t: Seq<(Seq<char>, FindingView)>, key: Seq<char>, i: int)
    requires
        0 <= i <= t.len(),
    ensures
        i <= crate::rules::subsystem::insert_pos(t, key, i) <= t.len(),
    decreases t.len() - i,
{
    if i < t.len() {
        lemma_insert_pos_range(t, key, i + 1);
    }
}

pub proof fn lemma_twins_table(ls: Seq<Seq<char>>, n: nat)
    ensures
        table_twins(
            crate::rules::subsystem::channel_table(ls, n, Locale::Zh),
            crate::rules::subsystem::channel_table(ls, n, Locale::En),
        ),
    decreases n,
{
    reveal_strlit("xplane_subsystem_errors");
    reveal_strlit("third_party_plugin_error");
    assert("xplane_subsystem_errors"@.len() != "third_party_plugin_error"@.len());
    if n > 0 && n <= ls.len() {
        let m = (n - 1) as nat;
        lemma_twins_table(ls, m);
        let a = crate::rules::subsystem::channel_table(ls, m, Locale::Zh);
        let b = crate::rules::subsystem::channel_table(ls, m, Locale::En);
        let line = ls[m as int];
        match crate::rules::channels::error_channel(line) {
            None => {},
            Some(ch) => {
                lemma_table_positions(a, b, ch, 0);
                let ua = crate::rules::subsystem::table_step(a, m, line, Locale::Zh);
                let ub = crate::rules::subsystem::table_step(b, m, line, Locale::En);
                match crate::rules::subsystem::key_index(a, ch, 0) {
                    Some(j) => {
                        crate::rules::subsystem::lemma_key_index_range(a, ch, 0);
                        assert(twins(ua[j].1, ub[j].1));
                        assert forall|i: int| 0 <= i < ua.len() implies (#[trigger] ua[i]).0 == ub[i].0
                            && twins(ua[i].1, ub[i].1) && ua[i].1.kind == "xplane_subsystem_errors"@ by {
                            if i != j {
                                assert(ua[i] == a[i]);
                                assert(ub[i] == b[i]);
                            }
                        }
                    },
                    None => {
                        let p = crate::rules::subsystem::insert_pos(a, ch, 0);
                        lemma_insert_pos_range(a, ch, 0);
                        assert forall|i: int| 0 <= i < ua.len() implies (#[trigger] ua[i]).0 == ub[i].0
                            && twins(ua[i].1, ub[i].1) && ua[i].1.kind == "xplane_subsystem_errors"@ by {
                            if i < p {
                                assert(ua[i] == a[i]);
                                assert(ub[i] == b[i]);
                            } else if i > p {
                                assert(ua[i] == a[i - 1]);
                                assert(ub[i] == b[i - 1]);
                            }
                        }
                    },
                }
            },
        }
    }
}

pub proof fn lemma_twins_subsystem(ls: Seq<Seq<char>>)
    ensures
        seq_twins(
            crate::rules::subsystem::subsystem_findings(ls, Locale::Zh),
            crate::rules::subsystem::subsystem_findings(ls, Locale::En),
        ),
{
    lemma_twins_table(ls, ls.len());
    let a = crate::rules::subsystem::channel_table(ls, ls.len(), Locale::Zh);
    let b = crate::rules::subsystem::channel_table(ls, ls.len(), Locale::En);
    let sa = crate::rules::subsystem::subsystem_findings(ls, Locale::Zh);
    let sb = crate::rules::subsystem::subsystem_findings(ls, Locale::En);
    assert forall|i: int| 0 <= i < sa.len() implies twins(#[trigger] sa[i], sb[i]) by {
        assert(sa[i] == a[i].1);
        assert(sb[i] == b[i].1);
    }
}


pub proof fn lemma_twins_raw(ls: Seq<Seq<char>>)
    ensures
        seq_twins(
            crate::rules::analyze::raw_findings(ls, Locale::Zh),
            crate::rules::analyze::raw_findings(ls, Locale::En),
        ),
{
    let z = Locale::Zh;
    let e = Locale::En;
    let macos = crate::rules::analyze::is_macos_log(ls);
    lemma_twins_subsystem(ls);
    lemma_twins_all_lines(ls, ls.len(), macos);
    let s1 = crate::rules::subsystem::subsystem_findings(ls, z);
    let s2 = crate::rules::subsystem::subsystem_findings(ls, e);
    let l1 = crate::rules::analyze::all_line_findings(ls, ls.len(), macos, z);
    let l2 = crate::rules::analyze::all_line_findings(ls, ls.len(), macos, e);
    lemma_concat_twins(s1, s2, l1, l2);
    let f1 = s1 + l1;
    let f2 = s2 + l2;
    if crate::rules::context::crash_index(ls) is Some || crate::rules::analyze::has_gpu_crash_signal(ls) {
        lemma_twins_scenery_load_crash_context(ls);
        lemma_twins_last_loaded_context(ls);
        lemma_twins_pre_crash_context(ls);
        lemma_opt_seq_twins(spec_scenery_load_crash_context(ls, z), spec_scenery_load_crash_context(ls, e));
        lemma_opt_seq_twins(spec_last_loaded_context(ls, z), spec_last_loaded_context(ls, e));
        lemma_opt_seq_twins(spec_pre_crash_context(ls, z), spec_pre_crash_context(ls, e));
        let a1 = f1 + opt_seq(spec_scenery_load_crash_context(ls, z));
        let a2 = f2 + opt_seq(spec_scenery_load_crash_context(ls, e));
        lemma_concat_twins(f1, f2, opt_seq(spec_scenery_load_crash_context(ls, z)), opt_seq(spec_scenery_load_crash_context(ls, e)));
        let b1 = a1 + opt_seq(spec_last_loaded_context(ls, z));
        let b2 = a2 + opt_seq(spec_last_loaded_context(ls, e));
        lemma_concat_twins(a1, a2, opt_seq(spec_last_loaded_context(ls, z)), opt_seq(spec_last_loaded_context(ls, e)));
        let g1 = b1 + opt_seq(spec_pre_crash_context(ls, z));
        let g2 = b2 + opt_seq(spec_pre_crash_context(ls, e));
        lemma_concat_twins(b1, b2, opt_seq(spec_pre_crash_context(ls, z)), opt_seq(spec_pre_crash_context(ls, e)));
        lemma_twins_early_silent_crash(ls, g1, g2);
        lemma_opt_seq_twins(spec_early_silent_crash(ls, g1, z), spec_early_silent_crash(ls, g2, e));
        lemma_concat_twins(g1, g2, opt_seq(spec_early_silent_crash(ls, g1, z)), opt_seq(spec_early_silent_crash(ls, g2, e)));
    } else {
        lemma_twins_abrupt_termination(ls);
        lemma_opt_seq_twins(spec_abrupt_termination(ls, z), spec_abrupt_termination(ls, e));
        lemma_concat_twins(f1, f2, opt_seq(spec_abrupt_termination(ls, z)), opt_seq(spec_abrupt_termination(ls, e)));
    }
}

} // verus!
