//! Which kinds of finding the rules give.
use vstd::prelude::*;

use crate::i18n::Locale;
use crate::rules::analyze::{all_line_findings, line_findings, part1, part2, part3, part4};
use crate::rules::analyze::opt_seq;
use crate::rules::assets::{
    lemma_aircraft_open_failure_once, lemma_application_crash_once,
    lemma_missing_scenery_asset_once, lemma_missing_scenery_object_once,
    spec_aircraft_open_failure, spec_application_crash, spec_missing_scenery_asset,
    spec_missing_scenery_object,
};
use crate::rules::keywords::{
    lemma_duplicate_scenery_once, lemma_flywithlua_error_once, lemma_graphics_api_error_once,
    lemma_macos_security_block_once, lemma_memory_vram_once,
    lemma_missing_global_scenery_tile_once, lemma_missing_scenery_library_once,
    lemma_plugin_load_failed_once, lemma_vulkan_device_lost_once, spec_duplicate_scenery,
    spec_flywithlua_error, spec_graphics_api_error, spec_macos_security_block, spec_memory_vram,
    spec_missing_global_scenery_tile, spec_missing_scenery_library, spec_plugin_load_failed,
    spec_vulkan_device_lost,
};
use crate::rules::plugins::{
    lemma_plugin_encountered_error_once, lemma_third_party_plugin_error_once,
    lemma_threading_violation_once, lemma_xplm_bypass_once, spec_plugin_encountered_error,
    spec_third_party_plugin_error, spec_threading_violation, spec_xplm_bypass,
};
use crate::rules::vram::{lemma_texture_vram_pressure_once, spec_texture_vram_pressure};
use crate::rules::vulkan::{lemma_vulkan_result_error_once, spec_vulkan_result_error, vk_code_in};

verus! {

/// The kinds of the rules of part 1 of a line's rules.
pub open spec fn part1_kind(k: Seq<char>) -> bool {
    ||| k == "plugin_load_failed"@
    ||| k == "vulkan_result_error"@
    ||| k == "graphics_vulkan_error"@
    ||| k == "memory_or_vram"@
    ||| k == "texture_vram_pressure"@
}

/// The kinds of the rules of part 2 of a line's rules.
pub open spec fn part2_kind(k: Seq<char>) -> bool {
    ||| k == "missing_scenery_asset"@
    ||| k == "missing_scenery_object"@
    ||| k == "missing_scenery_library"@
    ||| k == "missing_global_scenery_tile"@
    ||| k == "vulkan_device_lost"@
}

/// The kinds of the rules of part 3 of a line's rules.
pub open spec fn part3_kind(k: Seq<char>) -> bool {
    ||| k == "threading_violation"@
    ||| k == "xplm_bypass"@
    ||| k == "flywithlua_error"@
    ||| k == "third_party_plugin_error"@
    ||| k == "plugin_encountered_error"@
}

/// The kinds of the rules of part 4 of a line's rules.
pub open spec fn part4_kind(k: Seq<char>) -> bool {
    ||| k == "aircraft_open_failure"@
    ||| k == "macos_security_block"@
    ||| k == "application_crash"@
    ||| k == "duplicate_scenery_log"@
}

/// The kinds of the findings about the crash context of a log.
pub open spec fn context_kind(k: Seq<char>) -> bool {
    ||| k == "scenery_load_crash_context"@
    ||| k == "last_loaded_context"@
    ||| k == "pre_crash_context"@
    ||| k == "early_silent_crash"@
}

/// A finding seen once, with its evidence in `Log.txt`.
pub open spec fn fresh(f: crate::model::FindingView) -> bool {
    f.occurrences == 1 && crate::rules::evidence::log_evidence(f.evidence)
}

/// A finding of the line at `idx`: that line as its only evidence.
pub open spec fn from_line(f: crate::model::FindingView, idx: nat, line: Seq<char>) -> bool {
    f.extra_evidence.len() == 0 && f.evidence == crate::rules::evidence::evidence_text(idx, line)
}

/// No two findings of the list share a kind.
pub open spec fn kinds_distinct(s: Seq<crate::model::FindingView>) -> bool {
    forall|i: int, j: int| 0 <= i < j < s.len() ==> (#[trigger] s[i]).kind != (#[trigger] s[j]).kind
}

/// The kinds the per-line rules give.
pub open spec fn line_rule_kind(k: Seq<char>) -> bool {
    part1_kind(k) || part2_kind(k) || part3_kind(k) || part4_kind(k)
}

pub proof fn lemma_part1_kinds(idx: nat, line: Seq<char>, lower: Seq<char>, loc: Locale)
    ensures
        forall|i: int|
            0 <= i < part1(idx, line, lower, loc).len() ==> part1_kind(
                (#[trigger] part1(idx, line, lower, loc)[i]).kind,
            ) && fresh(part1(idx, line, lower, loc)[i]) && from_line(part1(idx, line, lower, loc)[i], idx, line),
{
    lemma_plugin_load_failed_once(idx, line, lower, loc);
    lemma_graphics_api_error_once(idx, line, lower, loc);
    lemma_memory_vram_once(idx, line, lower, loc);
    lemma_texture_vram_pressure_once(idx, line, lower, loc);
    match vk_code_in(line) {
        Some(c) => lemma_vulkan_result_error_once(idx, line, c, loc),
        None => {},
    }
    let p = part1(idx, line, lower, loc);
    assert forall|i: int| 0 <= i < p.len() implies part1_kind((#[trigger] p[i]).kind) && fresh(p[i]) && from_line(p[i], idx, line) by {
        let a = opt_seq(spec_plugin_load_failed(idx, line, lower, loc));
        let b = match vk_code_in(line) {
            Some(c) => seq![spec_vulkan_result_error(idx, line, c, loc)],
            None => opt_seq(spec_graphics_api_error(idx, line, lower, loc)),
        };
        let c = opt_seq(spec_memory_vram(idx, line, lower, loc));
        let d = opt_seq(spec_texture_vram_pressure(idx, line, lower, loc));
        assert(p == a + b + c + d);
        lemma_in4(a, b, c, d, i);
    }
}

pub proof fn lemma_part2_kinds(idx: nat, line: Seq<char>, lower: Seq<char>, loc: Locale)
    ensures
        forall|i: int|
            0 <= i < part2(idx, line, lower, loc).len() ==> part2_kind(
                (#[trigger] part2(idx, line, lower, loc)[i]).kind,
            ) && fresh(part2(idx, line, lower, loc)[i]) && from_line(part2(idx, line, lower, loc)[i], idx, line),
{
    lemma_missing_scenery_asset_once(idx, line, lower, loc);
    lemma_missing_scenery_object_once(idx, line, lower, loc);
    lemma_missing_scenery_library_once(idx, line, lower, loc);
    lemma_missing_global_scenery_tile_once(idx, line, lower, loc);
    lemma_vulkan_device_lost_once(idx, line, lower, loc);
    let p = part2(idx, line, lower, loc);
    assert forall|i: int| 0 <= i < p.len() implies part2_kind((#[trigger] p[i]).kind) && fresh(p[i]) && from_line(p[i], idx, line) by {
        let a = opt_seq(spec_missing_scenery_asset(idx, line, lower, loc));
        let b = opt_seq(spec_missing_scenery_object(idx, line, lower, loc));
        let c = opt_seq(spec_missing_scenery_library(idx, line, lower, loc));
        let d = opt_seq(spec_missing_global_scenery_tile(idx, line, lower, loc));
        let e = if vk_code_in(line) is None {
            opt_seq(spec_vulkan_device_lost(idx, line, lower, loc))
        } else {
            seq![]
        };
        assert(p == a + b + c + d + e);
        lemma_in2(a + b + c + d, e, i);
        if i < (a + b + c + d).len() {
            lemma_in4(a, b, c, d, i);
        }
    }
}

pub proof fn lemma_part3_kinds(
    idx: nat,
    line: Seq<char>,
    lower: Seq<char>,
    ls: Seq<Seq<char>>,
    loc: Locale,
)
    ensures
        forall|i: int|
            0 <= i < part3(idx, line, lower, ls, loc).len() ==> part3_kind(
                (#[trigger] part3(idx, line, lower, ls, loc)[i]).kind,
            ) && fresh(part3(idx, line, lower, ls, loc)[i]) && from_line(part3(idx, line, lower, ls, loc)[i], idx, line),
{
    lemma_threading_violation_once(idx, line, lower, ls, loc);
    lemma_xplm_bypass_once(idx, line, lower, loc);
    lemma_flywithlua_error_once(idx, line, lower, loc);
    lemma_third_party_plugin_error_once(idx, line, lower, loc);
    lemma_plugin_encountered_error_once(idx, line, lower, loc);
    let p = part3(idx, line, lower, ls, loc);
    assert forall|i: int| 0 <= i < p.len() implies part3_kind((#[trigger] p[i]).kind) && fresh(p[i]) && from_line(p[i], idx, line) by {
        let a = opt_seq(spec_threading_violation(idx, line, lower, ls, loc));
        let b = opt_seq(spec_xplm_bypass(idx, line, lower, loc));
        let c = opt_seq(spec_flywithlua_error(idx, line, lower, loc));
        let d = opt_seq(spec_third_party_plugin_error(idx, line, lower, loc));
        let e = opt_seq(spec_plugin_encountered_error(idx, line, lower, loc));
        assert(p == a + b + c + d + e);
        lemma_in2(a + b + c + d, e, i);
        if i < (a + b + c + d).len() {
            lemma_in4(a, b, c, d, i);
        }
    }
}

pub proof fn lemma_part4_kinds(
    idx: nat,
    line: Seq<char>,
    lower: Seq<char>,
    ls: Seq<Seq<char>>,
    macos: bool,
    loc: Locale,
)
    ensures
        forall|i: int|
            0 <= i < part4(idx, line, lower, ls, macos, loc).len() ==> part4_kind(
                (#[trigger] part4(idx, line, lower, ls, macos, loc)[i]).kind,
            ) && fresh(part4(idx, line, lower, ls, macos, loc)[i]) && from_line(part4(idx, line, lower, ls, macos, loc)[i], idx, line),
        forall|i: int|
            0 <= i < part4(idx, line, lower, ls, macos, loc).len() && (#[trigger] part4(
                idx,
                line,
                lower,
                ls,
                macos,
                loc,
            )[i]).kind == "macos_security_block"@ ==> macos && spec_macos_security_block(
                idx,
                line,
                lower,
                loc,
            ) is Some,
        macos && spec_macos_security_block(idx, line, lower, loc) is Some ==> exists|i: int|
            0 <= i < part4(idx, line, lower, ls, macos, loc).len() && (#[trigger] part4(
                idx,
                line,
                lower,
                ls,
                macos,
                loc,
            )[i]).kind == "macos_security_block"@,
{
    reveal_strlit("aircraft_open_failure");
    reveal_strlit("macos_security_block");
    reveal_strlit("application_crash");
    reveal_strlit("duplicate_scenery_log");
    lemma_aircraft_open_failure_once(idx, line, lower, ls, loc);
    lemma_macos_security_block_once(idx, line, lower, loc);
    lemma_application_crash_once(idx, line, loc);
    lemma_duplicate_scenery_once(idx, line, lower, loc);
    let p = part4(idx, line, lower, ls, macos, loc);
    assert forall|i: int| 0 <= i < p.len() implies part4_kind((#[trigger] p[i]).kind) && fresh(p[i]) && from_line(p[i], idx, line) by {
        let a = opt_seq(spec_aircraft_open_failure(idx, line, lower, ls, loc));
        let b = if macos {
            opt_seq(spec_macos_security_block(idx, line, lower, loc))
        } else {
            seq![]
        };
        let c = opt_seq(spec_application_crash(idx, line, loc));
        let d = opt_seq(spec_duplicate_scenery(idx, line, lower, loc));
        assert(p == a + b + c + d);
        lemma_in4(a, b, c, d, i);
    }
    assert forall|i: int| 0 <= i < p.len() && (#[trigger] p[i]).kind == "macos_security_block"@ implies macos
        && spec_macos_security_block(idx, line, lower, loc) is Some by {
        let a = opt_seq(spec_aircraft_open_failure(idx, line, lower, ls, loc));
        let b = if macos {
            opt_seq(spec_macos_security_block(idx, line, lower, loc))
        } else {
            seq![]
        };
        let c = opt_seq(spec_application_crash(idx, line, loc));
        let d = opt_seq(spec_duplicate_scenery(idx, line, lower, loc));
        assert(p == a + b + c + d);
        lemma_in4(a, b, c, d, i);
        assert("aircraft_open_failure"@.len() != "macos_security_block"@.len());
        assert("application_crash"@.len() != "macos_security_block"@.len());
        assert("duplicate_scenery_log"@.len() != "macos_security_block"@.len());
    }
    if macos && spec_macos_security_block(idx, line, lower, loc) is Some {
        let a = opt_seq(spec_aircraft_open_failure(idx, line, lower, ls, loc));
        assert(p[a.len() as int] == spec_macos_security_block(idx, line, lower, loc).unwrap());
    }
}

/// The kinds of the different groups of findings are different.
pub proof fn lemma_kinds_differ(k: Seq<char>)
    ensures
        line_rule_kind(k) ==> k != "xplane_subsystem_errors"@ && !context_kind(k) && k
            != "abrupt_termination"@,
        context_kind(k) || k == "xplane_subsystem_errors"@ ==> k != "abrupt_termination"@,
        part1_kind(k) || part2_kind(k) || part3_kind(k) || context_kind(k) || k
            == "xplane_subsystem_errors"@ || k == "abrupt_termination"@ ==> k != "macos_security_block"@,
        k == "macos_security_block"@ ==> crate::laws::plain_kind(k),
        k == "abrupt_termination"@ || k == "xplane_subsystem_errors"@ ==> !context_kind(k),
{

    reveal_strlit("abrupt_termination");
    reveal_strlit("aircraft_open_failure");
    reveal_strlit("application_crash");
    reveal_strlit("duplicate_scenery_log");
    reveal_strlit("early_silent_crash");
    reveal_strlit("flywithlua_error");
    reveal_strlit("graphics_vulkan_error");
    reveal_strlit("last_loaded_context");
    reveal_strlit("macos_security_block");
    reveal_strlit("memory_or_vram");
    reveal_strlit("missing_global_scenery_tile");
    reveal_strlit("missing_scenery_asset");
    reveal_strlit("missing_scenery_library");
    reveal_strlit("missing_scenery_object");
    reveal_strlit("plugin_encountered_error");
    reveal_strlit("plugin_load_failed");
    reveal_strlit("pre_crash_context");
    reveal_strlit("scenery_load_crash_context");
    reveal_strlit("texture_vram_pressure");
    reveal_strlit("third_party_plugin_error");
    reveal_strlit("threading_violation");
    reveal_strlit("vulkan_device_lost");
    reveal_strlit("vulkan_result_error");
    reveal_strlit("xplane_subsystem_errors");
    reveal_strlit("xplm_bypass");
    assert("plugin_load_failed"@.len() != "scenery_load_crash_context"@.len());
    assert("plugin_load_failed"@.len() != "last_loaded_context"@.len());
    assert("plugin_load_failed"@.len() != "pre_crash_context"@.len());
    assert("plugin_load_failed"@[0] != "early_silent_crash"@[0]);
    assert("plugin_load_failed"@[0] != "abrupt_termination"@[0]);
    assert("plugin_load_failed"@.len() != "xplane_subsystem_errors"@.len());
    assert("vulkan_result_error"@.len() != "scenery_load_crash_context"@.len());
    assert("vulkan_result_error"@[0] != "last_loaded_context"@[0]);
    assert("vulkan_result_error"@.len() != "pre_crash_context"@.len());
    assert("vulkan_result_error"@.len() != "early_silent_crash"@.len());
    assert("vulkan_result_error"@.len() != "abrupt_termination"@.len());
    assert("vulkan_result_error"@.len() != "xplane_subsystem_errors"@.len());
    assert("graphics_vulkan_error"@.len() != "scenery_load_crash_context"@.len());
    assert("graphics_vulkan_error"@.len() != "last_loaded_context"@.len());
    assert("graphics_vulkan_error"@.len() != "pre_crash_context"@.len());
    assert("graphics_vulkan_error"@.len() != "early_silent_crash"@.len());
    assert("graphics_vulkan_error"@.len() != "abrupt_termination"@.len());
    assert("graphics_vulkan_error"@.len() != "xplane_subsystem_errors"@.len());
    assert("memory_or_vram"@.len() != "scenery_load_crash_context"@.len());
    assert("memory_or_vram"@.len() != "last_loaded_context"@.len());
    assert("memory_or_vram"@.len() != "pre_crash_context"@.len());
    assert("memory_or_vram"@.len() != "early_silent_crash"@.len());
    assert("memory_or_vram"@.len() != "abrupt_termination"@.len());
    assert("memory_or_vram"@.len() != "xplane_subsystem_errors"@.len());
    assert("texture_vram_pressure"@.len() != "scenery_load_crash_context"@.len());
    assert("texture_vram_pressure"@.len() != "last_loaded_context"@.len());
    assert("texture_vram_pressure"@.len() != "pre_crash_context"@.len());
    assert("texture_vram_pressure"@.len() != "early_silent_crash"@.len());
    assert("texture_vram_pressure"@.len() != "abrupt_termination"@.len());
    assert("texture_vram_pressure"@.len() != "xplane_subsystem_errors"@.len());
    assert("missing_scenery_asset"@.len() != "scenery_load_crash_context"@.len());
    assert("missing_scenery_asset"@.len() != "last_loaded_context"@.len());
    assert("missing_scenery_asset"@.len() != "pre_crash_context"@.len());
    assert("missing_scenery_asset"@.len() != "early_silent_crash"@.len());
    assert("missing_scenery_asset"@.len() != "abrupt_termination"@.len());
    assert("missing_scenery_asset"@.len() != "xplane_subsystem_errors"@.len());
    assert("missing_scenery_object"@.len() != "scenery_load_crash_context"@.len());
    assert("missing_scenery_object"@.len() != "last_loaded_context"@.len());
    assert("missing_scenery_object"@.len() != "pre_crash_context"@.len());
    assert("missing_scenery_object"@.len() != "early_silent_crash"@.len());
    assert("missing_scenery_object"@.len() != "abrupt_termination"@.len());
    assert("missing_scenery_object"@.len() != "xplane_subsystem_errors"@.len());
    assert("missing_scenery_library"@.len() != "scenery_load_crash_context"@.len());
    assert("missing_scenery_library"@.len() != "last_loaded_context"@.len());
    assert("missing_scenery_library"@.len() != "pre_crash_context"@.len());
    assert("missing_scenery_library"@.len() != "early_silent_crash"@.len());
    assert("missing_scenery_library"@.len() != "abrupt_termination"@.len());
    assert("missing_scenery_library"@[0] != "xplane_subsystem_errors"@[0]);
    assert("missing_global_scenery_tile"@.len() != "scenery_load_crash_context"@.len());
    assert("missing_global_scenery_tile"@.len() != "last_loaded_context"@.len());
    assert("missing_global_scenery_tile"@.len() != "pre_crash_context"@.len());
    assert("missing_global_scenery_tile"@.len() != "early_silent_crash"@.len());
    assert("missing_global_scenery_tile"@.len() != "abrupt_termination"@.len());
    assert("missing_global_scenery_tile"@.len() != "xplane_subsystem_errors"@.len());
    assert("vulkan_device_lost"@.len() != "scenery_load_crash_context"@.len());
    assert("vulkan_device_lost"@.len() != "last_loaded_context"@.len());
    assert("vulkan_device_lost"@.len() != "pre_crash_context"@.len());
    assert("vulkan_device_lost"@[0] != "early_silent_crash"@[0]);
    assert("vulkan_device_lost"@[0] != "abrupt_termination"@[0]);
    assert("vulkan_device_lost"@.len() != "xplane_subsystem_errors"@.len());
    assert("threading_violation"@.len() != "scenery_load_crash_context"@.len());
    assert("threading_violation"@[0] != "last_loaded_context"@[0]);
    assert("threading_violation"@.len() != "pre_crash_context"@.len());
    assert("threading_violation"@.len() != "early_silent_crash"@.len());
    assert("threading_violation"@.len() != "abrupt_termination"@.len());
    assert("threading_violation"@.len() != "xplane_subsystem_errors"@.len());
    assert("xplm_bypass"@.len() != "scenery_load_crash_context"@.len());
    assert("xplm_bypass"@.len() != "last_loaded_context"@.len());
    assert("xplm_bypass"@.len() != "pre_crash_context"@.len());
    assert("xplm_bypass"@.len() != "early_silent_crash"@.len());
    assert("xplm_bypass"@.len() != "abrupt_termination"@.len());
    assert("xplm_bypass"@.len() != "xplane_subsystem_errors"@.len());
    assert("flywithlua_error"@.len() != "scenery_load_crash_context"@.len());
    assert("flywithlua_error"@.len() != "last_loaded_context"@.len());
    assert("flywithlua_error"@.len() != "pre_crash_context"@.len());
    assert("flywithlua_error"@.len() != "early_silent_crash"@.len());
    assert("flywithlua_error"@.len() != "abrupt_termination"@.len());
    assert("flywithlua_error"@.len() != "xplane_subsystem_errors"@.len());
    assert("third_party_plugin_error"@.len() != "scenery_load_crash_context"@.len());
    assert("third_party_plugin_error"@.len() != "last_loaded_context"@.len());
    assert("third_party_plugin_error"@.len() != "pre_crash_context"@.len());
    assert("third_party_plugin_error"@.len() != "early_silent_crash"@.len());
    assert("third_party_plugin_error"@.len() != "abrupt_termination"@.len());
    assert("third_party_plugin_error"@.len() != "xplane_subsystem_errors"@.len());
    assert("plugin_encountered_error"@.len() != "scenery_load_crash_context"@.len());
    assert("plugin_encountered_error"@.len() != "last_loaded_context"@.len());
    assert("plugin_encountered_error"@.len() != "pre_crash_context"@.len());
    assert("plugin_encountered_error"@.len() != "early_silent_crash"@.len());
    assert("plugin_encountered_error"@.len() != "abrupt_termination"@.len());
    assert("plugin_encountered_error"@.len() != "xplane_subsystem_errors"@.len());
    assert("aircraft_open_failure"@.len() != "scenery_load_crash_context"@.len());
    assert("aircraft_open_failure"@.len() != "last_loaded_context"@.len());
    assert("aircraft_open_failure"@.len() != "pre_crash_context"@.len());
    assert("aircraft_open_failure"@.len() != "early_silent_crash"@.len());
    assert("aircraft_open_failure"@.len() != "abrupt_termination"@.len());
    assert("aircraft_open_failure"@.len() != "xplane_subsystem_errors"@.len());
    assert("macos_security_block"@.len() != "scenery_load_crash_context"@.len());
    assert("macos_security_block"@.len() != "last_loaded_context"@.len());
    assert("macos_security_block"@.len() != "pre_crash_context"@.len());
    assert("macos_security_block"@.len() != "early_silent_crash"@.len());
    assert("macos_security_block"@.len() != "abrupt_termination"@.len());
    assert("macos_security_block"@.len() != "xplane_subsystem_errors"@.len());
    assert("application_crash"@.len() != "scenery_load_crash_context"@.len());
    assert("application_crash"@.len() != "last_loaded_context"@.len());
    assert("application_crash"@[0] != "pre_crash_context"@[0]);
    assert("application_crash"@.len() != "early_silent_crash"@.len());
    assert("application_crash"@.len() != "abrupt_termination"@.len());
    assert("application_crash"@.len() != "xplane_subsystem_errors"@.len());
    assert("duplicate_scenery_log"@.len() != "scenery_load_crash_context"@.len());
    assert("duplicate_scenery_log"@.len() != "last_loaded_context"@.len());
    assert("duplicate_scenery_log"@.len() != "pre_crash_context"@.len());
    assert("duplicate_scenery_log"@.len() != "early_silent_crash"@.len());
    assert("duplicate_scenery_log"@.len() != "abrupt_termination"@.len());
    assert("duplicate_scenery_log"@.len() != "xplane_subsystem_errors"@.len());
    assert("scenery_load_crash_context"@.len() != "abrupt_termination"@.len());
    assert("last_loaded_context"@.len() != "abrupt_termination"@.len());
    assert("pre_crash_context"@.len() != "abrupt_termination"@.len());
    assert("early_silent_crash"@[0] != "abrupt_termination"@[0]);
    assert("xplane_subsystem_errors"@.len() != "abrupt_termination"@.len());
    assert("plugin_load_failed"@.len() != "macos_security_block"@.len());
    assert("vulkan_result_error"@.len() != "macos_security_block"@.len());
    assert("graphics_vulkan_error"@.len() != "macos_security_block"@.len());
    assert("memory_or_vram"@.len() != "macos_security_block"@.len());
    assert("texture_vram_pressure"@.len() != "macos_security_block"@.len());
    assert("missing_scenery_asset"@.len() != "macos_security_block"@.len());
    assert("missing_scenery_object"@.len() != "macos_security_block"@.len());
    assert("missing_scenery_library"@.len() != "macos_security_block"@.len());
    assert("missing_global_scenery_tile"@.len() != "macos_security_block"@.len());
    assert("vulkan_device_lost"@.len() != "macos_security_block"@.len());
    assert("threading_violation"@.len() != "macos_security_block"@.len());
    assert("xplm_bypass"@.len() != "macos_security_block"@.len());
    assert("flywithlua_error"@.len() != "macos_security_block"@.len());
    assert("third_party_plugin_error"@.len() != "macos_security_block"@.len());
    assert("plugin_encountered_error"@.len() != "macos_security_block"@.len());
    assert("scenery_load_crash_context"@.len() != "macos_security_block"@.len());
    assert("last_loaded_context"@.len() != "macos_security_block"@.len());
    assert("pre_crash_context"@.len() != "macos_security_block"@.len());
    assert("early_silent_crash"@.len() != "macos_security_block"@.len());
    assert("xplane_subsystem_errors"@.len() != "macos_security_block"@.len());
    assert("abrupt_termination"@.len() != "macos_security_block"@.len());
    assert("scenery_load_crash_context"@.len() != "xplane_subsystem_errors"@.len());
    assert("last_loaded_context"@.len() != "xplane_subsystem_errors"@.len());
    assert("pre_crash_context"@.len() != "xplane_subsystem_errors"@.len());
    assert("early_silent_crash"@.len() != "xplane_subsystem_errors"@.len());
}


/// The kinds of the per-line rules differ from one another.
pub proof fn lemma_rule_kinds_differ()
    ensures
        "plugin_load_failed"@ != "vulkan_result_error"@,
        "plugin_load_failed"@ != "graphics_vulkan_error"@,
        "plugin_load_failed"@ != "memory_or_vram"@,
        "plugin_load_failed"@ != "texture_vram_pressure"@,
        "plugin_load_failed"@ != "missing_scenery_asset"@,
        "plugin_load_failed"@ != "missing_scenery_object"@,
        "plugin_load_failed"@ != "missing_scenery_library"@,
        "plugin_load_failed"@ != "missing_global_scenery_tile"@,
        "plugin_load_failed"@ != "vulkan_device_lost"@,
        "plugin_load_failed"@ != "threading_violation"@,
        "plugin_load_failed"@ != "xplm_bypass"@,
        "plugin_load_failed"@ != "flywithlua_error"@,
        "plugin_load_failed"@ != "third_party_plugin_error"@,
        "plugin_load_failed"@ != "plugin_encountered_error"@,
        "plugin_load_failed"@ != "aircraft_open_failure"@,
        "plugin_load_failed"@ != "macos_security_block"@,
        "plugin_load_failed"@ != "application_crash"@,
        "plugin_load_failed"@ != "duplicate_scenery_log"@,
        "vulkan_result_error"@ != "graphics_vulkan_error"@,
        "vulkan_result_error"@ != "memory_or_vram"@,
        "vulkan_result_error"@ != "texture_vram_pressure"@,
        "vulkan_result_error"@ != "missing_scenery_asset"@,
        "vulkan_result_error"@ != "missing_scenery_object"@,
        "vulkan_result_error"@ != "missing_scenery_library"@,
        "vulkan_result_error"@ != "missing_global_scenery_tile"@,
        "vulkan_result_error"@ != "vulkan_device_lost"@,
        "vulkan_result_error"@ != "threading_violation"@,
        "vulkan_result_error"@ != "xplm_bypass"@,
        "vulkan_result_error"@ != "flywithlua_error"@,
        "vulkan_result_error"@ != "third_party_plugin_error"@,
        "vulkan_result_error"@ != "plugin_encountered_error"@,
        "vulkan_result_error"@ != "aircraft_open_failure"@,
        "vulkan_result_error"@ != "macos_security_block"@,
        "vulkan_result_error"@ != "application_crash"@,
        "vulkan_result_error"@ != "duplicate_scenery_log"@,
        "graphics_vulkan_error"@ != "memory_or_vram"@,
        "graphics_vulkan_error"@ != "texture_vram_pressure"@,
        "graphics_vulkan_error"@ != "missing_scenery_asset"@,
        "graphics_vulkan_error"@ != "missing_scenery_object"@,
        "graphics_vulkan_error"@ != "missing_scenery_library"@,
        "graphics_vulkan_error"@ != "missing_global_scenery_tile"@,
        "graphics_vulkan_error"@ != "vulkan_device_lost"@,
        "graphics_vulkan_error"@ != "threading_violation"@,
        "graphics_vulkan_error"@ != "xplm_bypass"@,
        "graphics_vulkan_error"@ != "flywithlua_error"@,
        "graphics_vulkan_error"@ != "third_party_plugin_error"@,
        "graphics_vulkan_error"@ != "plugin_encountered_error"@,
        "graphics_vulkan_error"@ != "aircraft_open_failure"@,
        "graphics_vulkan_error"@ != "macos_security_block"@,
        "graphics_vulkan_error"@ != "application_crash"@,
        "graphics_vulkan_error"@ != "duplicate_scenery_log"@,
        "memory_or_vram"@ != "texture_vram_pressure"@,
        "memory_or_vram"@ != "missing_scenery_asset"@,
        "memory_or_vram"@ != "missing_scenery_object"@,
        "memory_or_vram"@ != "missing_scenery_library"@,
        "memory_or_vram"@ != "missing_global_scenery_tile"@,
        "memory_or_vram"@ != "vulkan_device_lost"@,
        "memory_or_vram"@ != "threading_violation"@,
        "memory_or_vram"@ != "xplm_bypass"@,
        "memory_or_vram"@ != "flywithlua_error"@,
        "memory_or_vram"@ != "third_party_plugin_error"@,
        "memory_or_vram"@ != "plugin_encountered_error"@,
        "memory_or_vram"@ != "aircraft_open_failure"@,
        "memory_or_vram"@ != "macos_security_block"@,
        "memory_or_vram"@ != "application_crash"@,
        "memory_or_vram"@ != "duplicate_scenery_log"@,
        "texture_vram_pressure"@ != "missing_scenery_asset"@,
        "texture_vram_pressure"@ != "missing_scenery_object"@,
        "texture_vram_pressure"@ != "missing_scenery_library"@,
        "texture_vram_pressure"@ != "missing_global_scenery_tile"@,
        "texture_vram_pressure"@ != "vulkan_device_lost"@,
        "texture_vram_pressure"@ != "threading_violation"@,
        "texture_vram_pressure"@ != "xplm_bypass"@,
        "texture_vram_pressure"@ != "flywithlua_error"@,
        "texture_vram_pressure"@ != "third_party_plugin_error"@,
        "texture_vram_pressure"@ != "plugin_encountered_error"@,
        "texture_vram_pressure"@ != "aircraft_open_failure"@,
        "texture_vram_pressure"@ != "macos_security_block"@,
        "texture_vram_pressure"@ != "application_crash"@,
        "texture_vram_pressure"@ != "duplicate_scenery_log"@,
        "missing_scenery_asset"@ != "missing_scenery_object"@,
        "missing_scenery_asset"@ != "missing_scenery_library"@,
        "missing_scenery_asset"@ != "missing_global_scenery_tile"@,
        "missing_scenery_asset"@ != "vulkan_device_lost"@,
        "missing_scenery_asset"@ != "threading_violation"@,
        "missing_scenery_asset"@ != "xplm_bypass"@,
        "missing_scenery_asset"@ != "flywithlua_error"@,
        "missing_scenery_asset"@ != "third_party_plugin_error"@,
        "missing_scenery_asset"@ != "plugin_encountered_error"@,
        "missing_scenery_asset"@ != "aircraft_open_failure"@,
        "missing_scenery_asset"@ != "macos_security_block"@,
        "missing_scenery_asset"@ != "application_crash"@,
        "missing_scenery_asset"@ != "duplicate_scenery_log"@,
        "missing_scenery_object"@ != "missing_scenery_library"@,
        "missing_scenery_object"@ != "missing_global_scenery_tile"@,
        "missing_scenery_object"@ != "vulkan_device_lost"@,
        "missing_scenery_object"@ != "threading_violation"@,
        "missing_scenery_object"@ != "xplm_bypass"@,
        "missing_scenery_object"@ != "flywithlua_error"@,
        "missing_scenery_object"@ != "third_party_plugin_error"@,
        "missing_scenery_object"@ != "plugin_encountered_error"@,
        "missing_scenery_object"@ != "aircraft_open_failure"@,
        "missing_scenery_object"@ != "macos_security_block"@,
        "missing_scenery_object"@ != "application_crash"@,
        "missing_scenery_object"@ != "duplicate_scenery_log"@,
        "missing_scenery_library"@ != "missing_global_scenery_tile"@,
        "missing_scenery_library"@ != "vulkan_device_lost"@,
        "missing_scenery_library"@ != "threading_violation"@,
        "missing_scenery_library"@ != "xplm_bypass"@,
        "missing_scenery_library"@ != "flywithlua_error"@,
        "missing_scenery_library"@ != "third_party_plugin_error"@,
        "missing_scenery_library"@ != "plugin_encountered_error"@,
        "missing_scenery_library"@ != "aircraft_open_failure"@,
        "missing_scenery_library"@ != "macos_security_block"@,
        "missing_scenery_library"@ != "application_crash"@,
        "missing_scenery_library"@ != "duplicate_scenery_log"@,
        "missing_global_scenery_tile"@ != "vulkan_device_lost"@,
        "missing_global_scenery_tile"@ != "threading_violation"@,
        "missing_global_scenery_tile"@ != "xplm_bypass"@,
        "missing_global_scenery_tile"@ != "flywithlua_error"@,
        "missing_global_scenery_tile"@ != "third_party_plugin_error"@,
        "missing_global_scenery_tile"@ != "plugin_encountered_error"@,
        "missing_global_scenery_tile"@ != "aircraft_open_failure"@,
        "missing_global_scenery_tile"@ != "macos_security_block"@,
        "missing_global_scenery_tile"@ != "application_crash"@,
        "missing_global_scenery_tile"@ != "duplicate_scenery_log"@,
        "vulkan_device_lost"@ != "threading_violation"@,
        "vulkan_device_lost"@ != "xplm_bypass"@,
        "vulkan_device_lost"@ != "flywithlua_error"@,
        "vulkan_device_lost"@ != "third_party_plugin_error"@,
        "vulkan_device_lost"@ != "plugin_encountered_error"@,
        "vulkan_device_lost"@ != "aircraft_open_failure"@,
        "vulkan_device_lost"@ != "macos_security_block"@,
        "vulkan_device_lost"@ != "application_crash"@,
        "vulkan_device_lost"@ != "duplicate_scenery_log"@,
        "threading_violation"@ != "xplm_bypass"@,
        "threading_violation"@ != "flywithlua_error"@,
        "threading_violation"@ != "third_party_plugin_error"@,
        "threading_violation"@ != "plugin_encountered_error"@,
        "threading_violation"@ != "aircraft_open_failure"@,
        "threading_violation"@ != "macos_security_block"@,
        "threading_violation"@ != "application_crash"@,
        "threading_violation"@ != "duplicate_scenery_log"@,
        "xplm_bypass"@ != "flywithlua_error"@,
        "xplm_bypass"@ != "third_party_plugin_error"@,
        "xplm_bypass"@ != "plugin_encountered_error"@,
        "xplm_bypass"@ != "aircraft_open_failure"@,
        "xplm_bypass"@ != "macos_security_block"@,
        "xplm_bypass"@ != "application_crash"@,
        "xplm_bypass"@ != "duplicate_scenery_log"@,
        "flywithlua_error"@ != "third_party_plugin_error"@,
        "flywithlua_error"@ != "plugin_encountered_error"@,
        "flywithlua_error"@ != "aircraft_open_failure"@,
        "flywithlua_error"@ != "macos_security_block"@,
        "flywithlua_error"@ != "application_crash"@,
        "flywithlua_error"@ != "duplicate_scenery_log"@,
        "third_party_plugin_error"@ != "plugin_encountered_error"@,
        "third_party_plugin_error"@ != "aircraft_open_failure"@,
        "third_party_plugin_error"@ != "macos_security_block"@,
        "third_party_plugin_error"@ != "application_crash"@,
        "third_party_plugin_error"@ != "duplicate_scenery_log"@,
        "plugin_encountered_error"@ != "aircraft_open_failure"@,
        "plugin_encountered_error"@ != "macos_security_block"@,
        "plugin_encountered_error"@ != "application_crash"@,
        "plugin_encountered_error"@ != "duplicate_scenery_log"@,
        "aircraft_open_failure"@ != "macos_security_block"@,
        "aircraft_open_failure"@ != "application_crash"@,
        "aircraft_open_failure"@ != "duplicate_scenery_log"@,
        "macos_security_block"@ != "application_crash"@,
        "macos_security_block"@ != "duplicate_scenery_log"@,
        "application_crash"@ != "duplicate_scenery_log"@,
{
    reveal_strlit("plugin_load_failed");
    reveal_strlit("vulkan_result_error");
    reveal_strlit("graphics_vulkan_error");
    reveal_strlit("memory_or_vram");
    reveal_strlit("texture_vram_pressure");
    reveal_strlit("missing_scenery_asset");
    reveal_strlit("missing_scenery_object");
    reveal_strlit("missing_scenery_library");
    reveal_strlit("missing_global_scenery_tile");
    reveal_strlit("vulkan_device_lost");
    reveal_strlit("threading_violation");
    reveal_strlit("xplm_bypass");
    reveal_strlit("flywithlua_error");
    reveal_strlit("third_party_plugin_error");
    reveal_strlit("plugin_encountered_error");
    reveal_strlit("aircraft_open_failure");
    reveal_strlit("macos_security_block");
    reveal_strlit("application_crash");
    reveal_strlit("duplicate_scenery_log");
    assert("plugin_load_failed"@.len() != "vulkan_result_error"@.len());
    assert("plugin_load_failed"@.len() != "graphics_vulkan_error"@.len());
    assert("plugin_load_failed"@.len() != "memory_or_vram"@.len());
    assert("plugin_load_failed"@.len() != "texture_vram_pressure"@.len());
    assert("plugin_load_failed"@.len() != "missing_scenery_asset"@.len());
    assert("plugin_load_failed"@.len() != "missing_scenery_object"@.len());
    assert("plugin_load_failed"@.len() != "missing_scenery_library"@.len());
    assert("plugin_load_failed"@.len() != "missing_global_scenery_tile"@.len());
    assert("plugin_load_failed"@[0] != "vulkan_device_lost"@[0]);
    assert("plugin_load_failed"@.len() != "threading_violation"@.len());
    assert("plugin_load_failed"@.len() != "xplm_bypass"@.len());
    assert("plugin_load_failed"@.len() != "flywithlua_error"@.len());
    assert("plugin_load_failed"@.len() != "third_party_plugin_error"@.len());
    assert("plugin_load_failed"@.len() != "plugin_encountered_error"@.len());
    assert("plugin_load_failed"@.len() != "aircraft_open_failure"@.len());
    assert("plugin_load_failed"@.len() != "macos_security_block"@.len());
    assert("plugin_load_failed"@.len() != "application_crash"@.len());
    assert("plugin_load_failed"@.len() != "duplicate_scenery_log"@.len());
    assert("vulkan_result_error"@.len() != "graphics_vulkan_error"@.len());
    assert("vulkan_result_error"@.len() != "memory_or_vram"@.len());
    assert("vulkan_result_error"@.len() != "texture_vram_pressure"@.len());
    assert("vulkan_result_error"@.len() != "missing_scenery_asset"@.len());
    assert("vulkan_result_error"@.len() != "missing_scenery_object"@.len());
    assert("vulkan_result_error"@.len() != "missing_scenery_library"@.len());
    assert("vulkan_result_error"@.len() != "missing_global_scenery_tile"@.len());
    assert("vulkan_result_error"@.len() != "vulkan_device_lost"@.len());
    assert("vulkan_result_error"@[0] != "threading_violation"@[0]);
    assert("vulkan_result_error"@.len() != "xplm_bypass"@.len());
    assert("vulkan_result_error"@.len() != "flywithlua_error"@.len());
    assert("vulkan_result_error"@.len() != "third_party_plugin_error"@.len());
    assert("vulkan_result_error"@.len() != "plugin_encountered_error"@.len());
    assert("vulkan_result_error"@.len() != "aircraft_open_failure"@.len());
    assert("vulkan_result_error"@.len() != "macos_security_block"@.len());
    assert("vulkan_result_error"@.len() != "application_crash"@.len());
    assert("vulkan_result_error"@.len() != "duplicate_scenery_log"@.len());
    assert("graphics_vulkan_error"@.len() != "memory_or_vram"@.len());
    assert("graphics_vulkan_error"@[0] != "texture_vram_pressure"@[0]);
    assert("graphics_vulkan_error"@[0] != "missing_scenery_asset"@[0]);
    assert("graphics_vulkan_error"@.len() != "missing_scenery_object"@.len());
    assert("graphics_vulkan_error"@.len() != "missing_scenery_library"@.len());
    assert("graphics_vulkan_error"@.len() != "missing_global_scenery_tile"@.len());
    assert("graphics_vulkan_error"@.len() != "vulkan_device_lost"@.len());
    assert("graphics_vulkan_error"@.len() != "threading_violation"@.len());
    assert("graphics_vulkan_error"@.len() != "xplm_bypass"@.len());
    assert("graphics_vulkan_error"@.len() != "flywithlua_error"@.len());
    assert("graphics_vulkan_error"@.len() != "third_party_plugin_error"@.len());
    assert("graphics_vulkan_error"@.len() != "plugin_encountered_error"@.len());
    assert("graphics_vulkan_error"@[0] != "aircraft_open_failure"@[0]);
    assert("graphics_vulkan_error"@.len() != "macos_security_block"@.len());
    assert("graphics_vulkan_error"@.len() != "application_crash"@.len());
    assert("graphics_vulkan_error"@[0] != "duplicate_scenery_log"@[0]);
    assert("memory_or_vram"@.len() != "texture_vram_pressure"@.len());
    assert("memory_or_vram"@.len() != "missing_scenery_asset"@.len());
    assert("memory_or_vram"@.len() != "missing_scenery_object"@.len());
    assert("memory_or_vram"@.len() != "missing_scenery_library"@.len());
    assert("memory_or_vram"@.len() != "missing_global_scenery_tile"@.len());
    assert("memory_or_vram"@.len() != "vulkan_device_lost"@.len());
    assert("memory_or_vram"@.len() != "threading_violation"@.len());
    assert("memory_or_vram"@.len() != "xplm_bypass"@.len());
    assert("memory_or_vram"@.len() != "flywithlua_error"@.len());
    assert("memory_or_vram"@.len() != "third_party_plugin_error"@.len());
    assert("memory_or_vram"@.len() != "plugin_encountered_error"@.len());
    assert("memory_or_vram"@.len() != "aircraft_open_failure"@.len());
    assert("memory_or_vram"@.len() != "macos_security_block"@.len());
    assert("memory_or_vram"@.len() != "application_crash"@.len());
    assert("memory_or_vram"@.len() != "duplicate_scenery_log"@.len());
    assert("texture_vram_pressure"@[0] != "missing_scenery_asset"@[0]);
    assert("texture_vram_pressure"@.len() != "missing_scenery_object"@.len());
    assert("texture_vram_pressure"@.len() != "missing_scenery_library"@.len());
    assert("texture_vram_pressure"@.len() != "missing_global_scenery_tile"@.len());
    assert("texture_vram_pressure"@.len() != "vulkan_device_lost"@.len());
    assert("texture_vram_pressure"@.len() != "threading_violation"@.len());
    assert("texture_vram_pressure"@.len() != "xplm_bypass"@.len());
    assert("texture_vram_pressure"@.len() != "flywithlua_error"@.len());
    assert("texture_vram_pressure"@.len() != "third_party_plugin_error"@.len());
    assert("texture_vram_pressure"@.len() != "plugin_encountered_error"@.len());
    assert("texture_vram_pressure"@[0] != "aircraft_open_failure"@[0]);
    assert("texture_vram_pressure"@.len() != "macos_security_block"@.len());
    assert("texture_vram_pressure"@.len() != "application_crash"@.len());
    assert("texture_vram_pressure"@[0] != "duplicate_scenery_log"@[0]);
    assert("missing_scenery_asset"@.len() != "missing_scenery_object"@.len());
    assert("missing_scenery_asset"@.len() != "missing_scenery_library"@.len());
    assert("missing_scenery_asset"@.len() != "missing_global_scenery_tile"@.len());
    assert("missing_scenery_asset"@.len() != "vulkan_device_lost"@.len());
    assert("missing_scenery_asset"@.len() != "threading_violation"@.len());
    assert("missing_scenery_asset"@.len() != "xplm_bypass"@.len());
    assert("missing_scenery_asset"@.len() != "flywithlua_error"@.len());
    assert("missing_scenery_asset"@.len() != "third_party_plugin_error"@.len());
    assert("missing_scenery_asset"@.len() != "plugin_encountered_error"@.len());
    assert("missing_scenery_asset"@[0] != "aircraft_open_failure"@[0]);
    assert("missing_scenery_asset"@.len() != "macos_security_block"@.len());
    assert("missing_scenery_asset"@.len() != "application_crash"@.len());
    assert("missing_scenery_asset"@[0] != "duplicate_scenery_log"@[0]);
    assert("missing_scenery_object"@.len() != "missing_scenery_library"@.len());
    assert("missing_scenery_object"@.len() != "missing_global_scenery_tile"@.len());
    assert("missing_scenery_object"@.len() != "vulkan_device_lost"@.len());
    assert("missing_scenery_object"@.len() != "threading_violation"@.len());
    assert("missing_scenery_object"@.len() != "xplm_bypass"@.len());
    assert("missing_scenery_object"@.len() != "flywithlua_error"@.len());
    assert("missing_scenery_object"@.len() != "third_party_plugin_error"@.len());
    assert("missing_scenery_object"@.len() != "plugin_encountered_error"@.len());
    assert("missing_scenery_object"@.len() != "aircraft_open_failure"@.len());
    assert("missing_scenery_object"@.len() != "macos_security_block"@.len());
    assert("missing_scenery_object"@.len() != "application_crash"@.len());
    assert("missing_scenery_object"@.len() != "duplicate_scenery_log"@.len());
    assert("missing_scenery_library"@.len() != "missing_global_scenery_tile"@.len());
    assert("missing_scenery_library"@.len() != "vulkan_device_lost"@.len());
    assert("missing_scenery_library"@.len() != "threading_violation"@.len());
    assert("missing_scenery_library"@.len() != "xplm_bypass"@.len());
    assert("missing_scenery_library"@.len() != "flywithlua_error"@.len());
    assert("missing_scenery_library"@.len() != "third_party_plugin_error"@.len());
    assert("missing_scenery_library"@.len() != "plugin_encountered_error"@.len());
    assert("missing_scenery_library"@.len() != "aircraft_open_failure"@.len());
    assert("missing_scenery_library"@.len() != "macos_security_block"@.len());
    assert("missing_scenery_library"@.len() != "application_crash"@.len());
    assert("missing_scenery_library"@.len() != "duplicate_scenery_log"@.len());
    assert("missing_global_scenery_tile"@.len() != "vulkan_device_lost"@.len());
    assert("missing_global_scenery_tile"@.len() != "threading_violation"@.len());
    assert("missing_global_scenery_tile"@.len() != "xplm_bypass"@.len());
    assert("missing_global_scenery_tile"@.len() != "flywithlua_error"@.len());
    assert("missing_global_scenery_tile"@.len() != "third_party_plugin_error"@.len());
    assert("missing_global_scenery_tile"@.len() != "plugin_encountered_error"@.len());
    assert("missing_global_scenery_tile"@.len() != "aircraft_open_failure"@.len());
    assert("missing_global_scenery_tile"@.len() != "macos_security_block"@.len());
    assert("missing_global_scenery_tile"@.len() != "application_crash"@.len());
    assert("missing_global_scenery_tile"@.len() != "duplicate_scenery_log"@.len());
    assert("vulkan_device_lost"@.len() != "threading_violation"@.len());
    assert("vulkan_device_lost"@.len() != "xplm_bypass"@.len());
    assert("vulkan_device_lost"@.len() != "flywithlua_error"@.len());
    assert("vulkan_device_lost"@.len() != "third_party_plugin_error"@.len());
    assert("vulkan_device_lost"@.len() != "plugin_encountered_error"@.len());
    assert("vulkan_device_lost"@.len() != "aircraft_open_failure"@.len());
    assert("vulkan_device_lost"@.len() != "macos_security_block"@.len());
    assert("vulkan_device_lost"@.len() != "application_crash"@.len());
    assert("vulkan_device_lost"@.len() != "duplicate_scenery_log"@.len());
    assert("threading_violation"@.len() != "xplm_bypass"@.len());
    assert("threading_violation"@.len() != "flywithlua_error"@.len());
    assert("threading_violation"@.len() != "third_party_plugin_error"@.len());
    assert("threading_violation"@.len() != "plugin_encountered_error"@.len());
    assert("threading_violation"@.len() != "aircraft_open_failure"@.len());
    assert("threading_violation"@.len() != "macos_security_block"@.len());
    assert("threading_violation"@.len() != "application_crash"@.len());
    assert("threading_violation"@.len() != "duplicate_scenery_log"@.len());
    assert("xplm_bypass"@.len() != "flywithlua_error"@.len());
    assert("xplm_bypass"@.len() != "third_party_plugin_error"@.len());
    assert("xplm_bypass"@.len() != "plugin_encountered_error"@.len());
    assert("xplm_bypass"@.len() != "aircraft_open_failure"@.len());
    assert("xplm_bypass"@.len() != "macos_security_block"@.len());
    assert("xplm_bypass"@.len() != "application_crash"@.len());
    assert("xplm_bypass"@.len() != "duplicate_scenery_log"@.len());
    assert("flywithlua_error"@.len() != "third_party_plugin_error"@.len());
    assert("flywithlua_error"@.len() != "plugin_encountered_error"@.len());
    assert("flywithlua_error"@.len() != "aircraft_open_failure"@.len());
    assert("flywithlua_error"@.len() != "macos_security_block"@.len());
    assert("flywithlua_error"@.len() != "application_crash"@.len());
    assert("flywithlua_error"@.len() != "duplicate_scenery_log"@.len());
    assert("third_party_plugin_error"@[0] != "plugin_encountered_error"@[0]);
    assert("third_party_plugin_error"@.len() != "aircraft_open_failure"@.len());
    assert("third_party_plugin_error"@.len() != "macos_security_block"@.len());
    assert("third_party_plugin_error"@.len() != "application_crash"@.len());
    assert("third_party_plugin_error"@.len() != "duplicate_scenery_log"@.len());
    assert("plugin_encountered_error"@.len() != "aircraft_open_failure"@.len());
    assert("plugin_encountered_error"@.len() != "macos_security_block"@.len());
    assert("plugin_encountered_error"@.len() != "application_crash"@.len());
    assert("plugin_encountered_error"@.len() != "duplicate_scenery_log"@.len());
    assert("aircraft_open_failure"@.len() != "macos_security_block"@.len());
    assert("aircraft_open_failure"@.len() != "application_crash"@.len());
    assert("aircraft_open_failure"@[0] != "duplicate_scenery_log"@[0]);
    assert("macos_security_block"@.len() != "application_crash"@.len());
    assert("macos_security_block"@.len() != "duplicate_scenery_log"@.len());
    assert("application_crash"@.len() != "duplicate_scenery_log"@.len());
}

pub proof fn lemma_concat_distinct(a: Seq<crate::model::FindingView>, b: Seq<crate::model::FindingView>)
    requires
        kinds_distinct(a),
        kinds_distinct(b),
        forall|i: int, j: int| 0 <= i < a.len() && 0 <= j < b.len() ==> (#[trigger] a[i]).kind != (#[trigger] b[j]).kind,
    ensures
        kinds_distinct(a + b),
{
    assert forall|i: int, j: int| 0 <= i < j < (a + b).len() implies (#[trigger] (a + b)[i]).kind != (#[trigger] (a + b)[j]).kind by {
        if j < a.len() {
            assert((a + b)[i] == a[i] && (a + b)[j] == a[j]);
        } else if i < a.len() {
            assert((a + b)[i] == a[i] && (a + b)[j] == b[j - a.len()]);
        } else {
            assert((a + b)[i] == b[i - a.len()] && (a + b)[j] == b[j - a.len()]);
        }
    }
}

pub proof fn lemma_concat_distinct_by(
    a: Seq<crate::model::FindingView>,
    b: Seq<crate::model::FindingView>,
    pa: spec_fn(Seq<char>) -> bool,
    pb: spec_fn(Seq<char>) -> bool,
)
    requires
        kinds_distinct(a),
        kinds_distinct(b),
        forall|i: int| 0 <= i < a.len() ==> pa((#[trigger] a[i]).kind),
        forall|j: int| 0 <= j < b.len() ==> pb((#[trigger] b[j]).kind),
        forall|k: Seq<char>| !(#[trigger] pa(k) && pb(k)),
    ensures
        kinds_distinct(a + b),
        forall|i: int| 0 <= i < (a + b).len() ==> pa((#[trigger] (a + b)[i]).kind) || pb((a + b)[i].kind),
{
    assert forall|i: int, j: int| 0 <= i < a.len() && 0 <= j < b.len() implies (#[trigger] a[i]).kind != (#[trigger] b[j]).kind by {
        assert(pa(a[i].kind) && pb(b[j].kind));
    }
    lemma_concat_distinct(a, b);
    assert forall|i: int| 0 <= i < (a + b).len() implies pa((#[trigger] (a + b)[i]).kind) || pb((a + b)[i].kind) by {
        lemma_in2(a, b, i);
    }
}

#[verifier::spinoff_prover]
pub proof fn lemma_part1_distinct(idx: nat, line: Seq<char>, lower: Seq<char>, loc: Locale)
    ensures
        kinds_distinct(part1(idx, line, lower, loc)),
{
    lemma_rule_kinds_differ();
    lemma_plugin_load_failed_once(idx, line, lower, loc);
    lemma_graphics_api_error_once(idx, line, lower, loc);
    lemma_memory_vram_once(idx, line, lower, loc);
    lemma_texture_vram_pressure_once(idx, line, lower, loc);
    let a = opt_seq(spec_plugin_load_failed(idx, line, lower, loc));
    let b = match vk_code_in(line) {
        Some(c) => seq![spec_vulkan_result_error(idx, line, c, loc)],
        None => opt_seq(spec_graphics_api_error(idx, line, lower, loc)),
    };
    match vk_code_in(line) {
        Some(c) => lemma_vulkan_result_error_once(idx, line, c, loc),
        None => {},
    }
    let c = opt_seq(spec_memory_vram(idx, line, lower, loc));
    let d = opt_seq(spec_texture_vram_pressure(idx, line, lower, loc));
    let ka = |k: Seq<char>| k == "plugin_load_failed"@;
    let kb = |k: Seq<char>| k == "vulkan_result_error"@ || k == "graphics_vulkan_error"@;
    let kab = |k: Seq<char>| ka(k) || kb(k);
    let kc = |k: Seq<char>| k == "memory_or_vram"@;
    let kabc = |k: Seq<char>| kab(k) || kc(k);
    let kd = |k: Seq<char>| k == "texture_vram_pressure"@;
    lemma_concat_distinct_by(a, b, ka, kb);
    lemma_concat_distinct_by(a + b, c, kab, kc);
    lemma_concat_distinct_by(a + b + c, d, kabc, kd);
    assert(part1(idx, line, lower, loc) == a + b + c + d);
}

#[verifier::spinoff_prover]
pub proof fn lemma_part2_distinct(idx: nat, line: Seq<char>, lower: Seq<char>, loc: Locale)
    ensures
        kinds_distinct(part2(idx, line, lower, loc)),
{
    lemma_rule_kinds_differ();
    lemma_missing_scenery_asset_once(idx, line, lower, loc);
    lemma_missing_scenery_object_once(idx, line, lower, loc);
    lemma_missing_scenery_library_once(idx, line, lower, loc);
    lemma_missing_global_scenery_tile_once(idx, line, lower, loc);
    lemma_vulkan_device_lost_once(idx, line, lower, loc);
    let a2 = opt_seq(spec_missing_scenery_asset(idx, line, lower, loc));
    let b2 = opt_seq(spec_missing_scenery_object(idx, line, lower, loc));
    let c2 = opt_seq(spec_missing_scenery_library(idx, line, lower, loc));
    let d2 = opt_seq(spec_missing_global_scenery_tile(idx, line, lower, loc));
    let e2 = if vk_code_in(line) is None {
        opt_seq(spec_vulkan_device_lost(idx, line, lower, loc))
    } else {
        seq![]
    };
    let q1 = |k: Seq<char>| k == "missing_scenery_asset"@;
    let q2 = |k: Seq<char>| k == "missing_scenery_object"@;
    let q12 = |k: Seq<char>| q1(k) || q2(k);
    let q3 = |k: Seq<char>| k == "missing_scenery_library"@;
    let q123 = |k: Seq<char>| q12(k) || q3(k);
    let q4 = |k: Seq<char>| k == "missing_global_scenery_tile"@;
    let q1234 = |k: Seq<char>| q123(k) || q4(k);
    let q5 = |k: Seq<char>| k == "vulkan_device_lost"@;
    lemma_concat_distinct_by(a2, b2, q1, q2);
    lemma_concat_distinct_by(a2 + b2, c2, q12, q3);
    lemma_concat_distinct_by(a2 + b2 + c2, d2, q123, q4);
    lemma_concat_distinct_by(a2 + b2 + c2 + d2, e2, q1234, q5);
    assert(part2(idx, line, lower, loc) == a2 + b2 + c2 + d2 + e2);
}

#[verifier::spinoff_prover]
pub proof fn lemma_part3_distinct(idx: nat, line: Seq<char>, lower: Seq<char>, ls: Seq<Seq<char>>, loc: Locale)
    ensures
        kinds_distinct(part3(idx, line, lower, ls, loc)),
{
    lemma_rule_kinds_differ();
    lemma_threading_violation_once(idx, line, lower, ls, loc);
    lemma_xplm_bypass_once(idx, line, lower, loc);
    lemma_flywithlua_error_once(idx, line, lower, loc);
    lemma_third_party_plugin_error_once(idx, line, lower, loc);
    lemma_plugin_encountered_error_once(idx, line, lower, loc);
    let a3 = opt_seq(spec_threading_violation(idx, line, lower, ls, loc));
    let b3 = opt_seq(spec_xplm_bypass(idx, line, lower, loc));
    let c3 = opt_seq(spec_flywithlua_error(idx, line, lower, loc));
    let d3 = opt_seq(spec_third_party_plugin_error(idx, line, lower, loc));
    let e3 = opt_seq(spec_plugin_encountered_error(idx, line, lower, loc));
    let r1 = |k: Seq<char>| k == "threading_violation"@;
    let r2 = |k: Seq<char>| k == "xplm_bypass"@;
    let r12 = |k: Seq<char>| r1(k) || r2(k);
    let r3 = |k: Seq<char>| k == "flywithlua_error"@;
    let r123 = |k: Seq<char>| r12(k) || r3(k);
    let r4 = |k: Seq<char>| k == "third_party_plugin_error"@;
    let r1234 = |k: Seq<char>| r123(k) || r4(k);
    let r5 = |k: Seq<char>| k == "plugin_encountered_error"@;
    lemma_concat_distinct_by(a3, b3, r1, r2);
    lemma_concat_distinct_by(a3 + b3, c3, r12, r3);
    lemma_concat_distinct_by(a3 + b3 + c3, d3, r123, r4);
    lemma_concat_distinct_by(a3 + b3 + c3 + d3, e3, r1234, r5);
    assert(part3(idx, line, lower, ls, loc) == a3 + b3 + c3 + d3 + e3);
}

#[verifier::spinoff_prover]
pub proof fn lemma_part4_distinct(idx: nat, line: Seq<char>, lower: Seq<char>, ls: Seq<Seq<char>>, macos: bool, loc: Locale)
    ensures
        kinds_distinct(part4(idx, line, lower, ls, macos, loc)),
{
    lemma_rule_kinds_differ();
    lemma_aircraft_open_failure_once(idx, line, lower, ls, loc);
    lemma_macos_security_block_once(idx, line, lower, loc);
    lemma_application_crash_once(idx, line, loc);
    lemma_duplicate_scenery_once(idx, line, lower, loc);
    let a4 = opt_seq(spec_aircraft_open_failure(idx, line, lower, ls, loc));
    let b4 = if macos {
        opt_seq(spec_macos_security_block(idx, line, lower, loc))
    } else {
        seq![]
    };
    let c4 = opt_seq(spec_application_crash(idx, line, loc));
    let d4 = opt_seq(spec_duplicate_scenery(idx, line, lower, loc));
    let t1 = |k: Seq<char>| k == "aircraft_open_failure"@;
    let t2 = |k: Seq<char>| k == "macos_security_block"@;
    let t12 = |k: Seq<char>| t1(k) || t2(k);
    let t3 = |k: Seq<char>| k == "application_crash"@;
    let t123 = |k: Seq<char>| t12(k) || t3(k);
    let t4 = |k: Seq<char>| k == "duplicate_scenery_log"@;
    lemma_concat_distinct_by(a4, b4, t1, t2);
    lemma_concat_distinct_by(a4 + b4, c4, t12, t3);
    lemma_concat_distinct_by(a4 + b4 + c4, d4, t123, t4);
    assert(part4(idx, line, lower, ls, macos, loc) == a4 + b4 + c4 + d4);
}

pub proof fn lemma_parts_distinct(idx: nat, line: Seq<char>, lower: Seq<char>, ls: Seq<Seq<char>>, macos: bool, loc: Locale)
    ensures
        kinds_distinct(part1(idx, line, lower, loc)),
        kinds_distinct(part2(idx, line, lower, loc)),
        kinds_distinct(part3(idx, line, lower, ls, loc)),
        kinds_distinct(part4(idx, line, lower, ls, macos, loc)),
{
    lemma_part1_distinct(idx, line, lower, loc);
    lemma_part2_distinct(idx, line, lower, loc);
    lemma_part3_distinct(idx, line, lower, ls, loc);
    lemma_part4_distinct(idx, line, lower, ls, macos, loc);
}

/// An element of `a + b` is an element of `a` or of `b`.
pub proof fn lemma_in2<T>(a: Seq<T>, b: Seq<T>, i: int)
    requires
        0 <= i < (a + b).len(),
    ensures
        (i < a.len() && (a + b)[i] == a[i]) || (i >= a.len() && (a + b)[i] == b[i - a.len()]),
{
}

/// An element of `a + b + c + d` is an element of one of them.
pub proof fn lemma_in4<T>(a: Seq<T>, b: Seq<T>, c: Seq<T>, d: Seq<T>, i: int)
    requires
        0 <= i < (a + b + c + d).len(),
    ensures
        (exists|j: int| 0 <= j < a.len() && (a + b + c + d)[i] == a[j]) || (exists|j: int|
            0 <= j < b.len() && (a + b + c + d)[i] == b[j]) || (exists|j: int|
            0 <= j < c.len() && (a + b + c + d)[i] == c[j]) || (exists|j: int|
            0 <= j < d.len() && (a + b + c + d)[i] == d[j]),
{
    lemma_in2(a + b + c, d, i);
    if i < (a + b + c).len() {
        lemma_in2(a + b, c, i);
        if i < (a + b).len() {
            lemma_in2(a, b, i);
        }
    }
}

} // verus!
