//! X-Plane's own log channels: `0:00:12.345 E/SCN: ...` lines.
use vstd::prelude::*;

use crate::i18n::{pick, tr, Locale};
use crate::model::Severity;
use crate::text::{
    all_digits, all_digits_of, alnum_char, find, find_exec, find_ws, find_ws_exec, is_alnum,
    lemma_find_from, lemma_find_ws, matches_at, starts_with, starts_with_str, trim_start, trim_start_slice,
};

verus! {

pub open spec fn is_subsystem_char(c: char) -> bool {
    is_alnum(c) || c == '_' || c == '-' || c == '/' || c == '.'
}

pub open spec fn all_subsystem_chars(s: Seq<char>) -> bool {
    forall|i: int| 0 <= i < s.len() ==> is_subsystem_char(#[trigger] s[i])
}

/// `SS.fff`: digits, a dot, digits.
pub open spec fn valid_seconds(secs: Seq<char>) -> bool {
    match find(secs, seq!['.']) {
        None => false,
        Some(d) => 0 < d && d + 1 < secs.len() && all_digits(secs.take(d)) && all_digits(
            secs.skip(d + 1),
        ),
    }
}

/// After the time stamp: `E/NAME:` or `W/NAME:`.
pub open spec fn channel_after_time(r: Seq<char>) -> Option<Seq<char>> {
    if r.len() == 0 {
        None
    } else {
        let level = r[0];
        let r1 = r.skip(1);
        if level != 'E' && level != 'W' {
            None
        } else if !starts_with(r1, seq!['/']) {
            None
        } else {
            match find(r1, seq![':']) {
                None => None,
                Some(ce) => {
                    let sub = r1.subrange(1, ce);
                    if sub.len() == 0 || !all_subsystem_chars(sub) {
                        None
                    } else {
                        Some(seq![level, '/'] + sub)
                    }
                },
            }
        }
    }
}

/// After `H:MM:`: the seconds, white space, and the channel.
pub open spec fn channel_after_clock(r: Seq<char>) -> Option<Seq<char>> {
    match find_ws(r, 0) {
        None => None,
        Some(te) => if !valid_seconds(r.take(te)) {
            None
        } else {
            channel_after_time(trim_start(r.skip(te)))
        },
    }
}

/// The warning or error channel (`E/NAME` or `W/NAME`) of a line in X-Plane's
/// own `H:MM:SS.fff L/NAME:` format, if the line is one.
pub open spec fn error_channel(line: Seq<char>) -> Option<Seq<char>> {
    let r0 = trim_start(line);
    match find(r0, seq![':']) {
        None => None,
        Some(c1) => if !all_digits(r0.take(c1)) {
            None
        } else {
            let r1 = r0.skip(c1 + 1);
            match find(r1, seq![':']) {
                None => None,
                Some(c2) => if !all_digits(r1.take(c2)) {
                    None
                } else {
                    channel_after_clock(r1.skip(c2 + 1))
                },
            }
        },
    }
}

fn valid_seconds_exec(secs: &[char]) -> (r: bool)
    ensures
        r == valid_seconds(secs@),
{
    let dot = ['.'];
    assert(dot@ =~= seq!['.']);
    proof {
        lemma_find_from(secs@, dot@, 0);
    }
    match find_exec(secs, &dot) {
        None => false,
        Some(d) => {
            assert(matches_at(secs@, dot@, d as int));
            assert(dot@.len() == 1);
            assert(d + 1 <= secs@.len());
            let n = secs.len();
            if d == 0 || d + 1 >= n {
                return false;
            }
            let whole = &secs[0..d];
            let frac = &secs[d + 1..secs.len()];
            assert(whole@ =~= secs@.take(d as int));
            assert(frac@ =~= secs@.skip(d + 1));
            all_digits_of(whole) && all_digits_of(frac)
        },
    }
}

fn all_subsystem_chars_exec(s: &[char]) -> (r: bool)
    ensures
        r == all_subsystem_chars(s@),
{
    let mut i: usize = 0;
    while i < s.len()
        invariant
            i <= s.len(),
            forall|j: int| 0 <= j < i ==> is_subsystem_char(s@[j]),
        decreases s.len() - i,
    {
        let c = s[i];
        if !(alnum_char(c) || c == '_' || c == '-' || c == '/' || c == '.') {
            return false;
        }
        i = i + 1;
    }
    true
}

fn channel_after_time_exec(r: &[char]) -> (out: Option<Vec<char>>)
    ensures
        match out {
            Some(v) => channel_after_time(r@) == Some(v@),
            None => channel_after_time(r@) is None,
        },
{
    if r.len() == 0 {
        return None;
    }
    let level = r[0];
    let r1 = &r[1..r.len()];
    assert(r1@ =~= r@.skip(1));
    if level != 'E' && level != 'W' {
        return None;
    }
    if r1.len() == 0 || r1[0] != '/' {
        assert(!starts_with(r1@, seq!['/'])) by {
            if r1@.len() > 0 {
                assert(r1@.take(1)[0] == r1@[0]);
            }
        }
        return None;
    }
    assert(starts_with(r1@, seq!['/'])) by {
        assert(r1@.take(1) =~= seq!['/']);
    }
    let colon = [':'];
    proof {
        lemma_find_from(r1@, seq![':'], 0);
    }
    match find_exec(r1, &colon) {
        None => {
            assert(colon@ =~= seq![':']);
            None
        },
        Some(ce) => {
            assert(colon@ =~= seq![':']);
            if ce == 0 {
                assert(r1@.subrange(0, 1)[0] == r1@[0]);
                assert(false);
                return None;
            }
            let sub = &r1[1..ce];
            assert(sub@ =~= r1@.subrange(1, ce as int));
            if sub.len() == 0 || !all_subsystem_chars_exec(sub) {
                return None;
            }
            let mut v: Vec<char> = Vec::new();
            v.push(level);
            v.push('/');
            v.extend_from_slice(sub);
            assert(v@ =~= seq![level, '/'] + sub@);
            Some(v)
        },
    }
}

/// The warning or error channel of an X-Plane log line (`parse_xplane_error_channel`).
pub fn parse_xplane_error_channel(line: &[char]) -> (out: Option<Vec<char>>)
    ensures
        match out {
            Some(v) => error_channel(line@) == Some(v@),
            None => error_channel(line@) is None,
        },
{
    let colon = [':'];
    assert(colon@ =~= seq![':']);
    let r0 = trim_start_slice(line);
    proof {
        lemma_find_from(r0@, seq![':'], 0);
    }
    let c1 = match find_exec(r0, &colon) {
        None => return None,
        Some(c) => c,
    };
    assert(matches_at(r0@, seq![':'], c1 as int));
    let h = &r0[0..c1];
    assert(h@ =~= r0@.take(c1 as int));
    if !all_digits_of(h) {
        return None;
    }
    let n0 = r0.len();
    let r1 = &r0[c1 + 1..n0];
    assert(r1@ =~= r0@.skip(c1 + 1));
    proof {
        lemma_find_from(r1@, seq![':'], 0);
    }
    let c2 = match find_exec(r1, &colon) {
        None => return None,
        Some(c) => c,
    };
    assert(matches_at(r1@, seq![':'], c2 as int));
    let m = &r1[0..c2];
    assert(m@ =~= r1@.take(c2 as int));
    if !all_digits_of(m) {
        return None;
    }
    let n1 = r1.len();
    let r2 = &r1[c2 + 1..n1];
    assert(r2@ =~= r1@.skip(c2 + 1));
    proof {
        lemma_find_ws(r2@, 0);
    }
    let te = match find_ws_exec(r2, 0) {
        None => return None,
        Some(t) => t,
    };
    let secs = &r2[0..te];
    assert(secs@ =~= r2@.take(te as int));
    if !valid_seconds_exec(secs) {
        return None;
    }
    let after = &r2[te..r2.len()];
    assert(after@ =~= r2@.skip(te as int));
    channel_after_time_exec(trim_start_slice(after))
}

/// Severity of the broad finding for an X-Plane log channel.
pub open spec fn channel_severity(ch: Seq<char>) -> Severity {
    if starts_with(ch, "E/APT"@) || starts_with(ch, "W/APT"@) || starts_with(ch, "E/DSF"@) || starts_with(ch, "W/DSF"@) || starts_with(ch, "E/PLG"@) || starts_with(ch, "W/PLG"@) || starts_with(ch, "E/NET"@) || starts_with(ch, "W/NET"@) || starts_with(ch, "E/IDENT"@) || starts_with(ch, "W/IDENT"@) || starts_with(ch, "E/NVAPI"@) || starts_with(ch, "W/NVAPI"@) || starts_with(ch, "W/TEX"@) {
        Severity::Info
    } else if starts_with(ch, "E/SOUN"@) || starts_with(ch, "W/SOUN"@) {
        Severity::Low
    } else if starts_with(ch, "E/JOY"@) || starts_with(ch, "W/JOY"@) {
        Severity::Low
    } else if starts_with(ch, "E/SYS"@) || starts_with(ch, "W/SYS"@) {
        Severity::Low
    } else if starts_with(ch, "E/SCN"@) || starts_with(ch, "W/SCN"@) {
        Severity::Medium
    } else if starts_with(ch, "W/RLP"@) {
        Severity::High
    } else if starts_with(ch, "E/"@) {
        Severity::High
    } else {
        Severity::Medium
    }
}

pub fn xplane_channel_severity(ch: &[char]) -> (r: Severity)
    ensures
        r == channel_severity(ch@),
{
    if starts_with_str(ch, "E/APT") || starts_with_str(ch, "W/APT") || starts_with_str(ch, "E/DSF") || starts_with_str(ch, "W/DSF") || starts_with_str(ch, "E/PLG") || starts_with_str(ch, "W/PLG") || starts_with_str(ch, "E/NET") || starts_with_str(ch, "W/NET") || starts_with_str(ch, "E/IDENT") || starts_with_str(ch, "W/IDENT") || starts_with_str(ch, "E/NVAPI") || starts_with_str(ch, "W/NVAPI") || starts_with_str(ch, "W/TEX") {
        Severity::Info
    } else if starts_with_str(ch, "E/SOUN") || starts_with_str(ch, "W/SOUN") {
        Severity::Low
    } else if starts_with_str(ch, "E/JOY") || starts_with_str(ch, "W/JOY") {
        Severity::Low
    } else if starts_with_str(ch, "E/SYS") || starts_with_str(ch, "W/SYS") {
        Severity::Low
    } else if starts_with_str(ch, "E/SCN") || starts_with_str(ch, "W/SCN") {
        Severity::Medium
    } else if starts_with_str(ch, "W/RLP") {
        Severity::High
    } else if starts_with_str(ch, "E/") {
        Severity::High
    } else {
        Severity::Medium
    }
}

/// What to do about messages on an X-Plane log channel.
pub open spec fn channel_suggestion(ch: Seq<char>, loc: Locale) -> Seq<char> {
    if starts_with(ch, "E/APT"@) || starts_with(ch, "W/APT"@) {
        pick(loc, "通常是机场数据库的 background noise，尤其是 Global Airports 发出的。仅当问题出现在某个具体附加机场时才需要排查。"@, "Usually background airport database noise, especially when it comes from Global Airports. Only investigate if the issue follows a named add-on airport."@)
    } else if starts_with(ch, "E/PLG"@) || starts_with(ch, "W/PLG"@) {
        pick(loc, "插件子系统消息通常是初始化噪声（如 'Sim is not yet started'）。仅当消息指向具体的插件故障或崩溃时才需要排查。"@, "Plugin subsystem messages are usually initialization noise (e.g. 'Sim is not yet started'). Only investigate if the message points to a specific plugin failure or crash."@)
    } else if starts_with(ch, "E/DSF"@) || starts_with(ch, "W/DSF"@) {
        pick(loc, "通常是 scenery 数据质量背景信息。仅当问题跟随指定的 tile 或包出现时才需要排查。"@, "Usually scenery data quality background. Only investigate if the problem follows the named tile or package."@)
    } else if starts_with(ch, "E/SCN"@) || starts_with(ch, "W/SCN"@) {
        pick(loc, "检查证据行中提到的 scenery 或对象路径，确认该包已完整安装并处于正确的加载顺序中。"@, "Check the scenery or object path named in the evidence lines, then verify the package is installed completely and in the expected load order."@)
    } else if starts_with(ch, "E/JOY"@) || starts_with(ch, "W/JOY"@) {
        pick(loc, "打开 X-Plane 的摇杆设置，重新校准证据行中提到的设备。"@, "Open X-Plane's joystick settings and recalibrate the device named in the evidence lines."@)
    } else if starts_with(ch, "E/SYS"@) || starts_with(ch, "W/SYS"@) {
        pick(loc, "这是 X-Plane 面向用户的告警。阅读证据行内容，但将其视为检查项，除非明确提到 X-Plane 无法继续运行或当前会话崩溃。"@, "This is a user-facing X-Plane alert. Read the evidence line, but treat it as a check item unless it explicitly says X-Plane cannot continue or the current session crashed."@)
    } else if starts_with(ch, "E/NET"@) || starts_with(ch, "W/NET"@) {
        pick(loc, "通常影响局域网发现、联机广播或网络功能。除非用户的问题正是联网/多人联机，否则不要把它当作崩溃主因。"@, "Usually affects LAN discovery, multiplayer broadcast, or network features. Unless the user's symptom is networking or multiplayer related, do not treat it as the main crash cause."@)
    } else if starts_with(ch, "E/IDENT"@) || starts_with(ch, "W/IDENT"@) {
        pick(loc, "Usually product identity, license receipt, or online identity background. Treat as background unless the user's symptom is activation or sign-in failure."@, "Usually product identity, license receipt, or online identity background. Treat as background unless the user's symptom is activation or sign-in failure."@)
    } else if starts_with(ch, "E/NVAPI"@) || starts_with(ch, "W/NVAPI"@) {
        pick(loc, "Usually NVIDIA driver capability or permission probing noise during startup. Treat as background unless graphics features are missing or the log later shows a GPU crash."@, "Usually NVIDIA driver capability or permission probing noise during startup. Treat as background unless graphics features are missing or the log later shows a GPU crash."@)
    } else if starts_with(ch, "E/SOUN"@) || starts_with(ch, "W/SOUN"@) {
        pick(loc, "Usually an aircraft/plugin sound-bank or audio-device check item. Investigate if the user's symptom is missing sound, but do not treat it as the main crash cause by itself."@, "Usually an aircraft/plugin sound-bank or audio-device check item. Investigate if the user's symptom is missing sound, but do not treat it as the main crash cause by itself."@)
    } else if starts_with(ch, "W/TEX"@) {
        pick(loc, "通常是纹理封装警告。将其视为背景信息，除非相关飞机或 scenery 有明显纹理问题。"@, "Usually a texture packaging warning. Treat it as background unless the affected aircraft or scenery has visible texture problems."@)
    } else if starts_with(ch, "W/ART"@) {
        pick(loc, "某个附加组件修改了 X-Plane 的艺术控制。如果视觉效果、天气或性能异常，禁用相关插件或飞机附加组件做干净复测。"@, "An add-on modified X-Plane art controls. Disable the named plugin or aircraft add-on for a clean retest if visuals, weather, or performance look wrong."@)
    } else if starts_with(ch, "W/RLP"@) {
        pick(loc, "X-Plane 的运行循环被阻塞。将其视为性能/卡顿症状：降低 scenery 和插件负载，然后复测同一路线。仅在用户已观察到问题是在系统或驱动变更后才发生时，才需要对比 GPU 驱动版本或 Windows 电源设置。"@, "X-Plane's runloop is backed up. Treat this as a performance/stall symptom: reduce scenery and plugin load, then retest the same route. Only compare GPU driver versions or Windows power settings if the user already observed the issue starting after a system or driver change."@)
    } else {
        pick(loc, "查看证据行中指定的 X-Plane 子系统，如果问题影响飞行，禁用相关附加组件后复测。"@, "Review the evidence lines for the named X-Plane subsystem, then retest with related add-ons disabled if the issue affects the flight."@)
    }
}

pub fn xplane_channel_suggestion(ch: &[char], loc: Locale) -> (r: &'static str)
    ensures
        r@ == channel_suggestion(ch@, loc),
{
    if starts_with_str(ch, "E/APT") || starts_with_str(ch, "W/APT") {
        tr(loc, "通常是机场数据库的 background noise，尤其是 Global Airports 发出的。仅当问题出现在某个具体附加机场时才需要排查。", "Usually background airport database noise, especially when it comes from Global Airports. Only investigate if the issue follows a named add-on airport.")
    } else if starts_with_str(ch, "E/PLG") || starts_with_str(ch, "W/PLG") {
        tr(loc, "插件子系统消息通常是初始化噪声（如 'Sim is not yet started'）。仅当消息指向具体的插件故障或崩溃时才需要排查。", "Plugin subsystem messages are usually initialization noise (e.g. 'Sim is not yet started'). Only investigate if the message points to a specific plugin failure or crash.")
    } else if starts_with_str(ch, "E/DSF") || starts_with_str(ch, "W/DSF") {
        tr(loc, "通常是 scenery 数据质量背景信息。仅当问题跟随指定的 tile 或包出现时才需要排查。", "Usually scenery data quality background. Only investigate if the problem follows the named tile or package.")
    } else if starts_with_str(ch, "E/SCN") || starts_with_str(ch, "W/SCN") {
        tr(loc, "检查证据行中提到的 scenery 或对象路径，确认该包已完整安装并处于正确的加载顺序中。", "Check the scenery or object path named in the evidence lines, then verify the package is installed completely and in the expected load order.")
    } else if starts_with_str(ch, "E/JOY") || starts_with_str(ch, "W/JOY") {
        tr(loc, "打开 X-Plane 的摇杆设置，重新校准证据行中提到的设备。", "Open X-Plane's joystick settings and recalibrate the device named in the evidence lines.")
    } else if starts_with_str(ch, "E/SYS") || starts_with_str(ch, "W/SYS") {
        tr(loc, "这是 X-Plane 面向用户的告警。阅读证据行内容，但将其视为检查项，除非明确提到 X-Plane 无法继续运行或当前会话崩溃。", "This is a user-facing X-Plane alert. Read the evidence line, but treat it as a check item unless it explicitly says X-Plane cannot continue or the current session crashed.")
    } else if starts_with_str(ch, "E/NET") || starts_with_str(ch, "W/NET") {
        tr(loc, "通常影响局域网发现、联机广播或网络功能。除非用户的问题正是联网/多人联机，否则不要把它当作崩溃主因。", "Usually affects LAN discovery, multiplayer broadcast, or network features. Unless the user's symptom is networking or multiplayer related, do not treat it as the main crash cause.")
    } else if starts_with_str(ch, "E/IDENT") || starts_with_str(ch, "W/IDENT") {
        tr(loc, "Usually product identity, license receipt, or online identity background. Treat as background unless the user's symptom is activation or sign-in failure.", "Usually product identity, license receipt, or online identity background. Treat as background unless the user's symptom is activation or sign-in failure.")
    } else if starts_with_str(ch, "E/NVAPI") || starts_with_str(ch, "W/NVAPI") {
        tr(loc, "Usually NVIDIA driver capability or permission probing noise during startup. Treat as background unless graphics features are missing or the log later shows a GPU crash.", "Usually NVIDIA driver capability or permission probing noise during startup. Treat as background unless graphics features are missing or the log later shows a GPU crash.")
    } else if starts_with_str(ch, "E/SOUN") || starts_with_str(ch, "W/SOUN") {
        tr(loc, "Usually an aircraft/plugin sound-bank or audio-device check item. Investigate if the user's symptom is missing sound, but do not treat it as the main crash cause by itself.", "Usually an aircraft/plugin sound-bank or audio-device check item. Investigate if the user's symptom is missing sound, but do not treat it as the main crash cause by itself.")
    } else if starts_with_str(ch, "W/TEX") {
        tr(loc, "通常是纹理封装警告。将其视为背景信息，除非相关飞机或 scenery 有明显纹理问题。", "Usually a texture packaging warning. Treat it as background unless the affected aircraft or scenery has visible texture problems.")
    } else if starts_with_str(ch, "W/ART") {
        tr(loc, "某个附加组件修改了 X-Plane 的艺术控制。如果视觉效果、天气或性能异常，禁用相关插件或飞机附加组件做干净复测。", "An add-on modified X-Plane art controls. Disable the named plugin or aircraft add-on for a clean retest if visuals, weather, or performance look wrong.")
    } else if starts_with_str(ch, "W/RLP") {
        tr(loc, "X-Plane 的运行循环被阻塞。将其视为性能/卡顿症状：降低 scenery 和插件负载，然后复测同一路线。仅在用户已观察到问题是在系统或驱动变更后才发生时，才需要对比 GPU 驱动版本或 Windows 电源设置。", "X-Plane's runloop is backed up. Treat this as a performance/stall symptom: reduce scenery and plugin load, then retest the same route. Only compare GPU driver versions or Windows power settings if the user already observed the issue starting after a system or driver change.")
    } else {
        tr(loc, "查看证据行中指定的 X-Plane 子系统，如果问题影响飞行，禁用相关附加组件后复测。", "Review the evidence lines for the named X-Plane subsystem, then retest with related add-ons disabled if the issue affects the flight.")
    }
}
} // verus!
