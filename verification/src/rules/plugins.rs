//! Rules about plugins: their own error lines, SDK misuse and runtime errors.
use vstd::prelude::*;

use crate::i18n::{fill, filled, pick, tr, Locale};
use crate::model::{new_finding, Confidence, Finding, FindingView, Severity};
use crate::rules::channels::{error_channel, parse_xplane_error_channel};
use crate::rules::evidence::{evidence_line, evidence_text};
use crate::rules::keywords::opt_view;
use crate::text::{
    after_first_word_slice, all_digits, all_digits_of, alnum_char, before_first, before_first_str,
    chars_of, contains, contains_str, equals_str, find, find_exec, first_word, first_word_slice,
    is_alnum, lemma_find_from, lower, lower_of, matches_at, second_word, second_word_slice,
    seqs_of, split_second, split_second_str, string_from, strip_prefix, strip_prefix_str, trim,
    trim_slice, trim_start, trim_start_slice,
};

verus! {

pub open spec fn is_name_char(c: char) -> bool {
    is_alnum(c) || c == '_' || c == '-' || c == '.' || c == ' '
}

/// Level words that are not plugin names.
pub open spec fn is_level_word(l: Seq<char>) -> bool {
    l == "error"@ || l == "warn"@ || l == "warning"@ || l == "info"@ || l == "debug"@ || l
        == "trace"@
}

/// A plugin name as plugins print it: not empty, not a level word, and made
/// of ASCII letters, digits, `_`, `-`, `.` and spaces.
pub open spec fn plausible_plugin_name(name: Seq<char>) -> bool {
    name.len() > 0 && !is_level_word(lower(name)) && forall|i: int|
        0 <= i < name.len() ==> is_name_char(#[trigger] name[i])
}

pub fn is_plausible_plugin_log_name(name: &[char]) -> (r: bool)
    ensures
        r == plausible_plugin_name(name@),
{
    if name.len() == 0 {
        return false;
    }
    let l = lower_of(name);
    if equals_str(&l, "error") || equals_str(&l, "warn") || equals_str(&l, "warning") || equals_str(
        &l,
        "info",
    ) || equals_str(&l, "debug") || equals_str(&l, "trace") {
        return false;
    }
    let mut i: usize = 0;
    while i < name.len()
        invariant
            i <= name.len(),
            forall|j: int| 0 <= j < i ==> is_name_char(name@[j]),
        decreases name.len() - i,
    {
        let c = name[i];
        if !(alnum_char(c) || c == '_' || c == '-' || c == '.' || c == ' ') {
            return false;
        }
        i = i + 1;
    }
    true
}

/// `H:M:S` with three non-empty runs of digits.
pub open spec fn clock_time(v: Seq<char>) -> bool {
    match find(v, seq![':']) {
        None => false,
        Some(a) => {
            let h = v.take(a);
            let r1 = v.skip(a + 1);
            match find(r1, seq![':']) {
                None => false,
                Some(b) => {
                    let m = r1.take(b);
                    let r2 = r1.skip(b + 1);
                    find(r2, seq![':']) is None && h.len() > 0 && m.len() > 0 && r2.len() > 0
                        && all_digits(h) && all_digits(m) && all_digits(r2)
                },
            }
        },
    }
}

pub fn looks_like_clock_time(v: &[char]) -> (r: bool)
    ensures
        r == clock_time(v@),
{
    let colon = [':'];
    assert(colon@ =~= seq![':']);
    proof {
        lemma_find_from(v@, seq![':'], 0);
    }
    let a = match find_exec(v, &colon) {
        None => return false,
        Some(a) => a,
    };
    assert(matches_at(v@, seq![':'], a as int));
    let h = &v[0..a];
    let nv = v.len();
    let r1 = &v[a + 1..nv];
    assert(h@ =~= v@.take(a as int));
    assert(r1@ =~= v@.skip(a + 1));
    proof {
        lemma_find_from(r1@, seq![':'], 0);
    }
    let b = match find_exec(r1, &colon) {
        None => return false,
        Some(b) => b,
    };
    assert(matches_at(r1@, seq![':'], b as int));
    let m = &r1[0..b];
    let n1 = r1.len();
    let r2 = &r1[b + 1..n1];
    assert(m@ =~= r1@.take(b as int));
    assert(r2@ =~= r1@.skip(b + 1));
    find_exec(r2, &colon).is_none() && h.len() > 0 && m.len() > 0 && r2.len() > 0 && all_digits_of(
        h,
    ) && all_digits_of(m) && all_digits_of(r2)
}

/// The first bracketed `[name]` in `s` that is a plausible plugin name.
pub open spec fn bracketed_name(s: Seq<char>) -> Option<Seq<char>>
    decreases s.len(),
{
    match find(s, seq!['[']) {
        None => None,
        Some(st) => if 0 <= st < s.len() {
            let r = s.skip(st + 1);
            match find(r, seq![']']) {
                None => None,
                Some(e) => if 0 <= e < r.len() {
                    let name = trim(r.take(e));
                    if plausible_plugin_name(name) {
                        Some(name)
                    } else {
                        bracketed_name(r.skip(e + 1))
                    }
                } else {
                    None
                },
            }
        } else {
            None
        },
    }
}

pub fn extract_bracketed_plugin_name(s: &[char]) -> (r: Option<Vec<char>>)
    ensures
        match r {
            Some(v) => bracketed_name(s@) == Some(v@),
            None => bracketed_name(s@) is None,
        },
{
    let open = ['['];
    let close = [']'];
    assert(open@ =~= seq!['[']);
    assert(close@ =~= seq![']']);
    let mut rest = s;
    loop
        invariant
            open@ == seq!['['],
            close@ == seq![']'],
            bracketed_name(rest@) == bracketed_name(s@),
        decreases rest.len(),
    {
        proof {
            lemma_find_from(rest@, seq!['['], 0);
        }
        let st = match find_exec(rest, &open) {
            None => return None,
            Some(st) => st,
        };
        assert(matches_at(rest@, seq!['['], st as int));
        let nr = rest.len();
        let r = &rest[st + 1..nr];
        assert(r@ =~= rest@.skip(st + 1));
        proof {
            lemma_find_from(r@, seq![']'], 0);
        }
        let e = match find_exec(r, &close) {
            None => return None,
            Some(e) => e,
        };
        assert(matches_at(r@, seq![']'], e as int));
        let inner = &r[0..e];
        assert(inner@ =~= r@.take(e as int));
        let name = trim_slice(inner);
        if is_plausible_plugin_log_name(name) {
            let mut v: Vec<char> = Vec::new();
            v.extend_from_slice(name);
            assert(v@ =~= name@);
            return Some(v);
        }
        let n2 = r.len();
        let next = &r[e + 1..n2];
        assert(next@ =~= r@.skip(e + 1));
        rest = next;
    }
}

/// `name H:M:S ...`: a plausible plugin name followed by a clock time.
pub open spec fn timed_prefix(s: Seq<char>) -> Option<Seq<char>> {
    match first_word(s) {
        None => None,
        Some(name) => match second_word(s) {
            None => None,
            Some(time) => if plausible_plugin_name(name) && clock_time(time) {
                Some(name)
            } else {
                None
            },
        },
    }
}

pub fn extract_timed_plugin_prefix(s: &[char]) -> (r: Option<&[char]>)
    ensures
        match r {
            Some(v) => timed_prefix(s@) == Some(v@),
            None => timed_prefix(s@) is None,
        },
{
    let name = match first_word_slice(s) {
        None => return None,
        Some(n) => n,
    };
    let time = match second_word_slice(s) {
        None => return None,
        Some(t) => t,
    };
    if is_plausible_plugin_log_name(name) && looks_like_clock_time(time) {
        Some(name)
    } else {
        None
    }
}

/// The plugin that wrote a line in one of the formats plugins use for their
/// own log lines: a bracketed tag, or a leading name and clock time.
pub open spec fn plugin_log_name(line: Seq<char>) -> Option<Seq<char>> {
    let t = trim_start(line);
    match bracketed_name(t) {
        Some(n) => Some(n),
        None => timed_prefix(t),
    }
}

pub fn extract_plugin_log_name(line: &[char]) -> (r: Option<Vec<char>>)
    ensures
        match r {
            Some(v) => plugin_log_name(line@) == Some(v@),
            None => plugin_log_name(line@) is None,
        },
{
    let t = trim_start_slice(line);
    match extract_bracketed_plugin_name(t) {
        Some(n) => Some(n),
        None => match extract_timed_plugin_prefix(t) {
            Some(n) => {
                let mut v: Vec<char> = Vec::new();
                v.extend_from_slice(n);
                assert(v@ =~= n@);
                Some(v)
            },
            None => None,
        },
    }
}

/// A timed plugin line that reports a request timeout.
pub open spec fn plugin_timeout(line: Seq<char>) -> bool {
    let t = trim_start(line);
    timed_prefix(t) is Some && contains(t, "Request timed out"@)
}

pub fn is_plugin_timeout_line(line: &[char]) -> (r: bool)
    ensures
        r == plugin_timeout(line@),
{
    let t = trim_start_slice(line);
    extract_timed_plugin_prefix(t).is_some() && contains_str(t, "Request timed out")
}

/// A plugin's own error line, outside X-Plane's channels and FlyWithLua.
pub open spec fn third_party_error(line: Seq<char>, lower: Seq<char>) -> bool {
    if contains(lower, "flywithlua"@) {
        false
    } else if error_channel(line) is Some {
        false
    } else {
        (plugin_log_name(line) is Some && (contains(line, " ERROR"@) || contains(line, "[ERROR]"@)
            || contains(line, "|ERROR|"@))) || plugin_timeout(line)
    }
}

pub fn is_third_party_plugin_error_line(line: &[char], lower: &[char]) -> (r: bool)
    ensures
        r == third_party_error(line@, lower@),
{
    if contains_str(lower, "flywithlua") {
        return false;
    }
    if parse_xplane_error_channel(line).is_some() {
        return false;
    }
    let has_plugin_tag = extract_plugin_log_name(line).is_some();
    let has_error_word = contains_str(line, " ERROR") || contains_str(line, "[ERROR]")
        || contains_str(line, "|ERROR|");
    has_plugin_tag && has_error_word || is_plugin_timeout_line(line)
}

pub open spec fn third_party_name(line: Seq<char>) -> Seq<char> {
    match plugin_log_name(line) {
        Some(n) => n,
        None => "third-party plugin"@,
    }
}

/// The `third_party_plugin_error` rule on one line.
pub open spec fn spec_third_party_plugin_error(
    idx: nat,
    line: Seq<char>,
    lower: Seq<char>,
    loc: Locale,
) -> Option<FindingView> {
    if third_party_error(line, lower) {
        let name = third_party_name(line);
        Some(
            new_finding(
                Severity::Low,
                Confidence::Medium,
                "third_party_plugin_error"@,
                filled(
                    loc,
                    "第三方插件报告错误："@,
                    ""@,
                    "Third-party plugin reported an error: "@,
                    ""@,
                    name,
                ),
                evidence_text(idx, line),
                pick(
                    loc,
                    "第三方插件在 X-Plane 标准的 E/... 通道之外写入了自己的 ERROR 消息。这通常指向插件功能问题，而不是模拟器崩溃的直接原因。"@,
                    "A third-party plugin wrote its own ERROR message outside X-Plane's normal E/... channels. This usually points to a plugin feature problem rather than proving the whole simulator crash cause."@,
                ),
                filled(
                    loc,
                    "更新或临时禁用 "@,
                    "，如果用户症状与该插件功能匹配则复测。将其视为辅助证据，除非紧邻崩溃前出现。"@,
                    "Update or temporarily disable "@,
                    " and retest if the user's symptom matches this plugin's feature. Treat it as supporting evidence unless it appears immediately before the crash."@,
                    name,
                ),
            ),
        )
    } else {
        None
    }
}

pub fn check_third_party_plugin_error(idx: usize, line: &[char], lower: &[char], loc: Locale) -> (r:
    Option<Finding>)
    requires
        idx < usize::MAX,
    ensures
        opt_view(r) == spec_third_party_plugin_error(idx as nat, line@, lower@, loc),
{
    if !is_third_party_plugin_error_line(line, lower) {
        return None;
    }
    let name = match extract_plugin_log_name(line) {
        Some(n) => n,
        None => chars_of("third-party plugin"),
    };
    Some(
        Finding::new(
            Severity::Low,
            Confidence::Medium,
            string_from("third_party_plugin_error"),
            fill(loc, "第三方插件报告错误：", "", "Third-party plugin reported an error: ", "", &name),
            evidence_line(idx, line),
            string_from(
                tr(
                    loc,
                    "第三方插件在 X-Plane 标准的 E/... 通道之外写入了自己的 ERROR 消息。这通常指向插件功能问题，而不是模拟器崩溃的直接原因。",
                    "A third-party plugin wrote its own ERROR message outside X-Plane's normal E/... channels. This usually points to a plugin feature problem rather than proving the whole simulator crash cause.",
                ),
            ),
            fill(
                loc,
                "更新或临时禁用 ",
                "，如果用户症状与该插件功能匹配则复测。将其视为辅助证据，除非紧邻崩溃前出现。",
                "Update or temporarily disable ",
                " and retest if the user's symptom matches this plugin's feature. Treat it as supporting evidence unless it appears immediately before the crash.",
                &name,
            ),
        ),
    )
}

/// The plugin named in an `E/PLG: Plugin <name> encountered error` line.
pub open spec fn encountered_plugin_name(line: Seq<char>) -> Seq<char> {
    match split_second(line, "Plugin "@) {
        Some(rest) => trim(before_first(before_first(rest, " encountered error"@), " ("@)),
        None => "unknown plugin"@,
    }
}

/// The `plugin_encountered_error` rule on one line.
pub open spec fn spec_plugin_encountered_error(
    idx: nat,
    line: Seq<char>,
    lower: Seq<char>,
    loc: Locale,
) -> Option<FindingView> {
    if error_channel(line) == Some("E/PLG"@) && contains(lower, "encountered error"@) {
        let name = encountered_plugin_name(line);
        Some(
            new_finding(
                Severity::Medium,
                Confidence::High,
                "plugin_encountered_error"@,
                filled(loc, "插件 "@, " 在运行时遇到错误"@, "Plugin "@, " encountered a runtime error"@, name),
                evidence_text(idx, line),
                filled(
                    loc,
                    "X-Plane 在运行时通过 E/PLG 通道报告了插件 "@,
                    " 的错误。这是 X-Plane 自身识别到的运行时故障，不只是初始化噪声。"@,
                    "X-Plane reported a runtime error for plugin "@,
                    " via the E/PLG channel. This is a runtime fault identified by X-Plane itself, not just initialization noise."@,
                    name,
                ),
                filled(
                    loc,
                    "更新 "@,
                    " 到最新版本，若问题依旧则临时禁用该插件复测。"@,
                    "Update "@,
                    " to the latest version; if the problem persists, temporarily disable the plugin and retest."@,
                    name,
                ),
            ),
        )
    } else {
        None
    }
}

pub fn check_plugin_encountered_error(idx: usize, line: &[char], lower: &[char], loc: Locale) -> (r:
    Option<Finding>)
    requires
        idx < usize::MAX,
    ensures
        opt_view(r) == spec_plugin_encountered_error(idx as nat, line@, lower@, loc),
{
    let channel = match parse_xplane_error_channel(line) {
        None => return None,
        Some(c) => c,
    };
    if !equals_str(&channel, "E/PLG") || !contains_str(lower, "encountered error") {
        return None;
    }
    let name: Vec<char> = match split_second_str(line, "Plugin ") {
        Some(rest) => {
            let a = before_first_str(rest, " encountered error");
            let b = before_first_str(a, " (");
            let t = trim_slice(b);
            let mut v: Vec<char> = Vec::new();
            v.extend_from_slice(t);
            assert(v@ =~= t@);
            v
        },
        None => chars_of("unknown plugin"),
    };
    Some(
        Finding::new(
            Severity::Medium,
            Confidence::High,
            string_from("plugin_encountered_error"),
            fill(loc, "插件 ", " 在运行时遇到错误", "Plugin ", " encountered a runtime error", &name),
            evidence_line(idx, line),
            fill(
                loc,
                "X-Plane 在运行时通过 E/PLG 通道报告了插件 ",
                " 的错误。这是 X-Plane 自身识别到的运行时故障，不只是初始化噪声。",
                "X-Plane reported a runtime error for plugin ",
                " via the E/PLG channel. This is a runtime fault identified by X-Plane itself, not just initialization noise.",
                &name,
            ),
            fill(
                loc,
                "更新 ",
                " 到最新版本，若问题依旧则临时禁用该插件复测。",
                "Update ",
                " to the latest version; if the problem persists, temporarily disable the plugin and retest.",
                &name,
            ),
        ),
    )
}

/// The plugin named before ` has bypassed`, without its ` (...)` details.
pub open spec fn bypass_plugin_name(line: Seq<char>) -> Seq<char> {
    trim(before_first(before_first(line, " has bypassed"@), " ("@))
}

/// The `xplm_bypass` rule on one line.
pub open spec fn spec_xplm_bypass(idx: nat, line: Seq<char>, lower: Seq<char>, loc: Locale) -> Option<
    FindingView,
> {
    if contains(lower, "bypassed xplm"@) || contains(lower, "bypassed sdk when calling"@) {
        let name = bypass_plugin_name(line);
        Some(
            new_finding(
                Severity::High,
                Confidence::High,
                "xplm_bypass"@,
                if name.len() == 0 {
                    pick(loc, "插件绕过 XPLM SDK 调用"@, "Plugin bypassed XPLM SDK call"@)
                } else {
                    filled(
                        loc,
                        "插件绕过 XPLM SDK 调用——"@,
                        ""@,
                        "Plugin bypassed XPLM SDK call -- "@,
                        ""@,
                        name,
                    )
                },
                evidence_text(idx, line),
                pick(
                    loc,
                    "某插件绕过 XPLM 直接调用 SDK 函数，这与线程违规类似，可能导致不可预测的行为或崩溃。"@,
                    "A plugin bypassed XPLM and called SDK functions directly. This is similar to a threading violation and can cause unpredictable behavior or crashes."@,
                ),
                if name.len() == 0 {
                    pick(
                        loc,
                        "定位绕过 XPLM 的插件，更新到最新版或临时禁用复测。"@,
                        "Identify the plugin that bypassed XPLM, update it to the latest version, or temporarily disable it and retest."@,
                    )
                } else {
                    filled(
                        loc,
                        ""@,
                        " 存在 SDK 调用问题。先更新该插件到最新版，若问题依旧则临时禁用它复测。"@,
                        ""@,
                        " has an SDK calling issue. Update to the latest version; if the problem persists, temporarily disable it and retest."@,
                        name,
                    )
                },
            ),
        )
    } else {
        None
    }
}

pub fn check_xplm_bypass(idx: usize, line: &[char], lower: &[char], loc: Locale) -> (r: Option<
    Finding,
>)
    requires
        idx < usize::MAX,
    ensures
        opt_view(r) == spec_xplm_bypass(idx as nat, line@, lower@, loc),
{
    if !contains_str(lower, "bypassed xplm") && !contains_str(lower, "bypassed sdk when calling") {
        return None;
    }
    let a = before_first_str(line, " has bypassed");
    let b = before_first_str(a, " (");
    let name = trim_slice(b);
    let title = if name.len() == 0 {
        string_from(tr(loc, "插件绕过 XPLM SDK 调用", "Plugin bypassed XPLM SDK call"))
    } else {
        fill(loc, "插件绕过 XPLM SDK 调用——", "", "Plugin bypassed XPLM SDK call -- ", "", name)
    };
    let suggestion = if name.len() == 0 {
        string_from(
            tr(
                loc,
                "定位绕过 XPLM 的插件，更新到最新版或临时禁用复测。",
                "Identify the plugin that bypassed XPLM, update it to the latest version, or temporarily disable it and retest.",
            ),
        )
    } else {
        fill(
            loc,
            "",
            " 存在 SDK 调用问题。先更新该插件到最新版，若问题依旧则临时禁用它复测。",
            "",
            " has an SDK calling issue. Update to the latest version; if the problem persists, temporarily disable it and retest.",
            name,
        )
    };
    Some(
        Finding::new(
            Severity::High,
            Confidence::High,
            string_from("xplm_bypass"),
            title,
            evidence_line(idx, line),
            string_from(
                tr(
                    loc,
                    "某插件绕过 XPLM 直接调用 SDK 函数，这与线程违规类似，可能导致不可预测的行为或崩溃。",
                    "A plugin bypassed XPLM and called SDK functions directly. This is similar to a threading violation and can cause unpredictable behavior or crashes.",
                ),
            ),
            suggestion,
        ),
    )
}

/// The plugin named on the line after a threading violation.
pub open spec fn violating_plugin(idx: nat, ls: Seq<Seq<char>>) -> Seq<char> {
    if idx + 1 < ls.len() {
        match strip_prefix(ls[idx + 1 as int], "Violation by "@) {
            Some(r) => trim(r),
            None => ""@,
        }
    } else {
        ""@
    }
}

/// The `threading_violation` rule on the line at index `idx` of `ls`.
pub open spec fn spec_threading_violation(
    idx: nat,
    line: Seq<char>,
    lower: Seq<char>,
    ls: Seq<Seq<char>>,
    loc: Locale,
) -> Option<FindingView> {
    if contains(lower, "threading violation calling xplm"@) {
        let name = violating_plugin(idx, ls);
        Some(
            new_finding(
                Severity::High,
                Confidence::High,
                "threading_violation"@,
                if name.len() == 0 {
                    pick(loc, "插件线程违规"@, "Plugin threading violation"@)
                } else {
                    filled(loc, "插件线程违规——"@, ""@, "Plugin threading violation -- "@, ""@, name)
                },
                evidence_text(idx, line),
                pick(
                    loc,
                    "某插件在非主线程中调用了 X-Plane SDK 函数，这会导致不可预测的行为甚至崩溃。"@,
                    "A plugin called X-Plane SDK functions from a non-main thread, causing unpredictable behavior or crashes."@,
                ),
                if name.len() == 0 {
                    pick(
                        loc,
                        "先定位违规插件，然后更新该插件或将其临时禁用复测。"@,
                        "Identify the violating plugin, then update it or temporarily disable it and retest."@,
                    )
                } else {
                    filled(
                        loc,
                        ""@,
                        " 存在线程安全问题。先更新该插件到最新版，若问题依旧则临时禁用它复测。"@,
                        ""@,
                        " has a threading safety issue. Update to the latest version; if the problem persists, temporarily disable it and retest."@,
                        name,
                    )
                },
            ),
        )
    } else {
        None
    }
}

pub fn check_threading_violation(
    idx: usize,
    line: &[char],
    lower: &[char],
    lines: &Vec<Vec<char>>,
    loc: Locale,
) -> (r: Option<Finding>)
    requires
        idx < usize::MAX,
    ensures
        opt_view(r) == spec_threading_violation(idx as nat, line@, lower@, seqs_of(lines@), loc),
{
    if !contains_str(lower, "threading violation calling xplm") {
        return None;
    }
    let empty: [char; 0] = [];
    let mut name: &[char] = &empty;
    assert(name@ =~= ""@) by {
        reveal_strlit("");
    }
    if idx + 1 < lines.len() {
        let next: &[char] = lines[idx + 1].as_slice();
        match strip_prefix_str(next, "Violation by ") {
            Some(r) => {
                name = trim_slice(r);
            },
            None => {},
        }
    }
    let title = if name.len() == 0 {
        string_from(tr(loc, "插件线程违规", "Plugin threading violation"))
    } else {
        fill(loc, "插件线程违规——", "", "Plugin threading violation -- ", "", name)
    };
    let suggestion = if name.len() == 0 {
        string_from(
            tr(
                loc,
                "先定位违规插件，然后更新该插件或将其临时禁用复测。",
                "Identify the violating plugin, then update it or temporarily disable it and retest.",
            ),
        )
    } else {
        fill(
            loc,
            "",
            " 存在线程安全问题。先更新该插件到最新版，若问题依旧则临时禁用它复测。",
            "",
            " has a threading safety issue. Update to the latest version; if the problem persists, temporarily disable it and retest.",
            name,
        )
    };
    Some(
        Finding::new(
            Severity::High,
            Confidence::High,
            string_from("threading_violation"),
            title,
            evidence_line(idx, line),
            string_from(
                tr(
                    loc,
                    "某插件在非主线程中调用了 X-Plane SDK 函数，这会导致不可预测的行为甚至崩溃。",
                    "A plugin called X-Plane SDK functions from a non-main thread, causing unpredictable behavior or crashes.",
                ),
            ),
            suggestion,
        ),
    )
}

/// The `third_party_plugin_error` finding is counted once.
pub proof fn lemma_third_party_plugin_error_once(idx: nat,
    line: Seq<char>,
    lower: Seq<char>,
    loc: Locale)
    ensures
        spec_third_party_plugin_error(idx, line, lower, loc) matches Some(f) ==> f.occurrences == 1 && f.extra_evidence.len() <= 4 && f.kind == "third_party_plugin_error"@ && crate::rules::evidence::log_evidence(f.evidence) && f.extra_evidence.len() == 0 && f.evidence == crate::rules::evidence::evidence_text(idx, line),
{
    broadcast use crate::rules::evidence::lemma_evidence_text_in_log;
}

/// The `plugin_encountered_error` finding is counted once.
pub proof fn lemma_plugin_encountered_error_once(idx: nat,
    line: Seq<char>,
    lower: Seq<char>,
    loc: Locale)
    ensures
        spec_plugin_encountered_error(idx, line, lower, loc) matches Some(f) ==> f.occurrences == 1 && f.extra_evidence.len() <= 4 && f.kind == "plugin_encountered_error"@ && crate::rules::evidence::log_evidence(f.evidence) && f.extra_evidence.len() == 0 && f.evidence == crate::rules::evidence::evidence_text(idx, line),
{
    broadcast use crate::rules::evidence::lemma_evidence_text_in_log;
}

/// The `xplm_bypass` finding is counted once.
pub proof fn lemma_xplm_bypass_once(idx: nat, line: Seq<char>, lower: Seq<char>, loc: Locale)
    ensures
        spec_xplm_bypass(idx, line, lower, loc) matches Some(f) ==> f.occurrences == 1 && f.extra_evidence.len() <= 4 && f.kind == "xplm_bypass"@ && crate::rules::evidence::log_evidence(f.evidence) && f.extra_evidence.len() == 0 && f.evidence == crate::rules::evidence::evidence_text(idx, line),
{
    broadcast use crate::rules::evidence::lemma_evidence_text_in_log;
}

/// The `threading_violation` finding is counted once.
pub proof fn lemma_threading_violation_once(idx: nat,
    line: Seq<char>,
    lower: Seq<char>,
    ls: Seq<Seq<char>>,
    loc: Locale)
    ensures
        spec_threading_violation(idx, line, lower, ls, loc) matches Some(f) ==> f.occurrences == 1 && f.extra_evidence.len() <= 4 && f.kind == "threading_violation"@ && crate::rules::evidence::log_evidence(f.evidence) && f.extra_evidence.len() == 0 && f.evidence == crate::rules::evidence::evidence_text(idx, line),
{
    broadcast use crate::rules::evidence::lemma_evidence_text_in_log;
}

} // verus!
