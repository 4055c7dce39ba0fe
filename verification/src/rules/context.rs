//! Findings about the log as a whole: what came just before a crash, and
//! logs that stop without a crash marker or a clean shutdown.
use vstd::prelude::*;

use crate::i18n::{pick, tr, Locale};
use crate::model::{new_finding, Confidence, Finding, FindingView, Severity};
use crate::rules::evidence::{evidence_line, evidence_text, push_extra_evidence, with_extra};
use crate::rules::keywords::{is_crash_marker, is_crash_marker_line};
use crate::rules::simtime::{parse_sim_time, sim_time, SIM_UNIT};
use crate::text::{
    contains, contains_str, equals_str, lower, lower_of, seqs_of, starts_with, starts_with_str,
    string_from, trim, trim_slice,
};

verus! {

/// Index of the first crash marker line at or after `i`.
pub open spec fn crash_from(ls: Seq<Seq<char>>, i: int) -> Option<int>
    decreases ls.len() - i,
{
    if i < 0 || i >= ls.len() {
        None
    } else if is_crash_marker(ls[i]) {
        Some(i)
    } else {
        crash_from(ls, i + 1)
    }
}

/// Index of the first crash marker line.
pub open spec fn crash_index(ls: Seq<Seq<char>>) -> Option<int> {
    crash_from(ls, 0)
}

pub fn first_crash_index(lines: &Vec<Vec<char>>) -> (r: Option<usize>)
    ensures
        match r {
            Some(i) => crash_index(seqs_of(lines@)) == Some(i as int) && i < lines.len(),
            None => crash_index(seqs_of(lines@)) is None,
        },
{
    let ghost ls = seqs_of(lines@);
    let mut i: usize = 0;
    while i < lines.len()
        invariant
            i <= lines.len(),
            ls == seqs_of(lines@),
            crash_index(ls) == crash_from(ls, i as int),
        decreases lines.len() - i,
    {
        if is_crash_marker_line(lines[i].as_slice()) {
            return Some(i);
        }
        i = i + 1;
    }
    None
}

/// Index of the last line in `lo..hi` that holds both `p1` and `p2`.
pub open spec fn last_with(ls: Seq<Seq<char>>, lo: int, hi: int, p1: Seq<char>, p2: Seq<char>) -> Option<
    int,
>
    decreases hi - lo,
{
    if hi <= lo || hi > ls.len() || lo < 0 {
        None
    } else if contains(ls[hi - 1], p1) && contains(ls[hi - 1], p2) {
        Some(hi - 1)
    } else {
        last_with(ls, lo, hi - 1, p1, p2)
    }
}

fn last_with_exec(lines: &Vec<Vec<char>>, lo: usize, hi: usize, p1: &str, p2: &str) -> (r: Option<
    usize,
>)
    requires
        lo <= hi <= lines.len(),
    ensures
        match r {
            Some(i) => last_with(seqs_of(lines@), lo as int, hi as int, p1@, p2@) == Some(i as int)
                && lo <= i < hi,
            None => last_with(seqs_of(lines@), lo as int, hi as int, p1@, p2@) is None,
        },
{
    let ghost ls = seqs_of(lines@);
    let mut h = hi;
    while h > lo
        invariant
            lo <= h <= hi <= lines.len(),
            ls == seqs_of(lines@),
            last_with(ls, lo as int, hi as int, p1@, p2@) == last_with(ls, lo as int, h as int, p1@, p2@),
        decreases h,
    {
        let line = lines[h - 1].as_slice();
        if contains_str(line, p1) && contains_str(line, p2) {
            return Some(h - 1);
        }
        h = h - 1;
    }
    None
}

pub open spec fn with_extra_at(f: FindingView, o: Option<int>, ls: Seq<Seq<char>>) -> FindingView {
    match o {
        Some(i) => with_extra(f, evidence_text(i as nat, ls[i])),
        None => f,
    }
}

/// The `scenery_load_crash_context` finding.
pub open spec fn spec_scenery_load_crash_context(ls: Seq<Seq<char>>, loc: Locale) -> Option<FindingView> {
    match crash_index(ls) {
        None => None,
        Some(c) => {
            let start = if c >= 140 {
                c - 140
            } else {
                0
            };
            let airport = last_with(ls, start, c, "I/FLT: Init "@, " apt:"@);
            let loading = last_with(
                ls,
                start,
                c,
                "I/SCN: Loading sim objects for airport"@,
                "I/SCN: Loading sim objects for airport"@,
            );
            let custom = last_with(ls, start, c, "Custom Scenery/"@, "Custom Scenery/"@);
            if loading is None && custom is None {
                None
            } else {
                let p = if loading is Some {
                    loading.unwrap()
                } else {
                    custom.unwrap()
                };
                let f = new_finding(
                    Severity::Medium,
                    Confidence::Medium,
                    "scenery_load_crash_context"@,
                    pick(loc, "崩溃发生在机场或地景加载阶段"@, "Crash while loading airport or scenery"@),
                    evidence_text(p as nat, ls[p]),
                    pick(
                        loc,
                        "日志在崩溃前出现了机场/地景加载线索。这不是百分百根因，但比很早出现的网络或机场数据库提示更接近崩溃点，适合优先作为复测方向。"@,
                        "The log shows airport/scenery loading context immediately before the crash. This is not a guaranteed root cause, but it is closer to the crash point than earlier network or airport database noise and is a better first retest target."@,
                    ),
                    pick(
                        loc,
                        "优先用默认机场复测；如果只在这个机场附近崩溃，临时禁用证据里提到的 Custom Scenery 包，再重启 X-Plane 复现。若复测通过，再逐个恢复地景包定位具体项。"@,
                        "First retest at a default airport. If the crash only happens near this airport, temporarily disable the Custom Scenery package named in the evidence, restart X-Plane, and reproduce. If the retest passes, restore scenery packages one by one to isolate the item."@,
                    ),
                );
                Some(with_extra_at(with_extra_at(with_extra_at(f, airport, ls), loading, ls), custom, ls))
            }
        },
    }
}

fn push_extra_at(f: &mut Finding, o: Option<usize>, lines: &Vec<Vec<char>>)
    requires
        lines.len() < usize::MAX,
        o matches Some(i) ==> i < lines.len(),
    ensures
        final(f)@ == with_extra_at(
            old(f)@,
            match o {
                Some(i) => Some(i as int),
                None => None,
            },
            seqs_of(lines@),
        ),
{
    match o {
        Some(i) => {
            push_extra_evidence(f, evidence_line(i, lines[i].as_slice()));
        },
        None => {},
    }
}

pub fn scenery_load_crash_context_finding(lines: &Vec<Vec<char>>, loc: Locale) -> (r: Option<Finding>)
    requires
        lines.len() < usize::MAX,
    ensures
        crate::rules::keywords::opt_view(r) == spec_scenery_load_crash_context(seqs_of(lines@), loc),
{
    let c = match first_crash_index(lines) {
        None => return None,
        Some(c) => c,
    };
    let start = if c >= 140 {
        c - 140
    } else {
        0
    };
    let airport = last_with_exec(lines, start, c, "I/FLT: Init ", " apt:");
    let loading = last_with_exec(
        lines,
        start,
        c,
        "I/SCN: Loading sim objects for airport",
        "I/SCN: Loading sim objects for airport",
    );
    let custom = last_with_exec(lines, start, c, "Custom Scenery/", "Custom Scenery/");
    if loading.is_none() && custom.is_none() {
        return None;
    }
    let p = match loading {
        Some(i) => i,
        None => match custom {
            Some(i) => i,
            None => 0,
        },
    };
    let mut f = Finding::new(
        Severity::Medium,
        Confidence::Medium,
        string_from("scenery_load_crash_context"),
        string_from(tr(loc, "崩溃发生在机场或地景加载阶段", "Crash while loading airport or scenery")),
        evidence_line(p, lines[p].as_slice()),
        string_from(
            tr(
                loc,
                "日志在崩溃前出现了机场/地景加载线索。这不是百分百根因，但比很早出现的网络或机场数据库提示更接近崩溃点，适合优先作为复测方向。",
                "The log shows airport/scenery loading context immediately before the crash. This is not a guaranteed root cause, but it is closer to the crash point than earlier network or airport database noise and is a better first retest target.",
            ),
        ),
        string_from(
            tr(
                loc,
                "优先用默认机场复测；如果只在这个机场附近崩溃，临时禁用证据里提到的 Custom Scenery 包，再重启 X-Plane 复现。若复测通过，再逐个恢复地景包定位具体项。",
                "First retest at a default airport. If the crash only happens near this airport, temporarily disable the Custom Scenery package named in the evidence, restart X-Plane, and reproduce. If the retest passes, restore scenery packages one by one to isolate the item.",
            ),
        ),
    );
    push_extra_at(&mut f, airport, lines);
    push_extra_at(&mut f, loading, lines);
    push_extra_at(&mut f, custom, lines);
    Some(f)
}

/// A line that names something being loaded (and not unloaded or finished).
pub open spec fn interesting_load(line: Seq<char>) -> bool {
    let l = lower(line);
    if contains(l, "unload"@) || contains(l, "shutdown"@) || contains(l, "cleanup"@) || contains(
        l,
        "complete"@,
    ) {
        false
    } else {
        contains(l, "loaded:"@) || contains(l, "loading aircraft"@) || contains(l, "loading scenery"@)
            || contains(l, "loading plugin"@) || contains(l, "starting plugin"@)
    }
}

pub fn is_interesting_load_context(line: &[char]) -> (r: bool)
    ensures
        r == interesting_load(line@),
{
    let l = lower_of(line);
    if contains_str(&l, "unload") || contains_str(&l, "shutdown") || contains_str(&l, "cleanup")
        || contains_str(&l, "complete") {
        return false;
    }
    contains_str(&l, "loaded:") || contains_str(&l, "loading aircraft") || contains_str(
        &l,
        "loading scenery",
    ) || contains_str(&l, "loading plugin") || contains_str(&l, "starting plugin")
}

/// Index of the last interesting load line before `hi`.
pub open spec fn last_load(ls: Seq<Seq<char>>, hi: int) -> Option<int>
    decreases hi,
{
    if hi <= 0 || hi > ls.len() {
        None
    } else if interesting_load(ls[hi - 1]) {
        Some(hi - 1)
    } else {
        last_load(ls, hi - 1)
    }
}

/// The `last_loaded_context` finding.
pub open spec fn spec_last_loaded_context(ls: Seq<Seq<char>>, loc: Locale) -> Option<FindingView> {
    match last_load(ls, ls.len() as int) {
        None => None,
        Some(i) => Some(
            new_finding(
                Severity::Info,
                Confidence::Low,
                "last_loaded_context"@,
                pick(loc, "崩溃前最后加载线索"@, "Last loaded context before crash"@),
                evidence_text(i as nat, ls[i]),
                pick(
                    loc,
                    "这不是直接错误，但如果 X-Plane 启动后马上崩溃，最后加载的插件、飞机或机场常常有排查价值。"@,
                    "This is not a direct error, but if X-Plane crashed shortly after startup, the last loaded plugin, aircraft, or airport is often worth investigating."@,
                ),
                pick(
                    loc,
                    "如果高置信错误不足以定位问题，可以围绕这条线索附近的插件、飞机或 scenery 做禁用复测。"@,
                    "If high-confidence findings are not enough to locate the problem, try disabling plugins, aircraft, or scenery near this clue and retest."@,
                ),
            ),
        ),
    }
}

pub fn last_loaded_context_finding(lines: &Vec<Vec<char>>, loc: Locale) -> (r: Option<Finding>)
    requires
        lines.len() < usize::MAX,
    ensures
        crate::rules::keywords::opt_view(r) == spec_last_loaded_context(seqs_of(lines@), loc),
{
    let ghost ls = seqs_of(lines@);
    let mut h = lines.len();
    while h > 0
        invariant
            h <= lines.len() < usize::MAX,
            ls == seqs_of(lines@),
            last_load(ls, ls.len() as int) == last_load(ls, h as int),
        decreases h,
    {
        let line = lines[h - 1].as_slice();
        if is_interesting_load_context(line) {
            let i = h - 1;
            return Some(
                Finding::new(
                    Severity::Info,
                    Confidence::Low,
                    string_from("last_loaded_context"),
                    string_from(tr(loc, "崩溃前最后加载线索", "Last loaded context before crash")),
                    evidence_line(i, line),
                    string_from(
                        tr(
                            loc,
                            "这不是直接错误，但如果 X-Plane 启动后马上崩溃，最后加载的插件、飞机或机场常常有排查价值。",
                            "This is not a direct error, but if X-Plane crashed shortly after startup, the last loaded plugin, aircraft, or airport is often worth investigating.",
                        ),
                    ),
                    string_from(
                        tr(
                            loc,
                            "如果高置信错误不足以定位问题，可以围绕这条线索附近的插件、飞机或 scenery 做禁用复测。",
                            "If high-confidence findings are not enough to locate the problem, try disabling plugins, aircraft, or scenery near this clue and retest.",
                        ),
                    ),
                ),
            );
        }
        h = h - 1;
    }
    None
}

/// Lines that say nothing about what happened: blank, crash-report markers,
/// and the upload notice.
pub open spec fn is_noise(t: Seq<char>) -> bool {
    t.len() == 0 || starts_with(t, "--=={"@) || t == "upload successful"@
}

/// Index of the last meaningful line before `hi`.
pub open spec fn last_meaningful(ls: Seq<Seq<char>>, hi: int) -> Option<int>
    decreases hi,
{
    if hi <= 0 || hi > ls.len() {
        None
    } else if !is_noise(trim(ls[hi - 1])) {
        Some(hi - 1)
    } else {
        last_meaningful(ls, hi - 1)
    }
}

fn last_meaningful_exec(lines: &Vec<Vec<char>>, hi: usize) -> (r: Option<usize>)
    requires
        hi <= lines.len(),
    ensures
        match r {
            Some(i) => last_meaningful(seqs_of(lines@), hi as int) == Some(i as int) && i < hi,
            None => last_meaningful(seqs_of(lines@), hi as int) is None,
        },
{
    let ghost ls = seqs_of(lines@);
    let mut h = hi;
    while h > 0
        invariant
            h <= hi <= lines.len(),
            ls == seqs_of(lines@),
            last_meaningful(ls, hi as int) == last_meaningful(ls, h as int),
        decreases h,
    {
        let t = trim_slice(lines[h - 1].as_slice());
        if !(t.len() == 0 || starts_with_str(t, "--=={") || equals_str(t, "upload successful")) {
            return Some(h - 1);
        }
        h = h - 1;
    }
    None
}

/// The `pre_crash_context` finding.
pub open spec fn spec_pre_crash_context(ls: Seq<Seq<char>>, loc: Locale) -> Option<FindingView> {
    match crash_index(ls) {
        None => None,
        Some(c) => match last_meaningful(ls, c) {
            None => None,
            Some(i) => Some(
                new_finding(
                    Severity::Info,
                    Confidence::Medium,
                    "pre_crash_context"@,
                    pick(loc, "崩溃前最后一行日志"@, "Last log line before crash"@),
                    evidence_text(i as nat, trim(ls[i])),
                    pick(
                        loc,
                        "这是崩溃前日志的最后一行有意义内容，直接看这一行附近往往比回溯更远的 'Loaded:' 更快定位问题。"@,
                        "This is the last meaningful log line before the crash. Looking near this line is often faster at locating the issue than backtracking to distant 'Loaded:' entries."@,
                    ),
                    pick(
                        loc,
                        "如果 last_loaded_context 离崩溃很远，优先从这一行前后 30 行的上下文开始排查。"@,
                        "If last_loaded_context is far from the crash, prioritize investigating the ~30 lines surrounding this line."@,
                    ),
                ),
            ),
        },
    }
}

pub fn pre_crash_context_finding(lines: &Vec<Vec<char>>, loc: Locale) -> (r: Option<Finding>)
    requires
        lines.len() < usize::MAX,
    ensures
        crate::rules::keywords::opt_view(r) == spec_pre_crash_context(seqs_of(lines@), loc),
{
    let c = match first_crash_index(lines) {
        None => return None,
        Some(c) => c,
    };
    let i = match last_meaningful_exec(lines, c) {
        None => return None,
        Some(i) => i,
    };
    let t = trim_slice(lines[i].as_slice());
    Some(
        Finding::new(
            Severity::Info,
            Confidence::Medium,
            string_from("pre_crash_context"),
            string_from(tr(loc, "崩溃前最后一行日志", "Last log line before crash")),
            evidence_line(i, t),
            string_from(
                tr(
                    loc,
                    "这是崩溃前日志的最后一行有意义内容，直接看这一行附近往往比回溯更远的 'Loaded:' 更快定位问题。",
                    "This is the last meaningful log line before the crash. Looking near this line is often faster at locating the issue than backtracking to distant 'Loaded:' entries.",
                ),
            ),
            string_from(
                tr(
                    loc,
                    "如果 last_loaded_context 离崩溃很远，优先从这一行前后 30 行的上下文开始排查。",
                    "If last_loaded_context is far from the crash, prioritize investigating the ~30 lines surrounding this line.",
                ),
            ),
        ),
    )
}

/// Some finding already explains the crash: a high one other than the crash itself.
pub open spec fn has_explaining_high(fs: Seq<FindingView>) -> bool {
    exists|j: int|
        0 <= j < fs.len() && fs[j].severity == Severity::High && fs[j].kind != "application_crash"@
}

/// The `early_silent_crash` finding, given the findings made so far.
pub open spec fn spec_early_silent_crash(ls: Seq<Seq<char>>, fs: Seq<FindingView>, loc: Locale) -> Option<
    FindingView,
> {
    if has_explaining_high(fs) {
        None
    } else {
        match crash_index(ls) {
            None => None,
            Some(c) => match last_meaningful(ls, c) {
                None => None,
                Some(i) => match sim_time(trim(ls[i])) {
                    Some(t) => if t < 5 * SIM_UNIT {
                        Some(
                            new_finding(
                                Severity::Info,
                                Confidence::Low,
                                "early_silent_crash"@,
                                pick(
                                    loc,
                                    "启动早期静默崩溃——建议排查外部因素"@,
                                    "Early silent crash -- external factors likely"@,
                                ),
                                evidence_text(i as nat, trim(ls[i])),
                                pick(
                                    loc,
                                    "X-Plane 在启动后极短时间内崩溃，且日志中没有高置信错误。这类崩溃的根因可能在 Log.txt 之外：端口冲突（如 8888 被占用）、杀毒软件拦截、文件权限不足、系统服务干扰等。"@,
                                    "X-Plane crashed shortly after startup with no high-confidence errors in the log. The root cause may be outside Log.txt: port conflicts (e.g. port 8888 in use), antivirus blocking, insufficient file permissions, system service interference, etc."@,
                                ),
                                pick(
                                    loc,
                                    "检查 X-Plane Web API 端口 8888 是否被占用（netstat -ano | findstr 8888）；暂时关闭杀毒软件和后台服务后复测；如果最近安装了新软件或系统更新，排查其对端口和文件访问的影响。"@,
                                    "Check if X-Plane Web API port 8888 is in use (netstat -ano | findstr 8888); temporarily disable antivirus and background services and retest. If new software or system updates were recently installed, investigate their impact on ports and file access."@,
                                ),
                            ),
                        )
                    } else {
                        None
                    },
                    None => None,
                },
            },
        }
    }
}

pub fn early_silent_crash_finding(lines: &Vec<Vec<char>>, findings: &Vec<Finding>, loc: Locale) -> (r:
    Option<Finding>)
    requires
        lines.len() < usize::MAX,
    ensures
        crate::rules::keywords::opt_view(r) == spec_early_silent_crash(
            seqs_of(lines@),
            findings@.map_values(|f: Finding| f@),
            loc,
        ),
{
    let ghost fs = findings@.map_values(|f: Finding| f@);
    let mut j: usize = 0;
    while j < findings.len()
        invariant
            j <= findings.len(),
            fs == findings@.map_values(|f: Finding| f@),
            forall|k: int|
                0 <= k < j ==> !(fs[k].severity == Severity::High && fs[k].kind
                    != "application_crash"@),
        decreases findings.len() - j,
    {
        let f = &findings[j];
        if f.severity == Severity::High && !equals_str(
            &crate::text::chars_of(f.kind.as_str()),
            "application_crash",
        ) {
            assert(fs[j as int] == f@);
            return None;
        }
        assert(fs[j as int] == f@);
        j = j + 1;
    }
    let c = match first_crash_index(lines) {
        None => return None,
        Some(c) => c,
    };
    let i = match last_meaningful_exec(lines, c) {
        None => return None,
        Some(i) => i,
    };
    let t = trim_slice(lines[i].as_slice());
    match parse_sim_time(t) {
        Some(v) => {
            if v < 5 * SIM_UNIT {
                Some(
                    Finding::new(
                        Severity::Info,
                        Confidence::Low,
                        string_from("early_silent_crash"),
                        string_from(
                            tr(
                                loc,
                                "启动早期静默崩溃——建议排查外部因素",
                                "Early silent crash -- external factors likely",
                            ),
                        ),
                        evidence_line(i, t),
                        string_from(
                            tr(
                                loc,
                                "X-Plane 在启动后极短时间内崩溃，且日志中没有高置信错误。这类崩溃的根因可能在 Log.txt 之外：端口冲突（如 8888 被占用）、杀毒软件拦截、文件权限不足、系统服务干扰等。",
                                "X-Plane crashed shortly after startup with no high-confidence errors in the log. The root cause may be outside Log.txt: port conflicts (e.g. port 8888 in use), antivirus blocking, insufficient file permissions, system service interference, etc.",
                            ),
                        ),
                        string_from(
                            tr(
                                loc,
                                "检查 X-Plane Web API 端口 8888 是否被占用（netstat -ano | findstr 8888）；暂时关闭杀毒软件和后台服务后复测；如果最近安装了新软件或系统更新，排查其对端口和文件访问的影响。",
                                "Check if X-Plane Web API port 8888 is in use (netstat -ano | findstr 8888); temporarily disable antivirus and background services and retest. If new software or system updates were recently installed, investigate their impact on ports and file access.",
                            ),
                        ),
                    ),
                )
            } else {
                None
            }
        },
        None => None,
    }
}

/// Some line is X-Plane's clean-shutdown marker.
pub open spec fn has_clean_shutdown(ls: Seq<Seq<char>>) -> bool {
    exists|i: int| 0 <= i < ls.len() && contains(ls[i], "----- X-Plane has shut down -----"@)
}

/// Index of the last non-blank time-stamped line before `hi`.
pub open spec fn last_timed(ls: Seq<Seq<char>>, hi: int) -> Option<int>
    decreases hi,
{
    if hi <= 0 || hi > ls.len() {
        None
    } else if trim(ls[hi - 1]).len() > 0 && sim_time(ls[hi - 1]) is Some {
        Some(hi - 1)
    } else {
        last_timed(ls, hi - 1)
    }
}

/// The `abrupt_termination` finding.
pub open spec fn spec_abrupt_termination(ls: Seq<Seq<char>>, loc: Locale) -> Option<FindingView> {
    if has_clean_shutdown(ls) {
        None
    } else {
        match last_timed(ls, ls.len() as int) {
            None => None,
            Some(i) => if sim_time(ls[i]).unwrap() < 120 * SIM_UNIT {
                None
            } else {
                Some(
                    new_finding(
                        Severity::Info,
                        Confidence::Low,
                        "abrupt_termination"@,
                        pick(
                            loc,
                            "日志异常截断——进程可能被外部终止"@,
                            "Log truncated abnormally -- process may have been externally terminated"@,
                        ),
                        evidence_text(i as nat, ls[i]),
                        pick(
                            loc,
                            "X-Plane 的日志在飞行中途突然中断，没有写入崩溃标记也没有正常退出记录。可能原因包括 GPU 驱动超时恢复 (TDR)、系统内存耗尽、热保护关机、外部程序终止进程，或者用户手动结束了 X-Plane。Log.txt 本身无法确认具体原因。"@,
                            "X-Plane's log truncated mid-flight with no crash marker and no clean shutdown. Possible causes: GPU driver timeout recovery (TDR), system memory exhaustion, thermal shutdown, external program termination, or manual force-quit. Log.txt cannot confirm the specific cause."@,
                        ),
                        pick(
                            loc,
                            "如果是意外崩溃，查看 Windows 事件查看器 (eventvwr) 中应用程序和系统日志，寻找与 X-Plane 或显卡驱动相关的错误记录；检查 GPU 温度和驱动版本。如果是有意结束进程则忽略本条。"@,
                            "If this was an unexpected crash, check Windows Event Viewer (eventvwr) Application and System logs for errors related to X-Plane or GPU drivers; check GPU temperature and driver version. If the process was intentionally terminated, ignore this finding."@,
                        ),
                    ),
                )
            },
        }
    }
}

pub fn abrupt_termination_finding(lines: &Vec<Vec<char>>, loc: Locale) -> (r: Option<Finding>)
    requires
        lines.len() < usize::MAX,
    ensures
        crate::rules::keywords::opt_view(r) == spec_abrupt_termination(seqs_of(lines@), loc),
{
    let ghost ls = seqs_of(lines@);
    let mut k: usize = 0;
    while k < lines.len()
        invariant
            k <= lines.len(),
            ls == seqs_of(lines@),
            forall|j: int| 0 <= j < k ==> !contains(ls[j], "----- X-Plane has shut down -----"@),
        decreases lines.len() - k,
    {
        if contains_str(lines[k].as_slice(), "----- X-Plane has shut down -----") {
            assert(ls[k as int] == lines@[k as int]@);
            return None;
        }
        k = k + 1;
    }
    let mut h = lines.len();
    while h > 0
        invariant
            h <= lines.len() < usize::MAX,
            ls == seqs_of(lines@),
            !has_clean_shutdown(ls),
            last_timed(ls, ls.len() as int) == last_timed(ls, h as int),
        decreases h,
    {
        let line = lines[h - 1].as_slice();
        let t = trim_slice(line);
        if t.len() > 0 {
            match parse_sim_time(line) {
                Some(v) => {
                    let i = h - 1;
                    if v < 120 * SIM_UNIT {
                        return None;
                    }
                    return Some(
                        Finding::new(
                            Severity::Info,
                            Confidence::Low,
                            string_from("abrupt_termination"),
                            string_from(
                                tr(
                                    loc,
                                    "日志异常截断——进程可能被外部终止",
                                    "Log truncated abnormally -- process may have been externally terminated",
                                ),
                            ),
                            evidence_line(i, line),
                            string_from(
                                tr(
                                    loc,
                                    "X-Plane 的日志在飞行中途突然中断，没有写入崩溃标记也没有正常退出记录。可能原因包括 GPU 驱动超时恢复 (TDR)、系统内存耗尽、热保护关机、外部程序终止进程，或者用户手动结束了 X-Plane。Log.txt 本身无法确认具体原因。",
                                    "X-Plane's log truncated mid-flight with no crash marker and no clean shutdown. Possible causes: GPU driver timeout recovery (TDR), system memory exhaustion, thermal shutdown, external program termination, or manual force-quit. Log.txt cannot confirm the specific cause.",
                                ),
                            ),
                            string_from(
                                tr(
                                    loc,
                                    "如果是意外崩溃，查看 Windows 事件查看器 (eventvwr) 中应用程序和系统日志，寻找与 X-Plane 或显卡驱动相关的错误记录；检查 GPU 温度和驱动版本。如果是有意结束进程则忽略本条。",
                                    "If this was an unexpected crash, check Windows Event Viewer (eventvwr) Application and System logs for errors related to X-Plane or GPU drivers; check GPU temperature and driver version. If the process was intentionally terminated, ignore this finding.",
                                ),
                            ),
                        ),
                    );
                },
                None => {},
            }
        }
        h = h - 1;
    }
    None
}

/// The `scenery_load_crash_context` finding is counted once.
pub proof fn lemma_scenery_load_crash_context_once(ls: Seq<Seq<char>>, loc: Locale)
    ensures
        spec_scenery_load_crash_context(ls, loc) matches Some(f) ==> f.occurrences == 1 && f.extra_evidence.len() <= 4 && f.kind == "scenery_load_crash_context"@ && crate::rules::evidence::log_evidence(f.evidence) && (forall|k: int| 0 <= k < f.extra_evidence.len() ==> f.extra_evidence[k] != f.evidence),
{
    broadcast use crate::rules::evidence::lemma_evidence_text_in_log;
}

/// The `last_loaded_context` finding is counted once.
pub proof fn lemma_last_loaded_context_once(ls: Seq<Seq<char>>, loc: Locale)
    ensures
        spec_last_loaded_context(ls, loc) matches Some(f) ==> f.occurrences == 1 && f.extra_evidence.len() <= 4 && f.kind == "last_loaded_context"@ && crate::rules::evidence::log_evidence(f.evidence) && (forall|k: int| 0 <= k < f.extra_evidence.len() ==> f.extra_evidence[k] != f.evidence),
{
    broadcast use crate::rules::evidence::lemma_evidence_text_in_log;
}

/// The `pre_crash_context` finding is counted once.
pub proof fn lemma_pre_crash_context_once(ls: Seq<Seq<char>>, loc: Locale)
    ensures
        spec_pre_crash_context(ls, loc) matches Some(f) ==> f.occurrences == 1 && f.extra_evidence.len() <= 4 && f.kind == "pre_crash_context"@ && crate::rules::evidence::log_evidence(f.evidence) && (forall|k: int| 0 <= k < f.extra_evidence.len() ==> f.extra_evidence[k] != f.evidence),
{
    broadcast use crate::rules::evidence::lemma_evidence_text_in_log;
}

/// The `early_silent_crash` finding is counted once.
pub proof fn lemma_early_silent_crash_once(ls: Seq<Seq<char>>, fs: Seq<FindingView>, loc: Locale)
    ensures
        spec_early_silent_crash(ls, fs, loc) matches Some(f) ==> f.occurrences == 1 && f.extra_evidence.len() <= 4 && f.kind == "early_silent_crash"@ && crate::rules::evidence::log_evidence(f.evidence) && (forall|k: int| 0 <= k < f.extra_evidence.len() ==> f.extra_evidence[k] != f.evidence),
{
    broadcast use crate::rules::evidence::lemma_evidence_text_in_log;
}

/// The `abrupt_termination` finding is counted once.
pub proof fn lemma_abrupt_termination_once(ls: Seq<Seq<char>>, loc: Locale)
    ensures
        spec_abrupt_termination(ls, loc) matches Some(f) ==> f.occurrences == 1 && f.extra_evidence.len() <= 4 && f.kind == "abrupt_termination"@ && crate::rules::evidence::log_evidence(f.evidence) && (forall|k: int| 0 <= k < f.extra_evidence.len() ==> f.extra_evidence[k] != f.evidence),
{
    broadcast use crate::rules::evidence::lemma_evidence_text_in_log;
}

} // verus!
