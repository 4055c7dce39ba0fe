//! Rules about missing scenery assets, aircraft files and crash markers.
use vstd::prelude::*;

use crate::i18n::{fill, filled, pick, tr, Locale};
use crate::model::{new_finding, Confidence, Finding, FindingView, Severity};
use crate::rules::evidence::{evidence_line, evidence_text};
use crate::rules::keywords::{is_crash_marker, is_crash_marker_line, opt_view};
use crate::text::{
    after_first_str, before_first, before_first_str, chars_of, contains, contains_str, find,
    find_exec, find_str, lemma_find_from, matches_at, push_chars, push_str, seqs_of, split_second,
    split_second_str, string_from, trim, trim_slice,
};

verus! {

/// The text between the first two `'` of a line.
pub open spec fn quoted_asset(line: Seq<char>) -> Option<Seq<char>> {
    match find(line, seq!['\'']) {
        None => None,
        Some(s) => {
            let rest = line.skip(s + 1);
            match find(rest, seq!['\'']) {
                None => None,
                Some(e) => Some(rest.take(e)),
            }
        },
    }
}

pub fn extract_quoted_asset(line: &[char]) -> (r: Option<&[char]>)
    ensures
        match r {
            Some(v) => quoted_asset(line@) == Some(v@),
            None => quoted_asset(line@) is None,
        },
{
    let q = ['\''];
    assert(q@ =~= seq!['\'']);
    proof {
        lemma_find_from(line@, seq!['\''], 0);
    }
    let s = match find_exec(line, &q) {
        None => return None,
        Some(s) => s,
    };
    assert(matches_at(line@, seq!['\''], s as int));
    let n = line.len();
    let rest = &line[s + 1..n];
    assert(rest@ =~= line@.skip(s + 1));
    proof {
        lemma_find_from(rest@, seq!['\''], 0);
    }
    match find_exec(rest, &q) {
        None => None,
        Some(e) => {
            assert(matches_at(rest@, seq!['\''], e as int));
            let v = &rest[0..e];
            assert(v@ =~= rest@.take(e as int));
            Some(v)
        },
    }
}

/// The first path component of `asset`, if not empty.
pub open spec fn library_of(asset: Seq<char>) -> Option<Seq<char>> {
    let name = before_first(asset, seq!['/']);
    if name.len() > 0 {
        Some(name)
    } else {
        None
    }
}

fn library_of_exec(asset: &[char]) -> (r: Option<&[char]>)
    ensures
        match r {
            Some(v) => library_of(asset@) == Some(v@),
            None => library_of(asset@) is None,
        },
{
    let slash = ['/'];
    assert(slash@ =~= seq!['/']);
    let name = crate::text::before_first_slice(asset, &slash);
    if name.len() > 0 {
        Some(name)
    } else {
        None
    }
}

/// The library hint of a missing art asset line.
pub open spec fn asset_hint(line: Seq<char>, loc: Locale) -> Seq<char> {
    match quoted_asset(line) {
        Some(asset) => match library_of(asset) {
            Some(name) => filled(
                loc,
                " 日志里的缺失路径以 `"@,
                "` 开头，这通常就是缺少的库或资源包线索。"@,
                " The missing path starts with `"@,
                "`, which is usually the library or resource package that needs to be installed."@,
                name,
            ),
            None => ""@,
        },
        None => ""@,
    }
}

/// The `missing_scenery_asset` rule on one line.
pub open spec fn spec_missing_scenery_asset(
    idx: nat,
    line: Seq<char>,
    lower: Seq<char>,
    loc: Locale,
) -> Option<FindingView> {
    if contains(lower, "the art asset"@) && contains(lower, "could not be found"@) {
        Some(
            new_finding(
                Severity::High,
                Confidence::High,
                "missing_scenery_asset"@,
                pick(loc, "风景包缺少资源文件"@, "Scenery package missing art asset"@),
                evidence_text(idx, line),
                pick(
                    loc,
                    "某个机场或风景包引用了不存在的对象、贴图或库文件。"@,
                    "An airport or scenery package referenced a non-existent object, texture, or library file. "@,
                ) + asset_hint(line, loc),
                pick(
                    loc,
                    "检查该 scenery 的说明文档，安装缺失的 library；如果已经安装，确认库文件夹名称和位置在 Custom Scenery 下。"@,
                    "Check the scenery documentation and install the missing library. If already installed, verify the library folder name and location under Custom Scenery."@,
                ),
            ),
        )
    } else {
        None
    }
}

pub fn check_missing_scenery_asset(idx: usize, line: &[char], lower: &[char], loc: Locale) -> (r:
    Option<Finding>)
    requires
        idx < usize::MAX,
    ensures
        opt_view(r) == spec_missing_scenery_asset(idx as nat, line@, lower@, loc),
{
    if !contains_str(lower, "the art asset") || !contains_str(lower, "could not be found") {
        return None;
    }
    let hint = match extract_quoted_asset(line) {
        Some(asset) => match library_of_exec(asset) {
            Some(name) => fill(
                loc,
                " 日志里的缺失路径以 `",
                "` 开头，这通常就是缺少的库或资源包线索。",
                " The missing path starts with `",
                "`, which is usually the library or resource package that needs to be installed.",
                name,
            ),
            None => string_from(""),
        },
        None => string_from(""),
    };
    let mut explanation = string_from(
        tr(
            loc,
            "某个机场或风景包引用了不存在的对象、贴图或库文件。",
            "An airport or scenery package referenced a non-existent object, texture, or library file. ",
        ),
    );
    push_chars(&mut explanation, &chars_of(hint.as_str()));
    Some(
        Finding::new(
            Severity::High,
            Confidence::High,
            string_from("missing_scenery_asset"),
            string_from(tr(loc, "风景包缺少资源文件", "Scenery package missing art asset")),
            evidence_line(idx, line),
            explanation,
            string_from(
                tr(
                    loc,
                    "检查该 scenery 的说明文档，安装缺失的 library；如果已经安装，确认库文件夹名称和位置在 Custom Scenery 下。",
                    "Check the scenery documentation and install the missing library. If already installed, verify the library folder name and location under Custom Scenery.",
                ),
            ),
        ),
    )
}

/// The object path named by a missing-object line.
pub open spec fn missing_object_path(line: Seq<char>, lower: Seq<char>) -> Seq<char> {
    if contains(lower, "unable to locate object"@) {
        match split_second(line, "Unable to locate object:"@) {
            Some(r) => trim(r),
            None => ""@,
        }
    } else {
        match split_second(line, "Missing object "@) {
            Some(r) => trim(before_first(r, " from package"@)),
            None => ""@,
        }
    }
}

/// The library hint of a missing object line.
pub open spec fn object_hint(line: Seq<char>, lower: Seq<char>, loc: Locale) -> Seq<char> {
    match library_of(missing_object_path(line, lower)) {
        Some(name) => filled(
            loc,
            " 缺失对象路径以 `"@,
            "` 开头，优先检查这个库或资源包。"@,
            " The missing object path starts with `"@,
            "`; check this library or resource package first."@,
            name,
        ),
        None => ""@,
    }
}

/// The `missing_scenery_object` rule on one line.
pub open spec fn spec_missing_scenery_object(
    idx: nat,
    line: Seq<char>,
    lower: Seq<char>,
    loc: Locale,
) -> Option<FindingView> {
    if contains(lower, "unable to locate object"@) || (contains(lower, "missing object"@) && contains(
        lower,
        "from package"@,
    )) {
        Some(
            new_finding(
                Severity::High,
                Confidence::High,
                "missing_scenery_object"@,
                pick(loc, "风景包找不到对象文件"@, "Scenery package cannot locate object file"@),
                evidence_text(idx, line),
                pick(
                    loc,
                    "机场或 scenery 正在引用一个不存在的对象文件。"@,
                    "An airport or scenery is referencing a non-existent object file. "@,
                ) + object_hint(line, lower, loc),
                pick(
                    loc,
                    "安装或修复对应 scenery library，然后重新启动 X-Plane 测试同一机场。"@,
                    "Install or repair the corresponding scenery library, then restart X-Plane and test the same airport."@,
                ),
            ),
        )
    } else {
        None
    }
}

pub fn check_missing_scenery_object(idx: usize, line: &[char], lower: &[char], loc: Locale) -> (r:
    Option<Finding>)
    requires
        idx < usize::MAX,
    ensures
        opt_view(r) == spec_missing_scenery_object(idx as nat, line@, lower@, loc),
{
    let unable = contains_str(lower, "unable to locate object");
    if !unable && !(contains_str(lower, "missing object") && contains_str(lower, "from package")) {
        return None;
    }
    let empty: [char; 0] = [];
    let mut asset: &[char] = &empty;
    assert(asset@ =~= ""@) by {
        reveal_strlit("");
    }
    if unable {
        match split_second_str(line, "Unable to locate object:") {
            Some(r) => {
                asset = trim_slice(r);
            },
            None => {},
        }
    } else {
        match split_second_str(line, "Missing object ") {
            Some(r) => {
                asset = trim_slice(before_first_str(r, " from package"));
            },
            None => {},
        }
    }
    let hint = match library_of_exec(asset) {
        Some(name) => fill(
            loc,
            " 缺失对象路径以 `",
            "` 开头，优先检查这个库或资源包。",
            " The missing object path starts with `",
            "`; check this library or resource package first.",
            name,
        ),
        None => string_from(""),
    };
    let mut explanation = string_from(
        tr(
            loc,
            "机场或 scenery 正在引用一个不存在的对象文件。",
            "An airport or scenery is referencing a non-existent object file. ",
        ),
    );
    push_chars(&mut explanation, &chars_of(hint.as_str()));
    Some(
        Finding::new(
            Severity::High,
            Confidence::High,
            string_from("missing_scenery_object"),
            string_from(tr(loc, "风景包找不到对象文件", "Scenery package cannot locate object file")),
            evidence_line(idx, line),
            explanation,
            string_from(
                tr(
                    loc,
                    "安装或修复对应 scenery library，然后重新启动 X-Plane 测试同一机场。",
                    "Install or repair the corresponding scenery library, then restart X-Plane and test the same airport.",
                ),
            ),
        ),
    )
}

/// The `Aircraft/...` path on a line, up to and including `.acf` if present.
pub open spec fn acf_path_in(line: Seq<char>) -> Option<Seq<char>> {
    match find(line, "Aircraft/"@) {
        None => None,
        Some(st) => {
            let rest = line.skip(st);
            let end = match find(rest, ".acf"@) {
                Some(p) => p + 4,
                None => rest.len() as int,
            };
            Some(trim(rest.take(end)))
        },
    }
}

/// The first non-empty aircraft path on lines `k` up to `stop` (exclusive).
pub open spec fn nearby_aircraft_from(ls: Seq<Seq<char>>, k: int, stop: int) -> Option<Seq<char>>
    decreases stop - k,
{
    if k < 0 || k >= stop || k >= ls.len() {
        None
    } else {
        match acf_path_in(ls[k]) {
            Some(p) => if p.len() > 0 {
                Some(p)
            } else {
                nearby_aircraft_from(ls, k + 1, stop)
            },
            None => nearby_aircraft_from(ls, k + 1, stop),
        }
    }
}

/// The aircraft that a failed-open line names: on it or the seven lines after it.
pub open spec fn failed_aircraft(idx: nat, line: Seq<char>, ls: Seq<Seq<char>>, loc: Locale) -> Seq<
    char,
> {
    match nearby_aircraft_from(ls, idx as int, idx + 8int) {
        Some(p) => p,
        None => match find(line, "Aircraft/"@) {
            Some(st) => trim(line.skip(st)),
            None => pick(loc, "未知飞机"@, "unknown aircraft"@),
        },
    }
}

fn acf_path_exec(line: &[char]) -> (r: Option<&[char]>)
    ensures
        match r {
            Some(v) => acf_path_in(line@) == Some(v@),
            None => acf_path_in(line@) is None,
        },
{
    let st = match find_str(line, "Aircraft/") {
        None => return None,
        Some(st) => st,
    };
    proof {
        lemma_find_from(line@, "Aircraft/"@, 0);
    }
    let n = line.len();
    let rest = &line[st..n];
    assert(rest@ =~= line@.skip(st as int));
    proof {
        lemma_find_from(rest@, ".acf"@, 0);
    }
    let end = match find_str(rest, ".acf") {
        Some(p) => {
            assert(matches_at(rest@, ".acf"@, p as int));
            proof {
                reveal_strlit(".acf");
            }
            p + 4
        },
        None => rest.len(),
    };
    let t = &rest[0..end];
    assert(t@ =~= rest@.take(end as int));
    Some(trim_slice(t))
}

fn extract_nearby_aircraft_path(lines: &Vec<Vec<char>>, idx: usize) -> (r: Option<&[char]>)
    ensures
        match r {
            Some(v) => nearby_aircraft_from(seqs_of(lines@), idx as int, idx + 8) == Some(v@),
            None => nearby_aircraft_from(seqs_of(lines@), idx as int, idx + 8) is None,
        },
{
    let ghost ls = seqs_of(lines@);
    let mut k = idx;
    while k < lines.len() && k - idx < 8
        invariant
            idx <= k,
            k <= idx + 8,
            ls == seqs_of(lines@),
            nearby_aircraft_from(ls, idx as int, idx + 8) == nearby_aircraft_from(ls, k as int, idx + 8),
        decreases lines.len() - k,
    {
        let line: &[char] = lines[k].as_slice();
        assert(line@ == ls[k as int]);
        match acf_path_exec(line) {
            Some(p) => {
                if p.len() > 0 {
                    return Some(p);
                }
            },
            None => {},
        }
        k = k + 1;
    }
    None
}

/// The `aircraft_open_failure` rule on the line at index `idx` of `ls`.
pub open spec fn spec_aircraft_open_failure(
    idx: nat,
    line: Seq<char>,
    lower: Seq<char>,
    ls: Seq<Seq<char>>,
    loc: Locale,
) -> Option<FindingView> {
    if contains(lower, "failed to open the following aircraft"@) || contains(
        lower,
        "unknown aircraft"@,
    ) {
        let aircraft = failed_aircraft(idx, line, ls, loc);
        Some(
            new_finding(
                Severity::High,
                Confidence::High,
                "aircraft_open_failure"@,
                filled(
                    loc,
                    "X-Plane 无法打开飞机文件："@,
                    ""@,
                    "X-Plane could not open aircraft file: "@,
                    ""@,
                    aircraft,
                ),
                evidence_text(idx, line),
                filled(
                    loc,
                    "X-Plane 明确提示飞机文件缺失、损坏，或不是当前版本可读取的飞机文件。目标飞机是："@,
                    "。"@,
                    "X-Plane explicitly reported that the aircraft file is missing, corrupt, or not a readable aircraft file for this version. Target aircraft: "@,
                    "."@,
                    aircraft,
                ),
                pick(
                    loc,
                    "先不要按插件或显卡方向排查；改用默认飞机复测。若默认飞机正常，重新安装或更新证据中的飞机包，确认 .acf 文件存在且支持当前 X-Plane 版本。"@,
                    "Do not start with plugin or GPU troubleshooting; retest with a default aircraft first. If the default aircraft works, reinstall or update the aircraft package named in the evidence, and verify the .acf file exists and supports this X-Plane version."@,
                ),
            ),
        )
    } else {
        None
    }
}

pub fn check_aircraft_open_failure(
    idx: usize,
    line: &[char],
    lower: &[char],
    lines: &Vec<Vec<char>>,
    loc: Locale,
) -> (r: Option<Finding>)
    requires
        idx < usize::MAX,
    ensures
        opt_view(r) == spec_aircraft_open_failure(idx as nat, line@, lower@, seqs_of(lines@), loc),
{
    if !contains_str(lower, "failed to open the following aircraft") && !contains_str(
        lower,
        "unknown aircraft",
    ) {
        return None;
    }
    let aircraft: Vec<char> = match extract_nearby_aircraft_path(lines, idx) {
        Some(p) => {
            let mut v: Vec<char> = Vec::new();
            v.extend_from_slice(p);
            assert(v@ =~= p@);
            v
        },
        None => match find_str(line, "Aircraft/") {
            Some(st) => {
                let n = line.len();
                proof {
                    lemma_find_from(line@, "Aircraft/"@, 0);
                }
                let rest = &line[st..n];
                assert(rest@ =~= line@.skip(st as int));
                let t = trim_slice(rest);
                let mut v: Vec<char> = Vec::new();
                v.extend_from_slice(t);
                assert(v@ =~= t@);
                v
            },
            None => chars_of(tr(loc, "未知飞机", "unknown aircraft")),
        },
    };
    Some(
        Finding::new(
            Severity::High,
            Confidence::High,
            string_from("aircraft_open_failure"),
            fill(
                loc,
                "X-Plane 无法打开飞机文件：",
                "",
                "X-Plane could not open aircraft file: ",
                "",
                &aircraft,
            ),
            evidence_line(idx, line),
            fill(
                loc,
                "X-Plane 明确提示飞机文件缺失、损坏，或不是当前版本可读取的飞机文件。目标飞机是：",
                "。",
                "X-Plane explicitly reported that the aircraft file is missing, corrupt, or not a readable aircraft file for this version. Target aircraft: ",
                ".",
                &aircraft,
            ),
            string_from(
                tr(
                    loc,
                    "先不要按插件或显卡方向排查；改用默认飞机复测。若默认飞机正常，重新安装或更新证据中的飞机包，确认 .acf 文件存在且支持当前 X-Plane 版本。",
                    "Do not start with plugin or GPU troubleshooting; retest with a default aircraft first. If the default aircraft works, reinstall or update the aircraft package named in the evidence, and verify the .acf file exists and supports this X-Plane version.",
                ),
            ),
        ),
    )
}

/// The plugin that a crash marker blames, if any.
pub open spec fn crash_culprit(line: Seq<char>) -> Option<Seq<char>> {
    match split_second(line, "because of the plugin: "@) {
        Some(r) => {
            let name = trim(before_first(r, seq!['}']));
            if name.len() > 0 {
                Some(name)
            } else {
                None
            }
        },
        None => None,
    }
}

/// The `application_crash` rule on one line.
pub open spec fn spec_application_crash(idx: nat, line: Seq<char>, loc: Locale) -> Option<
    FindingView,
> {
    if is_crash_marker(line) {
        let culprit = crash_culprit(line);
        Some(
            new_finding(
                Severity::High,
                Confidence::High,
                "application_crash"@,
                match culprit {
                    Some(name) => filled(
                        loc,
                        "X-Plane 崩溃——插件 "@,
                        ""@,
                        "X-Plane crash -- plugin "@,
                        ""@,
                        name,
                    ),
                    None => pick(
                        loc,
                        "X-Plane 本次运行发生崩溃"@,
                        "X-Plane crashed during this session"@,
                    ),
                },
                evidence_text(idx, line),
                match culprit {
                    Some(name) => filled(
                        loc,
                        "X-Plane 明确记录了崩溃，并指出原因来自插件："@,
                        "。优先检查该插件的版本兼容性和已知问题。"@,
                        "X-Plane explicitly recorded the crash and identified a plugin as the cause: "@,
                        ". Prioritize checking this plugin's version compatibility and known issues."@,
                        name,
                    ),
                    None => pick(
                        loc,
                        "日志明确显示 X-Plane 崩溃。崩溃行本身通常不是根因，需要结合它前面最后加载的插件、飞机、机场或图形错误判断。"@,
                        "The log clearly shows X-Plane crashed. The crash line itself is usually not the root cause; correlate it with the last loaded plugin, aircraft, airport, or graphics error before the crash."@,
                    ),
                },
                match culprit {
                    Some(name) => filled(
                        loc,
                        "先更新 "@,
                        " 到最新版；若问题依旧则临时禁用该插件复测。"@,
                        "Update "@,
                        " to the latest version; if the problem persists, temporarily disable this plugin and retest."@,
                        name,
                    ),
                    None => pick(
                        loc,
                        "先看本报告中的高置信错误；如果没有明确错误，用默认飞机、默认机场、禁用第三方插件的方式做干净复测。"@,
                        "First review high-confidence findings in this report. If no clear errors are found, do a clean retest with default aircraft, default airport, and third-party plugins disabled."@,
                    ),
                },
            ),
        )
    } else {
        None
    }
}

pub fn check_application_crash(idx: usize, line: &[char], loc: Locale) -> (r: Option<Finding>)
    requires
        idx < usize::MAX,
    ensures
        opt_view(r) == spec_application_crash(idx as nat, line@, loc),
{
    if !is_crash_marker_line(line) {
        return None;
    }
    let close = ['}'];
    assert(close@ =~= seq!['}']);
    let mut culprit: Option<&[char]> = None;
    match split_second_str(line, "because of the plugin: ") {
        Some(r) => {
            let name = trim_slice(crate::text::before_first_slice(r, &close));
            if name.len() > 0 {
                culprit = Some(name);
            }
        },
        None => {},
    }
    let (title, explanation, suggestion) = match culprit {
        Some(name) => (
            fill(loc, "X-Plane 崩溃——插件 ", "", "X-Plane crash -- plugin ", "", name),
            fill(
                loc,
                "X-Plane 明确记录了崩溃，并指出原因来自插件：",
                "。优先检查该插件的版本兼容性和已知问题。",
                "X-Plane explicitly recorded the crash and identified a plugin as the cause: ",
                ". Prioritize checking this plugin's version compatibility and known issues.",
                name,
            ),
            fill(
                loc,
                "先更新 ",
                " 到最新版；若问题依旧则临时禁用该插件复测。",
                "Update ",
                " to the latest version; if the problem persists, temporarily disable this plugin and retest.",
                name,
            ),
        ),
        None => (
            string_from(tr(loc, "X-Plane 本次运行发生崩溃", "X-Plane crashed during this session")),
            string_from(
                tr(
                    loc,
                    "日志明确显示 X-Plane 崩溃。崩溃行本身通常不是根因，需要结合它前面最后加载的插件、飞机、机场或图形错误判断。",
                    "The log clearly shows X-Plane crashed. The crash line itself is usually not the root cause; correlate it with the last loaded plugin, aircraft, airport, or graphics error before the crash.",
                ),
            ),
            string_from(
                tr(
                    loc,
                    "先看本报告中的高置信错误；如果没有明确错误，用默认飞机、默认机场、禁用第三方插件的方式做干净复测。",
                    "First review high-confidence findings in this report. If no clear errors are found, do a clean retest with default aircraft, default airport, and third-party plugins disabled.",
                ),
            ),
        ),
    };
    Some(
        Finding::new(
            Severity::High,
            Confidence::High,
            string_from("application_crash"),
            title,
            evidence_line(idx, line),
            explanation,
            suggestion,
        ),
    )
}

/// The `missing_scenery_asset` finding is counted once.
pub proof fn lemma_missing_scenery_asset_once(idx: nat,
    line: Seq<char>,
    lower: Seq<char>,
    loc: Locale)
    ensures
        spec_missing_scenery_asset(idx, line, lower, loc) matches Some(f) ==> f.occurrences == 1 && f.extra_evidence.len() <= 4 && f.kind == "missing_scenery_asset"@ && crate::rules::evidence::log_evidence(f.evidence) && f.extra_evidence.len() == 0 && f.evidence == crate::rules::evidence::evidence_text(idx, line),
{
    broadcast use crate::rules::evidence::lemma_evidence_text_in_log;
}

/// The `missing_scenery_object` finding is counted once.
pub proof fn lemma_missing_scenery_object_once(idx: nat,
    line: Seq<char>,
    lower: Seq<char>,
    loc: Locale)
    ensures
        spec_missing_scenery_object(idx, line, lower, loc) matches Some(f) ==> f.occurrences == 1 && f.extra_evidence.len() <= 4 && f.kind == "missing_scenery_object"@ && crate::rules::evidence::log_evidence(f.evidence) && f.extra_evidence.len() == 0 && f.evidence == crate::rules::evidence::evidence_text(idx, line),
{
    broadcast use crate::rules::evidence::lemma_evidence_text_in_log;
}

/// The `aircraft_open_failure` finding is counted once.
pub proof fn lemma_aircraft_open_failure_once(idx: nat,
    line: Seq<char>,
    lower: Seq<char>,
    ls: Seq<Seq<char>>,
    loc: Locale)
    ensures
        spec_aircraft_open_failure(idx, line, lower, ls, loc) matches Some(f) ==> f.occurrences == 1 && f.extra_evidence.len() <= 4 && f.kind == "aircraft_open_failure"@ && crate::rules::evidence::log_evidence(f.evidence) && f.extra_evidence.len() == 0 && f.evidence == crate::rules::evidence::evidence_text(idx, line),
{
    broadcast use crate::rules::evidence::lemma_evidence_text_in_log;
}

/// The `application_crash` finding is counted once.
pub proof fn lemma_application_crash_once(idx: nat, line: Seq<char>, loc: Locale)
    ensures
        spec_application_crash(idx, line, loc) matches Some(f) ==> f.occurrences == 1 && f.extra_evidence.len() <= 4 && f.kind == "application_crash"@ && crate::rules::evidence::log_evidence(f.evidence) && f.extra_evidence.len() == 0 && f.evidence == crate::rules::evidence::evidence_text(idx, line),
{
    broadcast use crate::rules::evidence::lemma_evidence_text_in_log;
}

} // verus!
