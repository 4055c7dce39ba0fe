//! Findings about a diagnostic bundle as a whole: which of its inputs are
//! there, and how the current session ended.
use vstd::prelude::*;

use crate::i18n::{fill, filled, pick, tr, Locale};
use crate::rules::merge::has_kind;
use crate::model::{
    new_finding, views, Confidence, CrashReportSnapshot, DiagnosticBundle, FileSnapshot, Finding,
    FindingView, Severity,
};
use crate::text::{
    bool_text, chars_of, decimal, join, join_strings, push_bool, push_chars, push_decimal,
    push_str, string_from, string_is, string_views,
};

verus! {

/// `available` or `missing`.
pub open spec fn status_word(available: bool) -> Seq<char> {
    if available {
        "available"@
    } else {
        "missing"@
    }
}

/// The `bundle_input_quality` finding.
pub open spec fn input_quality(
    schema: nat,
    log_available: bool,
    ini_available: bool,
    crash_reports: nat,
    log_archives: nat,
    aftermath: nat,
    loc: Locale,
) -> FindingView {
    let base = new_finding(
        Severity::Info,
        Confidence::High,
        "bundle_input_quality"@,
        pick(loc, "诊断包输入状态"@, "Diagnostic bundle input status"@),
        "schema="@ + decimal(schema) + ", Log.redacted.txt="@ + status_word(log_available)
            + ", scenery_packs.redacted.ini="@ + status_word(ini_available) + ", crash_reports="@
            + decimal(crash_reports) + ", log_archives="@ + decimal(log_archives) + ", aftermath="@
            + decimal(aftermath),
        pick(loc, "Bundle 分析会使用所有可用的证据文件。缺少脱敏日志或 scenery 文本只会禁用相关规则。"@, "Bundle analysis uses whatever evidence files are available. Missing redacted logs or scenery text only disables the related rules."@),
        pick(loc, "如需最完整的本地分析，请重新运行 collect，并将 diagnostic-bundle.json、Log.redacted.txt 和 scenery_packs.redacted.ini 保留在同一文件夹中。"@, "For the most complete local analysis, rerun collect and keep diagnostic-bundle.json, Log.redacted.txt, and scenery_packs.redacted.ini in the same folder."@),
    );
    let log_note: Seq<Seq<char>> = if log_available {
        seq![]
    } else {
        seq![pick(loc, "缺少 Log.redacted.txt；已跳过 Log.txt 关键词规则。"@, "Log.redacted.txt is missing; Log.txt keyword rules were skipped."@)]
    };
    let ini_note: Seq<Seq<char>> = if ini_available {
        seq![]
    } else {
        seq![pick(loc, "缺少 scenery_packs.redacted.ini；已跳过 scenery 顺序文本规则。"@, "scenery_packs.redacted.ini is missing; scenery order text rules were skipped."@)]
    };
    FindingView { extra_evidence: log_note + ini_note, ..base }
}

/// Reports whether the redacted log and scenery list came with the bundle,
/// and how many crash reports, archived logs and aftermath files it holds.
pub fn analyze_bundle_input_quality_ascii(
    bundle: &DiagnosticBundle,
    redacted_log_text: Option<&String>,
    redacted_scenery_ini_text: Option<&String>,
    loc: Locale,
) -> (r: Vec<Finding>)
    ensures
        views(r@) == seq![
            input_quality(
                bundle.manifest.schema_version as nat,
                redacted_log_text is Some,
                redacted_scenery_ini_text is Some,
                bundle.crash_reports.len() as nat,
                bundle.output.log_archive_files.len() as nat,
                bundle.crash_aftermath_files.len() as nat,
                loc,
            ),
        ],
{
    let log_available = redacted_log_text.is_some();
    let ini_available = redacted_scenery_ini_text.is_some();
    let mut evidence = string_from("schema=");
    push_decimal(&mut evidence, bundle.manifest.schema_version as u64);
    push_str(&mut evidence, ", Log.redacted.txt=");
    push_str(&mut evidence, if log_available { "available" } else { "missing" });
    push_str(&mut evidence, ", scenery_packs.redacted.ini=");
    push_str(&mut evidence, if ini_available { "available" } else { "missing" });
    push_str(&mut evidence, ", crash_reports=");
    push_decimal(&mut evidence, bundle.crash_reports.len() as u64);
    push_str(&mut evidence, ", log_archives=");
    push_decimal(&mut evidence, bundle.output.log_archive_files.len() as u64);
    push_str(&mut evidence, ", aftermath=");
    push_decimal(&mut evidence, bundle.crash_aftermath_files.len() as u64);
    let mut quality = Finding::new(
        Severity::Info,
        Confidence::High,
        string_from("bundle_input_quality"),
        string_from(tr(loc, "诊断包输入状态", "Diagnostic bundle input status")),
        evidence,
        string_from(tr(loc, "Bundle 分析会使用所有可用的证据文件。缺少脱敏日志或 scenery 文本只会禁用相关规则。", "Bundle analysis uses whatever evidence files are available. Missing redacted logs or scenery text only disables the related rules.")),
        string_from(tr(loc, "如需最完整的本地分析，请重新运行 collect，并将 diagnostic-bundle.json、Log.redacted.txt 和 scenery_packs.redacted.ini 保留在同一文件夹中。", "For the most complete local analysis, rerun collect and keep diagnostic-bundle.json, Log.redacted.txt, and scenery_packs.redacted.ini in the same folder.")),
    );
    if !log_available {
        quality.extra_evidence.push(string_from(tr(loc, "缺少 Log.redacted.txt；已跳过 Log.txt 关键词规则。", "Log.redacted.txt is missing; Log.txt keyword rules were skipped.")));
    }
    if !ini_available {
        quality.extra_evidence.push(string_from(tr(loc, "缺少 scenery_packs.redacted.ini；已跳过 scenery 顺序文本规则。", "scenery_packs.redacted.ini is missing; scenery order text rules were skipped.")));
    }
    let mut r: Vec<Finding> = Vec::new();
    r.push(quality);
    proof {
        let q = r@[0]@;
        let want = input_quality(
            bundle.manifest.schema_version as nat,
            log_available,
            ini_available,
            bundle.crash_reports.len() as nat,
            bundle.output.log_archive_files.len() as nat,
            bundle.crash_aftermath_files.len() as nat,
            loc,
        );
        assert(q.extra_evidence =~= want.extra_evidence);
        assert(views(r@) =~= seq![want]);
    }
    r
}

/// How many crash reports relate to the current log as `rel` says.
pub open spec fn count_relation(reports: Seq<CrashReportSnapshot>, rel: Seq<char>) -> nat
    decreases reports.len(),
{
    if reports.len() == 0 {
        0
    } else {
        count_relation(reports.drop_last(), rel) + if reports.last().relation_to_current_log@
            == rel {
            1nat
        } else {
            0nat
        }
    }
}

/// A crash report matched to an archived log.
pub open spec fn archive_matched(report: CrashReportSnapshot) -> bool {
    report.matched_log_source matches Some(s) && s@ == "log_archive"@
}

/// How many crash reports were matched to archived logs.
pub open spec fn count_archive_matched(reports: Seq<CrashReportSnapshot>) -> nat
    decreases reports.len(),
{
    if reports.len() == 0 {
        0
    } else {
        count_archive_matched(reports.drop_last()) + if archive_matched(reports.last()) {
            1nat
        } else {
            0nat
        }
    }
}

/// `<dump> matched <archived log>` for a report matched to an archived log.
pub open spec fn archive_match_line(report: CrashReportSnapshot) -> Seq<char> {
    report.file_name@ + " matched "@ + match report.matched_log_file {
        Some(f) => f@,
        None => "Log Archive"@,
    }
}

/// The lines for all the reports matched to archived logs, in order.
pub open spec fn archive_match_lines(reports: Seq<CrashReportSnapshot>) -> Seq<Seq<char>>
    decreases reports.len(),
{
    if reports.len() == 0 {
        seq![]
    } else {
        archive_match_lines(reports.drop_last()) + if archive_matched(reports.last()) {
            seq![archive_match_line(reports.last())]
        } else {
            seq![]
        }
    }
}

/// The names of the files.
pub open spec fn file_names(files: Seq<FileSnapshot>) -> Seq<Seq<char>> {
    files.map_values(|f: FileSnapshot| f.name@)
}

/// The finding about how the current log ended.
pub open spec fn exit_state(
    clean_shutdown: bool,
    crashed: bool,
    uuids: Seq<Seq<char>>,
    current_uuid_matches: nat,
    loc: Locale,
) -> FindingView {
    if clean_shutdown && !crashed && uuids.len() == 0 {
        new_finding(
            Severity::Info,
            Confidence::High,
            "current_session_clean_shutdown"@,
            pick(loc, "当前 Log.txt 正常退出"@, "Current Log.txt ended with a clean shutdown"@),
            "clean_shutdown=true, crashed=false, current_log_crash_uuids="@ + decimal(uuids.len()),
            pick(loc, "当前日志未显示崩溃结尾。除非 Dump 和 Log Archive 条目与当前 Log.txt 匹配，否则它们只是背景证据。"@, "The current log does not show a crash ending. Dumps and Log Archive entries are background evidence unless they match the current Log.txt."@),
            pick(loc, "如果刚刚崩溃，请立即重新采集，并确保包含最新的 Log.txt。"@, "If the user just crashed, collect again immediately after the crash and make sure the newest Log.txt is included."@),
        )
    } else if crashed || uuids.len() > 0 {
        let base = new_finding(
            Severity::High,
            Confidence::High,
            "current_session_crashed"@,
            pick(loc, "当前 Log.txt 显示崩溃"@, "Current Log.txt shows a crash"@),
            "crashed="@ + bool_text(crashed) + ", current_log_crash_uuids="@ + join(uuids, ", "@),
            pick(loc, "当前日志包含崩溃标记或崩溃 UUID，可作为当前会话的崩溃证据。"@, "The current log contains a crash marker or crash UUID, so it can be used as current-session crash evidence."@),
            pick(loc, "优先关注高置信度的发现以及崩溃前最后加载的插件、飞机、地景或图形错误。"@, "Prioritize high-confidence findings and the last loaded plugin, aircraft, scenery, or graphics error before the crash."@),
        );
        if current_uuid_matches > 0 {
            FindingView {
                extra_evidence: seq![
                    filled(
                        loc,
                        ""@,
                        " 个崩溃 Dump 匹配当前 Log.txt UUID。"@,
                        ""@,
                        " crash dump(s) matched the current Log.txt UUID."@,
                        decimal(current_uuid_matches),
                    ),
                ],
                ..base
            }
        } else {
            base
        }
    } else {
        new_finding(
            Severity::Info,
            Confidence::Medium,
            "current_session_unknown_exit_state"@,
            pick(loc, "当前 Log.txt 退出状态不明"@, "Current Log.txt exit state is unclear"@),
            "clean_shutdown="@ + bool_text(clean_shutdown) + ", crashed="@ + bool_text(crashed)
                + ", current_log_crash_uuids="@ + decimal(uuids.len()),
            pick(loc, "日志既没有正常退出标记也没有崩溃 UUID。可能被截断、仍在使用中或不完整。"@, "The log has neither a clean-shutdown marker nor a crash UUID. It may be truncated, still in use, or incomplete."@),
            pick(loc, "关闭 X-Plane 后重新采集。对于论坛样本，尽量获取完整的 Log.txt。"@, "Close X-Plane and collect again. For forum samples, ask for the complete Log.txt whenever possible."@),
        )
    }
}

/// The finding that the crash reports all belong to earlier sessions.
pub open spec fn historical_only(total: nat, before: nat, archive: nat, loc: Locale) -> FindingView {
    new_finding(
        Severity::Info,
        Confidence::High,
        "historical_crash_reports_only"@,
        pick(loc, "崩溃 Dump 仅为历史背景"@, "Crash dumps are historical background only"@),
        "crash_reports="@ + decimal(total) + ", before_current_log="@ + decimal(before)
            + ", archive_uuid_matches="@ + decimal(archive) + ", current_uuid_matches=0"@,
        pick(loc, "诊断包中包含崩溃 Dump，但没有与当前 Log.txt 匹配的。这说明此机器之前崩溃过，而非当前会话崩溃。"@, "The bundle contains crash dumps, but none match the current Log.txt. They show that this machine crashed before, not that the current session crashed."@),
        pick(loc, "不要将历史 .dmp 文件与正常退出的当前 Log.txt 混为一谈。诊断当前崩溃请在崩溃后立即采集。"@, "Do not mix historical .dmp files with a clean-shutdown current Log.txt. For current crash diagnosis, collect immediately after the crash."@),
    )
}

/// The finding that archived logs match some crash reports; it names the
/// first four of them.
pub open spec fn archive_matches(count: nat, lines: Seq<Seq<char>>, loc: Locale) -> FindingView {
    let base = new_finding(
        Severity::Info,
        Confidence::High,
        "archive_log_crash_uuid_matches"@,
        pick(loc, "Log Archive 匹配部分崩溃 Dump"@, "Log Archive matches some crash dumps"@),
        filled(loc, ""@, " 个崩溃 Dump 匹配 Log Archive UUID。"@, ""@, " crash dump(s) matched Log Archive UUIDs."@, decimal(count)),
        pick(loc, "这些匹配将历史 Log Archive 文件与历史 Dump 关联起来，可作为背景参考，但不是当前会话证据。"@, "These matches connect historical Log Archive files to historical dumps. They are useful context, but not current-session evidence."@),
        pick(loc, "将这些作为背景趋势证据。当前会话的结论仍应基于当前 Log.txt。"@, "Use these as background trend evidence. Current-session conclusions should still be based on the current Log.txt."@),
    );
    FindingView {
        extra_evidence: if lines.len() > 4 {
            lines.take(4)
        } else {
            lines
        },
        ..base
    }
}

/// The finding that crash aftermath files are present.
pub open spec fn aftermath_present(names: Seq<Seq<char>>, loc: Locale) -> FindingView {
    new_finding(
        Severity::Info,
        Confidence::Medium,
        "crash_aftermath_present"@,
        pick(loc, "存在崩溃后续文件"@, "Crash aftermath file is present"@),
        "aftermath_files="@ + join(names, ", "@),
        pick(loc, "Aftermath 文件通常意味着过去生成了额外的崩溃诊断信息，常见于复杂的图形/设备丢失故障。"@, "An aftermath file usually means extra crash diagnostics were generated in the past, often around complex graphics/device-loss failures."@),
        pick(loc, "此版本仅记录 aftermath 元数据，不读取或打包 zip 内容。除非与当前日志匹配，否则视为背景信息。"@, "This version records only aftermath metadata and does not read or package zip contents. Treat it as background unless it matches the current log."@),
    )
}

/// The session findings for a bundle, in order: the exit state of the
/// current log; that the crash reports are all historical, when none relates
/// to the current log; the archive matches; the aftermath files.
pub open spec fn session_status(bundle: DiagnosticBundle, loc: Locale) -> Seq<FindingView> {
    let reports = bundle.crash_reports@;
    let uuid_matched = count_relation(reports, "uuid_matched"@);
    let window = count_relation(reports, "current_log_window"@);
    let before = count_relation(reports, "before_current_log"@);
    let archive = count_archive_matched(reports);
    let aftermath = bundle.crash_aftermath_files@;
    seq![
        exit_state(
            bundle.log.clean_shutdown,
            bundle.log.crashed,
            string_views(bundle.log.crash_uuids@),
            uuid_matched,
            loc,
        ),
    ] + (if uuid_matched == 0 && window == 0 && reports.len() > 0 {
        seq![historical_only(reports.len(), before, archive, loc)]
    } else {
        seq![]
    }) + (if archive > 0 {
        seq![archive_matches(archive, archive_match_lines(reports), loc)]
    } else {
        seq![]
    }) + (if aftermath.len() > 0 {
        seq![aftermath_present(file_names(aftermath), loc)]
    } else {
        seq![]
    })
}

/// A copy of a string.
fn copy_string(s: &String) -> (r: String)
    ensures
        r@ == s@,
{
    let mut r = String::new();
    push_chars(&mut r, &chars_of(s.as_str()));
    r
}

fn is_archive_matched(report: &CrashReportSnapshot) -> (r: bool)
    ensures
        r == archive_matched(*report),
{
    match &report.matched_log_source {
        Some(s) => string_is(s, "log_archive"),
        None => false,
    }
}

/// The four counts the session findings need, in one pass: reports matched
/// to the current log, in its time window, before it, and matched to archives.
fn count_reports(reports: &Vec<CrashReportSnapshot>) -> (r: (usize, usize, usize, usize))
    ensures
        r.0 == count_relation(reports@, "uuid_matched"@),
        r.1 == count_relation(reports@, "current_log_window"@),
        r.2 == count_relation(reports@, "before_current_log"@),
        r.3 == count_archive_matched(reports@),
{
    let mut uuid_matched: usize = 0;
    let mut window: usize = 0;
    let mut before: usize = 0;
    let mut archive: usize = 0;
    let mut i: usize = 0;
    while i < reports.len()
        invariant
            i <= reports.len(),
            uuid_matched == count_relation(reports@.take(i as int), "uuid_matched"@),
            window == count_relation(reports@.take(i as int), "current_log_window"@),
            before == count_relation(reports@.take(i as int), "before_current_log"@),
            archive == count_archive_matched(reports@.take(i as int)),
            uuid_matched <= i,
            window <= i,
            before <= i,
            archive <= i,
        decreases reports.len() - i,
    {
        let report = &reports[i];
        assert(reports@.take(i + 1).drop_last() =~= reports@.take(i as int));
        if string_is(&report.relation_to_current_log, "uuid_matched") {
            uuid_matched = uuid_matched + 1;
        }
        if string_is(&report.relation_to_current_log, "current_log_window") {
            window = window + 1;
        }
        if string_is(&report.relation_to_current_log, "before_current_log") {
            before = before + 1;
        }
        if is_archive_matched(report) {
            archive = archive + 1;
        }
        i = i + 1;
    }
    assert(reports@.take(reports.len() as int) =~= reports@);
    (uuid_matched, window, before, archive)
}

/// The first four archive-match lines.
fn first_archive_lines(reports: &Vec<CrashReportSnapshot>) -> (r: Vec<String>)
    ensures
        string_views(r@) == (if archive_match_lines(reports@).len() > 4 {
            archive_match_lines(reports@).take(4)
        } else {
            archive_match_lines(reports@)
        }),
{
    let mut out: Vec<String> = Vec::new();
    let mut i: usize = 0;
    while i < reports.len()
        invariant
            i <= reports.len(),
            string_views(out@) == (if archive_match_lines(reports@.take(i as int)).len() > 4 {
                archive_match_lines(reports@.take(i as int)).take(4)
            } else {
                archive_match_lines(reports@.take(i as int))
            }),
        decreases reports.len() - i,
    {
        let report = &reports[i];
        let ghost prev = archive_match_lines(reports@.take(i as int));
        assert(reports@.take(i + 1).drop_last() =~= reports@.take(i as int));
        assert(reports@.take(i + 1).last() == reports@[i as int]);
        if is_archive_matched(report) {
            if out.len() < 4 {
                let mut line = copy_string(&report.file_name);
                push_str(&mut line, " matched ");
                match &report.matched_log_file {
                    Some(f) => push_chars(&mut line, &chars_of(f.as_str())),
                    None => push_str(&mut line, "Log Archive"),
                }
                let ghost before_push = out@;
                out.push(line);
                assert(string_views(out@) =~= string_views(before_push).push(line@));
            } else {
                assert((prev + seq![archive_match_line(*report)]).take(4) =~= prev.take(4));
            }
        }
        i = i + 1;
    }
    assert(reports@.take(reports.len() as int) =~= reports@);
    out
}

/// The names of the files, copied.
fn names_of(files: &Vec<FileSnapshot>) -> (r: Vec<String>)
    ensures
        string_views(r@) == file_names(files@),
{
    let mut out: Vec<String> = Vec::new();
    let mut i: usize = 0;
    while i < files.len()
        invariant
            i <= files.len(),
            string_views(out@) == file_names(files@.take(i as int)),
        decreases files.len() - i,
    {
        let ghost before_push = out@;
        out.push(copy_string(&files[i].name));
        assert(string_views(out@) =~= string_views(before_push).push(files@[i as int].name@));
        assert(file_names(files@.take(i + 1)) =~= file_names(files@.take(i as int)).push(files@[i as int].name@));
        i = i + 1;
    }
    assert(files@.take(files.len() as int) =~= files@);
    out
}

fn exit_state_finding(bundle: &DiagnosticBundle, uuid_matched: usize, loc: Locale) -> (r: Finding)
    ensures
        r@ == exit_state(
            bundle.log.clean_shutdown,
            bundle.log.crashed,
            string_views(bundle.log.crash_uuids@),
            uuid_matched as nat,
            loc,
        ),
{
    let log = &bundle.log;
    let n = log.crash_uuids.len();
    if log.clean_shutdown && !log.crashed && n == 0 {
        let mut evidence = string_from("clean_shutdown=true, crashed=false, current_log_crash_uuids=");
        push_decimal(&mut evidence, n as u64);
        Finding::new(
            Severity::Info,
            Confidence::High,
            string_from("current_session_clean_shutdown"),
            string_from(tr(loc, "当前 Log.txt 正常退出", "Current Log.txt ended with a clean shutdown")),
            evidence,
            string_from(tr(loc, "当前日志未显示崩溃结尾。除非 Dump 和 Log Archive 条目与当前 Log.txt 匹配，否则它们只是背景证据。", "The current log does not show a crash ending. Dumps and Log Archive entries are background evidence unless they match the current Log.txt.")),
            string_from(tr(loc, "如果刚刚崩溃，请立即重新采集，并确保包含最新的 Log.txt。", "If the user just crashed, collect again immediately after the crash and make sure the newest Log.txt is included.")),
        )
    } else if log.crashed || n > 0 {
        let mut evidence = string_from("crashed=");
        push_bool(&mut evidence, log.crashed);
        push_str(&mut evidence, ", current_log_crash_uuids=");
        let joined = join_strings(&log.crash_uuids, ", ");
        push_chars(&mut evidence, &chars_of(joined.as_str()));
        let mut finding = Finding::new(
            Severity::High,
            Confidence::High,
            string_from("current_session_crashed"),
            string_from(tr(loc, "当前 Log.txt 显示崩溃", "Current Log.txt shows a crash")),
            evidence,
            string_from(tr(loc, "当前日志包含崩溃标记或崩溃 UUID，可作为当前会话的崩溃证据。", "The current log contains a crash marker or crash UUID, so it can be used as current-session crash evidence.")),
            string_from(tr(loc, "优先关注高置信度的发现以及崩溃前最后加载的插件、飞机、地景或图形错误。", "Prioritize high-confidence findings and the last loaded plugin, aircraft, scenery, or graphics error before the crash.")),
        );
        if uuid_matched > 0 {
            let count = crate::text::decimal_of(uuid_matched as u64);
            let note = fill(
                loc,
                "",
                " 个崩溃 Dump 匹配当前 Log.txt UUID。",
                "",
                " crash dump(s) matched the current Log.txt UUID.",
                &count,
            );
            finding.extra_evidence.push(note);
            assert(crate::model::strs_of(finding.extra_evidence@) =~= seq![note@]);
        }
        finding
    } else {
        let mut evidence = string_from("clean_shutdown=");
        push_bool(&mut evidence, log.clean_shutdown);
        push_str(&mut evidence, ", crashed=");
        push_bool(&mut evidence, log.crashed);
        push_str(&mut evidence, ", current_log_crash_uuids=");
        push_decimal(&mut evidence, n as u64);
        Finding::new(
            Severity::Info,
            Confidence::Medium,
            string_from("current_session_unknown_exit_state"),
            string_from(tr(loc, "当前 Log.txt 退出状态不明", "Current Log.txt exit state is unclear")),
            evidence,
            string_from(tr(loc, "日志既没有正常退出标记也没有崩溃 UUID。可能被截断、仍在使用中或不完整。", "The log has neither a clean-shutdown marker nor a crash UUID. It may be truncated, still in use, or incomplete.")),
            string_from(tr(loc, "关闭 X-Plane 后重新采集。对于论坛样本，尽量获取完整的 Log.txt。", "Close X-Plane and collect again. For forum samples, ask for the complete Log.txt whenever possible.")),
        )
    }
}

/// Findings on how the session of the bundled log ended, and on what the
/// crash reports, archived logs and aftermath files say about it.
pub fn analyze_bundle_session_status_ascii(bundle: &DiagnosticBundle, loc: Locale) -> (r: Vec<Finding>)
    ensures
        views(r@) == session_status(*bundle, loc),
{
    let ghost reports = bundle.crash_reports@;
    let (uuid_matched, window, before, archive) = count_reports(&bundle.crash_reports);
    let mut findings: Vec<Finding> = Vec::new();
    findings.push(exit_state_finding(bundle, uuid_matched, loc));
    let ghost s1 = views(findings@);
    if uuid_matched == 0 && window == 0 && bundle.crash_reports.len() > 0 {
        let mut evidence = string_from("crash_reports=");
        push_decimal(&mut evidence, bundle.crash_reports.len() as u64);
        push_str(&mut evidence, ", before_current_log=");
        push_decimal(&mut evidence, before as u64);
        push_str(&mut evidence, ", archive_uuid_matches=");
        push_decimal(&mut evidence, archive as u64);
        push_str(&mut evidence, ", current_uuid_matches=0");
        findings.push(Finding::new(
            Severity::Info,
            Confidence::High,
            string_from("historical_crash_reports_only"),
            string_from(tr(loc, "崩溃 Dump 仅为历史背景", "Crash dumps are historical background only")),
            evidence,
            string_from(tr(loc, "诊断包中包含崩溃 Dump，但没有与当前 Log.txt 匹配的。这说明此机器之前崩溃过，而非当前会话崩溃。", "The bundle contains crash dumps, but none match the current Log.txt. They show that this machine crashed before, not that the current session crashed.")),
            string_from(tr(loc, "不要将历史 .dmp 文件与正常退出的当前 Log.txt 混为一谈。诊断当前崩溃请在崩溃后立即采集。", "Do not mix historical .dmp files with a clean-shutdown current Log.txt. For current crash diagnosis, collect immediately after the crash.")),
        ));
    }
    let ghost s2 = views(findings@);
    if archive > 0 {
        let count = crate::text::decimal_of(archive as u64);
        let evidence = fill(
            loc,
            "",
            " 个崩溃 Dump 匹配 Log Archive UUID。",
            "",
            " crash dump(s) matched Log Archive UUIDs.",
            &count,
        );
        let mut finding = Finding::new(
            Severity::Info,
            Confidence::High,
            string_from("archive_log_crash_uuid_matches"),
            string_from(tr(loc, "Log Archive 匹配部分崩溃 Dump", "Log Archive matches some crash dumps")),
            evidence,
            string_from(tr(loc, "这些匹配将历史 Log Archive 文件与历史 Dump 关联起来，可作为背景参考，但不是当前会话证据。", "These matches connect historical Log Archive files to historical dumps. They are useful context, but not current-session evidence.")),
            string_from(tr(loc, "将这些作为背景趋势证据。当前会话的结论仍应基于当前 Log.txt。", "Use these as background trend evidence. Current-session conclusions should still be based on the current Log.txt.")),
        );
        finding.extra_evidence = first_archive_lines(&bundle.crash_reports);
        findings.push(finding);
    }
    let ghost s3 = views(findings@);
    if bundle.crash_aftermath_files.len() > 0 {
        let names = names_of(&bundle.crash_aftermath_files);
        let mut evidence = string_from("aftermath_files=");
        let joined = join_strings(&names, ", ");
        push_chars(&mut evidence, &chars_of(joined.as_str()));
        findings.push(Finding::new(
            Severity::Info,
            Confidence::Medium,
            string_from("crash_aftermath_present"),
            string_from(tr(loc, "存在崩溃后续文件", "Crash aftermath file is present")),
            evidence,
            string_from(tr(loc, "Aftermath 文件通常意味着过去生成了额外的崩溃诊断信息，常见于复杂的图形/设备丢失故障。", "An aftermath file usually means extra crash diagnostics were generated in the past, often around complex graphics/device-loss failures.")),
            string_from(tr(loc, "此版本仅记录 aftermath 元数据，不读取或打包 zip 内容。除非与当前日志匹配，否则视为背景信息。", "This version records only aftermath metadata and does not read or package zip contents. Treat it as background unless it matches the current log.")),
        ));
    }
    proof {
        let a = seq![s1[0]];
        let b = s2.skip(1);
        let c = s3.skip(s2.len() as int);
        let d = views(findings@).skip(s3.len() as int);
        assert(s2 =~= a + b);
        assert(s3 =~= s2 + c);
        assert(views(findings@) =~= s3 + d);
        assert(views(findings@) =~= a + b + c + d);
    }
    findings
}

/// Whether a crash report relates to the current log: its UUID matched, or
/// it was written within the current log's time window.
pub open spec fn relates_to_current_log(report: CrashReportSnapshot) -> bool {
    report.relation_to_current_log@ == "uuid_matched"@ || report.relation_to_current_log@
        == "current_log_window"@
}

proof fn lemma_count_relation_zero(reports: Seq<CrashReportSnapshot>, rel: Seq<char>)
    ensures
        count_relation(reports, rel) == 0 <==> forall|i: int|
            0 <= i < reports.len() ==> (#[trigger] reports[i]).relation_to_current_log@ != rel,
    decreases reports.len(),
{
    if reports.len() > 0 {
        lemma_count_relation_zero(reports.drop_last(), rel);
        let last = reports.len() - 1;
        if count_relation(reports, rel) == 0 {
            assert forall|i: int| 0 <= i < reports.len() implies (#[trigger] reports[i]).relation_to_current_log@
                != rel by {
                if i < last {
                    assert(reports[i] == reports.drop_last()[i]);
                }
            }
        } else if count_relation(reports.drop_last(), rel) > 0 {
            let i = choose|i: int|
                0 <= i < reports.drop_last().len() && (#[trigger] reports.drop_last()[i]).relation_to_current_log@
                    == rel;
            assert(reports[i] == reports.drop_last()[i]);
        }
    }
}

/// The crash reports are called historical background exactly when there
/// are some and none of them relates to the current log (by UUID or by its
/// time window).
pub proof fn law_historical_only_when_nothing_relates(bundle: DiagnosticBundle, loc: Locale)
    ensures
        has_kind(session_status(bundle, loc), "historical_crash_reports_only"@) <==> (
        bundle.crash_reports@.len() > 0 && forall|i: int|
            0 <= i < bundle.crash_reports@.len() ==> !relates_to_current_log(
                #[trigger] bundle.crash_reports@[i],
            )),
{
    let reports = bundle.crash_reports@;
    lemma_count_relation_zero(reports, "uuid_matched"@);
    lemma_count_relation_zero(reports, "current_log_window"@);
    let h = "historical_crash_reports_only"@;
    reveal_strlit("historical_crash_reports_only");
    reveal_strlit("current_session_clean_shutdown");
    reveal_strlit("current_session_crashed");
    reveal_strlit("current_session_unknown_exit_state");
    reveal_strlit("archive_log_crash_uuid_matches");
    reveal_strlit("crash_aftermath_present");
    let e = exit_state(
        bundle.log.clean_shutdown,
        bundle.log.crashed,
        string_views(bundle.log.crash_uuids@),
        count_relation(reports, "uuid_matched"@),
        loc,
    );
    assert(e.kind != h) by {
        assert(h.len() != "current_session_clean_shutdown"@.len());
        assert(h.len() != "current_session_crashed"@.len());
        assert(h.len() != "current_session_unknown_exit_state"@.len());
    }
    assert("archive_log_crash_uuid_matches"@ != h) by {
        assert(h.len() != "archive_log_crash_uuid_matches"@.len());
    }
    assert("crash_aftermath_present"@ != h) by {
        assert(h.len() != "crash_aftermath_present"@.len());
    }
    let r = session_status(bundle, loc);
    if bundle.crash_reports@.len() > 0 && forall|i: int|
        0 <= i < reports.len() ==> !relates_to_current_log(#[trigger] reports[i]) {
        assert(r[1].kind == h);
    }
    if has_kind(r, h) {
        let i = choose|i: int| 0 <= i < r.len() && r[i].kind == h;
        assert(i != 0);
    }
}

} // verus!
