//! The HTML report and the forum summary of a scan.
use vstd::prelude::*;

use crate::i18n::{pick, tr, Locale};
use crate::model::{
    confidence_name, severity_name, views, Finding, FindingView, ScanReport, Severity,
    SystemSummary,
};
use crate::redact::{redact_sensitive_text, redacted};
use crate::text::{
    chars_of, decimal, push_chars, push_decimal, push_str, replace, replace_exec, string_of,
    string_views,
};

verus! {

proof fn lemma_cat(a: Seq<char>, b: Seq<char>, c: Seq<char>)
    ensures
        a + b + c == a + (b + c),
{
    assert(a + b + c =~= a + (b + c));
}

/// Text with `&`, `<`, `>` and `"` written as HTML entities.
pub open spec fn escape(s: Seq<char>) -> Seq<char> {
    replace(replace(replace(replace(s, "&"@, "&amp;"@), "<"@, "&lt;"@), ">"@, "&gt;"@), "\""@, "&quot;"@)
}

/// Writes `&`, `<`, `>` and `"` as HTML entities.
pub fn escape_html(input: &str) -> (r: String)
    ensures
        r@ == escape(input@),
{
    let s = chars_of(input);
    let a = replace_exec(&s, &chars_of("&"), &chars_of("&amp;"));
    let b = replace_exec(&a, &chars_of("<"), &chars_of("&lt;"));
    let c = replace_exec(&b, &chars_of(">"), &chars_of("&gt;"));
    let d = replace_exec(&c, &chars_of("\""), &chars_of("&quot;"));
    string_of(&d)
}

fn push_escaped(out: &mut String, s: &String)
    ensures
        final(out)@ == old(out)@ + escape(s@),
{
    let e = escape_html(s.as_str());
    push_chars(out, &chars_of(e.as_str()));
}

/// The title, with the count when the finding was seen more than once.
pub open spec fn title_with_count(f: FindingView) -> Seq<char> {
    if f.occurrences > 1 {
        f.title + " x "@ + decimal(f.occurrences)
    } else {
        f.title
    }
}

/// The title of a finding, with ` x <count>` when it was seen more than once.
pub fn finding_title_with_count(finding: &Finding) -> (r: String)
    ensures
        r@ == title_with_count(finding@),
{
    let mut r = String::new();
    push_chars(&mut r, &chars_of(finding.title.as_str()));
    if finding.occurrences > 1 {
        push_str(&mut r, " x ");
        push_decimal(&mut r, finding.occurrences as u64);
    }
    r
}

/// The findings of one severity, in order.
pub open spec fn of_severity(fs: Seq<FindingView>, s: Severity) -> Seq<FindingView>
    decreases fs.len(),
{
    if fs.len() == 0 {
        seq![]
    } else {
        of_severity(fs.drop_last(), s) + if fs.last().severity == s {
            seq![fs.last()]
        } else {
            seq![]
        }
    }
}

fn copy_finding(f: &Finding) -> (r: Finding)
    ensures
        r@ == f@,
{
    let mut extra: Vec<String> = Vec::new();
    let mut i: usize = 0;
    while i < f.extra_evidence.len()
        invariant
            i <= f.extra_evidence.len(),
            string_views(extra@) == string_views(f.extra_evidence@).take(i as int),
        decreases f.extra_evidence.len() - i,
    {
        let ghost before = extra@;
        extra.push(string_of(&chars_of(f.extra_evidence[i].as_str())));
        assert(string_views(extra@) =~= string_views(before).push(f.extra_evidence@[i as int]@));
        assert(string_views(f.extra_evidence@).take(i + 1) =~= string_views(f.extra_evidence@).take(
            i as int,
        ).push(f.extra_evidence@[i as int]@));
        i = i + 1;
    }
    assert(string_views(f.extra_evidence@).take(f.extra_evidence.len() as int) =~= string_views(
        f.extra_evidence@,
    ));
    let r = Finding {
        severity: f.severity,
        confidence: f.confidence,
        kind: string_of(&chars_of(f.kind.as_str())),
        title: string_of(&chars_of(f.title.as_str())),
        evidence: string_of(&chars_of(f.evidence.as_str())),
        occurrences: f.occurrences,
        extra_evidence: extra,
        explanation: string_of(&chars_of(f.explanation.as_str())),
        suggestion: string_of(&chars_of(f.suggestion.as_str())),
    };
    assert(crate::model::strs_of(r.extra_evidence@) =~= crate::model::strs_of(f.extra_evidence@));
    r
}

/// Copies of the findings of one severity, in order.
fn findings_of(fs: &Vec<Finding>, s: Severity) -> (r: Vec<Finding>)
    ensures
        views(r@) == of_severity(views(fs@), s),
{
    let ghost v = views(fs@);
    let mut out: Vec<Finding> = Vec::new();
    let mut i: usize = 0;
    while i < fs.len()
        invariant
            i <= fs.len(),
            v == views(fs@),
            views(out@) == of_severity(v.take(i as int), s),
        decreases fs.len() - i,
    {
        assert(v.take(i + 1).drop_last() =~= v.take(i as int));
        let ghost before = views(out@);
        if fs[i].severity == s {
            out.push(copy_finding(&fs[i]));
            assert(views(out@) =~= before.push(v[i as int]));
        } else {
            assert(views(out@) =~= before + Seq::<FindingView>::empty());
        }
        i = i + 1;
    }
    assert(v.take(fs.len() as int) =~= v);
    out
}

fn append_findings(out: &mut Vec<Finding>, more: Vec<Finding>)
    ensures
        views(final(out)@) == views(old(out)@) + views(more@),
{
    let ghost start = out@;
    let mut more = more;
    let ghost m = more@;
    out.append(&mut more);
    assert(views(out@) =~= views(start) + views(m));
}

/// One escaped list item.
pub open spec fn li(s: Seq<char>) -> Seq<char> {
    "<li>"@ + escape(s) + "</li>"@
}

/// Escaped list items, in order.
pub open spec fn lis(items: Seq<Seq<char>>) -> Seq<char>
    decreases items.len(),
{
    if items.len() == 0 {
        seq![]
    } else {
        lis(items.drop_last()) + li(items.last())
    }
}

fn push_li(out: &mut String, s: &String)
    ensures
        final(out)@ == old(out)@ + li(s@),
{
    let ghost o = out@;
    push_str(out, "<li>");
    push_escaped(out, s);
    push_str(out, "</li>");
    proof {
        lemma_cat(o, "<li>"@ + escape(s@), "</li>"@);
        lemma_cat(o, "<li>"@, escape(s@));
    }
}

fn push_lis(out: &mut String, items: &Vec<String>, n: usize)
    requires
        n <= items.len(),
    ensures
        final(out)@ == old(out)@ + lis(string_views(items@).take(n as int)),
{
    let ghost o = out@;
    let ghost v = string_views(items@);
    let mut i: usize = 0;
    assert(v.take(0) =~= Seq::<Seq<char>>::empty());
    assert(o + lis(v.take(0)) =~= o);
    while i < n
        invariant
            n <= items.len(),
            i <= n,
            v == string_views(items@),
            out@ == o + lis(v.take(i as int)),
        decreases n - i,
    {
        push_li(out, &items[i]);
        assert(v.take(i + 1).drop_last() =~= v.take(i as int));
        proof {
            lemma_cat(o, lis(v.take(i as int)), li(v[i as int]));
        }
        i = i + 1;
    }
}

/// The evidence of a finding in HTML: one paragraph, or a list when it has
/// further evidence.
pub open spec fn evidence_html(f: FindingView) -> Seq<char> {
    if f.extra_evidence.len() == 0 {
        "<p class=\"evidence\">"@ + escape(f.evidence) + "</p>"@
    } else {
        "<div class=\"evidence\"><ul>"@ + li(f.evidence) + lis(f.extra_evidence) + "</ul></div>"@
    }
}

/// The evidence of a finding in HTML.
pub fn render_evidence_html(finding: &Finding) -> (r: String)
    ensures
        r@ == evidence_html(finding@),
{
    let mut html = String::new();
    if finding.extra_evidence.len() == 0 {
        push_str(&mut html, "<p class=\"evidence\">");
        push_escaped(&mut html, &finding.evidence);
        push_str(&mut html, "</p>");
        return html;
    }
    push_str(&mut html, "<div class=\"evidence\"><ul>");
    push_li(&mut html, &finding.evidence);
    push_lis(&mut html, &finding.extra_evidence, finding.extra_evidence.len());
    push_str(&mut html, "</ul></div>");
    assert(string_views(finding.extra_evidence@).take(finding.extra_evidence.len() as int)
        =~= finding@.extra_evidence);
    html
}

/// One finding as an HTML section.
pub open spec fn finding_html(f: FindingView, loc: Locale) -> Seq<char> {
    "<section class=\"finding "@ + severity_name(f.severity) + "\"><div class=\"sev\">"@
        + severity_name(f.severity) + " / confidence "@ + confidence_name(f.confidence)
        + "</div><h3>"@ + escape(title_with_count(f)) + "</h3>"@ + evidence_html(f) + "<p>"@
        + escape(f.explanation) + "</p><p><strong>"@ + pick(loc, "建议"@, "Suggestion"@)
        + ":</strong> "@ + escape(f.suggestion) + "</p></section>"@
}

fn push_finding_html(out: &mut String, f: &Finding, loc: Locale)
    ensures
        final(out)@ == old(out)@ + finding_html(f@, loc),
{
    let mut h = String::new();
    push_str(&mut h, "<section class=\"finding ");
    push_str(&mut h, f.severity.as_str());
    push_str(&mut h, "\"><div class=\"sev\">");
    push_str(&mut h, f.severity.as_str());
    push_str(&mut h, " / confidence ");
    push_str(&mut h, f.confidence.as_str());
    push_str(&mut h, "</div><h3>");
    let title = finding_title_with_count(f);
    push_escaped(&mut h, &title);
    push_str(&mut h, "</h3>");
    let ev = render_evidence_html(f);
    push_chars(&mut h, &chars_of(ev.as_str()));
    push_str(&mut h, "<p>");
    push_escaped(&mut h, &f.explanation);
    push_str(&mut h, "</p><p><strong>");
    push_str(&mut h, tr(loc, "建议", "Suggestion"));
    push_str(&mut h, ":</strong> ");
    push_escaped(&mut h, &f.suggestion);
    push_str(&mut h, "</p></section>");
    assert(h@ =~= finding_html(f@, loc));
    push_chars(out, &chars_of(h.as_str()));
}

/// The findings as HTML sections, in order.
pub open spec fn findings_html(fs: Seq<FindingView>, loc: Locale) -> Seq<char>
    decreases fs.len(),
{
    if fs.len() == 0 {
        seq![]
    } else {
        findings_html(fs.drop_last(), loc) + finding_html(fs.last(), loc)
    }
}

/// A titled group of findings, or its message when it has none.
pub open spec fn group_html(title: Seq<char>, fs: Seq<FindingView>, empty: Seq<char>, loc: Locale) -> Seq<char> {
    "<h2>"@ + escape(title) + "</h2>"@ + if fs.len() == 0 {
        "<p class=\"empty\">"@ + escape(empty) + "</p>"@
    } else {
        findings_html(fs, loc)
    }
}

fn push_group_html(out: &mut String, title: &str, fs: &Vec<Finding>, empty: &str, loc: Locale)
    ensures
        final(out)@ == old(out)@ + group_html(title@, views(fs@), empty@, loc),
{
    let mut h = string_of(&[]);
    assert(h@ =~= Seq::<char>::empty());
    push_str(&mut h, "<h2>");
    let t = escape_html(title);
    push_chars(&mut h, &chars_of(t.as_str()));
    push_str(&mut h, "</h2>");
    let ghost head = h@;
    if fs.len() == 0 {
        push_str(&mut h, "<p class=\"empty\">");
        let e = escape_html(empty);
        push_chars(&mut h, &chars_of(e.as_str()));
        push_str(&mut h, "</p>");
        assert(h@ =~= group_html(title@, views(fs@), empty@, loc));
    } else {
        let ghost v = views(fs@);
        let mut i: usize = 0;
        assert(head + findings_html(v.take(0), loc) =~= head);
        while i < fs.len()
            invariant
                i <= fs.len(),
                v == views(fs@),
                h@ == head + findings_html(v.take(i as int), loc),
            decreases fs.len() - i,
        {
            push_finding_html(&mut h, &fs[i], loc);
            assert(v.take(i + 1).drop_last() =~= v.take(i as int));
            proof {
                lemma_cat(head, findings_html(v.take(i as int), loc), finding_html(v[i as int], loc));
            }
            i = i + 1;
        }
        assert(v.take(fs.len() as int) =~= v);
        assert(h@ =~= group_html(title@, views(fs@), empty@, loc));
    }
    push_chars(out, &chars_of(h.as_str()));
}

/// An optional summary line as an escaped list item.
pub open spec fn opt_li(o: Option<String>) -> Seq<char> {
    match o {
        Some(v) => li(v@),
        None => seq![],
    }
}

/// The system summary in HTML.
pub open spec fn summary_html(s: SystemSummary, loc: Locale) -> Seq<char> {
    "<h2>"@ + pick(loc, "系统摘要"@, "System Summary"@) + "</h2><ul>"@ + opt_li(s.xplane_version)
        + opt_li(s.os) + opt_li(s.cpu) + opt_li(s.gpu) + opt_li(s.aircraft) + "</ul>"@
}

fn push_opt_li(out: &mut String, o: &Option<String>)
    ensures
        final(out)@ == old(out)@ + opt_li(*o),
{
    match o {
        Some(v) => push_li(out, v),
        None => {
            assert(out@ =~= out@ + Seq::<char>::empty());
        },
    }
}

fn push_summary_html(out: &mut String, s: &SystemSummary, loc: Locale)
    ensures
        final(out)@ == old(out)@ + summary_html(*s, loc),
{
    let mut h = string_of(&[]);
    assert(h@ =~= Seq::<char>::empty());
    push_str(&mut h, "<h2>");
    push_str(&mut h, tr(loc, "系统摘要", "System Summary"));
    push_str(&mut h, "</h2><ul>");
    push_opt_li(&mut h, &s.xplane_version);
    push_opt_li(&mut h, &s.os);
    push_opt_li(&mut h, &s.cpu);
    push_opt_li(&mut h, &s.gpu);
    push_opt_li(&mut h, &s.aircraft);
    push_str(&mut h, "</ul>");
    assert(h@ =~= summary_html(*s, loc));
    push_chars(out, &chars_of(h.as_str()));
}

/// The style sheet of the HTML report.
pub open spec fn style() -> Seq<char> {
    "body{font-family:Segoe UI,Arial,sans-serif;margin:0;background:#f6f8fb;color:#18202a}main{max-width:1040px;margin:0 auto;padding:32px 20px}h1{font-size:28px;margin:0 0 8px}h2{font-size:18px;margin:30px 0 10px}h3{font-size:16px;margin:6px 0 8px}.muted{color:#64748b}.summary{display:flex;gap:12px;flex-wrap:wrap;margin:18px 0}.pill{background:white;border:1px solid #d8dee8;border-radius:8px;padding:10px 12px}.finding{background:white;border:1px solid #d8dee8;border-left-width:6px;border-radius:8px;margin:12px 0;padding:14px}.high{border-left-color:#dc2626}.medium{border-left-color:#d97706}.low{border-left-color:#2563eb}.info{border-left-color:#94a3b8}.sev{font-size:12px;font-weight:700;text-transform:uppercase;color:#475569}.evidence{font-family:Consolas,monospace;background:#f1f5f9;padding:8px;border-radius:6px;overflow-wrap:anywhere}ul{padding-left:20px}li{margin:4px 0}.empty{color:#64748b;background:white;border:1px solid #d8dee8;border-radius:8px;padding:14px}"@
}

/// The report's head, up to the opening of its main part.
pub open spec fn html_head(loc: Locale) -> Seq<char> {
    "<!doctype html><html lang=\"en\"><head><meta charset=\"utf-8\"><meta name=\"viewport\" content=\"width=device-width,initial-scale=1\"><title>"@
        + pick(loc, "X-Plane 日志分诊工具 报告"@, "X-Plane Log Triage Tool Report"@)
        + "</title><style>"@ + style() + "</style></head><body><main>"@
}

/// A summary pill: a label and a count.
pub open spec fn pill(label: Seq<char>, n: nat) -> Seq<char> {
    "<div class=\"pill\">"@ + label + " "@ + decimal(n) + "</div>"@
}

/// The list of plugin folders in HTML.
pub open spec fn plugins_html(plugins: Seq<Seq<char>>, loc: Locale) -> Seq<char> {
    "<h2>"@ + pick(loc, "已安装插件"@, "Installed Plugins"@) + "</h2><ul>"@ + lis(plugins) + (if plugins.len() == 0 {
        "<li class=\"muted\">"@ + pick(loc, "未找到或未包含插件目录。"@, "No plugin folders were found or included."@) + "</li>"@
    } else {
        seq![]
    }) + "</ul>"@
}

/// The main problems (high, then medium), the things to check (low) and the
/// background notes (info), each in report order.
pub open spec fn groups_html(fs: Seq<FindingView>, loc: Locale) -> Seq<char> {
    group_html(
        pick(loc, "主要问题"@, "Main Problems"@),
        of_severity(fs, Severity::High) + of_severity(fs, Severity::Medium),
        pick(loc, "当前规则未发现高或中优先级问题。"@, "No high or medium priority problems were found by the current rules."@),
        loc,
    ) + group_html(
        pick(loc, "建议检查"@, "Things To Check"@),
        of_severity(fs, Severity::Low),
        pick(loc, "未发现低优先级检查项。"@, "No low priority checks were found."@),
        loc,
    ) + group_html(
        pick(loc, "背景 / 技术细节"@, "Background / Technical Details"@),
        of_severity(fs, Severity::Info),
        pick(loc, "未记录背景信息。"@, "No background notes were recorded."@),
        loc,
    )
}

/// The whole HTML report.
pub open spec fn report_html(
    path: Seq<char>,
    fs: Seq<FindingView>,
    plugins: Seq<Seq<char>>,
    scenery_entries: nat,
    summary: SystemSummary,
    loc: Locale,
) -> Seq<char> {
    html_head(loc) + "<h1>"@ + pick(loc, "X-Plane 日志分诊工具 报告"@, "X-Plane Log Triage Tool Report"@)
        + "</h1>"@ + "<div class=\"muted\">"@ + pick(loc, "输入："@, "Input:"@) + " "@ + escape(path)
        + "</div>"@ + "<div class=\"summary\">"@ + pill(pick(loc, "发现："@, "Findings:"@), fs.len())
        + pill(pick(loc, "插件："@, "Plugins:"@), plugins.len()) + pill(
        pick(loc, "Scenery 条目："@, "Scenery entries:"@),
        scenery_entries,
    ) + "</div>"@ + summary_html(summary, loc) + groups_html(fs, loc) + plugins_html(plugins, loc)
        + "</main></body></html>"@
}

fn push_pill(out: &mut String, label: &str, n: usize)
    ensures
        final(out)@ == old(out)@ + pill(label@, n as nat),
{
    let mut h = string_of(&[]);
    assert(h@ =~= Seq::<char>::empty());
    push_str(&mut h, "<div class=\"pill\">");
    push_str(&mut h, label);
    push_str(&mut h, " ");
    push_decimal(&mut h, n as u64);
    push_str(&mut h, "</div>");
    assert(h@ =~= pill(label@, n as nat));
    push_chars(out, &chars_of(h.as_str()));
}

fn push_head(out: &mut String, loc: Locale)
    ensures
        final(out)@ == old(out)@ + html_head(loc),
{
    let mut h = string_of(&[]);
    assert(h@ =~= Seq::<char>::empty());
    push_str(&mut h, "<!doctype html><html lang=\"en\"><head><meta charset=\"utf-8\"><meta name=\"viewport\" content=\"width=device-width,initial-scale=1\"><title>");
    push_str(&mut h, tr(loc, "X-Plane 日志分诊工具 报告", "X-Plane Log Triage Tool Report"));
    push_str(&mut h, "</title><style>");
    push_str(&mut h, "body{font-family:Segoe UI,Arial,sans-serif;margin:0;background:#f6f8fb;color:#18202a}main{max-width:1040px;margin:0 auto;padding:32px 20px}h1{font-size:28px;margin:0 0 8px}h2{font-size:18px;margin:30px 0 10px}h3{font-size:16px;margin:6px 0 8px}.muted{color:#64748b}.summary{display:flex;gap:12px;flex-wrap:wrap;margin:18px 0}.pill{background:white;border:1px solid #d8dee8;border-radius:8px;padding:10px 12px}.finding{background:white;border:1px solid #d8dee8;border-left-width:6px;border-radius:8px;margin:12px 0;padding:14px}.high{border-left-color:#dc2626}.medium{border-left-color:#d97706}.low{border-left-color:#2563eb}.info{border-left-color:#94a3b8}.sev{font-size:12px;font-weight:700;text-transform:uppercase;color:#475569}.evidence{font-family:Consolas,monospace;background:#f1f5f9;padding:8px;border-radius:6px;overflow-wrap:anywhere}ul{padding-left:20px}li{margin:4px 0}.empty{color:#64748b;background:white;border:1px solid #d8dee8;border-radius:8px;padding:14px}");
    push_str(&mut h, "</style></head><body><main>");
    assert(h@ =~= html_head(loc));
    push_chars(out, &chars_of(h.as_str()));
}

fn push_plugins_html(out: &mut String, plugins: &Vec<String>, loc: Locale)
    ensures
        final(out)@ == old(out)@ + plugins_html(string_views(plugins@), loc),
{
    let mut h = string_of(&[]);
    assert(h@ =~= Seq::<char>::empty());
    push_str(&mut h, "<h2>");
    push_str(&mut h, tr(loc, "已安装插件", "Installed Plugins"));
    push_str(&mut h, "</h2><ul>");
    push_lis(&mut h, plugins, plugins.len());
    assert(string_views(plugins@).take(plugins.len() as int) =~= string_views(plugins@));
    if plugins.len() == 0 {
        push_str(&mut h, "<li class=\"muted\">");
        push_str(&mut h, tr(loc, "未找到或未包含插件目录。", "No plugin folders were found or included."));
        push_str(&mut h, "</li>");
    }
    push_str(&mut h, "</ul>");
    assert(h@ =~= plugins_html(string_views(plugins@), loc));
    push_chars(out, &chars_of(h.as_str()));
}

fn push_groups_html(out: &mut String, fs: &Vec<Finding>, loc: Locale)
    ensures
        final(out)@ == old(out)@ + groups_html(views(fs@), loc),
{
    let ghost o = out@;
    let mut main = findings_of(fs, Severity::High);
    let medium = findings_of(fs, Severity::Medium);
    append_findings(&mut main, medium);
    push_group_html(
        out,
        tr(loc, "主要问题", "Main Problems"),
        &main,
        tr(loc, "当前规则未发现高或中优先级问题。", "No high or medium priority problems were found by the current rules."),
        loc,
    );
    let ghost a = out@;
    let low = findings_of(fs, Severity::Low);
    push_group_html(
        out,
        tr(loc, "建议检查", "Things To Check"),
        &low,
        tr(loc, "未发现低优先级检查项。", "No low priority checks were found."),
        loc,
    );
    let info = findings_of(fs, Severity::Info);
    push_group_html(
        out,
        tr(loc, "背景 / 技术细节", "Background / Technical Details"),
        &info,
        tr(loc, "未记录背景信息。", "No background notes were recorded."),
        loc,
    );
    assert(out@ =~= o + groups_html(views(fs@), loc));
}

/// The HTML report of a scan, in the given language.
pub fn render_html(report: &ScanReport, loc: Locale) -> (r: String)
    ensures
        r@ == report_html(
            report.xplane_path@,
            views(report.findings@),
            string_views(report.plugins@),
            report.scenery_entries.len() as nat,
            report.summary,
            loc,
        ),
{
    let mut html = string_of(&[]);
    assert(html@ =~= Seq::<char>::empty());
    push_head(&mut html, loc);
    push_str(&mut html, "<h1>");
    push_str(&mut html, tr(loc, "X-Plane 日志分诊工具 报告", "X-Plane Log Triage Tool Report"));
    push_str(&mut html, "</h1>");
    push_str(&mut html, "<div class=\"muted\">");
    push_str(&mut html, tr(loc, "输入：", "Input:"));
    push_str(&mut html, " ");
    push_escaped(&mut html, &report.xplane_path);
    push_str(&mut html, "</div>");
    push_str(&mut html, "<div class=\"summary\">");
    push_pill(&mut html, tr(loc, "发现：", "Findings:"), report.findings.len());
    push_pill(&mut html, tr(loc, "插件：", "Plugins:"), report.plugins.len());
    push_pill(&mut html, tr(loc, "Scenery 条目：", "Scenery entries:"), report.scenery_entries.len());
    push_str(&mut html, "</div>");
    let ghost before_summary = html@;
    push_summary_html(&mut html, &report.summary, loc);
    push_groups_html(&mut html, &report.findings, loc);
    push_plugins_html(&mut html, &report.plugins, loc);
    push_str(&mut html, "</main></body></html>");
    assert(html@ =~= report_html(
        report.xplane_path@,
        views(report.findings@),
        string_views(report.plugins@),
        report.scenery_entries.len() as nat,
        report.summary,
        loc,
    ));
    html
}

/// A summary line of the forum text, when the value is known.
pub open spec fn summary_line(label: Seq<char>, o: Option<String>, homes: Seq<Seq<char>>) -> Seq<char> {
    match o {
        Some(v) => "- "@ + label + ": "@ + redacted(v@, homes) + "\n"@,
        None => seq![],
    }
}

fn push_summary_line(out: &mut String, label: &str, o: &Option<String>, homes: &Vec<String>)
    ensures
        final(out)@ == old(out)@ + summary_line(label@, *o, string_views(homes@)),
{
    match o {
        Some(v) => {
            let mut h = string_of(&[]);
            assert(h@ =~= Seq::<char>::empty());
            push_str(&mut h, "- ");
            push_str(&mut h, label);
            push_str(&mut h, ": ");
            let a = redact_sensitive_text(v.as_str(), homes);
            push_chars(&mut h, &chars_of(a.as_str()));
            push_str(&mut h, "\n");
            assert(h@ =~= summary_line(label@, *o, string_views(homes@)));
            push_chars(out, &chars_of(h.as_str()));
        },
        None => {
            assert(out@ =~= out@ + Seq::<char>::empty());
        },
    }
}

/// The evidence lines of a finding for the forum text.
pub open spec fn forum_evidence(f: FindingView, homes: Seq<Seq<char>>) -> Seq<char> {
    if f.occurrences > 1 {
        "\n    - "@ + crate::text::join(
            seq![redacted(f.evidence, homes)] + f.extra_evidence.map_values(
                |e: Seq<char>| redacted(e, homes),
            ),
            "\n    - "@,
        )
    } else {
        redacted(f.evidence, homes)
    }
}

/// The evidence of a finding for the forum text: its first line, or all its
/// lines as a list when it was seen more than once.
pub fn forum_evidence_lines(finding: &Finding, homes: &Vec<String>) -> (r: String)
    ensures
        r@ == forum_evidence(finding@, string_views(homes@)),
{
    let ghost hv = string_views(homes@);
    let mut lines: Vec<String> = Vec::new();
    lines.push(redact_sensitive_text(finding.evidence.as_str(), homes));
    let ghost ex = finding@.extra_evidence;
    let mut i: usize = 0;
    while i < finding.extra_evidence.len()
        invariant
            i <= finding.extra_evidence.len(),
            hv == string_views(homes@),
            ex == finding@.extra_evidence,
            string_views(lines@) == seq![redacted(finding@.evidence, hv)] + ex.take(i as int).map_values(
                |e: Seq<char>| redacted(e, hv),
            ),
        decreases finding.extra_evidence.len() - i,
    {
        let ghost before = string_views(lines@);
        lines.push(redact_sensitive_text(finding.extra_evidence[i].as_str(), homes));
        assert(string_views(lines@) =~= before.push(redacted(ex[i as int], hv)));
        assert(ex.take(i + 1).map_values(|e: Seq<char>| redacted(e, hv)) =~= ex.take(i as int).map_values(
            |e: Seq<char>| redacted(e, hv),
        ).push(redacted(ex[i as int], hv)));
        i = i + 1;
    }
    assert(ex.take(finding.extra_evidence.len() as int) =~= ex);
    if finding.occurrences > 1 {
        let mut r = string_of(&[]);
        assert(r@ =~= Seq::<char>::empty());
        push_str(&mut r, "\n    - ");
        let j = crate::text::join_strings(&lines, "\n    - ");
        push_chars(&mut r, &chars_of(j.as_str()));
        r
    } else {
        let mut r = string_of(&[]);
        push_chars(&mut r, &chars_of(lines[0].as_str()));
        assert(r@ =~= string_views(lines@)[0]);
        r
    }
}

/// One main problem in the forum text.
pub open spec fn forum_item(f: FindingView, homes: Seq<Seq<char>>, loc: Locale) -> Seq<char> {
    "- ["@ + severity_name(f.severity) + " / "@ + pick(loc, "置信度"@, "confidence"@) + " "@
        + confidence_name(f.confidence) + "] "@ + title_with_count(f) + "\n  "@ + pick(
        loc,
        "证据"@,
        "Evidence"@,
    ) + ": "@ + forum_evidence(f, homes) + "\n  "@ + pick(loc, "建议"@, "Suggestion"@) + ": "@
        + redacted(f.suggestion, homes) + "\n"@
}

/// Main problems in the forum text, in order.
pub open spec fn forum_items(fs: Seq<FindingView>, homes: Seq<Seq<char>>, loc: Locale) -> Seq<char>
    decreases fs.len(),
{
    if fs.len() == 0 {
        seq![]
    } else {
        forum_items(fs.drop_last(), homes, loc) + forum_item(fs.last(), homes, loc)
    }
}

/// One background note in the forum text.
pub open spec fn background_item(f: FindingView, homes: Seq<Seq<char>>) -> Seq<char> {
    "- "@ + title_with_count(f) + ": "@ + redacted(f.evidence, homes) + "\n"@
}

/// Background notes in the forum text, in order.
pub open spec fn background_items(fs: Seq<FindingView>, homes: Seq<Seq<char>>) -> Seq<char>
    decreases fs.len(),
{
    if fs.len() == 0 {
        seq![]
    } else {
        background_items(fs.drop_last(), homes) + background_item(fs.last(), homes)
    }
}

/// One plugin folder line in the forum text.
pub open spec fn plugin_line(p: Seq<char>) -> Seq<char> {
    "- "@ + p + "\n"@
}

pub open spec fn plugin_lines(ps: Seq<Seq<char>>) -> Seq<char>
    decreases ps.len(),
{
    if ps.len() == 0 {
        seq![]
    } else {
        plugin_lines(ps.drop_last()) + plugin_line(ps.last())
    }
}

/// The first `n` items, or all of them.
pub open spec fn first_n<T>(s: Seq<T>, n: nat) -> Seq<T> {
    if s.len() > n {
        s.take(n as int)
    } else {
        s
    }
}

/// The main problems of the forum text: the first eight high and medium
/// findings, high first, each group in report order.
pub open spec fn important(fs: Seq<FindingView>) -> Seq<FindingView> {
    first_n(of_severity(fs, Severity::High) + of_severity(fs, Severity::Medium), 8)
}

/// The background notes of the forum text: the first six info findings.
pub open spec fn background(fs: Seq<FindingView>) -> Seq<FindingView> {
    first_n(of_severity(fs, Severity::Info), 6)
}

/// The forum text of a scan: the input and system summary, the main
/// problems, the background notes and the plugin folders (at most forty
/// named), with home folders and user names taken out.
pub open spec fn forum_text(
    path: Seq<char>,
    fs: Seq<FindingView>,
    plugins: Seq<Seq<char>>,
    summary: SystemSummary,
    homes: Seq<Seq<char>>,
    loc: Locale,
) -> Seq<char> {
    pick(loc, "X-Plane 日志分诊工具 摘要"@, "X-Plane Log Triage Tool Summary"@) + "\n"@
        + "======================\n\n"@ + pick(loc, "输入："@, "Input:"@) + " "@ + redacted(path, homes)
        + "\n\n"@ + pick(loc, "系统信息："@, "System info:"@) + "\n"@ + summary_line(
        "X-Plane"@,
        summary.xplane_version,
        homes,
    ) + summary_line("OS"@, summary.os, homes) + summary_line("CPU"@, summary.cpu, homes)
        + summary_line("GPU"@, summary.gpu, homes) + summary_line(
        "Aircraft"@,
        summary.aircraft,
        homes,
    ) + "\n"@ + pick(loc, "主要问题："@, "Main problems:"@) + "\n"@ + (if important(fs).len() == 0 {
        "- "@ + pick(loc, "当前规则未发现高或中优先级问题。"@, "No high or medium priority problems were found by the current rules."@) + "\n"@
    } else {
        forum_items(important(fs), homes, loc)
    }) + (if background(fs).len() == 0 {
        seq![]
    } else {
        "\n"@ + pick(loc, "背景信息："@, "Background notes:"@) + "\n"@ + background_items(
            background(fs),
            homes,
        )
    }) + "\n"@ + pick(loc, "已安装插件目录："@, "Installed plugin folders:"@) + "\n"@ + (if plugins.len()
        == 0 {
        "- "@ + pick(loc, "未找到或未包含。"@, "None found or included."@) + "\n"@
    } else {
        plugin_lines(first_n(plugins, 40)) + if plugins.len() > 40 {
            "- "@ + crate::i18n::filled(
                loc,
                "...另外 "@,
                " 个"@,
                "...and "@,
                " more"@,
                decimal((plugins.len() - 40) as nat),
            ) + "\n"@
        } else {
            seq![]
        }
    })
}

fn push_forum_item(out: &mut String, f: &Finding, homes: &Vec<String>, loc: Locale)
    ensures
        final(out)@ == old(out)@ + forum_item(f@, string_views(homes@), loc),
{
    let mut h = string_of(&[]);
    assert(h@ =~= Seq::<char>::empty());
    push_str(&mut h, "- [");
    push_str(&mut h, f.severity.as_str());
    push_str(&mut h, " / ");
    push_str(&mut h, tr(loc, "置信度", "confidence"));
    push_str(&mut h, " ");
    push_str(&mut h, f.confidence.as_str());
    push_str(&mut h, "] ");
    let title = finding_title_with_count(f);
    push_chars(&mut h, &chars_of(title.as_str()));
    push_str(&mut h, "\n  ");
    push_str(&mut h, tr(loc, "证据", "Evidence"));
    push_str(&mut h, ": ");
    let ev = forum_evidence_lines(f, homes);
    push_chars(&mut h, &chars_of(ev.as_str()));
    push_str(&mut h, "\n  ");
    push_str(&mut h, tr(loc, "建议", "Suggestion"));
    push_str(&mut h, ": ");
    let sg = redact_sensitive_text(f.suggestion.as_str(), homes);
    push_chars(&mut h, &chars_of(sg.as_str()));
    push_str(&mut h, "\n");
    assert(h@ =~= forum_item(f@, string_views(homes@), loc));
    push_chars(out, &chars_of(h.as_str()));
}

fn push_background_item(out: &mut String, f: &Finding, homes: &Vec<String>)
    ensures
        final(out)@ == old(out)@ + background_item(f@, string_views(homes@)),
{
    let mut h = string_of(&[]);
    assert(h@ =~= Seq::<char>::empty());
    push_str(&mut h, "- ");
    let title = finding_title_with_count(f);
    push_chars(&mut h, &chars_of(title.as_str()));
    push_str(&mut h, ": ");
    let ev = redact_sensitive_text(f.evidence.as_str(), homes);
    push_chars(&mut h, &chars_of(ev.as_str()));
    push_str(&mut h, "\n");
    assert(h@ =~= background_item(f@, string_views(homes@)));
    push_chars(out, &chars_of(h.as_str()));
}

fn push_important(out: &mut String, fs: &Vec<Finding>, homes: &Vec<String>, loc: Locale)
    ensures
        final(out)@ == old(out)@ + (if important(views(fs@)).len() == 0 {
            "- "@ + pick(loc, "当前规则未发现高或中优先级问题。"@, "No high or medium priority problems were found by the current rules."@) + "\n"@
        } else {
            forum_items(important(views(fs@)), string_views(homes@), loc)
        }),
{
    let ghost o = out@;
    let ghost hv = string_views(homes@);
    let mut main = findings_of(fs, Severity::High);
    let medium = findings_of(fs, Severity::Medium);
    append_findings(&mut main, medium);
    let ghost mv = views(main@);
    let n: usize = if main.len() > 8 { 8 } else { main.len() };
    assert(important(views(fs@)) =~= mv.take(n as int));
    if n == 0 {
        push_str(out, "- ");
        push_str(out, tr(loc, "当前规则未发现高或中优先级问题。", "No high or medium priority problems were found by the current rules."));
        push_str(out, "\n");
        assert(out@ =~= o + ("- "@ + pick(loc, "当前规则未发现高或中优先级问题。"@, "No high or medium priority problems were found by the current rules."@) + "\n"@));
    } else {
        let mut i: usize = 0;
        assert(o + forum_items(mv.take(0), hv, loc) =~= o);
        while i < n
            invariant
                n <= main.len(),
                i <= n,
                mv == views(main@),
                hv == string_views(homes@),
                out@ == o + forum_items(mv.take(i as int), hv, loc),
            decreases n - i,
        {
            push_forum_item(out, &main[i], homes, loc);
            assert(mv.take(i + 1).drop_last() =~= mv.take(i as int));
            proof {
                lemma_cat(o, forum_items(mv.take(i as int), hv, loc), forum_item(mv[i as int], hv, loc));
            }
            i = i + 1;
        }
    }
}

fn push_background(out: &mut String, fs: &Vec<Finding>, homes: &Vec<String>, loc: Locale)
    ensures
        final(out)@ == old(out)@ + (if background(views(fs@)).len() == 0 {
            seq![]
        } else {
            "\n"@ + pick(loc, "背景信息："@, "Background notes:"@) + "\n"@ + background_items(
                background(views(fs@)),
                string_views(homes@),
            )
        }),
{
    let ghost o = out@;
    let ghost hv = string_views(homes@);
    let info = findings_of(fs, Severity::Info);
    let ghost iv = views(info@);
    let n: usize = if info.len() > 6 { 6 } else { info.len() };
    assert(background(views(fs@)) =~= iv.take(n as int));
    if n == 0 {
        assert(out@ =~= o + Seq::<char>::empty());
    } else {
        push_str(out, "\n");
        push_str(out, tr(loc, "背景信息：", "Background notes:"));
        push_str(out, "\n");
        let ghost head = out@;
        let mut i: usize = 0;
        assert(head + background_items(iv.take(0), hv) =~= head);
        while i < n
            invariant
                n <= info.len(),
                i <= n,
                iv == views(info@),
                hv == string_views(homes@),
                out@ == head + background_items(iv.take(i as int), hv),
            decreases n - i,
        {
            push_background_item(out, &info[i], homes);
            assert(iv.take(i + 1).drop_last() =~= iv.take(i as int));
            proof {
                lemma_cat(head, background_items(iv.take(i as int), hv), background_item(iv[i as int], hv));
            }
            i = i + 1;
        }
        assert(out@ =~= o + ("\n"@ + pick(loc, "背景信息："@, "Background notes:"@) + "\n"@ + background_items(iv.take(n as int), hv)));
    }
}

fn push_plugin_lines(out: &mut String, plugins: &Vec<String>, loc: Locale)
    ensures
        final(out)@ == old(out)@ + (if plugins.len() == 0 {
            "- "@ + pick(loc, "未找到或未包含。"@, "None found or included."@) + "\n"@
        } else {
            plugin_lines(first_n(string_views(plugins@), 40)) + if plugins.len() > 40 {
                "- "@ + crate::i18n::filled(
                    loc,
                    "...另外 "@,
                    " 个"@,
                    "...and "@,
                    " more"@,
                    decimal((plugins.len() - 40) as nat),
                ) + "\n"@
            } else {
                seq![]
            }
        }),
{
    let ghost o = out@;
    let ghost pv = string_views(plugins@);
    if plugins.len() == 0 {
        push_str(out, "- ");
        push_str(out, tr(loc, "未找到或未包含。", "None found or included."));
        push_str(out, "\n");
        assert(out@ =~= o + ("- "@ + pick(loc, "未找到或未包含。"@, "None found or included."@) + "\n"@));
        return;
    }
    let n: usize = if plugins.len() > 40 { 40 } else { plugins.len() };
    assert(first_n(pv, 40) =~= pv.take(n as int));
    let mut i: usize = 0;
    assert(o + plugin_lines(pv.take(0)) =~= o);
    while i < n
        invariant
            n <= plugins.len(),
            i <= n,
            pv == string_views(plugins@),
            out@ == o + plugin_lines(pv.take(i as int)),
        decreases n - i,
    {
        let mut h = string_of(&[]);
        assert(h@ =~= Seq::<char>::empty());
        push_str(&mut h, "- ");
        push_chars(&mut h, &chars_of(plugins[i].as_str()));
        push_str(&mut h, "\n");
        assert(h@ =~= plugin_line(pv[i as int]));
        push_chars(out, &chars_of(h.as_str()));
        assert(pv.take(i + 1).drop_last() =~= pv.take(i as int));
        proof {
            lemma_cat(o, plugin_lines(pv.take(i as int)), plugin_line(pv[i as int]));
        }
        i = i + 1;
    }
    let ghost listed = out@;
    if plugins.len() > 40 {
        let more = crate::text::decimal_of((plugins.len() - 40) as u64);
        let note = crate::i18n::fill(loc, "...另外 ", " 个", "...and ", " more", &more);
        push_str(out, "- ");
        push_chars(out, &chars_of(note.as_str()));
        push_str(out, "\n");
        assert(out@ =~= listed + ("- "@ + note@ + "\n"@));
    } else {
        assert(out@ =~= listed + Seq::<char>::empty());
    }
}

/// The plain-text summary of a scan for posting in a forum, with the given
/// home folders and any user name taken out.
pub fn render_forum_summary(report: &ScanReport, homes: &Vec<String>, loc: Locale) -> (r: String)
    ensures
        r@ == forum_text(
            report.xplane_path@,
            views(report.findings@),
            string_views(report.plugins@),
            report.summary,
            string_views(homes@),
            loc,
        ),
{
    let mut out = string_of(&[]);
    assert(out@ =~= Seq::<char>::empty());
    push_str(&mut out, tr(loc, "X-Plane 日志分诊工具 摘要", "X-Plane Log Triage Tool Summary"));
    push_str(&mut out, "\n");
    push_str(&mut out, "======================\n\n");
    push_str(&mut out, tr(loc, "输入：", "Input:"));
    push_str(&mut out, " ");
    let path = redact_sensitive_text(report.xplane_path.as_str(), homes);
    push_chars(&mut out, &chars_of(path.as_str()));
    push_str(&mut out, "\n\n");
    push_str(&mut out, tr(loc, "系统信息：", "System info:"));
    push_str(&mut out, "\n");
    push_summary_line(&mut out, "X-Plane", &report.summary.xplane_version, homes);
    push_summary_line(&mut out, "OS", &report.summary.os, homes);
    push_summary_line(&mut out, "CPU", &report.summary.cpu, homes);
    push_summary_line(&mut out, "GPU", &report.summary.gpu, homes);
    push_summary_line(&mut out, "Aircraft", &report.summary.aircraft, homes);
    push_str(&mut out, "\n");
    push_str(&mut out, tr(loc, "主要问题：", "Main problems:"));
    push_str(&mut out, "\n");
    push_important(&mut out, &report.findings, homes, loc);
    push_background(&mut out, &report.findings, homes, loc);
    push_str(&mut out, "\n");
    push_str(&mut out, tr(loc, "已安装插件目录：", "Installed plugin folders:"));
    push_str(&mut out, "\n");
    push_plugin_lines(&mut out, &report.plugins, loc);
    assert(out@ =~= forum_text(
        report.xplane_path@,
        views(report.findings@),
        string_views(report.plugins@),
        report.summary,
        string_views(homes@),
        loc,
    ));
    out
}

} // verus!
