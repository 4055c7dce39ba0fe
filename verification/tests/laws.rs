use xplane_log_triage::rules::merge::dedupe_findings;
use xplane_log_triage::collect::collect_log_uuid_matches;
use xplane_log_triage::detect::dedupe_paths;
use xplane_log_triage::plugin_scan::scan_plugin_names;
use xplane_log_triage::report::render_forum_summary;
use xplane_log_triage::scenery::{scan_scenery_packs, scenery_pack_lines};
use xplane_log_triage::snapshots::newest_files;
use xplane_log_triage::{
    analyze_log, Confidence, FileSnapshot, Finding, LogArchiveSnapshot, Locale, ScanReport,
    Severity, SystemSummary,
};

fn finding(severity: Severity, title: &str) -> Finding {
    Finding::new(
        severity,
        Confidence::High,
        "test".to_string(),
        title.to_string(),
        "evidence".to_string(),
        "explanation".to_string(),
        "suggestion".to_string(),
    )
}

#[test]
fn merged_findings_keep_every_occurrence() {
    let findings = analyze_log(
        "Unable to locate object: Lib/A.obj\nUnable to locate object: Lib/B.obj\n0:00:00.000 E/SCN: one\n0:00:00.000 E/SCN: two\n",
    );
    let objects = findings.iter().find(|f| f.kind == "missing_scenery_object").unwrap();
    assert_eq!(objects.occurrences, 2);
    let channel = findings
        .iter()
        .find(|f| f.kind == "xplane_subsystem_errors" && f.title.contains("E/SCN"))
        .unwrap();
    assert_eq!(channel.occurrences, 2);
}

#[test]
fn reported_findings_keep_at_most_five_evidence_lines() {
    let mut log = String::new();
    for idx in 0..20 {
        log.push_str(&format!("0:00:00.000 E/DSF: problem {idx}\n"));
    }
    let findings = analyze_log(&log);
    assert!(findings.iter().all(|f| f.extra_evidence.len() <= 4));
    let dsf = findings.iter().find(|f| f.title.contains("E/DSF")).unwrap();
    assert_eq!(dsf.occurrences, 20);
    assert_eq!(dsf.extra_evidence.len(), 4);
}

#[test]
fn merged_finding_takes_the_most_urgent_severity() {
    let findings = analyze_log(
        "0:10:00.000 I/TEX: Target scale moved to 0.500000. Texture usage is 5.14 gb out of 5.13 gb available. Memory headroom is 85.00 mb\n0:10:01.000 I/TEX: Target scale moved to 0.250000. Texture usage is 5.14 gb out of 5.13 gb available. Memory headroom is 85.00 mb\n",
    );
    let f = findings.iter().find(|f| f.kind == "texture_vram_pressure").unwrap();
    assert_eq!(f.severity, Severity::High);
    assert_eq!(f.occurrences, 2);
}

#[test]
fn channel_findings_come_in_channel_order() {
    let findings = analyze_log("0:00:00.000 W/ZZZ: last\n0:00:00.000 E/AAA: first\n0:00:00.000 E/MMM: middle\n");
    let titles: Vec<&str> = findings
        .iter()
        .filter(|f| f.kind == "xplane_subsystem_errors")
        .map(|f| f.title.as_str())
        .collect();
    assert_eq!(
        titles,
        vec![
            "X-Plane subsystem E/AAA messages",
            "X-Plane subsystem E/MMM messages",
            "X-Plane subsystem W/ZZZ messages",
        ]
    );
}

#[test]
fn suppression_changes_only_channel_findings() {
    let log = "0:00:00.000 E/PLG: Plugin TestPlugin encountered error: something went wrong\n";
    let findings = analyze_log(log);
    let plugin = findings.iter().find(|f| f.kind == "plugin_encountered_error").unwrap();
    assert_eq!(plugin.severity, Severity::Medium);
    let channel = findings.iter().find(|f| f.kind == "xplane_subsystem_errors").unwrap();
    assert_eq!(channel.severity, Severity::Info);
    assert!(matches!(channel.confidence, Confidence::Low));
}

#[test]
fn findings_are_the_same_in_both_languages_but_for_their_text() {
    let log = "dlerror: The specified module could not be found\n0:00:00.000 E/GFX: broken\n";
    let en = xplane_log_triage::analyze_log_in(log, Locale::En);
    let zh = xplane_log_triage::analyze_log_in(log, Locale::Zh);
    assert_eq!(en.len(), zh.len());
    for (a, b) in en.iter().zip(zh.iter()) {
        assert_eq!(a.kind, b.kind);
        assert_eq!(a.severity, b.severity);
        assert_eq!(a.occurrences, b.occurrences);
    }
    let load = zh.iter().find(|f| f.kind == "plugin_load_failed").unwrap();
    assert_eq!(load.title, "插件或动态库加载失败");
}

#[test]
fn crash_uuids_are_distinct_and_lower_case() {
    let log = "--=={UUID: ABCDEF01-2345-6789-ABCD-EF0123456789}==--\n--=={UUID: not-a-uuid}==--\n--=={UUID:abcdef01-2345-6789-abcd-ef0123456789}==--\n--=={UUID: 00000000-0000-0000-0000-000000000000 }==--\n";
    assert_eq!(
        xplane_log_triage::collect::extract_crash_uuids(log),
        vec![
            "abcdef01-2345-6789-abcd-ef0123456789",
            "00000000-0000-0000-0000-000000000000"
        ]
    );
}

#[test]
fn detected_paths_are_distinct_ignoring_case() {
    let paths = dedupe_paths(vec![
        r"C:\X-Plane 12".to_string(),
        r"D:\X-Plane 12".to_string(),
        r"c:\x-plane 12".to_string(),
    ]);
    assert_eq!(paths, vec![r"C:\X-Plane 12".to_string(), r"D:\X-Plane 12".to_string()]);
}

#[test]
fn uuid_matches_keep_the_first_source() {
    let uuid = "6107aa35-7308-4c6e-b5e3-f03b0a9aa342";
    let archives = vec![
        LogArchiveSnapshot {
            name: "Log-1.txt".to_string(),
            kind: "main_log".to_string(),
            size_bytes: 1,
            modified_at_unix_seconds: None,
            clean_shutdown: Some(false),
            crash_uuids: vec![uuid.to_uppercase(), "11111111-1111-1111-1111-111111111111".to_string()],
        },
        LogArchiveSnapshot {
            name: "Log_ATC-1.txt".to_string(),
            kind: "atc_log".to_string(),
            size_bytes: 1,
            modified_at_unix_seconds: None,
            clean_shutdown: None,
            crash_uuids: vec!["22222222-2222-2222-2222-222222222222".to_string()],
        },
    ];
    let matches = collect_log_uuid_matches(&vec![uuid.to_string()], &archives);
    assert_eq!(matches.len(), 2);
    assert_eq!(matches[0].uuid, uuid);
    assert_eq!(matches[0].source, "current_log");
    assert_eq!(matches[1].uuid, "11111111-1111-1111-1111-111111111111");
    assert_eq!(matches[1].file_name.as_deref(), Some("Log-1.txt"));
}

#[test]
fn duplicate_scenery_entries_are_reported_once_each_in_path_order() {
    let ini = "I\r\n1000 Version\r\nSCENERY\r\n\r\nSCENERY_PACK Custom Scenery/Zed/\r\nSCENERY_PACK Custom Scenery/Alpha/\r\nSCENERY_PACK custom scenery/zed\r\nSCENERY_PACK_DISABLED Custom Scenery/Alpha/\r\nSCENERY_PACK Custom Scenery/alpha\\\r\nSCENERY_PACK *GLOBAL_AIRPORTS*\r\nSCENERY_PACK Custom Scenery/Missing/\r\n";
    let packs = scenery_pack_lines(ini);
    assert_eq!(packs.len(), 7);
    assert_eq!(packs[0].path, "Custom Scenery/Zed");
    assert!(packs[3].disabled);
    assert!(packs[5].special_entry);
    let exists = vec![true, true, true, true, true, true, false];
    let mut findings = Vec::new();
    let entries = scan_scenery_packs(&packs, &exists, &mut findings, Locale::En);
    assert_eq!(entries.len(), 7);
    let kinds: Vec<&str> = findings.iter().map(|f| f.kind.as_str()).collect();
    assert_eq!(
        kinds,
        vec!["missing_scenery_path", "duplicate_scenery_entry", "duplicate_scenery_entry"]
    );
    assert_eq!(findings[0].evidence, "SCENERY_PACK Custom Scenery/Missing/");
    assert_eq!(findings[1].evidence, "custom scenery/alpha appears 2 times");
    assert_eq!(findings[2].evidence, "custom scenery/zed appears 2 times");
}

#[test]
fn plugin_names_are_sorted_and_case_twins_grouped() {
    let mut findings = Vec::new();
    let names = scan_plugin_names(
        vec!["b".to_string(), "A".to_string(), "a".to_string(), "B".to_string(), "c".to_string()],
        &mut findings,
        Locale::En,
    );
    assert_eq!(names, vec!["A", "B", "a", "b", "c"]);
    let evidence: Vec<&str> = findings.iter().map(|f| f.evidence.as_str()).collect();
    assert_eq!(evidence, vec!["A, a", "b, B"]);
    assert!(findings.iter().all(|f| f.kind == "duplicate_plugin_name"));
}

#[test]
fn forum_summary_names_at_most_eight_main_problems() {
    let mut findings = Vec::new();
    for idx in 0..5 {
        findings.push(finding(Severity::Medium, &format!("medium {idx}")));
    }
    for idx in 0..5 {
        findings.push(finding(Severity::High, &format!("high {idx}")));
    }
    for idx in 0..8 {
        findings.push(finding(Severity::Info, &format!("info {idx}")));
    }
    let report = ScanReport {
        xplane_path: "X".to_string(),
        findings,
        plugins: Vec::new(),
        scenery_entries: Vec::new(),
        summary: SystemSummary::default(),
    };
    let summary = render_forum_summary(&report, &Vec::new(), Locale::En);
    assert_eq!(summary.matches("- [high").count(), 5);
    assert_eq!(summary.matches("- [medium").count(), 3);
    assert!(summary.find("high 4").unwrap() < summary.find("medium 0").unwrap());
    assert!(!summary.contains("medium 3"));
    assert_eq!(summary.matches("- info").count(), 6);
    assert!(summary.contains("- None found or included."));
}

#[test]
fn files_are_kept_newest_first_up_to_the_limit() {
    let file = |name: &str, time: Option<u64>| FileSnapshot {
        name: name.to_string(),
        path: name.to_string(),
        size_bytes: 1,
        modified_at_unix_seconds: time,
    };
    let files = newest_files(
        vec![file("a", Some(5)), file("b", None), file("c", Some(9)), file("d", Some(5))],
        3,
    );
    let names: Vec<&str> = files.iter().map(|f| f.name.as_str()).collect();
    assert_eq!(names, vec!["c", "a", "d"]);
}

fn finding_at(severity: Severity, kind: &str, title: &str, evidence: &str) -> Finding {
    Finding::new(
        severity,
        Confidence::Medium,
        kind.to_string(),
        title.to_string(),
        evidence.to_string(),
        format!("explanation of {evidence}"),
        format!("suggestion for {evidence}"),
    )
}

#[test]
fn merging_counts_each_key_and_keeps_the_first_most_urgent_text() {
    let merged = dedupe_findings(vec![
        finding_at(Severity::Low, "k", "first", "Log.txt:1: a"),
        finding_at(Severity::Info, "other", "x", "Log.txt:2: b"),
        finding_at(Severity::High, "k", "second", "Log.txt:3: c"),
        finding_at(Severity::High, "k", "third", "Log.txt:4: d"),
    ]);
    assert_eq!(merged.len(), 2);
    assert_eq!(merged[0].kind, "k");
    assert_eq!(merged[1].kind, "other");
    assert_eq!(merged[0].occurrences, 3);
    assert_eq!(merged[0].severity, Severity::High);
    assert_eq!(merged[0].title, "second");
    assert_eq!(merged[0].evidence, "Log.txt:3: c");
    assert_eq!(merged[0].explanation, "explanation of Log.txt:3: c");
}

#[test]
fn plugin_channel_drops_to_background_with_a_plugin_failure() {
    let findings = analyze_log(
        "0:00:01.000 W/PLG: plugin took long\ndlerror: The specified module could not be found\n",
    );
    let channel = findings
        .iter()
        .find(|f| f.kind == "xplane_subsystem_errors" && f.title.contains("W/PLG"))
        .unwrap();
    assert_eq!(channel.severity, Severity::Info);
    assert_eq!(channel.confidence, Confidence::Low);
    let alone = analyze_log("0:00:01.000 W/PLG: plugin took long\n");
    let channel = alone
        .iter()
        .find(|f| f.kind == "xplane_subsystem_errors" && f.title.contains("W/PLG"))
        .unwrap();
    assert_eq!(channel.confidence, Confidence::High);
}

#[test]
fn crash_markers_decide_between_context_and_truncation() {
    let crashed = analyze_log(
        "0:00:00.000 I/INIT: start\n0:05:00.000 I/SCN: loaded: tile\n--=={This application has crashed!}==--\n",
    );
    assert!(!crashed.iter().any(|f| f.kind == "abrupt_termination"));
    let cut = analyze_log("0:00:00.000 I/INIT: start\n0:05:00.000 I/SCN: loaded: tile\n");
    assert!(cut.iter().any(|f| f.kind == "abrupt_termination"));
    for kind in ["scenery_load_crash_context", "last_loaded_context", "pre_crash_context", "early_silent_crash"] {
        assert!(!cut.iter().any(|f| f.kind == kind));
    }
}

#[test]
fn macos_security_finding_needs_a_macos_log() {
    let on_mac = analyze_log("OS: macOS 14.2\nplugin blocked: not notarized\n");
    assert!(on_mac.iter().any(|f| f.kind == "macos_security_block"));
    let elsewhere = analyze_log("OS: Windows 11\nplugin blocked: not notarized\n");
    assert!(!elsewhere.iter().any(|f| f.kind == "macos_security_block"));
}

#[test]
fn reported_findings_point_into_the_log_and_never_share_a_key() {
    let findings = analyze_log(
        "0:00:00.000 E/SCN: one\nUnable to locate object: Lib/A.obj\nUnable to locate object: Lib/B.obj\n0:00:01.000 W/PLG: slow\ndlerror: The specified module could not be found\n",
    );
    assert!(!findings.is_empty());
    for f in &findings {
        assert!(f.occurrences >= 1);
        assert!(f.evidence.starts_with("Log.txt:"));
        assert!(f.extra_evidence.len() <= 4);
    }
    for i in 0..findings.len() {
        for j in i + 1..findings.len() {
            assert!(
                !(findings[i].kind == findings[j].kind
                    && (findings[i].title == findings[j].title
                        || (findings[i].kind != "xplane_subsystem_errors"
                            && findings[i].kind != "third_party_plugin_error")))
            );
        }
    }
}

#[test]
fn the_installation_folder_never_survives_redaction() {
    let root = r"D:\Games\X-Plane 12";
    let text = r"D:\Games\X-Plane 12\Log.txt D:/Games/X-Plane 12/Output D:\Games\X-Plane 12D:\Games\X-Plane 12";
    let out = xplane_log_triage::redact::redact_sensitive_text_for_root(text, root, &vec!["D:\\Games".to_string()]);
    assert!(!out.contains(root));
    assert!(out.starts_with("<xplane>"));
}

#[test]
fn escaped_text_holds_no_markup() {
    let out = xplane_log_triage::report::escape_html("<b onclick=\"x\">a & b</b>");
    assert_eq!(out, "&lt;b onclick=&quot;x&quot;&gt;a &amp; b&lt;/b&gt;");
    assert!(!out.contains('<') && !out.contains('>') && !out.contains('"'));
}

#[test]
fn channel_findings_count_every_line_and_keep_four_more() {
    let mut log = String::new();
    for i in 0..7 {
        log.push_str(&format!("0:00:0{i}.000 E/SCN: problem {i}\n"));
    }
    log.push_str("0:00:09.000 W/GFX: other\n");
    let findings = analyze_log(&log);
    let scn = findings
        .iter()
        .find(|f| f.kind == "xplane_subsystem_errors" && f.title == "X-Plane subsystem E/SCN messages")
        .unwrap();
    assert_eq!(scn.occurrences, 7);
    assert_eq!(scn.evidence, "Log.txt:1: 0:00:00.000 E/SCN: problem 0");
    assert_eq!(scn.extra_evidence.len(), 4);
    assert_eq!(scn.extra_evidence[3], "Log.txt:5: 0:00:04.000 E/SCN: problem 4");
    assert!(!scn.extra_evidence.contains(&scn.evidence));
    assert_eq!(
        findings.iter().filter(|f| f.kind == "xplane_subsystem_errors").count(),
        2
    );
}

#[test]
fn early_silent_crash_uses_the_last_meaningful_line() {
    let findings = analyze_log(
        "0:00:00.000 I/INIT: start\n0:00:01.500 I/SCN: loading\n\n--=={This application has crashed!}==--\n",
    );
    let hint = findings.iter().find(|f| f.kind == "early_silent_crash").unwrap();
    assert_eq!(hint.evidence, "Log.txt:2: 0:00:01.500 I/SCN: loading");
    assert_eq!(hint.severity, Severity::Info);
}

#[test]
fn forum_lists_follow_severity_order() {
    let fs = vec![
        finding(Severity::Medium, "m1"),
        finding(Severity::High, "h1"),
        finding(Severity::Low, "l1"),
        finding(Severity::Info, "i1"),
    ];
    let report = ScanReport {
        xplane_path: "x".to_string(),
        findings: fs,
        plugins: vec![],
        scenery_entries: vec![],
        summary: SystemSummary::default(),
    };
    let text = render_forum_summary(&report, &vec![], Locale::En);
    let h = text.find("h1").unwrap();
    let m = text.find("m1").unwrap();
    assert!(h < m);
    assert!(!text.contains("l1"));
    assert!(text.contains("Background notes:"));
}
