use xplane_log_triage::decimal::{format2, parse_decimal};
use xplane_log_triage::bundle::{analyze_bundle_input_quality_ascii, analyze_bundle_session_status_ascii};
use xplane_log_triage::cli::{choose_command, parse_common_args, Command};
use xplane_log_triage::collect::{
    crash_report_relation, has_extension, infer_log_start_unix_seconds, is_platform_plugin_dir,
    log_has_clean_shutdown, log_snapshot, max_log_elapsed_seconds, seconds_between,
    summarize_log,
};
use xplane_log_triage::redact::{redact_sensitive_text, redact_sensitive_text_for_root, redact_windows_user_paths};
use xplane_log_triage::report::{escape_html, finding_title_with_count, forum_evidence_lines};
use xplane_log_triage::snapshots::{aircraft_snapshot, bundle_manifest, privacy_snapshot};
use xplane_log_triage::{
    BundleManifest, CollectionLimits, Confidence, CrashReportSnapshot, DiagnosticBundle,
    FileSnapshot, Finding, Locale, LogSnapshot, OutputSnapshot, PrivacySnapshot, RootSnapshot,
    ScenerySnapshot, Severity, SystemSummary,
};

fn args(list: &[&str]) -> Vec<String> {
    list.iter().map(|s| s.to_string()).collect()
}

#[test]
fn common_args_take_output_and_language() {
    let parsed = parse_common_args(
        args(&["tool", "scan", "-o", "out", "--lang", "ZH-CN", "D:\\XP"]),
        Locale::En,
    )
    .ok()
    .unwrap();
    assert_eq!(parsed.args, args(&["tool", "scan", "D:\\XP"]));
    assert_eq!(parsed.output_dir.as_deref(), Some("out"));
    assert_eq!(parsed.locale, Locale::Zh);
}

#[test]
fn common_args_refuse_a_missing_output_folder() {
    let err = parse_common_args(args(&["tool", "scan", "--output"]), Locale::En).err().unwrap();
    assert_eq!(err.message, "--output requires a report directory");
    let err = parse_common_args(args(&["tool", "--lang", "zh", "--output"]), Locale::En)
        .err()
        .unwrap();
    assert_eq!(err.message, "--output 后面需要跟一个报告目录");
    assert_eq!(err.locale, Locale::Zh);
}

#[test]
fn common_args_refuse_a_missing_or_unknown_language() {
    let err = parse_common_args(args(&["tool", "--lang"]), Locale::Zh).err().unwrap();
    assert_eq!(err.message, "--lang 需要 zh 或 en");
    let err = parse_common_args(args(&["tool", "--lang", "FR"]), Locale::En).err().unwrap();
    assert_eq!(err.message, "unknown language: fr, expected zh or en");
}

#[test]
fn commands_are_chosen_by_their_first_word() {
    assert!(matches!(choose_command(&args(&["t", "detect"])), Command::Detect));
    assert!(matches!(choose_command(&args(&["t", "analyze-log", "L"])), Command::AnalyzeLog(p) if p == "L"));
    assert!(matches!(choose_command(&args(&["t", "analyze-log"])), Command::Usage));
    assert!(matches!(choose_command(&args(&["t", "analyze-bundle", "B"])), Command::AnalyzeBundle(p) if p == "B"));
    assert!(matches!(choose_command(&args(&["t", "collect"])), Command::Collect(None)));
    assert!(matches!(choose_command(&args(&["t", "scan", "X"])), Command::Scan(Some(p)) if p == "X"));
    assert!(matches!(choose_command(&args(&["t"])), Command::Usage));
    assert!(matches!(choose_command(&args(&["t", "other"])), Command::Usage));
}

#[test]
fn user_folders_and_homes_are_redacted() {
    assert_eq!(
        redact_windows_user_paths(r"C:\Users\bob\X-Plane 12\Log.txt and C:/Users/bob/x"),
        r"C:\Users\<user>\X-Plane 12\Log.txt and C:/Users/<user>/x"
    );
    assert_eq!(redact_windows_user_paths("no user folder"), "no user folder");
    assert_eq!(
        redact_sensitive_text(r"/home/amy/X-Plane 12 and C:\Home\amy", &vec!["/home/amy".to_string()]),
        r"~/X-Plane 12 and C:\Home\amy"
    );
    assert_eq!(
        redact_sensitive_text_for_root(r"D:\XP12\Resources and D:/XP12/Output", r"D:\XP12", &Vec::new()),
        "<xplane>\\Resources and <xplane>/Output"
    );
}

#[test]
fn html_is_escaped_and_titles_counted() {
    assert_eq!(escape_html("<a href=\"x\">&</a>"), "&lt;a href=&quot;x&quot;&gt;&amp;&lt;/a&gt;");
    let mut f = Finding::new(
        Severity::Low,
        Confidence::Medium,
        "k".to_string(),
        "Title".to_string(),
        r"C:\Users\eve\a".to_string(),
        "e".to_string(),
        "s".to_string(),
    );
    assert_eq!(finding_title_with_count(&f), "Title");
    assert_eq!(forum_evidence_lines(&f, &Vec::new()), r"C:\Users\<user>\a");
    f.occurrences = 3;
    f.extra_evidence.push("second".to_string());
    assert_eq!(finding_title_with_count(&f), "Title x 3");
    assert_eq!(
        forum_evidence_lines(&f, &Vec::new()),
        "\n    - C:\\Users\\<user>\\a\n    - second"
    );
}

#[test]
fn crash_dump_times_relate_to_the_log_window() {
    assert_eq!(crash_report_relation(None, Some(1), Some(2)), "unknown");
    assert_eq!(crash_report_relation(Some(100), None, Some(2)), "unknown");
    assert_eq!(crash_report_relation(Some(100), Some(221), Some(500)), "before_current_log");
    assert_eq!(crash_report_relation(Some(100), Some(220), Some(500)), "current_log_window");
    assert_eq!(crash_report_relation(Some(621), Some(220), Some(500)), "after_current_log");
    assert_eq!(crash_report_relation(Some(620), Some(220), Some(500)), "current_log_window");
    assert_eq!(seconds_between(Some(5), Some(9)), Some(-4));
    assert_eq!(seconds_between(Some(5), None), None);
}

#[test]
fn log_start_is_inferred_from_the_longest_simulator_time() {
    let log = "0:00:01.500 I/INIT: start\nnot a time\n1:00:02.250 I/SCN: later\n0:30:00 I/SCN: earlier\n1:2:3:4 odd\n";
    let longest = max_log_elapsed_seconds(log).unwrap();
    assert_eq!(longest, 3_602_250_000_000_000_000_000);
    assert_eq!(infer_log_start_unix_seconds(Some(10_000), Some(longest)), Some(6_397));
    assert_eq!(infer_log_start_unix_seconds(Some(10), Some(longest)), Some(0));
    assert_eq!(infer_log_start_unix_seconds(None, Some(longest)), None);
    assert_eq!(max_log_elapsed_seconds("no times\n"), None);
}

#[test]
fn a_readable_log_is_summarized() {
    let log = "Log.txt for X-Plane 12.1.0\nOS: Windows 11\nCPU type: Ryzen\nVulkan Device: RTX\nLoading aircraft Aircraft/A/B.acf\n----- X-Plane has shut down -----\n";
    let snapshot = log_snapshot(log, Some(10), Some(20), "Log.redacted.txt".to_string());
    assert!(snapshot.present);
    assert_eq!(snapshot.line_count, 6);
    assert!(snapshot.clean_shutdown);
    assert!(!snapshot.crashed);
    assert_eq!(snapshot.summary.xplane_version.as_deref(), Some("Log.txt for X-Plane 12.1.0"));
    assert_eq!(snapshot.summary.os.as_deref(), Some("OS: Windows 11"));
    assert_eq!(snapshot.summary.cpu.as_deref(), Some("CPU type: Ryzen"));
    assert_eq!(snapshot.summary.gpu.as_deref(), Some("Vulkan Device: RTX"));
    assert_eq!(snapshot.summary.aircraft.as_deref(), Some("Loading aircraft Aircraft/A/B.acf"));
    assert!(log_has_clean_shutdown(log));
    let empty = summarize_log("");
    assert!(empty.os.is_none());
}

#[test]
fn file_names_are_classified() {
    assert!(is_platform_plugin_dir("Win_X64"));
    assert!(!is_platform_plugin_dir("win_arm"));
    assert!(has_extension("plugin.XPL", "xpl"));
    assert!(!has_extension(".xpl", "xpl"));
    assert!(!has_extension("plugin", "xpl"));
    assert!(has_extension("a.b.log", "LOG"));
}

#[test]
fn aircraft_samples_are_sorted_and_cut() {
    let files: Vec<String> = (0..10).rev().map(|i| format!("Aircraft/A/{i}.acf")).collect();
    let snapshot = aircraft_snapshot(
        "A".to_string(),
        "Aircraft/A".to_string(),
        None,
        files,
        vec!["Aircraft/A/plugins".to_string()],
    );
    assert_eq!(snapshot.acf_file_count, 10);
    assert_eq!(snapshot.acf_file_samples.len(), 8);
    assert_eq!(snapshot.acf_file_samples[0], "Aircraft/A/0.acf");
    assert!(snapshot.samples_truncated);
    assert_eq!(snapshot.plugin_dir_count, 1);
}

fn bundle(clean: bool, crashed: bool, uuids: Vec<String>, reports: Vec<CrashReportSnapshot>, aftermath: Vec<FileSnapshot>) -> DiagnosticBundle {
    DiagnosticBundle {
        manifest: bundle_manifest("0.2.0".to_string(), 7),
        root: RootSnapshot {
            has_xplane_exe: true,
            has_log_txt: true,
            has_aircraft_dir: true,
            has_custom_data_dir: true,
            has_resources_dir: true,
            has_plugins_dir: true,
            has_global_scenery_dir: true,
            has_custom_scenery_dir: true,
            has_scenery_packs_ini: true,
            has_output_dir: true,
            has_crash_reports_dir: true,
            has_crash_report_dumps_dir: true,
        },
        root_files: Vec::new(),
        log: LogSnapshot {
            present: true,
            read_error: None,
            redacted_file: None,
            size_bytes: None,
            modified_at_unix_seconds: None,
            line_count: 0,
            max_elapsed_seconds: None,
            inferred_start_unix_seconds: None,
            clean_shutdown: clean,
            crashed,
            crash_uuids: uuids,
            summary: SystemSummary::default(),
        },
        plugins: Vec::new(),
        scenery: ScenerySnapshot {
            ini_present: false,
            read_error: None,
            redacted_ini_file: None,
            entries: Vec::new(),
            custom_scenery_folders: Vec::new(),
            missing_active_paths: Vec::new(),
            duplicate_active_paths: Vec::new(),
            disabled_count: 0,
            special_entries: Vec::new(),
        },
        aircraft: Vec::new(),
        custom_data_files: Vec::new(),
        global_scenery_folders: Vec::new(),
        output: OutputSnapshot {
            directories: Vec::new(),
            log_archive_files: Vec::new(),
            diagnostic_report_files: Vec::new(),
            preference_files: Vec::new(),
        },
        crash_reports: reports,
        crash_aftermath_files: aftermath,
        privacy: privacy_snapshot(Vec::new()),
    }
}

fn report(relation: &str, source: Option<&str>, file: Option<&str>) -> CrashReportSnapshot {
    CrashReportSnapshot {
        file_name: "x.dmp".to_string(),
        path: "x.dmp".to_string(),
        size_bytes: 1,
        modified_at_unix_seconds: None,
        relation_to_current_log: relation.to_string(),
        matched_log_uuid: None,
        matched_log_source: source.map(|s| s.to_string()),
        matched_log_file: file.map(|s| s.to_string()),
        seconds_from_log_start: None,
        seconds_from_log_end: None,
    }
}

#[test]
fn bundle_input_status_names_what_is_missing() {
    let b = bundle(true, false, Vec::new(), Vec::new(), Vec::new());
    let text = "log".to_string();
    let findings = analyze_bundle_input_quality_ascii(&b, Some(&text), None, Locale::En);
    assert_eq!(findings.len(), 1);
    assert_eq!(
        findings[0].evidence,
        "schema=3, Log.redacted.txt=available, scenery_packs.redacted.ini=missing, crash_reports=0, log_archives=0, aftermath=0"
    );
    assert_eq!(
        findings[0].extra_evidence,
        vec!["scenery_packs.redacted.ini is missing; scenery order text rules were skipped."]
    );
}

#[test]
fn clean_session_with_old_dumps_is_background_only() {
    let b = bundle(
        true,
        false,
        Vec::new(),
        vec![report("before_current_log", None, None), report("unknown", Some("log_archive"), Some("Log-1.txt"))],
        vec![FileSnapshot { name: "a.zip".to_string(), path: "a.zip".to_string(), size_bytes: 1, modified_at_unix_seconds: None }],
    );
    let findings = analyze_bundle_session_status_ascii(&b, Locale::En);
    let kinds: Vec<&str> = findings.iter().map(|f| f.kind.as_str()).collect();
    assert_eq!(
        kinds,
        vec![
            "current_session_clean_shutdown",
            "historical_crash_reports_only",
            "archive_log_crash_uuid_matches",
            "crash_aftermath_present"
        ]
    );
    assert_eq!(
        findings[1].evidence,
        "crash_reports=2, before_current_log=1, archive_uuid_matches=1, current_uuid_matches=0"
    );
    assert_eq!(findings[2].extra_evidence, vec!["x.dmp matched Log-1.txt"]);
    assert_eq!(findings[3].evidence, "aftermath_files=a.zip");
}

#[test]
fn crashed_session_counts_matching_dumps() {
    let b = bundle(
        false,
        true,
        vec!["u1".to_string(), "u2".to_string()],
        vec![report("uuid_matched", Some("current_log"), Some("Log.txt"))],
        Vec::new(),
    );
    let findings = analyze_bundle_session_status_ascii(&b, Locale::En);
    assert_eq!(findings.len(), 1);
    assert_eq!(findings[0].kind, "current_session_crashed");
    assert_eq!(findings[0].severity, Severity::High);
    assert_eq!(findings[0].evidence, "crashed=true, current_log_crash_uuids=u1, u2");
    assert_eq!(findings[0].extra_evidence, vec!["1 crash dump(s) matched the current Log.txt UUID."]);
}

#[test]
fn unclear_session_says_so() {
    let b = bundle(false, false, Vec::new(), Vec::new(), Vec::new());
    let findings = analyze_bundle_session_status_ascii(&b, Locale::En);
    assert_eq!(findings.len(), 1);
    assert_eq!(findings[0].kind, "current_session_unknown_exit_state");
    assert_eq!(
        findings[0].evidence,
        "clean_shutdown=false, crashed=false, current_log_crash_uuids=0"
    );
}

#[test]
fn new_bundles_state_their_limits() {
    let m: BundleManifest = bundle_manifest("1.0".to_string(), 42);
    assert_eq!(m.schema_version, 3);
    assert_eq!(m.xplane_path, "<xplane>");
    assert_eq!(m.collection_scope.len(), 9);
    assert_eq!(m.collection_scope[0], "root files: Log.txt, Log_ATC.txt, Cycle Dump.txt, debug.log, Data.txt");
    assert_eq!(m.collection_scope[8], "Output/crash_reports/aftermath: file metadata only");
    let limits: &CollectionLimits = &m.collection_limits;
    assert_eq!(limits.max_output_files_per_category, 12);
    let p: PrivacySnapshot = privacy_snapshot(vec!["Log.redacted.txt".to_string()]);
    assert_eq!(p.redaction_rules[0], "X-Plane root path");
    assert_eq!(p.redaction_rules[3], "Windows /Users/<name>/ path segment");
}

#[test]
fn decimals_are_read_exactly_and_printed_with_two_places() {
    let read = |s: &str| parse_decimal(&s.chars().collect::<Vec<char>>());
    let shown = |s: &str| format2(read(s).unwrap()).into_iter().collect::<String>();
    assert_eq!(shown("3.625"), "3.62");
    assert_eq!(shown("3.635"), "3.64");
    assert_eq!(shown("-0.5"), "-0.50");
    assert_eq!(shown("12"), "12.00");
    assert_eq!(shown("1e3"), "1000.00");
    assert_eq!(shown("1.5E+2"), "150.00");
    assert_eq!(shown("2500e-3"), "2.50");
    assert_eq!(shown("0001.500000000000000000"), "1.50");
    assert_eq!(shown("0e999"), "0.00");
    assert!(read("").is_none());
    assert!(read("1e").is_none());
    assert!(read("e5").is_none());
    assert!(read("1234567890123456").is_none());
    assert!(read("1e15").is_none());
    assert!(read(".5").is_some());
}

#[test]
fn redacts_user_folders_whatever_the_case_of_users() {
    assert_eq!(redact_windows_user_paths(r"C:\Users\alice\x"), r"C:\Users\<user>\x");
    let lower = redact_windows_user_paths(r"C:\users\alice\x");
    assert_eq!(lower, r"C:\users\<user>\x");
    assert!(!lower.contains("alice"));
    assert_eq!(
        redact_windows_user_paths("/USERS/alice/a and /Users/alice/b"),
        "/USERS/<user>/a and /Users/<user>/b"
    );
}

#[test]
fn redacts_user_folders_that_follow_each_other() {
    let out = redact_windows_user_paths(r"\Users\alice\Users\alice\x");
    assert_eq!(out, r"\Users\<user>\Users\<user>\x");
    assert!(!out.contains("alice"));
}

#[test]
fn relation_of_a_dump_needs_all_three_times() {
    assert_eq!(crash_report_relation(Some(u64::MAX), None, Some(1)), "unknown");
    assert_eq!(crash_report_relation(Some(5), Some(1000), Some(u64::MAX)), "before_current_log");
}
