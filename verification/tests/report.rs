use xplane_log_triage::report::{render_forum_summary, render_html};
use xplane_log_triage::{Confidence, Finding, Locale, ScanReport, SceneryEntry, Severity, SystemSummary};

fn sample_report() -> ScanReport {
    ScanReport {
        xplane_path: r"C:\Users\alice\X-Plane 12".to_string(),
        findings: vec![
            Finding {
                severity: Severity::High,
                confidence: Confidence::High,
                kind: "plugin_load_failed".to_string(),
                title: "Plugin load failed".to_string(),
                evidence: r"C:\Users\alice\X-Plane 12\Resources\plugins\Test\win.xpl".to_string(),
                occurrences: 1,
                extra_evidence: Vec::new(),
                explanation: "Test explanation".to_string(),
                suggestion: "Test suggestion".to_string(),
            },
            Finding {
                severity: Severity::Info,
                confidence: Confidence::High,
                kind: "background".to_string(),
                title: "Historical background".to_string(),
                evidence: "old dump".to_string(),
                occurrences: 1,
                extra_evidence: Vec::new(),
                explanation: "Background explanation".to_string(),
                suggestion: "No immediate action.".to_string(),
            },
        ],
        plugins: vec!["Test".to_string()],
        scenery_entries: vec![SceneryEntry {
            raw: "SCENERY_PACK Custom Scenery/Test/".to_string(),
            path: "Custom Scenery/Test".to_string(),
            disabled: false,
        }],
        summary: SystemSummary::default(),
    }
}

#[test]
fn renders_html_with_grouped_findings() {
    let html = render_html(&sample_report(), Locale::En);
    assert!(html.contains("X-Plane Log Triage Tool Report"));
    assert!(html.contains("Main Problems"));
    assert!(html.contains("Background / Technical Details"));
    assert!(html.contains("Plugin load failed"));
}

#[test]
fn forum_summary_anonymizes_windows_user_paths() {
    let summary = render_forum_summary(&sample_report(), &Vec::new(), Locale::En);
    assert!(!summary.contains("alice"));
    assert!(summary.contains("<user>"));
}
