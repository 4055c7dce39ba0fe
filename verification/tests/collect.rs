use xplane_log_triage::collect::{
    collect_log_uuid_matches, crash_report_snapshot, extract_crash_uuids, log_archive_kind,
    log_has_crash_marker, parse_scenery_path,
};
use xplane_log_triage::LogArchiveSnapshot;

#[test]
fn parses_scenery_paths_with_spaces() {
    assert_eq!(
        parse_scenery_path("SCENERY_PACK Custom Scenery/KLAX - Los Angeles/"),
        "Custom Scenery/KLAX - Los Angeles/"
    );
    assert_eq!(
        parse_scenery_path("SCENERY_PACK_DISABLED Custom Scenery/Airport Disabled/"),
        "Custom Scenery/Airport Disabled/"
    );
}

#[test]
fn extracts_crash_uuids_from_log_markers() {
    let log = "\
0:00:01.000 I/LOG: start
--=={UUID: A04016BB-2A68-4A72-9663-CAF6930F0163}==--
--=={UUID: a04016bb-2a68-4a72-9663-caf6930f0163}==--
";

    assert_eq!(
        extract_crash_uuids(log),
        vec!["a04016bb-2a68-4a72-9663-caf6930f0163"]
    );
    assert!(log_has_crash_marker(log));
}

#[test]
fn treats_atc_log_archive_clean_shutdown_as_not_applicable() {
    assert_eq!(log_archive_kind("Log_ATC-2026-05-04-1619.txt"), "atc_log");
    assert_eq!(log_archive_kind("Log-2026-05-04-1653.txt"), "main_log");
}

#[test]
fn matches_current_log_uuid_to_dump_file_name() {
    let uuid = "a04016bb-2a68-4a72-9663-caf6930f0163";
    let log_uuid_matches = collect_log_uuid_matches(&vec![uuid.to_string()], &Vec::new());
    let snapshot = crash_report_snapshot(
        format!("{uuid}.dmp"),
        format!("Output/crash_reports/reports/{uuid}.dmp"),
        3,
        None,
        &log_uuid_matches,
        None,
        None,
    );

    assert_eq!(snapshot.relation_to_current_log, "uuid_matched");
    assert_eq!(snapshot.matched_log_uuid.as_deref(), Some(uuid));
    assert_eq!(snapshot.matched_log_source.as_deref(), Some("current_log"));
    assert_eq!(snapshot.matched_log_file.as_deref(), Some("Log.txt"));
}

#[test]
fn matches_archive_log_uuid_without_marking_dump_as_current_log() {
    let uuid = "6107aa35-7308-4c6e-b5e3-f03b0a9aa342";
    let archives = vec![LogArchiveSnapshot {
        name: "Log-2026-05-04-1653.txt".to_string(),
        kind: "main_log".to_string(),
        size_bytes: 100,
        modified_at_unix_seconds: None,
        clean_shutdown: Some(false),
        crash_uuids: vec![uuid.to_string()],
    }];
    let log_uuid_matches = collect_log_uuid_matches(&Vec::new(), &archives);
    let snapshot = crash_report_snapshot(
        format!("{uuid}.dmp"),
        format!("Output/crash_reports/reports/{uuid}.dmp"),
        3,
        None,
        &log_uuid_matches,
        None,
        None,
    );

    assert_eq!(snapshot.relation_to_current_log, "unknown");
    assert_eq!(snapshot.matched_log_uuid.as_deref(), Some(uuid));
    assert_eq!(snapshot.matched_log_source.as_deref(), Some("log_archive"));
    assert_eq!(
        snapshot.matched_log_file.as_deref(),
        Some("Log-2026-05-04-1653.txt")
    );
}
