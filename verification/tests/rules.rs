use xplane_log_triage::rules::evidence::evidence_line;
use xplane_log_triage::rules::simtime::parse_sim_time;
use xplane_log_triage::{analyze_log, Severity};

/// Seconds of simulator time at the start of a line, as a float.
fn sim_seconds(line: &str) -> Option<f64> {
    let chars: Vec<char> = line.chars().collect();
    parse_sim_time(&chars).map(|t| t as f64 / 1e18)
}


#[test]
fn detects_plugin_load_failures() {
    let findings = analyze_log("dlerror: The specified module could not be found\n");
    assert!(findings
        .iter()
        .any(|finding| finding.kind == "plugin_load_failed"));
}

#[test]
fn detects_vram_or_memory_pressure() {
    let findings = analyze_log("WARNING: VRAM budget exceeded\n");
    assert!(findings
        .iter()
        .any(|finding| finding.kind == "memory_or_vram"));
}

#[test]
fn extracts_library_hint_from_missing_art_asset() {
    let findings = analyze_log(
        "0:00:13.929 E/SCN: The art asset 'PP146-lib/GroundTextures/CarTireTracks.lin' could not be found.\n",
    );
    let finding = findings
        .iter()
        .find(|finding| finding.kind == "missing_scenery_asset")
        .expect("missing scenery asset finding");
    assert!(finding.explanation.contains("PP146-lib"));
}

#[test]
fn detects_vulkan_device_lost() {
    let findings = analyze_log("Encountered Vulkan device loss error!\n");
    assert!(findings
        .iter()
        .any(|finding| finding.kind == "vulkan_device_lost"));
}

#[test]
fn detects_official_vulkan_result_codes() {
    let findings = analyze_log("vkQueueSubmit returned VK_ERROR_DEVICE_LOST\n");
    assert!(findings
        .iter()
        .any(|finding| finding.kind == "vulkan_result_error"
            && finding.title.contains("VK_ERROR_DEVICE_LOST")));
    assert!(!findings
        .iter()
        .any(|finding| finding.kind == "vulkan_device_lost"));
}

#[test]
fn does_not_treat_opengl_extensions_as_graphics_error() {
    let findings = analyze_log(
        "OpenGL Extensions : GL_ARB_debug_output GL_NV_draw_vulkan_image GL_KHR_no_error\n",
    );
    assert!(!findings
        .iter()
        .any(|finding| finding.kind == "graphics_vulkan_error"));
}

#[test]
fn does_not_emit_last_loaded_context_without_crash() {
    let findings = analyze_log(
        "Loaded: Resources/plugins/Example/win_x64/example.xpl\nPlugin unload complete.\n",
    );
    assert!(!findings
        .iter()
        .any(|finding| finding.kind == "last_loaded_context"));
}

#[test]
fn ignores_unload_lines_for_crash_context() {
    let findings = analyze_log(
        "Loaded: Resources/plugins/Example/win_x64/example.xpl\nPlugin unload complete.\n--=={This application has crashed!}==--\n",
    );
    let context = findings
        .iter()
        .find(|finding| finding.kind == "last_loaded_context")
        .expect("crash context finding");
    assert!(context.evidence.contains("Loaded:"));
    assert!(!context.evidence.contains("unload"));
}

#[test]
fn detects_missing_scenery_library() {
    let findings = analyze_log(
        "It requires an additional library scenery package that is not installed, or it is missing some of its files.\n",
    );
    assert!(findings
        .iter()
        .any(|finding| finding.kind == "missing_scenery_library"));
}

#[test]
fn aggregates_xplane_subsystem_error_channels() {
    let findings = analyze_log(
        "0:00:00.000 E/DSF: first road network problem\n\
         0:00:01.000 E/DSF: second road network problem\n\
         0:00:02.000 W/ART: Art control changed\n\
         0:00:03.000 I/SCN: informational scenery line\n",
    );

    let dsf = findings
        .iter()
        .find(|finding| {
            finding.kind == "xplane_subsystem_errors" && finding.title.contains("E/DSF")
        })
        .expect("E/DSF subsystem finding");
    assert_eq!(dsf.occurrences, 2);
    assert_eq!(dsf.severity, Severity::Info);
    assert_eq!(dsf.extra_evidence.len(), 1);

    let art = findings
        .iter()
        .find(|finding| {
            finding.kind == "xplane_subsystem_errors" && finding.title.contains("W/ART")
        })
        .expect("W/ART subsystem finding");
    assert_eq!(art.occurrences, 1);
    assert_eq!(art.severity, Severity::Medium);

    assert!(!findings.iter().any(|finding| {
        finding.kind == "xplane_subsystem_errors" && finding.title.contains("I/SCN")
    }));
}

#[test]
fn parses_xplane_subsystem_channels_with_nested_names() {
    let findings = analyze_log("1:23:45.678 E/GFX/VK: renderer failed\n");
    assert!(findings.iter().any(|finding| {
        finding.kind == "xplane_subsystem_errors" && finding.title.contains("E/GFX/VK")
    }));
}

#[test]
fn treats_scenery_subsystem_errors_as_check_items() {
    let findings = analyze_log(
        "0:04:22.433 E/SCN: Failed to find resource 'security', referenced from file 'Custom Scenery/0_OERK_Azersim_x12/Metro station/'.\n",
    );
    let finding = findings
        .iter()
        .find(|finding| {
            finding.kind == "xplane_subsystem_errors" && finding.title.contains("E/SCN")
        })
        .expect("E/SCN subsystem finding");

    assert_eq!(finding.severity, Severity::Medium);
}

#[test]
fn treats_net_beacon_errors_as_background() {
    let findings = analyze_log(
        "0:00:04.736 W/NET: multicast_socket_udp::init: bind() returned 10013\n\
0:00:04.736 E/NET: Failed to init multicast *BEACON* socket, check log lines above for details!\n",
    );

    let e_net = findings
        .iter()
        .find(|finding| {
            finding.kind == "xplane_subsystem_errors" && finding.title.contains("E/NET")
        })
        .expect("E/NET subsystem finding");
    assert_eq!(e_net.severity, Severity::Info);

    let w_net = findings
        .iter()
        .find(|finding| {
            finding.kind == "xplane_subsystem_errors" && finding.title.contains("W/NET")
        })
        .expect("W/NET subsystem finding");
    assert_eq!(w_net.severity, Severity::Info);
}

#[test]
fn treats_ident_and_nvapi_as_background() {
    let findings = analyze_log(
        "0:00:00.000 E/IDENT: Refresh Error Code is: 0\n\
0:00:00.000 E/NVAPI: NvAPI access denied while probing startup capabilities\n",
    );

    let ident = findings
        .iter()
        .find(|finding| {
            finding.kind == "xplane_subsystem_errors" && finding.title.contains("E/IDENT")
        })
        .expect("E/IDENT subsystem finding");
    assert_eq!(ident.severity, Severity::Info);

    let nvapi = findings
        .iter()
        .find(|finding| {
            finding.kind == "xplane_subsystem_errors" && finding.title.contains("E/NVAPI")
        })
        .expect("E/NVAPI subsystem finding");
    assert_eq!(nvapi.severity, Severity::Info);
}

#[test]
fn treats_sound_errors_as_audio_check_items() {
    let findings =
        analyze_log("0:00:00.000 E/SOUN: Could not find default sound output device\n");
    let sound = findings
        .iter()
        .find(|finding| {
            finding.kind == "xplane_subsystem_errors" && finding.title.contains("E/SOUN")
        })
        .expect("E/SOUN subsystem finding");
    assert_eq!(sound.severity, Severity::Low);
}

#[test]
fn detects_third_party_plugin_error_formats() {
    let findings = analyze_log(
        "[FoXeTekPlugin] ERROR|11:14:08.967|UDPSocket::read: no pending data\n\
[SharedFlight][SFImageService.cpp:180]: [ERROR] Found non png file\n\
2026-04-09 11:14:35 [SharedFlight][SFUIGraphic.cpp:42]: [ERROR] CAIRO_STATUS_FILE_NOT_FOUND\n\
WeatherBridge 11:14:45 Request timed out\n",
    );

    let foxetek = findings
        .iter()
        .find(|finding| {
            finding.kind == "third_party_plugin_error"
                && finding.title.contains("FoXeTekPlugin")
        })
        .expect("FoXeTek plugin error finding");
    assert_eq!(foxetek.severity, Severity::Low);

    let shared_flight = findings
        .iter()
        .find(|finding| {
            finding.kind == "third_party_plugin_error" && finding.title.contains("SharedFlight")
        })
        .expect("SharedFlight plugin error finding");
    assert_eq!(shared_flight.occurrences, 2);

    assert!(findings.iter().any(|finding| {
        finding.kind == "third_party_plugin_error" && finding.title.contains("WeatherBridge")
    }));
}

#[test]
fn detects_scenery_load_crash_context() {
    let log = "\
0:00:15.000 I/FLT: Init dat_p0 type:loc_general_area lat:47.788984 lon:13.004313 psi:149.105074 apt:LOWS rwy:15
0:00:17.965 I/SCN: DSF load time: 10234 for file Custom Scenery/X-Plane Landmarks - Salzburg/Earth nav data/+40+010/+47+013.dsf (0 tris, 0 skipped for 0.0 m^2)
0:00:17.965 I/SCN: Loading sim objects for airport LOWS
--=={This application has crashed!}==--\n";
    let findings = analyze_log(log);
    let finding = findings
        .iter()
        .find(|finding| finding.kind == "scenery_load_crash_context")
        .expect("scenery load crash context finding");

    assert_eq!(finding.severity, Severity::Medium);
    assert!(finding
        .evidence
        .contains("I/SCN: Loading sim objects for airport LOWS"));
    assert!(finding
        .extra_evidence
        .iter()
        .any(|line| line.contains("X-Plane Landmarks - Salzburg")));
}

#[test]
fn aggregates_three_same_kind_findings_with_extra_evidence() {
    let findings = analyze_log(
        "Unable to locate object: Lib/A.obj\nUnable to locate object: Lib/B.obj\nUnable to locate object: Lib/C.obj\n",
    );
    let finding = findings
        .iter()
        .find(|finding| finding.kind == "missing_scenery_object")
        .expect("missing scenery object finding");
    assert_eq!(finding.occurrences, 3);
    assert_eq!(finding.extra_evidence.len(), 2);
}

#[test]
fn caps_aggregated_evidence_at_five_total_lines() {
    let mut log = String::new();
    for idx in 0..10 {
        log.push_str(&format!("Unable to locate object: Lib/{idx}.obj\n"));
    }

    let findings = analyze_log(&log);
    let finding = findings
        .iter()
        .find(|finding| finding.kind == "missing_scenery_object")
        .expect("missing scenery object finding");
    assert_eq!(finding.occurrences, 10);
    assert_eq!(1 + finding.extra_evidence.len(), 5);
}

#[test]
fn does_not_treat_flywithlua_quarantine_dir_as_macos_security_on_windows() {
    let findings = analyze_log(
        "OS: Windows 11\nFlyWithLua: Plugin Scripts Quarantine Dir: E:\\SteamLibrary/steamapps/common/X-Plane 12/Resources/plugins/FlyWithLua/Scripts (Quarantine)/\n",
    );
    assert!(!findings
        .iter()
        .any(|finding| finding.kind == "macos_security_block"));
}

#[test]
fn detects_macos_security_lines_only_for_macos_logs() {
    let findings = analyze_log(
        "OS: macOS\nxpl file is quarantined and code signature verification failed\n",
    );
    assert!(findings
        .iter()
        .any(|finding| finding.kind == "macos_security_block"));
}

#[test]
fn does_not_detect_macos_from_random_applications_path() {
    let findings = analyze_log(
        "OS: Windows 11\nLoaded: D:/Applications/X-Plane 12/Resources/plugins/test.xpl\nxpl file is quarantined\n",
    );
    assert!(!findings
        .iter()
        .any(|finding| finding.kind == "macos_security_block"));
}

#[test]
fn truncates_long_evidence_lines() {
    let line: Vec<char> = format!("failed to load {}", "x".repeat(1000)).chars().collect();
    let evidence = evidence_line(0, &line);
    assert!(evidence.len() < 380);
    assert!(evidence.contains("[truncated]"));
}

#[test]
fn parses_sim_timestamp_correctly() {
    let secs = sim_seconds("0:00:01.134 D/KTX2: some message");
    assert!((secs.unwrap() - 1.134).abs() < 0.001);

    let secs = sim_seconds("1:23:45.678 E/SYS: error");
    assert!((secs.unwrap() - 5025.678).abs() < 0.001);
}

#[test]
fn detects_early_silent_crash_with_no_high_findings() {
    let log = "\
0:00:00.000 I/INIT: X-Plane starting
0:00:00.500 D/KTX2: loading texture
0:00:01.134 D/KTX2: [Resources/bitmaps/world/moon_NML.ktx2] 1024x1024
--=={This application has crashed!}==--\n";
    let findings = analyze_log(log);
    let hint = findings.iter().find(|f| f.kind == "early_silent_crash");
    assert!(hint.is_some(), "should detect early silent crash");
}

#[test]
fn skips_early_silent_crash_when_high_finding_exists() {
    let log = "\
0:00:00.000 I/INIT: X-Plane starting
0:00:01.000 VK_ERROR_DEVICE_LOST
0:00:01.134 D/KTX2: texture
--=={This application has crashed!}==--\n";
    let findings = analyze_log(log);
    let hint = findings.iter().find(|f| f.kind == "early_silent_crash");
    assert!(
        hint.is_none(),
        "should not flag when High finding explains crash"
    );
}

#[test]
fn detects_abrupt_termination_without_crash_marker() {
    let log = "\
0:00:00.000 I/INIT: start
0:01:00.000 I/SCN: flying
1:30:00.000 I/SCN: mid flight loading tiles
1:30:05.000 I/SCN: more scenery\n";
    let findings = analyze_log(log);
    let hint = findings.iter().find(|f| f.kind == "abrupt_termination");
    assert!(
        hint.is_some(),
        "should detect abrupt termination when log ends mid-flight without crash marker"
    );
}

#[test]
fn skips_abrupt_termination_during_early_loading() {
    let log = "\
0:00:00.000 I/INIT: start
0:01:14.000 I/SCN: still loading startup resources\n";
    let findings = analyze_log(log);
    let hint = findings.iter().find(|f| f.kind == "abrupt_termination");
    assert!(
        hint.is_none(),
        "should not flag abrupt termination during short startup/loading logs"
    );
}

#[test]
fn skips_abrupt_termination_when_clean_shutdown_present() {
    let log = "\
0:00:00.000 I/INIT: start
1:00:00.000 I/SCN: flying
1:30:00.000 I/SCN: unloading scenery
1:30:05.000 ----- X-Plane has shut down -----\n";
    let findings = analyze_log(log);
    let hint = findings.iter().find(|f| f.kind == "abrupt_termination");
    assert!(
        hint.is_none(),
        "should not flag when X-Plane clean shutdown marker present"
    );
}

#[test]
fn skips_abrupt_termination_when_crash_marker_present() {
    let log = "\
0:00:00.000 I/INIT: start
1:00:00.000 I/SCN: flying
--=={This application has crashed!}==--\n";
    let findings = analyze_log(log);
    // When crash marker present, we get application_crash instead
    assert!(findings.iter().any(|f| f.kind == "application_crash"));
    assert!(!findings.iter().any(|f| f.kind == "abrupt_termination"));
}

#[test]
fn pre_crash_context_works_with_uuid_crash_marker() {
    let log = "\
0:00:00.000 I/INIT: start
0:00:01.000 D/KTX2: texture loading
0:00:01.500 I/SCN: scenery loaded
--=={UUID: 12345678-1234-1234-1234-123456789abc}==--\n";
    let findings = analyze_log(log);
    let pre = findings.iter().find(|f| f.kind == "pre_crash_context");
    assert!(pre.is_some(), "UUID crash should produce pre_crash_context");
    assert!(pre.unwrap().evidence.contains("scenery loaded"));
}

#[test]
fn early_silent_crash_works_with_uuid_crash_marker() {
    let log = "\
0:00:00.000 I/INIT: start
0:00:01.134 D/KTX2: texture
--=={UUID: abcd-efgh}==--\n";
    let findings = analyze_log(log);
    let hint = findings.iter().find(|f| f.kind == "early_silent_crash");
    assert!(
        hint.is_some(),
        "UUID crash under 5s should trigger early_silent_crash"
    );
}

#[test]
fn skips_abrupt_termination_when_log_too_short() {
    let log = "\
0:00:00.000 I/INIT: start
0:00:05.000 I/SCN: loading\n";
    let findings = analyze_log(log);
    let hint = findings.iter().find(|f| f.kind == "abrupt_termination");
    assert!(hint.is_none(), "should not flag logs under 60s sim time");
}

#[test]
fn skips_early_silent_crash_when_crash_is_late() {
    let log = "\
1:30:00.000 I/INIT: mid-flight
1:30:05.000 D/KTX2: texture
--=={This application has crashed!}==--\n";
    let findings = analyze_log(log);
    let hint = findings.iter().find(|f| f.kind == "early_silent_crash");
    assert!(hint.is_none(), "should not flag late crashes");
}

#[test]
fn detects_xplm_bypass() {
    let log = "VisualXP 1.1.8 (simadditions.com) has bypassed XPLM when calling SDK functions. This is a plugin bug.\n";
    let findings = analyze_log(log);
    let f = findings.iter().find(|f| f.kind == "xplm_bypass");
    assert!(f.is_some(), "should detect XPLM bypass");
    assert!(f.unwrap().title.contains("VisualXP 1.1.8"));
}

#[test]
fn xplm_bypass_title_excludes_plugin_id_and_path() {
    let log = "XTLua 2.2.1 id12 (com.x-plane.xtlua.G:\\SteamLibrary/steamapps/common/X-Plane 12/Aircraft/777-300ER-master/plugins/xtlua/.2.0.5) has bypassed XPLM when calling SDK functions. This is a plugin bug.\n";
    let findings = analyze_log(log);
    let f = findings
        .iter()
        .find(|f| f.kind == "xplm_bypass")
        .expect("should detect XPLM bypass");
    assert!(f.title.contains("XTLua 2.2.1 id12"));
    assert!(
        !f.title.contains("SteamLibrary"),
        "title should not include the plugin id/path"
    );
}

#[test]
fn detects_texture_vram_mild_over_commit() {
    let log = "0:53:01.007 I/TEX: Target scale moved to 2.000000. Texture usage is 3.62 gb out of 3.58 gb available. Memory headroom is 57.82 mb\n";
    let findings = analyze_log(log);
    let f = findings.iter().find(|f| f.kind == "texture_vram_pressure");
    assert!(
        f.is_some(),
        "should flag over-committed VRAM even when mild"
    );
    assert_eq!(f.unwrap().severity, Severity::Medium);
}

#[test]
fn detects_texture_vram_significant_over_commit() {
    let log = "0:10:08.288 I/TEX: Target scale moved to 4.000000. Texture usage is 6.00 gb out of 5.13 gb available. Memory headroom is 15.00 mb\n";
    let findings = analyze_log(log);
    let f = findings.iter().find(|f| f.kind == "texture_vram_pressure");
    assert!(f.is_some(), "should flag significant over-commit as high");
    assert_eq!(f.unwrap().severity, Severity::High);
}

#[test]
fn detects_texture_vram_low_headroom() {
    let log = "0:10:08.288 I/TEX: Target scale moved to 2.000000. Texture usage is 5.14 gb out of 5.13 gb available. Memory headroom is 85.00 mb\n";
    let findings = analyze_log(log);
    let f = findings.iter().find(|f| f.kind == "texture_vram_pressure");
    assert!(f.is_some(), "should flag when headroom < 100mb");
    assert_eq!(f.unwrap().severity, Severity::Medium);
}

#[test]
fn skips_texture_vram_when_no_pressure() {
    let log = "0:04:05.537 I/TEX: Target scale moved to 1.000000. Texture usage is 375.79 mb out of 7.05 gb available. Memory headroom is 6.86 gb\n";
    let findings = analyze_log(log);
    assert!(findings.iter().all(|f| f.kind != "texture_vram_pressure"));
}

#[test]
fn detects_aftermath_file_crash_marker() {
    let log = "\
0:00:00.000 I/INIT: start
0:01:00.000 I/SCN: flying
--=={FILE: C:\\Users\\test\\AppData\\Local\\Temp\\xplane_crash_reports\\aftermath\\gpu_crash.txt}==--\n";
    let findings = analyze_log(log);
    assert!(
        findings.iter().any(|f| f.kind == "application_crash"),
        "should detect --=={{FILE: ...}}==-- as crash marker"
    );
}

#[test]
fn detects_chinese_crash_text() {
    let log = "\
0:00:00.000 I/INIT: start
0:01:00.000 I/SCN: flying
0:01:30.000 E/SYS: X-Plane 无法继续运行\n";
    let findings = analyze_log(log);
    assert!(
        findings.iter().any(|f| f.kind == "application_crash"),
        "should detect Chinese '无法继续运行' as crash marker"
    );
}

#[test]
fn vk_device_lost_without_crash_marker_enters_crash_branch() {
    let log = "\
0:00:00.000 I/INIT: start
0:01:00.000 I/SCN: flying
0:01:30.000 E/GFX: vkQueueSubmit returned VK_ERROR_DEVICE_LOST\n";
    let findings = analyze_log(log);
    assert!(
        !findings.iter().any(|f| f.kind == "abrupt_termination"),
        "VK_ERROR_DEVICE_LOST should prevent abrupt_termination even without crash marker"
    );
}

#[test]
fn detects_plugin_encountered_error() {
    let log = "\
0:00:00.000 I/INIT: start
0:27:02.000 E/PLG: Plugin BetterPushback-v1.6.1 encountered error: Instance data set during draw callback\n";
    let findings = analyze_log(log);
    let f = findings
        .iter()
        .find(|f| f.kind == "plugin_encountered_error");
    assert!(f.is_some(), "should detect E/PLG encountered error");
    assert!(
        f.unwrap().title.contains("BetterPushback-v1.6.1"),
        "should extract plugin name"
    );
    assert_eq!(f.unwrap().severity, Severity::Medium);
}

#[test]
fn detects_aircraft_open_failure_with_following_acf_path() {
    let log = "\
0:00:07.780 E/SYS: MACIBM_alert: Failed to open the following aircraft:
0:00:07.780 E/SYS: MACIBM_alert: Aircraft/Misc. Aircraft/PAE-A36-REP/PAE-A36/PAE_REP_A36_Analog.acf
0:00:07.780 E/SYS: MACIBM_alert: This could be because the aircraft file is missing or corrupt, or because it is not really an aircraft file at all.
--=={This application has crashed!}==--
";
    let findings = analyze_log(log);
    let f = findings
        .iter()
        .find(|f| f.kind == "aircraft_open_failure")
        .expect("should detect aircraft open failure");
    assert_eq!(f.severity, Severity::High);
    assert!(f.title.contains("PAE_REP_A36_Analog.acf"));
}

#[test]
fn detects_unknown_aircraft_path_on_same_line() {
    let log = "0:00:07.780 E/SYS: MACIBM_alert: Unknown aircraft Aircraft/Foo/Bar.acf (perhaps it was deleted from disk?)\n";
    let findings = analyze_log(log);
    let f = findings
        .iter()
        .find(|f| f.kind == "aircraft_open_failure")
        .expect("should detect unknown aircraft");
    assert!(f.title.contains("Aircraft/Foo/Bar.acf"));
}

#[test]
fn detects_missing_object_from_package_w_scn() {
    let log = "0:00:00.000 W/SCN: Missing object test_building.obj from package Custom Scenery/Test_Airport/; replacing with blank\n";
    let findings = analyze_log(log);
    let f = findings.iter().find(|f| {
        f.kind == "missing_scenery_object" && f.evidence.contains("test_building.obj")
    });
    assert!(
        f.is_some(),
        "should detect W/SCN Missing object from package"
    );
}

#[test]
fn upgrades_vram_severity_for_extreme_scale() {
    let log = "0:10:08.288 I/TEX: Target scale moved to 0.250000. Texture usage is 5.14 gb out of 5.13 gb available. Memory headroom is 85.00 mb\n";
    let findings = analyze_log(log);
    let f = findings
        .iter()
        .find(|f| f.kind == "texture_vram_pressure")
        .expect("should find VRAM pressure");
    assert_eq!(
        f.severity,
        Severity::High,
        "scale 0.25 should upgrade Medium to High"
    );
}

#[test]
fn does_not_upgrade_vram_for_mild_scale() {
    let log = "0:53:01.007 I/TEX: Target scale moved to 0.500000. Texture usage is 5.14 gb out of 5.13 gb available. Memory headroom is 85.00 mb\n";
    let findings = analyze_log(log);
    let f = findings
        .iter()
        .find(|f| f.kind == "texture_vram_pressure")
        .expect("should find VRAM pressure");
    assert_eq!(
        f.severity,
        Severity::Medium,
        "scale 0.5 should keep Medium severity"
    );
}

#[test]
fn aggregated_vram_uses_highest_severity_evidence() {
    let log = "\
0:10:00.000 I/TEX: Target scale moved to 0.500000. Texture usage is 5.14 gb out of 5.13 gb available. Memory headroom is 85.00 mb
0:10:01.000 I/TEX: Target scale moved to 0.250000. Texture usage is 5.14 gb out of 5.13 gb available. Memory headroom is 85.00 mb\n";
    let findings = analyze_log(log);
    let f = findings
        .iter()
        .find(|f| f.kind == "texture_vram_pressure")
        .expect("should find VRAM pressure");
    assert_eq!(
        f.severity,
        Severity::High,
        "aggregated findings should keep the highest severity"
    );
    assert!(
        f.evidence.contains("0.250000"),
        "primary evidence should point to the high-severity line"
    );
}

#[test]
fn third_party_plugin_error_excludes_flywithlua() {
    let findings = analyze_log(
        "[FlyWithLua] ERROR: bad argument #1 to 'draw_string' (number expected, got nil)\n",
    );
    assert!(
        !findings
            .iter()
            .any(|f| f.kind == "third_party_plugin_error"),
        "FlyWithLua errors should not trigger third_party_plugin_error"
    );
    assert!(
        findings.iter().any(|f| f.kind == "flywithlua_error"),
        "FlyWithLua errors should still be caught by flywithlua_error"
    );
}

#[test]
fn third_party_plugin_error_excludes_xplane_channel() {
    let findings = analyze_log("0:00:00.000 E/PLG: [TestPlugin] ERROR: something failed\n");
    assert!(
        !findings
            .iter()
            .any(|f| f.kind == "third_party_plugin_error"),
        "X-Plane channel lines should not trigger third_party_plugin_error"
    );
}

#[test]
fn third_party_plugin_error_requires_uppercase_error_marker() {
    let findings = analyze_log("[AircraftPlugin]: Parsing error in navaids.txt\n");
    assert!(
        !findings
            .iter()
            .any(|f| f.kind == "third_party_plugin_error"),
        "ordinary lowercase error text should not be treated as a plugin ERROR marker"
    );
}

#[test]
fn plugin_encountered_error_title_excludes_object_path() {
    let log = "0:27:02.000 E/PLG: Plugin BetterPushback-v1.6.1 (H:\\X-Plane 12\\Resources\\plugins\\BetterPushback\\objects\\night_lamp.obj) encountered error: Instance data set during draw callback\n";
    let findings = analyze_log(log);
    let f = findings
        .iter()
        .find(|f| f.kind == "plugin_encountered_error")
        .expect("plugin encountered error finding");
    assert!(f.title.contains("BetterPushback-v1.6.1"));
    assert!(
        !f.title.contains("night_lamp.obj"),
        "title should contain the plugin name, not the object path"
    );
}

#[test]
fn skips_abrupt_termination_for_short_logs_below_threshold() {
    let log = "\
0:00:00.000 I/INIT: start
0:01:20.000 I/SCN: still loading scenery\n";
    let findings = analyze_log(log);
    assert!(
        !findings.iter().any(|f| f.kind == "abrupt_termination"),
        "80s sim time should be below the 120s minimum threshold"
    );
}

// ── suppression tests ──

#[test]
fn suppresses_esys_when_aircraft_open_failure_exists() {
    let log = "\
0:00:00.000 E/SYS: MACIBM_alert: Failed to open the following aircraft:
0:00:00.000 E/SYS: MACIBM_alert: Aircraft/Test/A320.acf
0:00:00.000 E/SYS: MACIBM_alert: This could be because the aircraft file is missing or corrupt.\n";
    let findings = analyze_log(log);
    let esys = findings
        .iter()
        .find(|f| f.kind == "xplane_subsystem_errors" && f.title.contains("E/SYS"));
    assert!(esys.is_some(), "E/SYS should still exist");
    assert_eq!(
        esys.unwrap().severity,
        Severity::Info,
        "E/SYS should be downgraded to Info when aircraft_open_failure covers it"
    );
    assert!(
        findings.iter().any(|f| f.kind == "aircraft_open_failure"),
        "aircraft_open_failure should be the primary finding"
    );
}

#[test]
fn suppresses_acf_when_aircraft_open_failure_exists() {
    let log = "\
0:00:00.000 W/ACF: Scanning of aircraft files is complete. Some of your aircraft files will not be available to fly in X-Plane, probably because they were created by a version of X-Plane that is too old. Aircraft that will be ignored:
0:00:00.000 W/ACF:     Aircraft/Test/A320.acf
0:00:01.000 E/SYS: MACIBM_alert: Failed to open the following aircraft:
0:00:01.000 E/SYS: MACIBM_alert: Aircraft/Test/A320.acf\n";
    let findings = analyze_log(log);
    let acf = findings
        .iter()
        .find(|f| f.kind == "xplane_subsystem_errors" && f.title.contains("W/ACF"))
        .expect("W/ACF subsystem finding");
    assert_eq!(
        acf.severity,
        Severity::Info,
        "W/ACF should be downgraded when aircraft_open_failure covers it"
    );
}

#[test]
fn preserves_non_aircraft_esys_when_aircraft_failure_exists() {
    let log = "\
0:00:00.000 E/SYS: MACIBM_alert: Failed to open the following aircraft:
0:00:00.000 E/SYS: MACIBM_alert: Aircraft/Test/C172.acf
0:00:30.000 E/SYS: MACIBM_alert: Some other system alert not about aircraft\n";
    let findings = analyze_log(log);
    let esys_findings: Vec<_> = findings
        .iter()
        .filter(|f| f.kind == "xplane_subsystem_errors" && f.title.contains("E/SYS"))
        .collect();
    // E/SYS should still exist (suppressed to Info, not deleted)
    assert!(!esys_findings.is_empty());
    // After suppression, severity should be Info
    for f in &esys_findings {
        assert_eq!(f.severity, Severity::Info);
    }
}

#[test]
fn suppresses_scenery_subsystem_when_missing_object_exists() {
    let log = "\
0:00:00.000 W/SCN: Missing object test.obj from package Custom Scenery/Test/; replacing with blank
0:00:00.000 E/SCN: Failed to find resource 'test.png' referenced from file 'Custom Scenery/Test/'.\n";
    let findings = analyze_log(log);
    let wscn = findings
        .iter()
        .find(|f| f.kind == "xplane_subsystem_errors" && f.title.contains("W/SCN"));
    assert!(wscn.is_some());
    assert_eq!(wscn.unwrap().severity, Severity::Info);
    let escn = findings
        .iter()
        .find(|f| f.kind == "xplane_subsystem_errors" && f.title.contains("E/SCN"));
    assert!(escn.is_some());
    assert_eq!(escn.unwrap().severity, Severity::Info);
    assert!(
        findings.iter().any(|f| f.kind == "missing_scenery_object"),
        "missing_scenery_object should be the primary finding"
    );
}

#[test]
fn suppresses_gfx_when_vulkan_device_lost_exists() {
    let log = "\
0:00:00.000 E/GFX: Encountered Vulkan device loss error!
0:00:00.000 E/GFX/VK: Encountered Vulkan error VK_ERROR_DEVICE_LOST.\n";
    let findings = analyze_log(log);
    let egfx = findings
        .iter()
        .find(|f| f.kind == "xplane_subsystem_errors" && f.title.contains("E/GFX"));
    assert!(egfx.is_some());
    assert_eq!(egfx.unwrap().severity, Severity::Info);
    assert!(
        findings.iter().any(|f| f.kind == "vulkan_device_lost"),
        "vulkan_device_lost should be the primary finding"
    );
}

#[test]
fn suppresses_eplg_when_plugin_encountered_error_exists() {
    let log = "\
0:00:00.000 E/PLG: Plugin TestPlugin encountered error: something went wrong\n";
    let findings = analyze_log(log);
    let eplg = findings
        .iter()
        .find(|f| f.kind == "xplane_subsystem_errors" && f.title.contains("E/PLG"));
    assert!(eplg.is_some());
    assert_eq!(eplg.unwrap().severity, Severity::Info);
    assert!(
        findings
            .iter()
            .any(|f| f.kind == "plugin_encountered_error"),
        "plugin_encountered_error should be the primary finding"
    );
}

#[test]
fn preserves_generic_finding_when_no_specific_rule_exists() {
    let log = "\
0:00:00.000 E/SYS: MACIBM_alert: Some system alert
0:00:00.000 E/GFX: Some graphics message
0:30:00.000 I/SCN: flying\n";
    let findings = analyze_log(log);
    let esys = findings
        .iter()
        .find(|f| f.kind == "xplane_subsystem_errors" && f.title.contains("E/SYS"));
    assert!(esys.is_some());
    assert_eq!(
        esys.unwrap().severity,
        Severity::Low,
        "E/SYS should keep Low severity when no aircraft_open_failure exists"
    );
}


#[test]
fn flags_abrupt_termination_from_two_minutes_of_sim_time() {
    let log = "0:00:00.000 I/INIT: start\n0:03:20.000 I/SCN: still flying\n";
    let findings = analyze_log(log);
    let hint = findings
        .iter()
        .find(|f| f.kind == "abrupt_termination")
        .expect("a log ending at 200 s of sim time is past the 120 s threshold");
    assert_eq!(hint.severity, Severity::Info);
    assert_eq!(hint.evidence, "Log.txt:2: 0:03:20.000 I/SCN: still flying");
    let at_threshold = analyze_log("0:00:00.000 I/INIT: start\n0:02:00.000 I/SCN: flying\n");
    assert!(at_threshold.iter().any(|f| f.kind == "abrupt_termination"));
    let below = analyze_log("0:00:00.000 I/INIT: start\n0:01:59.999 I/SCN: flying\n");
    assert!(!below.iter().any(|f| f.kind == "abrupt_termination"));
}
