//! The parts of a diagnostic bundle that are put in order or cut to a limit:
//! files newest first, plugin and aircraft folders by name, and the fixed
//! manifest and privacy notes.
use vstd::prelude::*;

use crate::collect::{
    archive_kind, crash_uuids, extract_crash_uuids, has_clean_shutdown, log_archive_kind,
    log_has_clean_shutdown,
};
use crate::model::{
    AircraftSnapshot, BundleManifest, CollectionLimits, CrashReportSnapshot, FileSnapshot,
    LogArchiveSnapshot, PluginSnapshot, PrivacySnapshot,
};
use crate::order::{
    newest_first, sort_by_key, sort_newest_first, sort_strings, sorted, sorted_by_key, Keyed,
    Timed,
};
use crate::report::first_n;
use crate::text::{chars_of, string_from, string_views};

verus! {

/// At most this many files of each kind under `Output` are recorded.
pub const OUTPUT_FILE_LIMIT: usize = 12;

/// At most this many `.acf` files of an aircraft folder are named.
pub const AIRCRAFT_ACF_SAMPLE_LIMIT: usize = 8;

/// At most this many plugin folders of an aircraft folder are named.
pub const AIRCRAFT_PLUGIN_SAMPLE_LIMIT: usize = 8;

/// At most this many files of `Custom Data` are recorded.
pub const CUSTOM_DATA_FILE_LIMIT: usize = 80;

impl Keyed for FileSnapshot {
    open spec fn key(&self) -> Seq<char> {
        self.name@
    }

    fn key_chars(&self) -> (r: Vec<char>) {
        chars_of(self.name.as_str())
    }
}

impl Keyed for PluginSnapshot {
    open spec fn key(&self) -> Seq<char> {
        self.name@
    }

    fn key_chars(&self) -> (r: Vec<char>) {
        chars_of(self.name.as_str())
    }
}

impl Keyed for AircraftSnapshot {
    open spec fn key(&self) -> Seq<char> {
        self.name@
    }

    fn key_chars(&self) -> (r: Vec<char>) {
        chars_of(self.name.as_str())
    }
}

impl Timed for FileSnapshot {
    open spec fn time(&self) -> Option<u64> {
        self.modified_at_unix_seconds
    }

    fn time_of(&self) -> (r: Option<u64>) {
        self.modified_at_unix_seconds
    }
}

impl Timed for LogArchiveSnapshot {
    open spec fn time(&self) -> Option<u64> {
        self.modified_at_unix_seconds
    }

    fn time_of(&self) -> (r: Option<u64>) {
        self.modified_at_unix_seconds
    }
}

impl Timed for CrashReportSnapshot {
    open spec fn time(&self) -> Option<u64> {
        self.modified_at_unix_seconds
    }

    fn time_of(&self) -> (r: Option<u64>) {
        self.modified_at_unix_seconds
    }
}

/// The newest `limit` files, newest first (files of equal time in the order read).
pub fn newest_files(files: Vec<FileSnapshot>, limit: usize) -> (r: Vec<FileSnapshot>)
    ensures
        r@ == first_n(newest_first(files@), limit as nat),
{
    let sorted = sort_newest_first(files);
    let mut v = sorted;
    let ghost s = v@;
    v.truncate(limit);
    assert(v@ =~= first_n(s, limit as nat));
    v
}

/// The newest `limit` archived logs, newest first.
pub fn newest_log_archives(files: Vec<LogArchiveSnapshot>, limit: usize) -> (r: Vec<
    LogArchiveSnapshot,
>)
    ensures
        r@ == first_n(newest_first(files@), limit as nat),
{
    let mut v = sort_newest_first(files);
    let ghost s = v@;
    v.truncate(limit);
    assert(v@ =~= first_n(s, limit as nat));
    v
}

/// The crash reports, newest first.
pub fn newest_crash_reports(reports: Vec<CrashReportSnapshot>) -> (r: Vec<CrashReportSnapshot>)
    ensures
        r@ == newest_first(reports@),
{
    sort_newest_first(reports)
}

/// What a collection records of an archived log: its kind by name, whether
/// it shut down cleanly (for main logs only), and its crash UUIDs.
pub fn log_archive_snapshot(
    name: String,
    size_bytes: u64,
    modified_at_unix_seconds: Option<u64>,
    text: &str,
) -> (r: LogArchiveSnapshot)
    ensures
        r.name@ == name@,
        r.kind@ == archive_kind(name@),
        r.size_bytes == size_bytes,
        r.modified_at_unix_seconds == modified_at_unix_seconds,
        r.clean_shutdown == (if archive_kind(name@) == "main_log"@ {
            Some(has_clean_shutdown(text@))
        } else {
            None
        }),
        string_views(r.crash_uuids@) == crash_uuids(text@),
{
    let kind = log_archive_kind(name.as_str());
    let main = crate::text::equals_str(&chars_of(kind), "main_log");
    let clean_shutdown = if main {
        Some(log_has_clean_shutdown(text))
    } else {
        None
    };
    LogArchiveSnapshot {
        name,
        kind: string_from(kind),
        size_bytes,
        modified_at_unix_seconds,
        clean_shutdown,
        crash_uuids: extract_crash_uuids(text),
    }
}

/// A plugin folder with its platform folders and `.xpl` files in order and
/// its `.log` files by name.
pub fn plugin_snapshot(
    name: String,
    path: String,
    modified_at_unix_seconds: Option<u64>,
    platform_dirs: Vec<String>,
    xpl_files: Vec<String>,
    log_files: Vec<FileSnapshot>,
) -> (r: PluginSnapshot)
    ensures
        r.name@ == name@,
        r.path@ == path@,
        r.modified_at_unix_seconds == modified_at_unix_seconds,
        sorted(string_views(r.platform_dirs@)),
        string_views(r.platform_dirs@).to_multiset() == string_views(platform_dirs@).to_multiset(),
        sorted(string_views(r.xpl_files@)),
        string_views(r.xpl_files@).to_multiset() == string_views(xpl_files@).to_multiset(),
        r.log_files@ == sorted_by_key(log_files@),
{
    PluginSnapshot {
        name,
        path,
        modified_at_unix_seconds,
        platform_dirs: sort_strings(platform_dirs),
        xpl_files: sort_strings(xpl_files),
        log_files: sort_by_key(log_files),
    }
}

/// The plugin folders by name.
pub fn sort_plugins(plugins: Vec<PluginSnapshot>) -> (r: Vec<PluginSnapshot>)
    ensures
        r@ == sorted_by_key(plugins@),
{
    sort_by_key(plugins)
}

/// An aircraft folder: how many `.acf` files and plugin folders it has, the
/// first eight of each in order, and whether any were left out.
pub fn aircraft_snapshot(
    name: String,
    path: String,
    modified_at_unix_seconds: Option<u64>,
    aircraft_files: Vec<String>,
    plugin_dirs: Vec<String>,
) -> (r: AircraftSnapshot)
    ensures
        r.name@ == name@,
        r.path@ == path@,
        r.modified_at_unix_seconds == modified_at_unix_seconds,
        r.acf_file_count == aircraft_files.len(),
        r.plugin_dir_count == plugin_dirs.len(),
        r.samples_truncated == (aircraft_files.len() > AIRCRAFT_ACF_SAMPLE_LIMIT || plugin_dirs.len()
            > AIRCRAFT_PLUGIN_SAMPLE_LIMIT),
        exists|all: Seq<Seq<char>>|
            sorted(all) && all.to_multiset() == string_views(aircraft_files@).to_multiset()
                && string_views(r.acf_file_samples@) == first_n(all, 8),
        exists|all: Seq<Seq<char>>|
            sorted(all) && all.to_multiset() == string_views(plugin_dirs@).to_multiset()
                && string_views(r.plugin_dir_samples@) == first_n(all, 8),
{
    let acf_file_count = aircraft_files.len();
    let plugin_dir_count = plugin_dirs.len();
    let mut files = sort_strings(aircraft_files);
    let ghost fa = string_views(files@);
    files.truncate(AIRCRAFT_ACF_SAMPLE_LIMIT);
    assert(string_views(files@) =~= first_n(fa, 8));
    let mut dirs = sort_strings(plugin_dirs);
    let ghost da = string_views(dirs@);
    dirs.truncate(AIRCRAFT_PLUGIN_SAMPLE_LIMIT);
    assert(string_views(dirs@) =~= first_n(da, 8));
    AircraftSnapshot {
        name,
        path,
        modified_at_unix_seconds,
        acf_file_count,
        acf_file_samples: files,
        plugin_dir_count,
        plugin_dir_samples: dirs,
        samples_truncated: acf_file_count > AIRCRAFT_ACF_SAMPLE_LIMIT || plugin_dir_count
            > AIRCRAFT_PLUGIN_SAMPLE_LIMIT,
    }
}

/// The aircraft folders by name.
pub fn sort_aircraft(aircraft: Vec<AircraftSnapshot>) -> (r: Vec<AircraftSnapshot>)
    ensures
        r@ == sorted_by_key(aircraft@),
{
    sort_by_key(aircraft)
}

/// The format version of the bundles this library writes.
pub const BUNDLE_SCHEMA_VERSION: u32 = 3;

fn strings_of(items: &[&str]) -> (r: Vec<String>)
    ensures
        r.len() == items.len(),
        forall|i: int| 0 <= i < items.len() ==> (#[trigger] r@[i])@ == items@[i]@,
{
    let mut out: Vec<String> = Vec::new();
    let mut i: usize = 0;
    while i < items.len()
        invariant
            i <= items.len(),
            out.len() == i,
            forall|j: int| 0 <= j < i ==> (#[trigger] out@[j])@ == items@[j]@,
        decreases items.len() - i,
    {
        out.push(string_from(items[i]));
        i = i + 1;
    }
    out
}

/// What a bundle collects, as written in its manifest.
pub open spec fn collection_scope_text() -> Seq<Seq<char>> {
    seq![
        "root files: Log.txt, Log_ATC.txt, Cycle Dump.txt, debug.log, Data.txt"@,
        "Aircraft: folder-level metadata, .acf/plugin samples only"@,
        "Custom Data: file metadata only"@,
        "Custom Scenery: scenery_packs.ini plus folder names"@,
        "Global Scenery: folder names only"@,
        "Resources/plugins: folder structure, platform dirs, .xpl files, .log metadata"@,
        "Output: Log Archive crash status, diagnostic reports, preferences metadata"@,
        "Output/crash_reports/reports: .dmp metadata only"@,
        "Output/crash_reports/aftermath: file metadata only"@,
    ]
}

/// The kinds of text a bundle redacts, as written in its privacy notes.
pub open spec fn redaction_rule_text() -> Seq<Seq<char>> {
    seq![
        "X-Plane root path"@,
        "USERPROFILE path"@,
        "HOME path"@,
        "Windows /Users/<name>/ path segment"@,
    ]
}

/// The manifest of a new bundle: its format version, the tool's version, when
/// it was made, what it collects and within which limits; the installation
/// path is always written as `<xplane>`.
pub fn bundle_manifest(tool_version: String, generated_at_unix_seconds: u64) -> (r: BundleManifest)
    ensures
        r.schema_version == BUNDLE_SCHEMA_VERSION,
        r.tool_version@ == tool_version@,
        r.generated_at_unix_seconds == generated_at_unix_seconds,
        r.xplane_path@ == "<xplane>"@,
        string_views(r.collection_scope@) == collection_scope_text(),
        !r.collection_limits.original_dump_files_included,
        !r.collection_limits.original_preference_files_included,
        r.collection_limits.max_output_files_per_category == OUTPUT_FILE_LIMIT,
        r.collection_limits.max_aircraft_file_samples_per_folder == AIRCRAFT_ACF_SAMPLE_LIMIT,
        r.collection_limits.max_aircraft_plugin_samples_per_folder == AIRCRAFT_PLUGIN_SAMPLE_LIMIT,
{
    let scope = [
        "root files: Log.txt, Log_ATC.txt, Cycle Dump.txt, debug.log, Data.txt",
        "Aircraft: folder-level metadata, .acf/plugin samples only",
        "Custom Data: file metadata only",
        "Custom Scenery: scenery_packs.ini plus folder names",
        "Global Scenery: folder names only",
        "Resources/plugins: folder structure, platform dirs, .xpl files, .log metadata",
        "Output: Log Archive crash status, diagnostic reports, preferences metadata",
        "Output/crash_reports/reports: .dmp metadata only",
        "Output/crash_reports/aftermath: file metadata only",
    ];
    let collection_scope = strings_of(&scope);
    assert(string_views(collection_scope@) =~= collection_scope_text());
    BundleManifest {
        schema_version: BUNDLE_SCHEMA_VERSION,
        tool_version,
        generated_at_unix_seconds,
        xplane_path: string_from("<xplane>"),
        collection_scope,
        collection_limits: CollectionLimits {
            original_dump_files_included: false,
            original_preference_files_included: false,
            max_output_files_per_category: OUTPUT_FILE_LIMIT,
            max_aircraft_file_samples_per_folder: AIRCRAFT_ACF_SAMPLE_LIMIT,
            max_aircraft_plugin_samples_per_folder: AIRCRAFT_PLUGIN_SAMPLE_LIMIT,
        },
    }
}

/// The privacy notes of a bundle: no dump files included, the redacted files
/// written, and the four kinds of text redacted.
pub fn privacy_snapshot(redacted_files: Vec<String>) -> (r: PrivacySnapshot)
    ensures
        !r.original_dump_files_included,
        r.redacted_files@ == redacted_files@,
        string_views(r.redaction_rules@) == redaction_rule_text(),
{
    let rules = [
        "X-Plane root path",
        "USERPROFILE path",
        "HOME path",
        "Windows /Users/<name>/ path segment",
    ];
    let redaction_rules = strings_of(&rules);
    assert(string_views(redaction_rules@) =~= redaction_rule_text());
    PrivacySnapshot {
        original_dump_files_included: false,
        redacted_files,
        redaction_rules,
    }
}

} // verus!
