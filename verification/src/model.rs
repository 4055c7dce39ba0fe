//! The data of reports and bundles: severities, confidences, findings, the
//! scan report and the snapshots a diagnostic bundle is made of.
use vstd::prelude::*;

use crate::i18n::{pick, tr, Locale};

verus! {

/// How urgent a finding is; `High` is the most urgent.
#[derive(Clone, Copy, Debug, PartialEq, Eq, Structural, PartialOrd, Ord, Hash)]
pub enum Severity {
    High,
    Medium,
    Low,
    Info,
}

/// Rank of a severity: the more urgent, the smaller.
pub open spec fn severity_rank(s: Severity) -> nat {
    match s {
        Severity::High => 0,
        Severity::Medium => 1,
        Severity::Low => 2,
        Severity::Info => 3,
    }
}

pub fn rank_of(s: Severity) -> (r: u8)
    ensures
        r as nat == severity_rank(s),
{
    match s {
        Severity::High => 0,
        Severity::Medium => 1,
        Severity::Low => 2,
        Severity::Info => 3,
    }
}

pub open spec fn severity_name(s: Severity) -> Seq<char> {
    match s {
        Severity::High => "high"@,
        Severity::Medium => "medium"@,
        Severity::Low => "low"@,
        Severity::Info => "info"@,
    }
}

pub open spec fn severity_label(s: Severity, loc: Locale) -> Seq<char> {
    match s {
        Severity::High => pick(loc, "严重"@, "High"@),
        Severity::Medium => pick(loc, "注意"@, "Medium"@),
        Severity::Low => pick(loc, "提示"@, "Low"@),
        Severity::Info => pick(loc, "信息"@, "Info"@),
    }
}

impl Severity {
    /// The lower-case name used in reports.
    pub fn as_str(self) -> (r: &'static str)
        ensures
            r@ == severity_name(self),
    {
        match self {
            Severity::High => "high",
            Severity::Medium => "medium",
            Severity::Low => "low",
            Severity::Info => "info",
        }
    }

    /// The display label in the given language.
    pub fn label(self, loc: Locale) -> (r: &'static str)
        ensures
            r@ == severity_label(self, loc),
    {
        match self {
            Severity::High => tr(loc, "严重", "High"),
            Severity::Medium => tr(loc, "注意", "Medium"),
            Severity::Low => tr(loc, "提示", "Low"),
            Severity::Info => tr(loc, "信息", "Info"),
        }
    }
}

/// How sure the rule behind a finding is.
#[derive(Clone, Copy, Debug, PartialEq, Eq, Structural, Hash)]
pub enum Confidence {
    High,
    Medium,
    Low,
}

pub open spec fn confidence_name(c: Confidence) -> Seq<char> {
    match c {
        Confidence::High => "high"@,
        Confidence::Medium => "medium"@,
        Confidence::Low => "low"@,
    }
}

pub open spec fn confidence_label(c: Confidence, loc: Locale) -> Seq<char> {
    match c {
        Confidence::High => pick(loc, "高"@, "High"@),
        Confidence::Medium => pick(loc, "中"@, "Medium"@),
        Confidence::Low => pick(loc, "低"@, "Low"@),
    }
}

impl Confidence {
    /// The lower-case name used in reports.
    pub fn as_str(self) -> (r: &'static str)
        ensures
            r@ == confidence_name(self),
    {
        match self {
            Confidence::High => "high",
            Confidence::Medium => "medium",
            Confidence::Low => "low",
        }
    }

    /// The display label in the given language.
    pub fn label(self, loc: Locale) -> (r: &'static str)
        ensures
            r@ == confidence_label(self, loc),
    {
        match self {
            Confidence::High => tr(loc, "高", "High"),
            Confidence::Medium => tr(loc, "中", "Medium"),
            Confidence::Low => tr(loc, "低", "Low"),
        }
    }
}

/// One diagnosis: what was seen, where, and what to do about it.
#[derive(Clone, Debug)]
pub struct Finding {
    pub severity: Severity,
    pub confidence: Confidence,
    pub kind: String,
    pub title: String,
    pub evidence: String,
    pub occurrences: usize,
    pub extra_evidence: Vec<String>,
    pub explanation: String,
    pub suggestion: String,
}

/// The mathematical content of a [`Finding`].
pub struct FindingView {
    pub severity: Severity,
    pub confidence: Confidence,
    pub kind: Seq<char>,
    pub title: Seq<char>,
    pub evidence: Seq<char>,
    pub occurrences: nat,
    pub extra_evidence: Seq<Seq<char>>,
    pub explanation: Seq<char>,
    pub suggestion: Seq<char>,
}

/// The contents of each string.
pub open spec fn strs_of(v: Seq<String>) -> Seq<Seq<char>> {
    v.map_values(|s: String| s@)
}

impl View for Finding {
    type V = FindingView;

    open spec fn view(&self) -> FindingView {
        FindingView {
            severity: self.severity,
            confidence: self.confidence,
            kind: self.kind@,
            title: self.title@,
            evidence: self.evidence@,
            occurrences: self.occurrences as nat,
            extra_evidence: strs_of(self.extra_evidence@),
            explanation: self.explanation@,
            suggestion: self.suggestion@,
        }
    }
}

/// A fresh finding: seen once, with no further evidence.
pub open spec fn new_finding(
    severity: Severity,
    confidence: Confidence,
    kind: Seq<char>,
    title: Seq<char>,
    evidence: Seq<char>,
    explanation: Seq<char>,
    suggestion: Seq<char>,
) -> FindingView {
    FindingView {
        severity,
        confidence,
        kind,
        title,
        evidence,
        occurrences: 1,
        extra_evidence: seq![],
        explanation,
        suggestion,
    }
}

/// The contents of each finding.
pub open spec fn views(v: Seq<Finding>) -> Seq<FindingView> {
    v.map_values(|f: Finding| f@)
}

impl Finding {
    /// A finding seen once, with no further evidence.
    pub fn new(
        severity: Severity,
        confidence: Confidence,
        kind: String,
        title: String,
        evidence: String,
        explanation: String,
        suggestion: String,
    ) -> (r: Finding)
        ensures
            r@ == new_finding(
                severity,
                confidence,
                kind@,
                title@,
                evidence@,
                explanation@,
                suggestion@,
            ),
    {
        let r = Finding {
            severity,
            confidence,
            kind,
            title,
            evidence,
            occurrences: 1,
            extra_evidence: Vec::new(),
            explanation,
            suggestion,
        };
        assert(strs_of(r.extra_evidence@) =~= seq![]);
        r
    }
}

/// What the first lines of a log say about the system.
#[derive(Clone, Debug)]
pub struct SystemSummary {
    pub xplane_version: Option<String>,
    pub os: Option<String>,
    pub cpu: Option<String>,
    pub gpu: Option<String>,
    pub aircraft: Option<String>,
}

impl Default for SystemSummary {
    fn default() -> (r: SystemSummary)
        ensures
            r.xplane_version is None,
            r.os is None,
            r.cpu is None,
            r.gpu is None,
            r.aircraft is None,
    {
        SystemSummary { xplane_version: None, os: None, cpu: None, gpu: None, aircraft: None }
    }
}

/// One line of `scenery_packs.ini`.
#[derive(Clone, Debug)]
pub struct SceneryEntry {
    pub raw: String,
    pub path: String,
    pub disabled: bool,
}

/// Everything one scan found: the installation (or log) it looked at, the
/// findings, the plugin folders and scenery entries, and the system summary.
#[derive(Debug)]
pub struct ScanReport {
    pub xplane_path: String,
    pub findings: Vec<Finding>,
    pub plugins: Vec<String>,
    pub scenery_entries: Vec<SceneryEntry>,
    pub summary: SystemSummary,
}

/// The whole of a diagnostic bundle.
#[derive(Debug)]
pub struct DiagnosticBundle {
    pub manifest: BundleManifest,
    pub root: RootSnapshot,
    pub root_files: Vec<FileSnapshot>,
    pub log: LogSnapshot,
    pub plugins: Vec<PluginSnapshot>,
    pub scenery: ScenerySnapshot,
    pub aircraft: Vec<AircraftSnapshot>,
    pub custom_data_files: Vec<FileSnapshot>,
    pub global_scenery_folders: Vec<String>,
    pub output: OutputSnapshot,
    pub crash_reports: Vec<CrashReportSnapshot>,
    pub crash_aftermath_files: Vec<FileSnapshot>,
    pub privacy: PrivacySnapshot,
}

/// What a bundle is and how it was collected.
#[derive(Debug)]
pub struct BundleManifest {
    pub schema_version: u32,
    pub tool_version: String,
    pub generated_at_unix_seconds: u64,
    pub xplane_path: String,
    pub collection_scope: Vec<String>,
    pub collection_limits: CollectionLimits,
}

/// The limits a collection kept to.
#[derive(Debug)]
pub struct CollectionLimits {
    pub original_dump_files_included: bool,
    pub original_preference_files_included: bool,
    pub max_output_files_per_category: usize,
    pub max_aircraft_file_samples_per_folder: usize,
    pub max_aircraft_plugin_samples_per_folder: usize,
}

/// Which of the usual files and folders the installation root has.
#[derive(Debug)]
pub struct RootSnapshot {
    pub has_xplane_exe: bool,
    pub has_log_txt: bool,
    pub has_aircraft_dir: bool,
    pub has_custom_data_dir: bool,
    pub has_resources_dir: bool,
    pub has_plugins_dir: bool,
    pub has_global_scenery_dir: bool,
    pub has_custom_scenery_dir: bool,
    pub has_scenery_packs_ini: bool,
    pub has_output_dir: bool,
    pub has_crash_reports_dir: bool,
    pub has_crash_report_dumps_dir: bool,
}

/// A file's name, place and metadata.
#[derive(Clone, Debug)]
pub struct FileSnapshot {
    pub name: String,
    pub path: String,
    pub size_bytes: u64,
    pub modified_at_unix_seconds: Option<u64>,
}

/// What was learned from `Log.txt`. The longest simulator time the log
/// shows is held exactly, in units of `10^-18` seconds.
#[derive(Debug)]
pub struct LogSnapshot {
    pub present: bool,
    pub read_error: Option<String>,
    pub redacted_file: Option<String>,
    pub size_bytes: Option<u64>,
    pub modified_at_unix_seconds: Option<u64>,
    pub line_count: usize,
    pub max_elapsed_seconds: Option<i128>,
    pub inferred_start_unix_seconds: Option<u64>,
    pub clean_shutdown: bool,
    pub crashed: bool,
    pub crash_uuids: Vec<String>,
    pub summary: SystemSummary,
}

/// One plugin folder.
#[derive(Debug)]
pub struct PluginSnapshot {
    pub name: String,
    pub path: String,
    pub modified_at_unix_seconds: Option<u64>,
    pub platform_dirs: Vec<String>,
    pub xpl_files: Vec<String>,
    pub log_files: Vec<FileSnapshot>,
}

/// What was learned from `scenery_packs.ini` and `Custom Scenery`.
#[derive(Debug)]
pub struct ScenerySnapshot {
    pub ini_present: bool,
    pub read_error: Option<String>,
    pub redacted_ini_file: Option<String>,
    pub entries: Vec<SceneryPackSnapshot>,
    pub custom_scenery_folders: Vec<String>,
    pub missing_active_paths: Vec<String>,
    pub duplicate_active_paths: Vec<DuplicatePathSnapshot>,
    pub disabled_count: usize,
    pub special_entries: Vec<String>,
}

/// One scenery pack entry, in load order.
#[derive(Debug)]
pub struct SceneryPackSnapshot {
    pub order: usize,
    pub path: String,
    pub disabled: bool,
    pub special_entry: bool,
    pub exists: bool,
}

/// A scenery path enabled more than once, and how often.
#[derive(Debug)]
pub struct DuplicatePathSnapshot {
    pub path: String,
    pub count: usize,
}

/// One crash dump and how it relates to the current log.
#[derive(Debug)]
pub struct CrashReportSnapshot {
    pub file_name: String,
    pub path: String,
    pub size_bytes: u64,
    pub modified_at_unix_seconds: Option<u64>,
    pub relation_to_current_log: String,
    pub matched_log_uuid: Option<String>,
    pub matched_log_source: Option<String>,
    pub matched_log_file: Option<String>,
    pub seconds_from_log_start: Option<i64>,
    pub seconds_from_log_end: Option<i64>,
}

/// One aircraft folder, with samples of its files.
#[derive(Debug)]
pub struct AircraftSnapshot {
    pub name: String,
    pub path: String,
    pub modified_at_unix_seconds: Option<u64>,
    pub acf_file_count: usize,
    pub acf_file_samples: Vec<String>,
    pub plugin_dir_count: usize,
    pub plugin_dir_samples: Vec<String>,
    pub samples_truncated: bool,
}

/// What the `Output` folder holds.
#[derive(Debug)]
pub struct OutputSnapshot {
    pub directories: Vec<String>,
    pub log_archive_files: Vec<LogArchiveSnapshot>,
    pub diagnostic_report_files: Vec<FileSnapshot>,
    pub preference_files: Vec<FileSnapshot>,
}

/// One archived log.
#[derive(Clone, Debug)]
pub struct LogArchiveSnapshot {
    pub name: String,
    pub kind: String,
    pub size_bytes: u64,
    pub modified_at_unix_seconds: Option<u64>,
    pub clean_shutdown: Option<bool>,
    pub crash_uuids: Vec<String>,
}

/// What the bundle left out or redacted.
#[derive(Debug)]
pub struct PrivacySnapshot {
    pub original_dump_files_included: bool,
    pub redacted_files: Vec<String>,
    pub redaction_rules: Vec<String>,
}

} // verus!
