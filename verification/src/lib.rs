//! Triage of X-Plane 12 logs and installations: explicit rules over
//! `Log.txt` that group related evidence and separate actionable findings
//! from background noise, the scans of plugins and scenery, diagnostic
//! bundles, and the HTML and forum reports, each with its contract.
use vstd::prelude::*;

pub mod bundle;
pub mod cli;
pub mod collect;
pub mod decimal;
pub mod detect;
pub mod i18n;
pub mod install;
pub mod laws;
pub mod model;
pub mod order;
pub mod plugin_scan;
pub mod redact;
pub mod report;
pub mod rules;
pub mod scenery;
pub mod snapshots;
pub mod tally;
pub mod text;

pub use i18n::Locale;
pub use model::{
    AircraftSnapshot, BundleManifest, CollectionLimits, Confidence, CrashReportSnapshot,
    DiagnosticBundle, DuplicatePathSnapshot, FileSnapshot, Finding, LogArchiveSnapshot,
    LogSnapshot, OutputSnapshot, PluginSnapshot, PrivacySnapshot, RootSnapshot, ScanReport,
    SceneryEntry, SceneryPackSnapshot, ScenerySnapshot, Severity, SystemSummary,
};
pub use rules::analyze::{analyze_log, analyze_log_in};

verus! {

} // verus!
