# X-Plane Log Triage Tool, verified

A local diagnostic helper for X-Plane 12: explicit rules over `Log.txt` that
group related evidence and separate actionable findings from background
noise, scans of an installation's plugins and scenery list, diagnostic
bundles, and HTML and forum reports. The library is written in Verus, which
verifies all of `src/`; every public function there carries a contract, and
one small function that appends a character to a `String` is trusted.

## Layout

- `src/text.rs`, `src/decimal.rs`, `src/order.rs`, `src/tally.rs`: text
  operations as `str` does them, exact decimals, sorting, path order, and
  counting keys in text order.
- `src/rules/`: the log rules (`analyze.rs` puts them together), merging of
  findings of one kind, and moving broad channel findings to the background;
  `kinds.rs` and `langs.rs` say which kinds each rule gives and that a rule
  gives the same finding in either language.
- `src/collect.rs`, `src/snapshots.rs`, `src/scenery.rs`, `src/plugin_scan.rs`,
  `src/redact.rs`, `src/bundle.rs`: what a scan or a bundle makes of the files
  it reads, and the bundle analysis.
- `src/report.rs`: the HTML report and the forum summary.
- `src/cli.rs`, `src/detect.rs`, `src/install.rs`: the command line, Steam
  library lists, the choice among installations found (in path order), and
  installation findings.
- `src/laws.rs` (with the laws in `order.rs` and `tally.rs`): what holds of the
  analysis as a whole.
- `app/`: the `xplane-log-triage` command: file and folder access, the
  environment, JSON, and the language chosen for a run.

Messages come in Chinese and English; the library takes the language as an
argument. Numbers that the log prints with a decimal point are read exactly,
and simulator times are counted in units of `10^-18` seconds.
