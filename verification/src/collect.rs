//! What a diagnostic collection learns from the files it reads: crash UUIDs,
//! how a log ended, the system summary, scenery pack lines, crash dump
//! relations and redaction.
use vstd::prelude::*;

use crate::model::{LogArchiveSnapshot, SystemSummary};
use crate::detect::{split_field, split_field_exec};
use crate::decimal::parse_dec;
use crate::rules::simtime::{parse_field, v15};
use crate::text::{
    first_word, first_word_slice,
    chars_of, contains, contains_str, equals_str, find_from, find_from_exec, is_hex_digit,
    hex_digit_char, lemma_find_from, lines, lines_of, lower, lower_of, seqs_of, starts_with,
    starts_with_str, ends_with, ends_with_str, string_of, strip_prefix, strip_prefix_str, trim,
    trim_slice,
};

verus! {

/// The marker that opens a crash UUID in the log.
pub open spec fn uuid_marker() -> Seq<char> {
    "--=={UUID:"@
}

/// The marker that closes a crash UUID in the log.
pub open spec fn uuid_terminator() -> Seq<char> {
    "}==--"@
}

/// A UUID in 8-4-4-4-12 form of hexadecimal digits (either case).
pub open spec fn is_uuid(s: Seq<char>) -> bool {
    s.len() == 36 && forall|i: int|
        0 <= i < 36 ==> if i == 8 || i == 13 || i == 18 || i == 23 {
            #[trigger] s[i] == '-'
        } else {
            is_hex_digit(s[i])
        }
}

/// The crash UUIDs found from position `start` on, appended to `found`:
/// each text between the two markers, trimmed, that is a UUID and not yet
/// found (ignoring ASCII case), in lower case.
pub open spec fn uuid_scan(t: Seq<char>, start: int, found: Seq<Seq<char>>) -> Seq<Seq<char>>
    decreases t.len() - start,
{
    match find_from(t, uuid_marker(), start) {
        None => found,
        Some(m) => match find_from(t, uuid_terminator(), m + 10) {
            None => found,
            Some(e) => if start < e + 5 <= t.len() && m + 10 <= e {
                let u = trim(t.subrange(m + 10, e));
                let next = if is_uuid(u) && !found.contains(lower(u)) {
                    found.push(lower(u))
                } else {
                    found
                };
                uuid_scan(t, e + 5, next)
            } else {
                found
            },
        },
    }
}

/// The distinct crash UUIDs of a log, in lower case, in order of first appearance.
pub open spec fn crash_uuids(t: Seq<char>) -> Seq<Seq<char>> {
    uuid_scan(t, 0, seq![])
}

fn is_uuid_exec(s: &[char]) -> (r: bool)
    ensures
        r == is_uuid(s@),
{
    if s.len() != 36 {
        return false;
    }
    let mut i: usize = 0;
    while i < 36
        invariant
            s.len() == 36,
            i <= 36,
            forall|j: int|
                0 <= j < i ==> if j == 8 || j == 13 || j == 18 || j == 23 {
                    #[trigger] s@[j] == '-'
                } else {
                    is_hex_digit(s@[j])
                },
        decreases 36 - i,
    {
        let ok = if i == 8 || i == 13 || i == 18 || i == 23 {
            s[i] == '-'
        } else {
            hex_digit_char(s[i])
        };
        if !ok {
            return false;
        }
        i = i + 1;
    }
    true
}

fn contains_seq(found: &Vec<Vec<char>>, u: &[char]) -> (r: bool)
    ensures
        r == seqs_of(found@).contains(u@),
{
    let mut i: usize = 0;
    while i < found.len()
        invariant
            i <= found.len(),
            forall|j: int| 0 <= j < i ==> seqs_of(found@)[j] != u@,
        decreases found.len() - i,
    {
        if crate::rules::evidence::slice_eq(found[i].as_slice(), u) {
            assert(seqs_of(found@)[i as int] == u@);
            return true;
        }
        i = i + 1;
    }
    false
}

/// The crash UUIDs named in a log's text, in lower case, each once
/// (compared without regard to ASCII case), in order of first appearance.
pub fn extract_crash_uuids(log_text: &str) -> (r: Vec<String>)
    ensures
        crate::text::string_views(r@) == crash_uuids(log_text@),
{
    let t = chars_of(log_text);
    let marker = chars_of("--=={UUID:");
    let terminator = chars_of("}==--");
    let mut found: Vec<Vec<char>> = Vec::new();
    proof {
        reveal_strlit("--=={UUID:");
        reveal_strlit("}==--");
        assert(seqs_of(found@) =~= Seq::<Seq<char>>::empty());
    }
    let mut start: usize = 0;
    loop
        invariant
            marker@ == uuid_marker(),
            terminator@ == uuid_terminator(),
            uuid_marker().len() == 10,
            uuid_terminator().len() == 5,
            start <= t.len(),
            uuid_scan(t@, start as int, seqs_of(found@)) == crash_uuids(log_text@),
            t@ == log_text@,
        ensures
            seqs_of(found@) == crash_uuids(log_text@),
        decreases t.len() - start,
    {
        let m = match find_from_exec(&t, &marker, start) {
            None => {
                break;
            },
            Some(m) => m,
        };
        proof {
            lemma_find_from(t@, marker@, start as int);
        }
        let e = match find_from_exec(&t, &terminator, m + 10) {
            None => {
                break;
            },
            Some(e) => e,
        };
        proof {
            lemma_find_from(t@, terminator@, m + 10);
        }
        let u = trim_slice(&t[m + 10..e]);
        let lu = lower_of(u);
        let ghost before = seqs_of(found@);
        if is_uuid_exec(u) && !contains_seq(&found, &lu) {
            found.push(lu);
            assert(seqs_of(found@) =~= before.push(lower(u@)));
        }
        assert(t@.subrange(m + 10, e as int) == t@.subrange(m + 10, e as int));
        start = e + 5;
        assert(uuid_scan(t@, start as int, seqs_of(found@)) == crash_uuids(log_text@));
        if start == t.len() {
            assert(find_from(t@, uuid_marker(), start as int) is None);
            break;
        }
    }
    let mut r: Vec<String> = Vec::new();
    let mut i: usize = 0;
    while i < found.len()
        invariant
            i <= found.len(),
            crate::text::string_views(r@) == seqs_of(found@).take(i as int),
        decreases found.len() - i,
    {
        let ghost before = r@;
        r.push(string_of(found[i].as_slice()));
        assert(crate::text::string_views(r@) =~= crate::text::string_views(before).push(found@[i as int]@));
        assert(seqs_of(found@).take(i + 1) =~= seqs_of(found@).take(i as int).push(found@[i as int]@));
        i = i + 1;
    }
    assert(seqs_of(found@).take(found.len() as int) =~= seqs_of(found@));
    r
}

/// What kind of log an archived file name says it is.
pub open spec fn archive_kind(name: Seq<char>) -> Seq<char> {
    let l = lower(name);
    if l == "log.txt"@ || (starts_with(l, "log-"@) && ends_with(l, ".txt"@)) {
        "main_log"@
    } else if l == "log_atc.txt"@ || (starts_with(l, "log_atc-"@) && ends_with(l, ".txt"@)) {
        "atc_log"@
    } else {
        "unknown"@
    }
}

/// `main_log`, `atc_log` or `unknown`, by the file name (in any ASCII case).
pub fn log_archive_kind(name: &str) -> (r: &'static str)
    ensures
        r@ == archive_kind(name@),
{
    let l = lower_of(&chars_of(name));
    if equals_str(&l, "log.txt") || (starts_with_str(&l, "log-") && ends_with_str(&l, ".txt")) {
        "main_log"
    } else if equals_str(&l, "log_atc.txt") || (starts_with_str(&l, "log_atc-") && ends_with_str(
        &l,
        ".txt",
    )) {
        "atc_log"
    } else {
        "unknown"
    }
}

/// Some line of the text holds `p`.
pub open spec fn some_line_contains(t: Seq<char>, p: Seq<char>) -> bool {
    exists|i: int| 0 <= i < lines(t).len() && contains(#[trigger] lines(t)[i], p)
}

/// The log says X-Plane shut down cleanly.
pub open spec fn has_clean_shutdown(t: Seq<char>) -> bool {
    some_line_contains(t, "----- X-Plane has shut down -----"@)
}

fn some_line_contains_str(ls: &Vec<Vec<char>>, p: &str) -> (r: bool)
    ensures
        r == exists|i: int| 0 <= i < ls.len() && contains(#[trigger] seqs_of(ls@)[i], p@),
{
    let mut i: usize = 0;
    while i < ls.len()
        invariant
            i <= ls.len(),
            forall|j: int| 0 <= j < i ==> !contains(#[trigger] seqs_of(ls@)[j], p@),
        decreases ls.len() - i,
    {
        if contains_str(ls[i].as_slice(), p) {
            assert(contains(seqs_of(ls@)[i as int], p@));
            return true;
        }
        i = i + 1;
    }
    false
}

/// Whether the log says X-Plane shut down cleanly.
pub fn log_has_clean_shutdown(log_text: &str) -> (r: bool)
    ensures
        r == has_clean_shutdown(log_text@),
{
    let t = chars_of(log_text);
    let ls = lines_of(&t);
    assert(seqs_of(ls@) == lines(log_text@));
    some_line_contains_str(&ls, "----- X-Plane has shut down -----")
}

/// A lower-cased line that marks a crash.
pub open spec fn is_crash_line(l: Seq<char>) -> bool {
    contains(l, "this application has crashed"@) || contains(l, "--=={uuid:"@) || contains(
        l,
        "forwarding exception"@,
    ) || contains(l, "x-plane cannot continue running"@) || contains(l, "thread fatal assert"@)
}

/// The log names a crash UUID, or some line marks a crash.
pub open spec fn has_crash_marker(t: Seq<char>) -> bool {
    crash_uuids(t).len() > 0 || exists|i: int|
        0 <= i < lines(t).len() && is_crash_line(lower(#[trigger] lines(t)[i]))
}

/// Whether the log names a crash UUID or has a line that marks a crash.
pub fn log_has_crash_marker(log_text: &str) -> (r: bool)
    ensures
        r == has_crash_marker(log_text@),
{
    let uuids = extract_crash_uuids(log_text);
    if uuids.len() > 0 {
        assert(crate::text::string_views(uuids@).len() == uuids@.len());
        return true;
    }
    let t = chars_of(log_text);
    let ls = lines_of(&t);
    let ghost lv = seqs_of(ls@);
    assert(lv == lines(log_text@));
    let mut i: usize = 0;
    while i < ls.len()
        invariant
            i <= ls.len(),
            lv == seqs_of(ls@),
            lv == lines(log_text@),
            crash_uuids(log_text@).len() == 0,
            forall|j: int| 0 <= j < i ==> !is_crash_line(lower(#[trigger] lv[j])),
        decreases ls.len() - i,
    {
        let l = lower_of(ls[i].as_slice());
        if contains_str(&l, "this application has crashed") || contains_str(&l, "--=={uuid:")
            || contains_str(&l, "forwarding exception") || contains_str(
            &l,
            "x-plane cannot continue running",
        ) || contains_str(&l, "thread fatal assert") {
            assert(is_crash_line(lower(lines(log_text@)[i as int])));
            return true;
        }
        i = i + 1;
    }
    false
}

/// The trimmed first line (of those given) that `p` accepts.
pub open spec fn first_where(ls: Seq<Seq<char>>, p: spec_fn(Seq<char>) -> bool) -> Option<Seq<char>>
    decreases ls.len(),
{
    if ls.len() == 0 {
        None
    } else {
        match first_where(ls.drop_last(), p) {
            Some(x) => Some(x),
            None => if p(ls.last()) {
                Some(trim(ls.last()))
            } else {
                None
            },
        }
    }
}

pub open spec fn version_line(l: Seq<char>) -> bool {
    starts_with(l, "Log.txt for X-Plane"@)
}

pub open spec fn os_line(l: Seq<char>) -> bool {
    starts_with(l, "OS:"@) || contains(l, "Windows"@) || contains(l, "macOS"@)
}

pub open spec fn cpu_line(l: Seq<char>) -> bool {
    starts_with(l, "CPU type:"@) || starts_with(l, "CPU:"@)
}

pub open spec fn gpu_line(l: Seq<char>) -> bool {
    contains(l, "GPU"@) || contains(l, "OpenGL Renderer"@) || contains(l, "Vulkan Device"@)
}

pub open spec fn aircraft_line(l: Seq<char>) -> bool {
    contains(lower(l), "loading aircraft"@) || contains(lower(l), ".acf"@)
}

/// The first 250 lines of a text.
pub open spec fn head_lines(t: Seq<char>) -> Seq<Seq<char>> {
    if lines(t).len() > 250 {
        lines(t).take(250)
    } else {
        lines(t)
    }
}

pub open spec fn opt_str(o: Option<String>) -> Option<Seq<char>> {
    match o {
        Some(s) => Some(s@),
        None => None,
    }
}

fn keep_first(slot: &mut Option<String>, line: &[char], found: bool)
    ensures
        opt_str(*final(slot)) == (match opt_str(*old(slot)) {
            Some(x) => Some(x),
            None => if found {
                Some(trim(line@))
            } else {
                None
            },
        }),
{
    if slot.is_none() && found {
        *slot = Some(string_of(trim_slice(line)));
    }
}

/// Reads the version, system, CPU, GPU and aircraft lines from the first
/// 250 lines of a log: for each, the first line that names it, trimmed.
pub fn summarize_log(log_text: &str) -> (r: SystemSummary)
    ensures
        opt_str(r.xplane_version) == first_where(head_lines(log_text@), |l: Seq<char>| version_line(l)),
        opt_str(r.os) == first_where(head_lines(log_text@), |l: Seq<char>| os_line(l)),
        opt_str(r.cpu) == first_where(head_lines(log_text@), |l: Seq<char>| cpu_line(l)),
        opt_str(r.gpu) == first_where(head_lines(log_text@), |l: Seq<char>| gpu_line(l)),
        opt_str(r.aircraft) == first_where(head_lines(log_text@), |l: Seq<char>| aircraft_line(l)),
        is_first_accepted(head_lines(log_text@), |l: Seq<char>| version_line(l), opt_str(r.xplane_version)),
        is_first_accepted(head_lines(log_text@), |l: Seq<char>| os_line(l), opt_str(r.os)),
        is_first_accepted(head_lines(log_text@), |l: Seq<char>| cpu_line(l), opt_str(r.cpu)),
        is_first_accepted(head_lines(log_text@), |l: Seq<char>| gpu_line(l), opt_str(r.gpu)),
        is_first_accepted(head_lines(log_text@), |l: Seq<char>| aircraft_line(l), opt_str(r.aircraft)),
        head_lines(log_text@).len() == if lines(log_text@).len() > 250 {
            250
        } else {
            lines(log_text@).len()
        },
        head_lines(log_text@) == lines(log_text@).take(head_lines(log_text@).len() as int),
{
    proof {
        let h = head_lines(log_text@);
        law_first_where_takes_the_first(h, |l: Seq<char>| version_line(l));
        law_first_where_takes_the_first(h, |l: Seq<char>| os_line(l));
        law_first_where_takes_the_first(h, |l: Seq<char>| cpu_line(l));
        law_first_where_takes_the_first(h, |l: Seq<char>| gpu_line(l));
        law_first_where_takes_the_first(h, |l: Seq<char>| aircraft_line(l));
        if lines(log_text@).len() <= 250 {
            assert(lines(log_text@).take(lines(log_text@).len() as int) =~= lines(log_text@));
        }
    }
    let t = chars_of(log_text);
    let ls = lines_of(&t);
    let ghost lv = seqs_of(ls@);
    let ghost head = head_lines(log_text@);
    let n: usize = if ls.len() > 250 { 250 } else { ls.len() };
    let mut summary = SystemSummary::default();
    let mut i: usize = 0;
    while i < n
        invariant
            n <= ls.len(),
            i <= n,
            lv == seqs_of(ls@),
            lv == lines(log_text@),
            head == lv.take(n as int),
            opt_str(summary.xplane_version) == first_where(lv.take(i as int), |l: Seq<char>| version_line(l)),
            opt_str(summary.os) == first_where(lv.take(i as int), |l: Seq<char>| os_line(l)),
            opt_str(summary.cpu) == first_where(lv.take(i as int), |l: Seq<char>| cpu_line(l)),
            opt_str(summary.gpu) == first_where(lv.take(i as int), |l: Seq<char>| gpu_line(l)),
            opt_str(summary.aircraft) == first_where(lv.take(i as int), |l: Seq<char>| aircraft_line(l)),
        decreases n - i,
    {
        let line = ls[i].as_slice();
        let ghost lt = lv.take(i + 1);
        assert(lt.drop_last() =~= lv.take(i as int));
        assert(lt.last() == line@);
        let version = starts_with_str(line, "Log.txt for X-Plane");
        keep_first(&mut summary.xplane_version, line, version);
        let os = starts_with_str(line, "OS:") || contains_str(line, "Windows") || contains_str(
            line,
            "macOS",
        );
        keep_first(&mut summary.os, line, os);
        let cpu = starts_with_str(line, "CPU type:") || starts_with_str(line, "CPU:");
        keep_first(&mut summary.cpu, line, cpu);
        let gpu = contains_str(line, "GPU") || contains_str(line, "OpenGL Renderer")
            || contains_str(line, "Vulkan Device");
        keep_first(&mut summary.gpu, line, gpu);
        let lw = lower_of(line);
        let aircraft = contains_str(&lw, "loading aircraft") || contains_str(&lw, ".acf");
        keep_first(&mut summary.aircraft, line, aircraft);
        i = i + 1;
    }
    assert(head =~= lv.take(n as int)) by {
        if lv.len() <= 250 {
            assert(lv.take(lv.len() as int) =~= lv);
        }
    }
    summary
}

/// The path part of a `SCENERY_PACK` or `SCENERY_PACK_DISABLED` line,
/// trimmed; empty for other lines.
pub open spec fn scenery_path(line: Seq<char>) -> Seq<char> {
    match strip_prefix(line, "SCENERY_PACK_DISABLED"@) {
        Some(rest) => trim(rest),
        None => match strip_prefix(line, "SCENERY_PACK"@) {
            Some(rest) => trim(rest),
            None => seq![],
        },
    }
}

pub fn scenery_path_slice(line: &[char]) -> (r: &[char])
    ensures
        r@ == scenery_path(line@),
{
    match strip_prefix_str(line, "SCENERY_PACK_DISABLED") {
        Some(rest) => trim_slice(rest),
        None => match strip_prefix_str(line, "SCENERY_PACK") {
            Some(rest) => trim_slice(rest),
            None => {
                let e: &[char] = &line[0..0];
                assert(e@ =~= Seq::<char>::empty());
                e
            },
        },
    }
}

/// The path of a `scenery_packs.ini` line.
pub fn parse_scenery_path(line: &str) -> (r: String)
    ensures
        r@ == scenery_path(line@),
{
    let v = chars_of(line);
    string_of(scenery_path_slice(&v))
}

/// A folder name that X-Plane uses for one platform's plugin binaries.
pub open spec fn platform_dir(name: Seq<char>) -> bool {
    let l = lower(name);
    l == "64"@ || l == "32"@ || l == "win_x64"@ || l == "win_x86"@ || l == "mac_x64"@ || l
        == "mac_x86"@ || l == "lin_x64"@ || l == "lin_x86"@
}

/// Whether a plugin subfolder is one of the platform folders (in any ASCII case).
pub fn is_platform_plugin_dir(name: &str) -> (r: bool)
    ensures
        r == platform_dir(name@),
{
    let l = lower_of(&chars_of(name));
    equals_str(&l, "64") || equals_str(&l, "32") || equals_str(&l, "win_x64") || equals_str(
        &l,
        "win_x86",
    ) || equals_str(&l, "mac_x64") || equals_str(&l, "mac_x86") || equals_str(&l, "lin_x64")
        || equals_str(&l, "lin_x86")
}

/// A folder named `plugins` (in any ASCII case).
pub fn is_plugins_dir(name: &str) -> (r: bool)
    ensures
        r == (lower(name@) == "plugins"@),
{
    let l = lower_of(&chars_of(name));
    equals_str(&l, "plugins")
}

/// Position of the last `.` before index `i`.
pub open spec fn last_dot_before(s: Seq<char>, i: int) -> Option<int>
    decreases i,
{
    if i <= 0 || i > s.len() {
        None
    } else if s[i - 1] == '.' {
        Some(i - 1)
    } else {
        last_dot_before(s, i - 1)
    }
}

/// The extension of a file name, as `Path::extension` gives it: after the
/// last `.`, unless that `.` begins the name.
pub open spec fn extension(name: Seq<char>) -> Option<Seq<char>> {
    match last_dot_before(name, name.len() as int) {
        Some(k) => if k > 0 {
            Some(name.skip(k + 1))
        } else {
            None
        },
        None => None,
    }
}

/// The stem of a file name, as `Path::file_stem` gives it: before the last
/// `.`, or the whole name when it has no `.` but a leading one.
pub open spec fn file_stem(name: Seq<char>) -> Seq<char> {
    match last_dot_before(name, name.len() as int) {
        Some(k) => if k > 0 {
            name.take(k)
        } else {
            name
        },
        None => name,
    }
}

fn last_dot(name: &[char]) -> (r: Option<usize>)
    ensures
        match r {
            Some(k) => last_dot_before(name@, name@.len() as int) == Some(k as int) && k
                < name.len(),
            None => last_dot_before(name@, name@.len() as int) is None,
        },
{
    let mut i: usize = name.len();
    while i > 0
        invariant
            i <= name.len(),
            last_dot_before(name@, name@.len() as int) == last_dot_before(name@, i as int),
        decreases i,
    {
        if name[i - 1] == '.' {
            return Some(i - 1);
        }
        i = i - 1;
    }
    None
}

/// The extension of a file name.
pub fn file_extension(name: &[char]) -> (r: Option<&[char]>)
    ensures
        match r {
            Some(e) => extension(name@) == Some(e@),
            None => extension(name@) is None,
        },
{
    match last_dot(name) {
        Some(k) => if k > 0 {
            let e = &name[k + 1..name.len()];
            assert(e@ =~= name@.skip(k + 1));
            Some(e)
        } else {
            None
        },
        None => None,
    }
}

/// The stem of a file name.
pub fn file_stem_of(name: &[char]) -> (r: &[char])
    ensures
        r@ == file_stem(name@),
{
    match last_dot(name) {
        Some(k) => if k > 0 {
            let e = &name[0..k];
            assert(e@ =~= name@.take(k as int));
            e
        } else {
            name
        },
        None => name,
    }
}

/// The file name has the extension `expected`, compared without regard to ASCII case.
pub open spec fn has_ext(name: Seq<char>, expected: Seq<char>) -> bool {
    match extension(name) {
        Some(e) => lower(e) == lower(expected),
        None => false,
    }
}

/// Whether the file name has the given extension (in any ASCII case).
pub fn has_extension(name: &str, expected: &str) -> (r: bool)
    ensures
        r == has_ext(name@, expected@),
{
    let n = chars_of(name);
    match file_extension(&n) {
        Some(e) => {
            let le = lower_of(e);
            let lx = lower_of(&chars_of(expected));
            crate::rules::evidence::slice_eq(&le, &lx)
        },
        None => false,
    }
}

} // verus!

verus! {

/// Crash dumps this many seconds outside the log's time window still count as in it.
pub const RELATION_TOLERANCE_SECONDS: u64 = 120;

/// How a crash dump's time relates to the current log's time window.
pub open spec fn relation(dump: Option<u64>, start: Option<u64>, end: Option<u64>) -> Seq<char> {
    match (dump, start, end) {
        (Some(d), Some(s), Some(e)) => if d + 120 < s {
            "before_current_log"@
        } else if d > e + 120 {
            "after_current_log"@
        } else {
            "current_log_window"@
        },
        _ => "unknown"@,
    }
}

/// Whether the sums that the relation computes fit in `u64`: the dump's
/// time plus the tolerance, when all three times are known, and the log's end
/// plus the tolerance, when the dump is not before the log.
pub open spec fn relation_fits(dump: Option<u64>, start: Option<u64>, end: Option<u64>) -> bool {
    match (dump, start, end) {
        (Some(d), Some(s), Some(e)) => d + 120 <= u64::MAX && (d + 120 >= s ==> e + 120
            <= u64::MAX),
        _ => true,
    }
}

/// `unknown`, `before_current_log`, `after_current_log` or
/// `current_log_window`, with two minutes of tolerance either side.
pub fn crash_report_relation(
    dump_modified_unix_seconds: Option<u64>,
    log_start_unix_seconds: Option<u64>,
    log_end_unix_seconds: Option<u64>,
) -> (r: String)
    requires
        relation_fits(dump_modified_unix_seconds, log_start_unix_seconds, log_end_unix_seconds),
    ensures
        r@ == relation(dump_modified_unix_seconds, log_start_unix_seconds, log_end_unix_seconds),
{
    match (dump_modified_unix_seconds, log_start_unix_seconds, log_end_unix_seconds) {
        (Some(dump_time), Some(start), Some(end)) => {
            if dump_time + RELATION_TOLERANCE_SECONDS < start {
                crate::text::string_from("before_current_log")
            } else if dump_time > end + RELATION_TOLERANCE_SECONDS {
                crate::text::string_from("after_current_log")
            } else {
                crate::text::string_from("current_log_window")
            }
        },
        _ => crate::text::string_from("unknown"),
    }
}

/// `x as i64`: values above `i64::MAX` wrap around.
pub open spec fn as_i64(x: u64) -> int {
    if x > i64::MAX {
        x - 0x1_0000_0000_0000_0000
    } else {
        x as int
    }
}

/// The difference of two times, when both are known.
pub open spec fn seconds_diff(left: Option<u64>, right: Option<u64>) -> Option<int> {
    match (left, right) {
        (Some(l), Some(r)) => Some(as_i64(l) - as_i64(r)),
        _ => None,
    }
}

/// `left - right` in signed seconds, when both are known.
pub fn seconds_between(left: Option<u64>, right: Option<u64>) -> (r: Option<i64>)
    requires
        seconds_diff(left, right) matches Some(d) ==> i64::MIN <= d <= i64::MAX,
    ensures
        match r {
            Some(d) => seconds_diff(left, right) == Some(d as int),
            None => seconds_diff(left, right) is None,
        },
{
    match (left, right) {
        (Some(l), Some(r)) => {
            let a: i64 = if l > 9223372036854775807u64 {
                (l - 9223372036854775808u64) as i64 - 9223372036854775807i64 - 1
            } else {
                l as i64
            };
            let b: i64 = if r > 9223372036854775807u64 {
                (r - 9223372036854775808u64) as i64 - 9223372036854775807i64 - 1
            } else {
                r as i64
            };
            Some(a - b)
        },
        _ => None,
    }
}

} // verus!

verus! {

/// A crash UUID found in a log, with the log that names it.
#[derive(Clone, Debug)]
pub struct LogUuidMatch {
    pub uuid: String,
    pub source: String,
    pub file_name: Option<String>,
}

/// The contents of a [`LogUuidMatch`].
pub struct MatchView {
    pub uuid: Seq<char>,
    pub source: Seq<char>,
    pub file_name: Option<Seq<char>>,
}

impl View for LogUuidMatch {
    type V = MatchView;

    open spec fn view(&self) -> MatchView {
        MatchView { uuid: self.uuid@, source: self.source@, file_name: opt_str(self.file_name) }
    }
}

pub open spec fn match_views(v: Seq<LogUuidMatch>) -> Seq<MatchView> {
    v.map_values(|m: LogUuidMatch| m@)
}

/// Two texts equal when ASCII case is ignored.
pub open spec fn same_ignoring_case(a: Seq<char>, b: Seq<char>) -> bool {
    lower(a) == lower(b)
}

/// The UUIDs of the current log, as matches.
pub open spec fn current_candidates(uuids: Seq<Seq<char>>) -> Seq<MatchView> {
    uuids.map_values(|u: Seq<char>| MatchView { uuid: u, source: "current_log"@, file_name: Some("Log.txt"@) })
}

/// The UUIDs of one archived main log, as matches.
pub open spec fn archive_candidates(a: LogArchiveSnapshot) -> Seq<MatchView> {
    if a.kind@ == "main_log"@ {
        crate::text::string_views(a.crash_uuids@).map_values(
            |u: Seq<char>| MatchView { uuid: u, source: "log_archive"@, file_name: Some(a.name@) },
        )
    } else {
        seq![]
    }
}

/// The UUIDs of all archived main logs, in order.
pub open spec fn archives_candidates(archives: Seq<LogArchiveSnapshot>) -> Seq<MatchView>
    decreases archives.len(),
{
    if archives.len() == 0 {
        seq![]
    } else {
        archives_candidates(archives.drop_last()) + archive_candidates(archives.last())
    }
}

/// Keeps the first match of each UUID (ignoring ASCII case), in order.
pub open spec fn first_of_each(c: Seq<MatchView>) -> Seq<MatchView>
    decreases c.len(),
{
    if c.len() == 0 {
        seq![]
    } else {
        let d = first_of_each(c.drop_last());
        if exists|j: int| 0 <= j < d.len() && same_ignoring_case(#[trigger] d[j].uuid, c.last().uuid) {
            d
        } else {
            d.push(c.last())
        }
    }
}

/// The first match whose UUID equals `uuid` ignoring ASCII case.
pub open spec fn find_match(uuid: Seq<char>, m: Seq<MatchView>) -> Option<MatchView>
    decreases m.len(),
{
    if m.len() == 0 {
        None
    } else if same_ignoring_case(m[0].uuid, uuid) {
        Some(m[0])
    } else {
        find_match(uuid, m.drop_first())
    }
}

fn copy_string(s: &String) -> (r: String)
    ensures
        r@ == s@,
{
    let mut r = String::new();
    crate::text::push_chars(&mut r, &chars_of(s.as_str()));
    r
}

fn same_ignoring_case_exec(a: &String, b: &String) -> (r: bool)
    ensures
        r == same_ignoring_case(a@, b@),
{
    let la = lower_of(&chars_of(a.as_str()));
    let lb = lower_of(&chars_of(b.as_str()));
    crate::rules::evidence::slice_eq(&la, &lb)
}

fn push_log_uuid_match(matches: &mut Vec<LogUuidMatch>, candidate: LogUuidMatch)
    ensures
        match_views(final(matches)@) == (if exists|j: int|
            0 <= j < match_views(old(matches)@).len() && same_ignoring_case(
                #[trigger] match_views(old(matches)@)[j].uuid,
                candidate@.uuid,
            ) {
            match_views(old(matches)@)
        } else {
            match_views(old(matches)@).push(candidate@)
        }),
{
    let ghost before = match_views(matches@);
    let mut i: usize = 0;
    while i < matches.len()
        invariant
            i <= matches.len(),
            before == match_views(matches@),
            forall|j: int| 0 <= j < i ==> !same_ignoring_case(#[trigger] before[j].uuid, candidate@.uuid),
        decreases matches.len() - i,
    {
        if same_ignoring_case_exec(&matches[i].uuid, &candidate.uuid) {
            assert(same_ignoring_case(before[i as int].uuid, candidate@.uuid));
            return;
        }
        i = i + 1;
    }
    matches.push(candidate);
    assert(match_views(matches@) =~= before.push(candidate@));
}

/// The crash UUIDs of the current log and of the archived main logs, each
/// kept at its first appearance (ignoring ASCII case), with where it was found.
pub fn collect_log_uuid_matches(
    current_log_crash_uuids: &Vec<String>,
    log_archive_files: &Vec<LogArchiveSnapshot>,
) -> (r: Vec<LogUuidMatch>)
    ensures
        match_views(r@) == first_of_each(
            current_candidates(crate::text::string_views(current_log_crash_uuids@))
                + archives_candidates(log_archive_files@),
        ),
{
    let ghost cur = current_candidates(crate::text::string_views(current_log_crash_uuids@));
    let ghost all = cur + archives_candidates(log_archive_files@);
    let mut matches: Vec<LogUuidMatch> = Vec::new();
    let ghost mut seen: Seq<MatchView> = seq![];
    let mut i: usize = 0;
    while i < current_log_crash_uuids.len()
        invariant
            i <= current_log_crash_uuids.len(),
            cur == current_candidates(crate::text::string_views(current_log_crash_uuids@)),
            seen == cur.take(i as int),
            match_views(matches@) == first_of_each(seen),
        decreases current_log_crash_uuids.len() - i,
    {
        let candidate = LogUuidMatch {
            uuid: copy_string(&current_log_crash_uuids[i]),
            source: crate::text::string_from("current_log"),
            file_name: Some(crate::text::string_from("Log.txt")),
        };
        push_log_uuid_match(&mut matches, candidate);
        proof {
            let next = cur.take(i + 1);
            assert(next.drop_last() =~= seen);
            assert(next.last() == candidate@);
            seen = next;
        }
        i = i + 1;
    }
    assert(seen =~= cur);
    let mut k: usize = 0;
    while k < log_archive_files.len()
        invariant
            k <= log_archive_files.len(),
            seen == cur + archives_candidates(log_archive_files@.take(k as int)),
            match_views(matches@) == first_of_each(seen),
        decreases log_archive_files.len() - k,
    {
        let archive = &log_archive_files[k];
        let ghost base = seen;
        let ghost add = archive_candidates(*archive);
        assert(log_archive_files@.take(k + 1).drop_last() =~= log_archive_files@.take(k as int));
        if string_is_main_log(&archive.kind) {
            let mut j: usize = 0;
            while j < archive.crash_uuids.len()
                invariant
                    j <= archive.crash_uuids.len(),
                    archive.kind@ == "main_log"@,
                    add == archive_candidates(*archive),
                    seen == base + add.take(j as int),
                    match_views(matches@) == first_of_each(seen),
                decreases archive.crash_uuids.len() - j,
            {
                let candidate = LogUuidMatch {
                    uuid: copy_string(&archive.crash_uuids[j]),
                    source: crate::text::string_from("log_archive"),
                    file_name: Some(copy_string(&archive.name)),
                };
                push_log_uuid_match(&mut matches, candidate);
                proof {
                    let next = base + add.take(j + 1);
                    assert(next.drop_last() =~= seen);
                    assert(next.last() == candidate@);
                    seen = next;
                }
                j = j + 1;
            }
            assert(add.take(add.len() as int) =~= add);
        } else {
            assert(base + add =~= base);
        }
        proof {
            assert(archives_candidates(log_archive_files@.take(k + 1)) == archives_candidates(log_archive_files@.take(k as int)) + add);
            assert(seen =~= cur + archives_candidates(log_archive_files@.take(k + 1)));
        }
        k = k + 1;
    }
    assert(log_archive_files@.take(log_archive_files.len() as int) =~= log_archive_files@);
    matches
}

fn string_is_main_log(s: &String) -> (r: bool)
    ensures
        r == (s@ == "main_log"@),
{
    crate::text::string_is(s, "main_log")
}

/// The first match for `uuid`, ignoring ASCII case.
pub fn find_log_uuid_match(uuid: &String, matches: &Vec<LogUuidMatch>) -> (r: Option<LogUuidMatch>)
    ensures
        match r {
            Some(m) => find_match(uuid@, match_views(matches@)) == Some(m@),
            None => find_match(uuid@, match_views(matches@)) is None,
        },
{
    let ghost mv = match_views(matches@);
    assert(mv.skip(0) =~= mv);
    let mut i: usize = 0;
    while i < matches.len()
        invariant
            i <= matches.len(),
            mv == match_views(matches@),
            find_match(uuid@, mv) == find_match(uuid@, mv.skip(i as int)),
        decreases matches.len() - i,
    {
        assert(mv.skip(i as int)[0] == mv[i as int]);
        assert(mv.skip(i as int).drop_first() =~= mv.skip(i + 1));
        if same_ignoring_case_exec(&matches[i].uuid, uuid) {
            let m = &matches[i];
            let file_name = match &m.file_name {
                Some(f) => Some(copy_string(f)),
                None => None,
            };
            let r = LogUuidMatch { uuid: copy_string(&m.uuid), source: copy_string(&m.source), file_name };
            return Some(r);
        }
        i = i + 1;
    }
    None
}

/// The match for a crash dump: by the stem of its file name, in lower case.
pub open spec fn dump_match(file_name: Seq<char>, matches: Seq<MatchView>) -> Option<MatchView> {
    find_match(lower(file_stem(file_name)), matches)
}

/// The dump's UUID was found in the current log.
pub open spec fn matched_current(m: Option<MatchView>) -> bool {
    m matches Some(x) && x.source == "current_log"@
}

/// What a crash dump says about the current session: the file's name,
/// place and metadata as given; its relation to the current log (matched by
/// UUID, or by time); the log its UUID was found in; and how far its time is
/// from the log's start and end.
pub fn crash_report_snapshot(
    file_name: String,
    path: String,
    size_bytes: u64,
    modified_at_unix_seconds: Option<u64>,
    log_uuid_matches: &Vec<LogUuidMatch>,
    log_start_unix_seconds: Option<u64>,
    log_end_unix_seconds: Option<u64>,
) -> (r: crate::model::CrashReportSnapshot)
    requires
        !matched_current(dump_match(file_name@, match_views(log_uuid_matches@))) ==> relation_fits(
            modified_at_unix_seconds,
            log_start_unix_seconds,
            log_end_unix_seconds,
        ),
        seconds_diff(modified_at_unix_seconds, log_start_unix_seconds) matches Some(d) ==> i64::MIN
            <= d <= i64::MAX,
        seconds_diff(modified_at_unix_seconds, log_end_unix_seconds) matches Some(d) ==> i64::MIN
            <= d <= i64::MAX,
    ensures
        r.file_name@ == file_name@,
        r.path@ == path@,
        r.size_bytes == size_bytes,
        r.modified_at_unix_seconds == modified_at_unix_seconds,
        r.relation_to_current_log@ == (if matched_current(
            dump_match(file_name@, match_views(log_uuid_matches@)),
        ) {
            "uuid_matched"@
        } else {
            relation(modified_at_unix_seconds, log_start_unix_seconds, log_end_unix_seconds)
        }),
        match dump_match(file_name@, match_views(log_uuid_matches@)) {
            Some(m) => opt_str(r.matched_log_uuid) == Some(m.uuid) && opt_str(r.matched_log_source)
                == Some(m.source) && opt_str(r.matched_log_file) == m.file_name,
            None => r.matched_log_uuid is None && r.matched_log_source is None
                && r.matched_log_file is None,
        },
        match r.seconds_from_log_start {
            Some(d) => seconds_diff(modified_at_unix_seconds, log_start_unix_seconds) == Some(
                d as int,
            ),
            None => seconds_diff(modified_at_unix_seconds, log_start_unix_seconds) is None,
        },
        match r.seconds_from_log_end {
            Some(d) => seconds_diff(modified_at_unix_seconds, log_end_unix_seconds) == Some(
                d as int,
            ),
            None => seconds_diff(modified_at_unix_seconds, log_end_unix_seconds) is None,
        },
{
    let name = chars_of(file_name.as_str());
    let stem = lower_of(file_stem_of(&name));
    let dump_uuid = string_of(&stem);
    let matched = find_log_uuid_match(&dump_uuid, log_uuid_matches);
    let is_current = match &matched {
        Some(m) => crate::text::string_is(&m.source, "current_log"),
        None => false,
    };
    let relation_to_current_log = if is_current {
        crate::text::string_from("uuid_matched")
    } else {
        crash_report_relation(modified_at_unix_seconds, log_start_unix_seconds, log_end_unix_seconds)
    };
    let (matched_log_uuid, matched_log_source, matched_log_file) = match matched {
        Some(m) => (Some(m.uuid), Some(m.source), m.file_name),
        None => (None, None, None),
    };
    crate::model::CrashReportSnapshot {
        file_name,
        path,
        size_bytes,
        modified_at_unix_seconds,
        relation_to_current_log,
        matched_log_uuid,
        matched_log_source,
        matched_log_file,
        seconds_from_log_start: seconds_between(modified_at_unix_seconds, log_start_unix_seconds),
        seconds_from_log_end: seconds_between(modified_at_unix_seconds, log_end_unix_seconds),
    }
}

} // verus!

verus! {

/// The simulator time at the start of a line as the archive scan reads it:
/// the first word split at `:` into exactly three numbers, hours, minutes
/// and seconds; in units of `10^-18` seconds.
pub open spec fn elapsed_of(line: Seq<char>) -> Option<int> {
    match first_word(line) {
        None => None,
        Some(tok) => match (
            split_field(tok, ":"@, 0),
            split_field(tok, ":"@, 1),
            split_field(tok, ":"@, 2),
        ) {
            (Some(a), Some(b), Some(c)) => if split_field(tok, ":"@, 3) is Some {
                None
            } else {
                match (parse_dec(a), parse_dec(b), parse_dec(c)) {
                    (Some(h), Some(m), Some(s)) => Some(1000 * (3600 * v15(h) + 60 * v15(m) + v15(s))),
                    _ => None,
                }
            },
            _ => None,
        },
    }
}

/// The largest such time over the lines.
pub open spec fn max_elapsed(ls: Seq<Seq<char>>) -> Option<int>
    decreases ls.len(),
{
    if ls.len() == 0 {
        None
    } else {
        let prev = max_elapsed(ls.drop_last());
        match elapsed_of(ls.last()) {
            None => prev,
            Some(v) => match prev {
                Some(p) => if p > v { Some(p) } else { Some(v) },
                None => Some(v),
            },
        }
    }
}

/// The simulator time at the start of a line, in units of `10^-18` seconds.
pub fn parse_elapsed_seconds_prefix(line: &[char]) -> (r: Option<i128>)
    ensures
        match r {
            Some(v) => elapsed_of(line@) == Some(v as int) && -ELAPSED_BOUND < v < ELAPSED_BOUND,
            None => elapsed_of(line@) is None,
        },
{
    let tok = match first_word_slice(line) {
        None => return None,
        Some(t) => t,
    };
    let a = match split_field_exec(tok, ":", 0) {
        None => return None,
        Some(a) => a,
    };
    let b = match split_field_exec(tok, ":", 1) {
        None => return None,
        Some(b) => b,
    };
    let c = match split_field_exec(tok, ":", 2) {
        None => return None,
        Some(c) => c,
    };
    if split_field_exec(tok, ":", 3).is_some() {
        return None;
    }
    let h = match parse_field(a) {
        None => return None,
        Some(v) => v,
    };
    let m = match parse_field(b) {
        None => return None,
        Some(v) => v,
    };
    let s = match parse_field(c) {
        None => return None,
        Some(v) => v,
    };
    Some(1000 * (3600 * h + 60 * m + s))
}

/// Every such time lies strictly within this bound.
pub const ELAPSED_BOUND: i128 = 10_000_000_000_000_000_000_000_000_000_000_000_000;

/// The largest simulator time any line of the log starts with, in units of
/// `10^-18` seconds.
pub fn max_log_elapsed_seconds(log_text: &str) -> (r: Option<i128>)
    ensures
        match r {
            Some(v) => max_elapsed(lines(log_text@)) == Some(v as int) && -ELAPSED_BOUND < v < ELAPSED_BOUND,
            None => max_elapsed(lines(log_text@)) is None,
        },
{
    let t = chars_of(log_text);
    let ls = lines_of(&t);
    let ghost lv = seqs_of(ls@);
    let mut best: Option<i128> = None;
    let mut i: usize = 0;
    while i < ls.len()
        invariant
            i <= ls.len(),
            lv == seqs_of(ls@),
            match best {
                Some(v) => max_elapsed(lv.take(i as int)) == Some(v as int) && -ELAPSED_BOUND < v < ELAPSED_BOUND,
                None => max_elapsed(lv.take(i as int)) is None,
            },
        decreases ls.len() - i,
    {
        assert(lv.take(i + 1).drop_last() =~= lv.take(i as int));
        assert(lv.take(i + 1).last() == ls@[i as int]@);
        match parse_elapsed_seconds_prefix(ls[i].as_slice()) {
            None => {},
            Some(v) => {
                best = match best {
                    Some(p) => if p > v { Some(p) } else { Some(v) },
                    None => Some(v),
                };
            },
        }
        i = i + 1;
    }
    assert(lv.take(ls.len() as int) =~= lv);
    assert(lv == lines(log_text@));
    best
}

/// `ceil(e / 10^18) as u64`: rounded up to whole seconds, negative times as
/// zero.
pub open spec fn whole_seconds_up(e: int) -> int {
    let c = if e >= 0 {
        (e + 999_999_999_999_999_999) / 1_000_000_000_000_000_000
    } else {
        -((-e) / 1_000_000_000_000_000_000)
    };
    if c < 0 {
        0
    } else if c > u64::MAX {
        u64::MAX as int
    } else {
        c
    }
}

/// When the log started: its last change less the longest simulator time
/// in it (rounded up to whole seconds), not below zero.
pub open spec fn inferred_start(modified: Option<u64>, elapsed: Option<int>) -> Option<u64> {
    match (modified, elapsed) {
        (Some(m), Some(e)) => Some(
            if m >= whole_seconds_up(e) {
                (m - whole_seconds_up(e)) as u64
            } else {
                0u64
            },
        ),
        _ => None,
    }
}

/// The time the log started, from its last change and its longest
/// simulator time (in units of `10^-18` seconds).
pub fn infer_log_start_unix_seconds(
    log_modified_unix_seconds: Option<u64>,
    max_elapsed_seconds: Option<i128>,
) -> (r: Option<u64>)
    requires
        max_elapsed_seconds matches Some(e) ==> -ELAPSED_BOUND < e < ELAPSED_BOUND,
    ensures
        r == inferred_start(
            log_modified_unix_seconds,
            match max_elapsed_seconds {
                Some(e) => Some(e as int),
                None => None,
            },
        ),
{
    let modified = match log_modified_unix_seconds {
        None => return None,
        Some(m) => m,
    };
    let elapsed = match max_elapsed_seconds {
        None => return None,
        Some(e) => e,
    };
    let c: i128 = if elapsed >= 0 {
        (elapsed + 999_999_999_999_999_999) / 1_000_000_000_000_000_000
    } else {
        -((-elapsed) / 1_000_000_000_000_000_000)
    };
    let whole: u64 = if c < 0 {
        0
    } else if c > 18_446_744_073_709_551_615i128 {
        18_446_744_073_709_551_615u64
    } else {
        c as u64
    };
    Some(if modified >= whole { modified - whole } else { 0 })
}

} // verus!

verus! {

/// What a collection records of a `Log.txt` it could read: its size and
/// time as given, its line count, longest simulator time and inferred start,
/// whether it shut down cleanly or crashed, its crash UUIDs and its system
/// summary; `redacted_file` names the redacted copy written beside the bundle.
pub fn log_snapshot(
    log_text: &str,
    size_bytes: Option<u64>,
    modified_at_unix_seconds: Option<u64>,
    redacted_file: String,
) -> (r: crate::model::LogSnapshot)
    ensures
        r.present,
        r.read_error is None,
        r.redacted_file matches Some(f) && f@ == redacted_file@,
        r.size_bytes == size_bytes,
        r.modified_at_unix_seconds == modified_at_unix_seconds,
        r.line_count == lines(log_text@).len(),
        match r.max_elapsed_seconds {
            Some(v) => max_elapsed(lines(log_text@)) == Some(v as int),
            None => max_elapsed(lines(log_text@)) is None,
        },
        r.inferred_start_unix_seconds == inferred_start(
            modified_at_unix_seconds,
            max_elapsed(lines(log_text@)),
        ),
        r.clean_shutdown == has_clean_shutdown(log_text@),
        r.crashed == has_crash_marker(log_text@),
        crate::text::string_views(r.crash_uuids@) == crash_uuids(log_text@),
        opt_str(r.summary.xplane_version) == first_where(head_lines(log_text@), |l: Seq<char>| version_line(l)),
        opt_str(r.summary.os) == first_where(head_lines(log_text@), |l: Seq<char>| os_line(l)),
        opt_str(r.summary.cpu) == first_where(head_lines(log_text@), |l: Seq<char>| cpu_line(l)),
        opt_str(r.summary.gpu) == first_where(head_lines(log_text@), |l: Seq<char>| gpu_line(l)),
        opt_str(r.summary.aircraft) == first_where(head_lines(log_text@), |l: Seq<char>| aircraft_line(l)),
{
    let t = chars_of(log_text);
    let ls = lines_of(&t);
    assert(seqs_of(ls@).len() == ls@.len());
    let max_elapsed_seconds = max_log_elapsed_seconds(log_text);
    crate::model::LogSnapshot {
        present: true,
        read_error: None,
        redacted_file: Some(redacted_file),
        size_bytes,
        modified_at_unix_seconds,
        line_count: ls.len(),
        max_elapsed_seconds,
        inferred_start_unix_seconds: infer_log_start_unix_seconds(
            modified_at_unix_seconds,
            max_elapsed_seconds,
        ),
        clean_shutdown: log_has_clean_shutdown(log_text),
        crashed: log_has_crash_marker(log_text),
        crash_uuids: extract_crash_uuids(log_text),
        summary: summarize_log(log_text),
    }
}

/// What a collection records of a `Log.txt` it could not read: whether it
/// is there, the error, and its size and time where known.
pub fn unreadable_log_snapshot(
    present: bool,
    read_error: String,
    size_bytes: Option<u64>,
    modified_at_unix_seconds: Option<u64>,
) -> (r: crate::model::LogSnapshot)
    ensures
        r.present == present,
        r.read_error matches Some(e) && e@ == read_error@,
        r.redacted_file is None,
        r.size_bytes == size_bytes,
        r.modified_at_unix_seconds == modified_at_unix_seconds,
        r.line_count == 0,
        r.max_elapsed_seconds is None,
        r.inferred_start_unix_seconds is None,
        !r.clean_shutdown,
        !r.crashed,
        r.crash_uuids.len() == 0,
        r.summary.xplane_version is None && r.summary.os is None && r.summary.cpu is None
            && r.summary.gpu is None && r.summary.aircraft is None,
{
    crate::model::LogSnapshot {
        present,
        read_error: Some(read_error),
        redacted_file: None,
        size_bytes,
        modified_at_unix_seconds,
        line_count: 0,
        max_elapsed_seconds: None,
        inferred_start_unix_seconds: None,
        clean_shutdown: false,
        crashed: false,
        crash_uuids: Vec::new(),
        summary: SystemSummary::default(),
    }
}

/// The first line that `p` accepts, taken trimmed: there is one exactly when
/// some line is accepted, it is accepted, and no line before it is.
pub open spec fn is_first_accepted(ls: Seq<Seq<char>>, p: spec_fn(Seq<char>) -> bool, r: Option<Seq<char>>) -> bool {
    match r {
        Some(x) => exists|i: int|
            0 <= i < ls.len() && p(#[trigger] ls[i]) && x == trim(ls[i]) && forall|j: int|
                0 <= j < i ==> !p(#[trigger] ls[j]),
        None => forall|i: int| 0 <= i < ls.len() ==> !p(#[trigger] ls[i]),
    }
}

/// Each summary field is the first matching line, not a later one: the
/// line chosen matches, no line before it does, and there is none only when
/// no line matches.
pub proof fn law_first_where_takes_the_first(ls: Seq<Seq<char>>, p: spec_fn(Seq<char>) -> bool)
    ensures
        is_first_accepted(ls, p, first_where(ls, p)),
    decreases ls.len(),
{
    if ls.len() > 0 {
        let init = ls.drop_last();
        law_first_where_takes_the_first(init, p);
        match first_where(init, p) {
            Some(x) => {
                let i = choose|i: int|
                    0 <= i < init.len() && p(#[trigger] init[i]) && x == trim(init[i]) && forall|j: int|
                        0 <= j < i ==> !p(#[trigger] init[j]);
                assert(ls[i] == init[i]);
                assert forall|j: int| 0 <= j < i implies !p(#[trigger] ls[j]) by {
                    assert(ls[j] == init[j]);
                }
            },
            None => {
                assert forall|j: int| 0 <= j < ls.len() - 1 implies !p(#[trigger] ls[j]) by {
                    assert(ls[j] == init[j]);
                }
            },
        }
    }
}

/// Which lines name what: the version line starts `Log.txt for X-Plane`; the
/// system line starts `OS:` or names Windows or macOS; the CPU line starts
/// `CPU type:` or `CPU:`; the GPU line names a GPU, an OpenGL renderer or a
/// Vulkan device; the aircraft line, in lower case, says `loading aircraft`
/// or names an `.acf` file.
pub proof fn law_summary_lines(l: Seq<char>)
    ensures
        version_line(l) <==> starts_with(l, "Log.txt for X-Plane"@),
        os_line(l) <==> starts_with(l, "OS:"@) || contains(l, "Windows"@) || contains(l, "macOS"@),
        cpu_line(l) <==> starts_with(l, "CPU type:"@) || starts_with(l, "CPU:"@),
        gpu_line(l) <==> contains(l, "GPU"@) || contains(l, "OpenGL Renderer"@) || contains(
            l,
            "Vulkan Device"@,
        ),
        aircraft_line(l) <==> contains(lower(l), "loading aircraft"@) || contains(lower(l), ".acf"@),
{
}

} // verus!
