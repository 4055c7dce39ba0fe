//! The scenery pack list, `Custom Scenery/scenery_packs.ini`: its entries,
//! the folders they name that are missing, and the paths enabled twice.
use vstd::prelude::*;

use crate::collect::scenery_path;
use crate::i18n::{pick, tr, Locale};
use crate::model::{
    new_finding, views, Confidence, DuplicatePathSnapshot, Finding, FindingView, SceneryEntry,
    SceneryPackSnapshot, Severity,
};
use crate::redact::{redact_sensitive_text, redacted};
use crate::tally::{lemma_tally_bound, tally, tally_push, tally_view};
use crate::text::{
    chars_of, decimal, ends_with, lines, lines_of, lower, lower_of, push_chars, push_decimal,
    push_str, seqs_of, starts_with, starts_with_str, string_from, string_of, string_views, trim,
    trim_slice,
};

verus! {

/// `s` with every trailing `c` removed (`str::trim_end_matches`).
pub open spec fn trim_end_char(s: Seq<char>, c: char) -> Seq<char>
    decreases s.len(),
{
    if s.len() > 0 && s.last() == c {
        trim_end_char(s.drop_last(), c)
    } else {
        s
    }
}

/// One scenery pack line: the line as read, the path it names (without
/// trailing slashes), whether it is disabled, and whether it is a special
/// `*...*` entry.
pub struct PackView {
    pub raw: Seq<char>,
    pub path: Seq<char>,
    pub disabled: bool,
    pub special: bool,
}

/// The scenery pack a line of the list names, if it names one.
pub open spec fn pack_of(raw: Seq<char>) -> Option<PackView> {
    let line = trim(raw);
    if !starts_with(line, "SCENERY_PACK"@) {
        None
    } else {
        let path = trim_end_char(trim_end_char(scenery_path(line), '/'), '\\');
        if path.len() == 0 {
            None
        } else {
            Some(
                PackView {
                    raw,
                    path,
                    disabled: starts_with(line, "SCENERY_PACK_DISABLED"@),
                    special: starts_with(path, "*"@) && ends_with(path, "*"@),
                },
            )
        }
    }
}

/// The scenery packs of the given lines, in order.
pub open spec fn packs(ls: Seq<Seq<char>>) -> Seq<PackView>
    decreases ls.len(),
{
    if ls.len() == 0 {
        seq![]
    } else {
        packs(ls.drop_last()) + match pack_of(ls.last()) {
            Some(p) => seq![p],
            None => seq![],
        }
    }
}

/// One scenery pack line of `scenery_packs.ini`.
#[derive(Clone, Debug)]
pub struct SceneryPackLine {
    pub raw: String,
    pub path: String,
    pub disabled: bool,
    pub special_entry: bool,
}

impl View for SceneryPackLine {
    type V = PackView;

    open spec fn view(&self) -> PackView {
        PackView {
            raw: self.raw@,
            path: self.path@,
            disabled: self.disabled,
            special: self.special_entry,
        }
    }
}

pub open spec fn pack_views(v: Seq<SceneryPackLine>) -> Seq<PackView> {
    v.map_values(|p: SceneryPackLine| p@)
}

fn trim_end_char_slice(s: &[char], c: char) -> (r: &[char])
    ensures
        r@ == trim_end_char(s@, c),
{
    let mut j: usize = s.len();
    assert(s@.take(s.len() as int) =~= s@);
    while j > 0 && s[j - 1] == c
        invariant
            j <= s.len(),
            trim_end_char(s@, c) == trim_end_char(s@.take(j as int), c),
        decreases j,
    {
        assert(s@.take(j as int).drop_last() =~= s@.take(j - 1));
        j = j - 1;
    }
    let r = &s[0..j];
    assert(r@ =~= s@.take(j as int));
    r
}

fn pack_of_line(raw: &[char]) -> (r: Option<SceneryPackLine>)
    ensures
        match r {
            Some(p) => pack_of(raw@) == Some(p@),
            None => pack_of(raw@) is None,
        },
{
    let line = trim_slice(raw);
    if !starts_with_str(line, "SCENERY_PACK") {
        return None;
    }
    let p1 = trim_end_char_slice(crate::collect::scenery_path_slice(line), '/');
    let path = trim_end_char_slice(p1, '\\');
    if path.len() == 0 {
        return None;
    }
    let special = starts_with_str(path, "*") && crate::text::ends_with_str(path, "*");
    Some(
        SceneryPackLine {
            raw: string_of(raw),
            path: string_of(path),
            disabled: starts_with_str(line, "SCENERY_PACK_DISABLED"),
            special_entry: special,
        },
    )
}

/// The scenery packs that the lines of `scenery_packs.ini` name, in order.
pub fn scenery_pack_lines(text: &str) -> (r: Vec<SceneryPackLine>)
    ensures
        pack_views(r@) == packs(lines(text@)),
{
    let t = chars_of(text);
    let ls = lines_of(&t);
    let ghost lv = seqs_of(ls@);
    let mut out: Vec<SceneryPackLine> = Vec::new();
    let mut i: usize = 0;
    while i < ls.len()
        invariant
            i <= ls.len(),
            lv == seqs_of(ls@),
            pack_views(out@) == packs(lv.take(i as int)),
        decreases ls.len() - i,
    {
        assert(lv.take(i + 1).drop_last() =~= lv.take(i as int));
        assert(lv.take(i + 1).last() == ls@[i as int]@);
        let ghost before = pack_views(out@);
        match pack_of_line(ls[i].as_slice()) {
            Some(p) => {
                out.push(p);
                assert(pack_views(out@) =~= before + seq![p@]);
            },
            None => {
                assert(pack_views(out@) =~= before + Seq::<PackView>::empty());
            },
        }
        i = i + 1;
    }
    assert(lv.take(ls.len() as int) =~= lv);
    out
}

/// An enabled entry that is not a special one.
pub open spec fn is_active(p: PackView) -> bool {
    !p.disabled && !p.special
}

/// The lower-cased paths of the active entries among the first `n`.
pub open spec fn active_keys(ps: Seq<PackView>, n: nat) -> Seq<Seq<char>>
    decreases n,
{
    if n == 0 || n > ps.len() {
        seq![]
    } else {
        active_keys(ps, (n - 1) as nat) + if is_active(ps[n - 1]) {
            seq![lower(ps[n - 1].path)]
        } else {
            seq![]
        }
    }
}

/// The `missing_scenery_path` finding for a line.
pub open spec fn missing_path_finding(raw: Seq<char>, loc: Locale) -> FindingView {
    new_finding(
        Severity::High,
        Confidence::High,
        "missing_scenery_path"@,
        pick(loc, "scenery_packs.ini 指向不存在的 scenery 文件夹"@, "scenery_packs.ini points to a missing scenery folder"@),
        raw,
        pick(loc, "一个启用的地景条目指向不存在的文件夹。这可能导致启动警告或加载失败。"@, "An enabled scenery entry points to a folder that does not exist. This can cause startup warnings or loading failures."@),
        pick(loc, "备份 scenery_packs.ini，然后删除无效条目或重新安装缺失的地景包。"@, "Back up scenery_packs.ini, then remove the stale entry or reinstall the missing scenery package."@),
    )
}

/// The `duplicate_scenery_entry` finding for a path enabled `count` times.
pub open spec fn duplicate_entry_finding(path: Seq<char>, count: nat, loc: Locale) -> FindingView {
    new_finding(
        Severity::Medium,
        Confidence::High,
        "duplicate_scenery_entry"@,
        pick(loc, "scenery_packs.ini 存在重复的启用条目"@, "scenery_packs.ini has duplicate active entries"@),
        path + " appears "@ + decimal(count) + " times"@,
        pick(loc, "多次启用同一地景路径通常没有必要，可能增加加载顺序排查的难度。"@, "Enabling the same scenery path multiple times is usually unnecessary and can make load-order troubleshooting harder."@),
        pick(loc, "备份 scenery_packs.ini，然后为同一地景路径只保留一个启用条目。"@, "Back up scenery_packs.ini, then keep only one active entry for the same scenery path."@),
    )
}

/// Findings for the active entries, among the first `n`, whose folder is missing.
pub open spec fn missing_findings(ps: Seq<PackView>, exists: Seq<bool>, n: nat, loc: Locale) -> Seq<
    FindingView,
>
    decreases n,
{
    if n == 0 || n > ps.len() {
        seq![]
    } else {
        missing_findings(ps, exists, (n - 1) as nat, loc) + if is_active(ps[n - 1]) && !exists[n
            - 1] {
            seq![missing_path_finding(ps[n - 1].raw, loc)]
        } else {
            seq![]
        }
    }
}

/// Findings for the counted paths seen more than once, among the first `n` entries of the count.
pub open spec fn duplicate_findings(t: Seq<(Seq<char>, nat)>, n: nat, loc: Locale) -> Seq<
    FindingView,
>
    decreases n,
{
    if n == 0 || n > t.len() {
        seq![]
    } else {
        duplicate_findings(t, (n - 1) as nat, loc) + if t[n - 1].1 > 1 {
            seq![duplicate_entry_finding(t[n - 1].0, t[n - 1].1, loc)]
        } else {
            seq![]
        }
    }
}

/// The findings on the scenery list: each active entry whose folder is
/// missing, in list order, then each active path (ignoring ASCII case)
/// enabled more than once, in the order of its lower-cased text.
pub open spec fn scenery_findings(ps: Seq<PackView>, exists: Seq<bool>, loc: Locale) -> Seq<FindingView> {
    let t = tally(active_keys(ps, ps.len()));
    missing_findings(ps, exists, ps.len(), loc) + duplicate_findings(t, t.len(), loc)
}

fn missing_finding_exec(raw: &String, loc: Locale) -> (r: Finding)
    ensures
        r@ == missing_path_finding(raw@, loc),
{
    let mut evidence = String::new();
    push_chars(&mut evidence, &chars_of(raw.as_str()));
    Finding::new(
        Severity::High,
        Confidence::High,
        string_from("missing_scenery_path"),
        string_from(tr(loc, "scenery_packs.ini 指向不存在的 scenery 文件夹", "scenery_packs.ini points to a missing scenery folder")),
        evidence,
        string_from(tr(loc, "一个启用的地景条目指向不存在的文件夹。这可能导致启动警告或加载失败。", "An enabled scenery entry points to a folder that does not exist. This can cause startup warnings or loading failures.")),
        string_from(tr(loc, "备份 scenery_packs.ini，然后删除无效条目或重新安装缺失的地景包。", "Back up scenery_packs.ini, then remove the stale entry or reinstall the missing scenery package.")),
    )
}

fn duplicate_finding_exec(path: &[char], count: usize, loc: Locale) -> (r: Finding)
    ensures
        r@ == duplicate_entry_finding(path@, count as nat, loc),
{
    let mut evidence = string_of(path);
    push_str(&mut evidence, " appears ");
    push_decimal(&mut evidence, count as u64);
    push_str(&mut evidence, " times");
    Finding::new(
        Severity::Medium,
        Confidence::High,
        string_from("duplicate_scenery_entry"),
        string_from(tr(loc, "scenery_packs.ini 存在重复的启用条目", "scenery_packs.ini has duplicate active entries")),
        evidence,
        string_from(tr(loc, "多次启用同一地景路径通常没有必要，可能增加加载顺序排查的难度。", "Enabling the same scenery path multiple times is usually unnecessary and can make load-order troubleshooting harder.")),
        string_from(tr(loc, "备份 scenery_packs.ini，然后为同一地景路径只保留一个启用条目。", "Back up scenery_packs.ini, then keep only one active entry for the same scenery path.")),
    )
}

/// The count of active paths (lower-cased), kept in text order.
fn active_tally(packs: &Vec<SceneryPackLine>) -> (r: Vec<(Vec<char>, usize)>)
    ensures
        tally_view(r@) == tally(active_keys(pack_views(packs@), packs.len() as nat)),
{
    let ghost ps = pack_views(packs@);
    let mut t: Vec<(Vec<char>, usize)> = Vec::new();
    let mut i: usize = 0;
    while i < packs.len()
        invariant
            i <= packs.len(),
            ps == pack_views(packs@),
            tally_view(t@) == tally(active_keys(ps, i as nat)),
        decreases packs.len() - i,
    {
        let p = &packs[i];
        if !p.disabled && !p.special_entry {
            proof {
                lemma_tally_bound(active_keys(ps, i as nat));
                lemma_active_keys_len(ps, i as nat);
                assert forall|j: int| 0 <= j < t@.len() implies #[trigger] t@[j].1 < usize::MAX by {
                    assert(tally_view(t@)[j].1 == t@[j].1);
                }
            }
            let key = lower_of(&chars_of(p.path.as_str()));
            tally_push(&mut t, key);
            assert(active_keys(ps, (i + 1) as nat) =~= active_keys(ps, i as nat).push(
                lower(ps[i as int].path),
            ));
            assert(active_keys(ps, (i + 1) as nat).drop_last() =~= active_keys(ps, i as nat));
        } else {
            assert(active_keys(ps, (i + 1) as nat) =~= active_keys(ps, i as nat));
        }
        i = i + 1;
    }
    t
}

proof fn lemma_active_keys_len(ps: Seq<PackView>, n: nat)
    ensures
        active_keys(ps, n).len() <= n,
    decreases n,
{
    if n > 0 && n <= ps.len() {
        lemma_active_keys_len(ps, (n - 1) as nat);
    }
}

/// The findings and entries of a scenery list. `exists` tells, for each
/// pack in order, whether its folder exists under the installation.
pub fn scan_scenery_packs(
    packs: &Vec<SceneryPackLine>,
    exists: &Vec<bool>,
    findings: &mut Vec<Finding>,
    loc: Locale,
) -> (r: Vec<SceneryEntry>)
    requires
        exists.len() == packs.len(),
    ensures
        views(final(findings)@) == views(old(findings)@) + scenery_findings(
            pack_views(packs@),
            exists@,
            loc,
        ),
        r.len() == packs.len(),
        forall|i: int|
            0 <= i < packs.len() ==> (#[trigger] r@[i]).raw@ == packs@[i].raw@ && r@[i].path@
                == packs@[i].path@ && r@[i].disabled == packs@[i].disabled,
{
    let ghost ps = pack_views(packs@);
    let ghost start = views(findings@);
    let mut entries: Vec<SceneryEntry> = Vec::new();
    let mut i: usize = 0;
    while i < packs.len()
        invariant
            i <= packs.len(),
            exists.len() == packs.len(),
            ps == pack_views(packs@),
            views(findings@) == start + missing_findings(ps, exists@, i as nat, loc),
            entries.len() == i,
            forall|j: int|
                0 <= j < i ==> (#[trigger] entries@[j]).raw@ == packs@[j].raw@ && entries@[j].path@
                    == packs@[j].path@ && entries@[j].disabled == packs@[j].disabled,
        decreases packs.len() - i,
    {
        let p = &packs[i];
        let ghost before = views(findings@);
        if !p.disabled && !p.special_entry && !exists[i] {
            findings.push(missing_finding_exec(&p.raw, loc));
            assert(views(findings@) =~= before.push(missing_path_finding(ps[i as int].raw, loc)));
        }
        assert(missing_findings(ps, exists@, (i + 1) as nat, loc) =~= missing_findings(
            ps,
            exists@,
            i as nat,
            loc,
        ) + if is_active(ps[i as int]) && !exists@[i as int] {
            seq![missing_path_finding(ps[i as int].raw, loc)]
        } else {
            seq![]
        });
        let mut raw = String::new();
        push_chars(&mut raw, &chars_of(p.raw.as_str()));
        let mut path = String::new();
        push_chars(&mut path, &chars_of(p.path.as_str()));
        entries.push(SceneryEntry { raw, path, disabled: p.disabled });
        i = i + 1;
    }
    let t = active_tally(packs);
    let ghost tv = tally_view(t@);
    let ghost mid = views(findings@);
    let mut k: usize = 0;
    while k < t.len()
        invariant
            k <= t.len(),
            tv == tally_view(t@),
            views(findings@) == mid + duplicate_findings(tv, k as nat, loc),
        decreases t.len() - k,
    {
        let ghost before = views(findings@);
        if t[k].1 > 1 {
            findings.push(duplicate_finding_exec(t[k].0.as_slice(), t[k].1, loc));
            assert(views(findings@) =~= before.push(
                duplicate_entry_finding(tv[k as int].0, tv[k as int].1, loc),
            ));
        } else {
            assert(views(findings@) =~= before + Seq::<FindingView>::empty());
        }
        k = k + 1;
    }
    assert(views(findings@) =~= start + scenery_findings(ps, exists@, loc));
    entries
}

/// The finding that `scenery_packs.ini` is missing, at the path given.
pub fn missing_scenery_ini_finding(ini_path: &str, loc: Locale) -> (r: Finding)
    ensures
        r@ == new_finding(
            Severity::Low,
            Confidence::High,
            "missing_scenery_ini"@,
            pick(loc, "找不到 scenery_packs.ini"@, "scenery_packs.ini was not found"@),
            ini_path@,
            pick(loc, "X-Plane 在启动后创建 scenery_packs.ini。如果缺失，地景顺序可能尚未建立。"@, "X-Plane creates scenery_packs.ini after startup. If it is missing, scenery order may not be established yet."@),
            pick(loc, "启动 X-Plane 一次，关闭后再扫描。"@, "Start X-Plane once, close it, then scan again."@),
        ),
{
    Finding::new(
        Severity::Low,
        Confidence::High,
        string_from("missing_scenery_ini"),
        string_from(tr(loc, "找不到 scenery_packs.ini", "scenery_packs.ini was not found")),
        string_from(ini_path),
        string_from(tr(loc, "X-Plane 在启动后创建 scenery_packs.ini。如果缺失，地景顺序可能尚未建立。", "X-Plane creates scenery_packs.ini after startup. If it is missing, scenery order may not be established yet.")),
        string_from(tr(loc, "启动 X-Plane 一次，关闭后再扫描。", "Start X-Plane once, close it, then scan again.")),
    )
}

/// The paths of the active entries, among the first `n`, whose folder is missing.
pub open spec fn missing_paths(ps: Seq<PackView>, exists: Seq<bool>, n: nat) -> Seq<Seq<char>>
    decreases n,
{
    if n == 0 || n > ps.len() {
        seq![]
    } else {
        missing_paths(ps, exists, (n - 1) as nat) + if is_active(ps[n - 1]) && !exists[n - 1] {
            seq![ps[n - 1].path]
        } else {
            seq![]
        }
    }
}

/// The paths of the enabled special entries among the first `n`.
pub open spec fn special_paths(ps: Seq<PackView>, n: nat) -> Seq<Seq<char>>
    decreases n,
{
    if n == 0 || n > ps.len() {
        seq![]
    } else {
        special_paths(ps, (n - 1) as nat) + if !ps[n - 1].disabled && ps[n - 1].special {
            seq![ps[n - 1].path]
        } else {
            seq![]
        }
    }
}

/// How many of the first `n` entries are disabled.
pub open spec fn disabled_count(ps: Seq<PackView>, n: nat) -> nat
    decreases n,
{
    if n == 0 || n > ps.len() {
        0
    } else {
        disabled_count(ps, (n - 1) as nat) + if ps[n - 1].disabled {
            1nat
        } else {
            0nat
        }
    }
}

/// The counted paths seen more than once, among the first `n` entries of the count.
pub open spec fn duplicates(t: Seq<(Seq<char>, nat)>, n: nat) -> Seq<(Seq<char>, nat)>
    decreases n,
{
    if n == 0 || n > t.len() {
        seq![]
    } else {
        duplicates(t, (n - 1) as nat) + if t[n - 1].1 > 1 {
            seq![t[n - 1]]
        } else {
            seq![]
        }
    }
}

pub open spec fn duplicate_views(v: Seq<DuplicatePathSnapshot>) -> Seq<(Seq<char>, nat)> {
    v.map_values(|d: DuplicatePathSnapshot| (d.path@, d.count as nat))
}

/// What a collection records of a scenery list that it could read: each
/// entry in order with its path redacted, the active paths whose folder is
/// missing, the active paths (lower-cased) enabled more than once in text
/// order, how many entries are disabled, and the enabled special entries.
/// `exists` tells, for each pack, whether its folder exists.
pub fn scenery_snapshot(
    packs: &Vec<SceneryPackLine>,
    exists: &Vec<bool>,
    homes: &Vec<String>,
    custom_scenery_folders: Vec<String>,
    redacted_ini_file: String,
) -> (r: crate::model::ScenerySnapshot)
    requires
        exists.len() == packs.len(),
    ensures
        r.ini_present,
        r.read_error is None,
        r.redacted_ini_file matches Some(f) && f@ == redacted_ini_file@,
        r.custom_scenery_folders@ == custom_scenery_folders@,
        r.entries.len() == packs.len(),
        forall|i: int|
            0 <= i < packs.len() ==> {
                let e = #[trigger] r.entries@[i];
                let p = packs@[i];
                &&& e.order == i
                &&& e.path@ == redacted(p.path@, string_views(homes@))
                &&& e.disabled == p.disabled
                &&& e.special_entry == p.special_entry
                &&& e.exists == (p.special_entry || exists@[i])
            },
        string_views(r.missing_active_paths@) == missing_paths(
            pack_views(packs@),
            exists@,
            packs.len() as nat,
        ),
        duplicate_views(r.duplicate_active_paths@) == ({
            let t = tally(active_keys(pack_views(packs@), packs.len() as nat));
            duplicates(t, t.len())
        }),
        r.disabled_count == disabled_count(pack_views(packs@), packs.len() as nat),
        string_views(r.special_entries@) == special_paths(pack_views(packs@), packs.len() as nat),
{
    let ghost ps = pack_views(packs@);
    let mut entries: Vec<SceneryPackSnapshot> = Vec::new();
    let mut missing: Vec<String> = Vec::new();
    let mut special: Vec<String> = Vec::new();
    let mut disabled: usize = 0;
    let mut i: usize = 0;
    while i < packs.len()
        invariant
            i <= packs.len(),
            exists.len() == packs.len(),
            ps == pack_views(packs@),
            entries.len() == i,
            forall|j: int|
                0 <= j < i ==> {
                    let e = #[trigger] entries@[j];
                    let p = packs@[j];
                    &&& e.order == j
                    &&& e.path@ == redacted(p.path@, string_views(homes@))
                    &&& e.disabled == p.disabled
                    &&& e.special_entry == p.special_entry
                    &&& e.exists == (p.special_entry || exists@[j])
                },
            string_views(missing@) == missing_paths(ps, exists@, i as nat),
            string_views(special@) == special_paths(ps, i as nat),
            disabled == disabled_count(ps, i as nat),
            disabled <= i,
        decreases packs.len() - i,
    {
        let p = &packs[i];
        let ghost m0 = string_views(missing@);
        let ghost s0 = string_views(special@);
        let mut path_copy = String::new();
        push_chars(&mut path_copy, &chars_of(p.path.as_str()));
        if p.disabled {
            disabled = disabled + 1;
        } else if p.special_entry {
            special.push(path_copy);
            assert(string_views(special@) =~= s0.push(ps[i as int].path));
        } else if !exists[i] {
            missing.push(path_copy);
            assert(string_views(missing@) =~= m0.push(ps[i as int].path));
        }
        assert(string_views(missing@) =~= missing_paths(ps, exists@, (i + 1) as nat));
        assert(string_views(special@) =~= special_paths(ps, (i + 1) as nat));
        let path = redact_sensitive_text(p.path.as_str(), homes);
        entries.push(
            SceneryPackSnapshot {
                order: i,
                path,
                disabled: p.disabled,
                special_entry: p.special_entry,
                exists: p.special_entry || exists[i],
            },
        );
        i = i + 1;
    }
    let t = active_tally(packs);
    let ghost tv = tally_view(t@);
    let mut dups: Vec<DuplicatePathSnapshot> = Vec::new();
    let mut k: usize = 0;
    while k < t.len()
        invariant
            k <= t.len(),
            tv == tally_view(t@),
            duplicate_views(dups@) == duplicates(tv, k as nat),
        decreases t.len() - k,
    {
        let ghost d0 = duplicate_views(dups@);
        if t[k].1 > 1 {
            let path = string_of(t[k].0.as_slice());
            dups.push(DuplicatePathSnapshot { path, count: t[k].1 });
            assert(duplicate_views(dups@) =~= d0.push(tv[k as int]));
        }
        assert(duplicate_views(dups@) =~= duplicates(tv, (k + 1) as nat));
        k = k + 1;
    }
    crate::model::ScenerySnapshot {
        ini_present: true,
        read_error: None,
        redacted_ini_file: Some(redacted_ini_file),
        entries,
        custom_scenery_folders,
        missing_active_paths: missing,
        duplicate_active_paths: dups,
        disabled_count: disabled,
        special_entries: special,
    }
}

} // verus!
