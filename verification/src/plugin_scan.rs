//! The plugin folders of an installation: their names in order, and names
//! that differ only by ASCII case.
use vstd::prelude::*;

use crate::i18n::{pick, tr, Locale};
use crate::model::{new_finding, views, Confidence, Finding, FindingView, Severity};
use crate::order::{sort_strings, sorted};
use crate::rules::subsystem::lex_less;
use crate::tally::{tally_index, tally_pos};
use crate::text::{
    chars_of, join, join_strings, lower, lower_of, string_from, string_of, string_views,
};

verus! {

/// Adds a folder name to the groups of names equal ignoring ASCII case,
/// which are kept in the order of their lower-cased text.
pub open spec fn group_add(t: Seq<(Seq<char>, Seq<Seq<char>>)>, name: Seq<char>) -> Seq<
    (Seq<char>, Seq<Seq<char>>),
> {
    let key = lower(name);
    match tally_index(t, key, 0) {
        Some(i) => t.update(i, (key, t[i].1.push(name))),
        None => t.insert(tally_pos(t, key, 0), (key, seq![name])),
    }
}

/// The folder names grouped by their lower-cased text, in that text's
/// order; each group lists its names in the order they were read.
pub open spec fn name_groups(names: Seq<Seq<char>>) -> Seq<(Seq<char>, Seq<Seq<char>>)>
    decreases names.len(),
{
    if names.len() == 0 {
        seq![]
    } else {
        group_add(name_groups(names.drop_last()), names.last())
    }
}

/// The `duplicate_plugin_name` finding for a group of names.
pub open spec fn duplicate_name_finding(names: Seq<Seq<char>>, loc: Locale) -> FindingView {
    new_finding(
        Severity::Medium,
        Confidence::Medium,
        "duplicate_plugin_name"@,
        pick(loc, "发现重复的插件文件夹名"@, "Duplicate plugin folder names were found"@),
        join(names, ", "@),
        pick(loc, "仅大小写不同的插件文件夹名可能造成混淆，尤其在跨平台迁移安装后。"@, "Plugin folders whose names differ only by case can cause confusion, especially after moving installations across platforms."@),
        pick(loc, "只保留实际需要的插件版本，然后重新测试。"@, "Keep only the plugin version that is actually needed, then retest."@),
    )
}

/// One finding per group, among the first `n`, with more than one name.
pub open spec fn duplicate_name_findings(g: Seq<(Seq<char>, Seq<Seq<char>>)>, n: nat, loc: Locale) -> Seq<
    FindingView,
>
    decreases n,
{
    if n == 0 || n > g.len() {
        seq![]
    } else {
        duplicate_name_findings(g, (n - 1) as nat, loc) + if g[n - 1].1.len() > 1 {
            seq![duplicate_name_finding(g[n - 1].1, loc)]
        } else {
            seq![]
        }
    }
}

pub open spec fn groups_view(t: Seq<(Vec<char>, Vec<String>)>) -> Seq<(Seq<char>, Seq<Seq<char>>)> {
    t.map_values(|e: (Vec<char>, Vec<String>)| (e.0@, string_views(e.1@)))
}

fn group_push(t: &mut Vec<(Vec<char>, Vec<String>)>, name: &String)
    ensures
        groups_view(final(t)@) == group_add(groups_view(old(t)@), name@),
{
    let ghost tv = groups_view(t@);
    let key = lower_of(&chars_of(name.as_str()));
    let mut i: usize = 0;
    while i < t.len()
        invariant
            i <= t.len(),
            tv == groups_view(t@),
            tv == groups_view(old(t)@),
            key@ == lower(name@),
            tally_index(tv, key@, 0) == tally_index(tv, key@, i as int),
        decreases t.len() - i,
    {
        if crate::rules::evidence::slice_eq(t[i].0.as_slice(), key.as_slice()) {
            assert(tv[i as int].0 == key@);
            assert(tally_index(tv, key@, i as int) == Some(i as int));
            let mut entry = t.remove(i);
            let ghost old_names = string_views(entry.1@);
            entry.1.push(string_of(&chars_of(name.as_str())));
            assert(string_views(entry.1@) =~= old_names.push(name@));
            t.insert(i, entry);
            assert(groups_view(t@) =~= tv.update(i as int, (key@, tv[i as int].1.push(name@))));
            return;
        }
        i = i + 1;
    }
    let mut p: usize = 0;
    while p < t.len() && !lex_less(key.as_slice(), t[p].0.as_slice())
        invariant
            p <= t.len(),
            tv == groups_view(t@),
            tv == groups_view(old(t)@),
            key@ == lower(name@),
            tally_index(tv, key@, 0) is None,
            tally_pos(tv, key@, 0) == tally_pos(tv, key@, p as int),
        decreases t.len() - p,
    {
        p = p + 1;
    }
    let mut names: Vec<String> = Vec::new();
    names.push(string_of(&chars_of(name.as_str())));
    assert(string_views(names@) =~= seq![name@]);
    let ghost kv = key@;
    t.insert(p, (key, names));
    assert(groups_view(t@) =~= tv.insert(p as int, (kv, seq![name@])));
}

fn duplicate_name_finding_exec(names: &Vec<String>, loc: Locale) -> (r: Finding)
    ensures
        r@ == duplicate_name_finding(string_views(names@), loc),
{
    Finding::new(
        Severity::Medium,
        Confidence::Medium,
        string_from("duplicate_plugin_name"),
        string_from(tr(loc, "发现重复的插件文件夹名", "Duplicate plugin folder names were found")),
        join_strings(names, ", "),
        string_from(tr(loc, "仅大小写不同的插件文件夹名可能造成混淆，尤其在跨平台迁移安装后。", "Plugin folders whose names differ only by case can cause confusion, especially after moving installations across platforms.")),
        string_from(tr(loc, "只保留实际需要的插件版本，然后重新测试。", "Keep only the plugin version that is actually needed, then retest.")),
    )
}

/// The plugin folder names in order, and a finding for each set of names
/// that differ only by ASCII case (in the order of their lower-cased text),
/// appended to `findings`. `names` are the folders as they were read.
pub fn scan_plugin_names(names: Vec<String>, findings: &mut Vec<Finding>, loc: Locale) -> (r: Vec<
    String,
>)
    ensures
        sorted(string_views(r@)),
        string_views(r@).to_multiset() == string_views(names@).to_multiset(),
        views(final(findings)@) == views(old(findings)@) + ({
            let g = name_groups(string_views(names@));
            duplicate_name_findings(g, g.len(), loc)
        }),
{
    let ghost nv = string_views(names@);
    let mut groups: Vec<(Vec<char>, Vec<String>)> = Vec::new();
    let mut i: usize = 0;
    while i < names.len()
        invariant
            i <= names.len(),
            nv == string_views(names@),
            groups_view(groups@) == name_groups(nv.take(i as int)),
        decreases names.len() - i,
    {
        group_push(&mut groups, &names[i]);
        assert(nv.take(i + 1).drop_last() =~= nv.take(i as int));
        assert(nv.take(i + 1).last() == names@[i as int]@);
        i = i + 1;
    }
    assert(nv.take(names.len() as int) =~= nv);
    let ghost g = groups_view(groups@);
    let ghost start = views(findings@);
    let mut k: usize = 0;
    while k < groups.len()
        invariant
            k <= groups.len(),
            g == groups_view(groups@),
            views(findings@) == start + duplicate_name_findings(g, k as nat, loc),
        decreases groups.len() - k,
    {
        let ghost before = views(findings@);
        if groups[k].1.len() > 1 {
            findings.push(duplicate_name_finding_exec(&groups[k].1, loc));
            assert(views(findings@) =~= before.push(duplicate_name_finding(g[k as int].1, loc)));
        } else {
            assert(views(findings@) =~= before + Seq::<FindingView>::empty());
        }
        k = k + 1;
    }
    sort_strings(names)
}

/// The finding that `Resources/plugins` is missing, at the path given.
pub fn missing_plugins_dir_finding(plugins_path: &str, loc: Locale) -> (r: Finding)
    ensures
        r@ == new_finding(
            Severity::Low,
            Confidence::High,
            "missing_plugins_dir"@,
            pick(loc, "找不到 Resources/plugins"@, "Resources/plugins was not found"@),
            plugins_path@,
            pick(loc, "所选文件夹可能不是完整的 X-Plane 根目录，或者安装不完整。"@, "The selected folder may not be a complete X-Plane root folder, or the installation may be incomplete."@),
            pick(loc, "请确认所选文件夹是 X-Plane 根目录。"@, "Make sure the selected folder is the X-Plane root folder."@),
        ),
{
    Finding::new(
        Severity::Low,
        Confidence::High,
        string_from("missing_plugins_dir"),
        string_from(tr(loc, "找不到 Resources/plugins", "Resources/plugins was not found")),
        string_from(plugins_path),
        string_from(tr(loc, "所选文件夹可能不是完整的 X-Plane 根目录，或者安装不完整。", "The selected folder may not be a complete X-Plane root folder, or the installation may be incomplete.")),
        string_from(tr(loc, "请确认所选文件夹是 X-Plane 根目录。", "Make sure the selected folder is the X-Plane root folder.")),
    )
}

} // verus!
