//! Rules that recognise a line by the words it holds.
use vstd::prelude::*;

use crate::i18n::{pick, tr, Locale};
use crate::model::{new_finding, Confidence, Finding, FindingView, Severity};
use crate::rules::evidence::{evidence_line, evidence_text};
use crate::text::{contains, contains_str, lower, lower_of, string_from};

verus! {

/// The contents of an optional finding.
pub open spec fn opt_view(r: Option<Finding>) -> Option<FindingView> {
    match r {
        Some(f) => Some(f@),
        None => None,
    }
}

/// A lower-cased line that reports a Vulkan or Metal failure; OpenGL
/// extension lists are not such lines.
pub open spec fn is_graphics_api_error(lower: Seq<char>) -> bool {
    !contains(lower, "opengl extensions"@) && (contains(lower, "vulkan"@) || contains(lower, "metal"@))
        && (contains(lower, " error"@) || contains(lower, " failed"@) || contains(lower, " crash"@)
        || contains(lower, "fatal"@) || contains(lower, "cannot"@))
}

pub fn is_graphics_api_error_line(lower: &[char]) -> (r: bool)
    ensures
        r == is_graphics_api_error(lower@),
{
    if contains_str(lower, "opengl extensions") {
        return false;
    }
    (contains_str(lower, "vulkan") || contains_str(lower, "metal")) && (contains_str(lower, " error")
        || contains_str(lower, " failed") || contains_str(lower, " crash") || contains_str(
        lower,
        "fatal",
    ) || contains_str(lower, "cannot"))
}

/// A line that marks a crash of X-Plane (compared without regard to ASCII case).
pub open spec fn is_crash_marker(line: Seq<char>) -> bool {
    let lower = lower(line);
    contains(lower, "this application has crashed"@) || contains(lower, "--=={uuid:"@) || contains(
        lower,
        "--=={file:"@,
    ) || contains(lower, "forwarding exception"@) || contains(lower, "x-plane cannot continue running"@)
        || contains(lower, "无法继续运行"@) || contains(lower, "thread fatal assert"@)
}

pub fn is_crash_marker_line(line: &[char]) -> (r: bool)
    ensures
        r == is_crash_marker(line@),
{
    let lower = lower_of(line);
    contains_str(&lower, "this application has crashed") || contains_str(&lower, "--=={uuid:")
        || contains_str(&lower, "--=={file:") || contains_str(&lower, "forwarding exception")
        || contains_str(&lower, "x-plane cannot continue running") || contains_str(&lower, "无法继续运行")
        || contains_str(&lower, "thread fatal assert")
}

/// The `plugin_load_failed` rule on one line.
pub open spec fn spec_plugin_load_failed(idx: nat, line: Seq<char>, lower: Seq<char>, loc: Locale) -> Option<
    FindingView,
> {
    if contains(lower, "dlerror"@) || contains(lower, "error code = 126"@) || contains(lower, "not a valid win32 application"@) || contains(lower, "failed to load"@) {
        Some(
            new_finding(
                Severity::High,
                Confidence::High,
                "plugin_load_failed"@,
                pick(loc, "插件或动态库加载失败"@, "Plugin or library failed to load"@),
                evidence_text(idx, line),
                pick(loc, "X-Plane 明确记录了某个插件或依赖库没有成功加载。常见原因是插件版本不兼容、缺少运行库，或文件安装不完整。"@, "X-Plane logged that a plugin or required library did not load. Common causes: incompatible plugin version, missing runtime libraries, or incomplete file installation."@),
                pick(loc, "先确认该插件支持你的 X-Plane 版本和系统平台；Windows 用户也可以检查 Visual C++ Runtime 是否完整。"@, "Verify the plugin supports your X-Plane version and platform. Windows users should also check that Visual C++ Runtime is installed."@),
            ),
        )
    } else {
        None
    }
}

pub fn check_plugin_load_failed(idx: usize, line: &[char], lower: &[char], loc: Locale) -> (r: Option<Finding>)
    requires
        idx < usize::MAX,
    ensures
        opt_view(r) == spec_plugin_load_failed(idx as nat, line@, lower@, loc),
{
    if contains_str(lower, "dlerror") || contains_str(lower, "error code = 126") || contains_str(lower, "not a valid win32 application") || contains_str(lower, "failed to load") {
        Some(
            Finding::new(
                Severity::High,
                Confidence::High,
                string_from("plugin_load_failed"),
                string_from(tr(loc, "插件或动态库加载失败", "Plugin or library failed to load")),
                evidence_line(idx, line),
                string_from(tr(loc, "X-Plane 明确记录了某个插件或依赖库没有成功加载。常见原因是插件版本不兼容、缺少运行库，或文件安装不完整。", "X-Plane logged that a plugin or required library did not load. Common causes: incompatible plugin version, missing runtime libraries, or incomplete file installation.")),
                string_from(tr(loc, "先确认该插件支持你的 X-Plane 版本和系统平台；Windows 用户也可以检查 Visual C++ Runtime 是否完整。", "Verify the plugin supports your X-Plane version and platform. Windows users should also check that Visual C++ Runtime is installed.")),
            ),
        )
    } else {
        None
    }
}

/// The `graphics_vulkan_error` rule on one line.
pub open spec fn spec_graphics_api_error(idx: nat, line: Seq<char>, lower: Seq<char>, loc: Locale) -> Option<
    FindingView,
> {
    if is_graphics_api_error(lower) {
        Some(
            new_finding(
                Severity::Medium,
                Confidence::Medium,
                "graphics_vulkan_error"@,
                pick(loc, "Vulkan/图形接口相关错误"@, "Vulkan/graphics API related error"@),
                evidence_text(idx, line),
                pick(loc, "日志里出现了 Vulkan 相关错误，可能和显卡驱动、图形设置或插件绘制有关。"@, "Vulkan-related errors appeared in the log. Possible causes: GPU driver issues, graphics settings, or plugin rendering."@),
                pick(loc, "更新显卡驱动，临时关闭图形增强类插件，再用默认飞机和默认机场复测。"@, "Update GPU drivers, temporarily disable graphics-enhancement plugins, and retest with default aircraft at a default airport."@),
            ),
        )
    } else {
        None
    }
}

pub fn check_graphics_api_error(idx: usize, line: &[char], lower: &[char], loc: Locale) -> (r: Option<Finding>)
    requires
        idx < usize::MAX,
    ensures
        opt_view(r) == spec_graphics_api_error(idx as nat, line@, lower@, loc),
{
    if is_graphics_api_error_line(lower) {
        Some(
            Finding::new(
                Severity::Medium,
                Confidence::Medium,
                string_from("graphics_vulkan_error"),
                string_from(tr(loc, "Vulkan/图形接口相关错误", "Vulkan/graphics API related error")),
                evidence_line(idx, line),
                string_from(tr(loc, "日志里出现了 Vulkan 相关错误，可能和显卡驱动、图形设置或插件绘制有关。", "Vulkan-related errors appeared in the log. Possible causes: GPU driver issues, graphics settings, or plugin rendering.")),
                string_from(tr(loc, "更新显卡驱动，临时关闭图形增强类插件，再用默认飞机和默认机场复测。", "Update GPU drivers, temporarily disable graphics-enhancement plugins, and retest with default aircraft at a default airport.")),
            ),
        )
    } else {
        None
    }
}

/// The `memory_or_vram` rule on one line.
pub open spec fn spec_memory_vram(idx: nat, line: Seq<char>, lower: Seq<char>, loc: Locale) -> Option<
    FindingView,
> {
    if contains(lower, "vram"@) || contains(lower, "out of memory"@) {
        Some(
            new_finding(
                Severity::Medium,
                Confidence::Medium,
                "memory_or_vram"@,
                pick(loc, "显存或内存压力线索"@, "VRAM or memory pressure indicator"@),
                evidence_text(idx, line),
                pick(loc, "日志里出现显存、内存或资源不足相关字样。这可能导致卡顿、贴图异常或崩溃。"@, "Terms related to VRAM, memory, or resource exhaustion appeared. These can cause stutters, texture anomalies, or crashes."@),
                pick(loc, "降低纹理质量和抗锯齿，减少高分辨率 scenery，复测同一路线。"@, "Lower texture quality and anti-aliasing, reduce high-resolution scenery, and retest the same route."@),
            ),
        )
    } else {
        None
    }
}

pub fn check_memory_vram(idx: usize, line: &[char], lower: &[char], loc: Locale) -> (r: Option<Finding>)
    requires
        idx < usize::MAX,
    ensures
        opt_view(r) == spec_memory_vram(idx as nat, line@, lower@, loc),
{
    if contains_str(lower, "vram") || contains_str(lower, "out of memory") {
        Some(
            Finding::new(
                Severity::Medium,
                Confidence::Medium,
                string_from("memory_or_vram"),
                string_from(tr(loc, "显存或内存压力线索", "VRAM or memory pressure indicator")),
                evidence_line(idx, line),
                string_from(tr(loc, "日志里出现显存、内存或资源不足相关字样。这可能导致卡顿、贴图异常或崩溃。", "Terms related to VRAM, memory, or resource exhaustion appeared. These can cause stutters, texture anomalies, or crashes.")),
                string_from(tr(loc, "降低纹理质量和抗锯齿，减少高分辨率 scenery，复测同一路线。", "Lower texture quality and anti-aliasing, reduce high-resolution scenery, and retest the same route.")),
            ),
        )
    } else {
        None
    }
}

/// The `missing_scenery_library` rule on one line.
pub open spec fn spec_missing_scenery_library(idx: nat, line: Seq<char>, lower: Seq<char>, loc: Locale) -> Option<
    FindingView,
> {
    if contains(lower, "requires an additional library scenery package"@) || contains(lower, "additional library scenery package that is not installed"@) {
        Some(
            new_finding(
                Severity::High,
                Confidence::High,
                "missing_scenery_library"@,
                pick(loc, "缺少 scenery 依赖库"@, "Missing scenery dependency library"@),
                evidence_text(idx, line),
                pick(loc, "X-Plane 明确提示某个 scenery 需要额外的 library，但当前没有安装或文件不完整。"@, "X-Plane explicitly reports that a scenery requires an additional library package that is not installed or has incomplete files."@),
                pick(loc, "查看该机场/风景包页面的依赖列表，安装所有 required libraries；再确认它们位于 Custom Scenery 目录。"@, "Check the dependency list on the airport/scenery download page, install all required libraries, and confirm they are in the Custom Scenery directory."@),
            ),
        )
    } else {
        None
    }
}

pub fn check_missing_scenery_library(idx: usize, line: &[char], lower: &[char], loc: Locale) -> (r: Option<Finding>)
    requires
        idx < usize::MAX,
    ensures
        opt_view(r) == spec_missing_scenery_library(idx as nat, line@, lower@, loc),
{
    if contains_str(lower, "requires an additional library scenery package") || contains_str(lower, "additional library scenery package that is not installed") {
        Some(
            Finding::new(
                Severity::High,
                Confidence::High,
                string_from("missing_scenery_library"),
                string_from(tr(loc, "缺少 scenery 依赖库", "Missing scenery dependency library")),
                evidence_line(idx, line),
                string_from(tr(loc, "X-Plane 明确提示某个 scenery 需要额外的 library，但当前没有安装或文件不完整。", "X-Plane explicitly reports that a scenery requires an additional library package that is not installed or has incomplete files.")),
                string_from(tr(loc, "查看该机场/风景包页面的依赖列表，安装所有 required libraries；再确认它们位于 Custom Scenery 目录。", "Check the dependency list on the airport/scenery download page, install all required libraries, and confirm they are in the Custom Scenery directory.")),
            ),
        )
    } else {
        None
    }
}

/// The `missing_global_scenery_tile` rule on one line.
pub open spec fn spec_missing_global_scenery_tile(idx: nat, line: Seq<char>, lower: Seq<char>, loc: Locale) -> Option<
    FindingView,
> {
    if contains(lower, "warning for missing scenery file"@) {
        Some(
            new_finding(
                Severity::Medium,
                Confidence::High,
                "missing_global_scenery_tile"@,
                pick(loc, "缺少全球地景区域块"@, "Missing global scenery tile"@),
                evidence_text(idx, line),
                pick(loc, "X-Plane 提示某个经纬度区域的基础地景文件缺失，这通常不是机场库问题，而是 global scenery 没装全或安装损坏。"@, "X-Plane reports that a base scenery file for specific coordinates is missing. This is usually not an airport library problem; it indicates global scenery is not fully installed or is corrupted."@),
                pick(loc, "运行 X-Plane Installer，选择更新/添加全球地景，确认对应区域已安装。"@, "Run the X-Plane Installer, choose Update/Add Global Scenery, and verify the corresponding region is installed."@),
            ),
        )
    } else {
        None
    }
}

pub fn check_missing_global_scenery_tile(idx: usize, line: &[char], lower: &[char], loc: Locale) -> (r: Option<Finding>)
    requires
        idx < usize::MAX,
    ensures
        opt_view(r) == spec_missing_global_scenery_tile(idx as nat, line@, lower@, loc),
{
    if contains_str(lower, "warning for missing scenery file") {
        Some(
            Finding::new(
                Severity::Medium,
                Confidence::High,
                string_from("missing_global_scenery_tile"),
                string_from(tr(loc, "缺少全球地景区域块", "Missing global scenery tile")),
                evidence_line(idx, line),
                string_from(tr(loc, "X-Plane 提示某个经纬度区域的基础地景文件缺失，这通常不是机场库问题，而是 global scenery 没装全或安装损坏。", "X-Plane reports that a base scenery file for specific coordinates is missing. This is usually not an airport library problem; it indicates global scenery is not fully installed or is corrupted.")),
                string_from(tr(loc, "运行 X-Plane Installer，选择更新/添加全球地景，确认对应区域已安装。", "Run the X-Plane Installer, choose Update/Add Global Scenery, and verify the corresponding region is installed.")),
            ),
        )
    } else {
        None
    }
}

/// The `vulkan_device_lost` rule on one line.
pub open spec fn spec_vulkan_device_lost(idx: nat, line: Seq<char>, lower: Seq<char>, loc: Locale) -> Option<
    FindingView,
> {
    if contains(lower, "vulkan device loss"@) || contains(lower, "device lost"@) {
        Some(
            new_finding(
                Severity::High,
                Confidence::High,
                "vulkan_device_lost"@,
                pick(loc, "Vulkan device lost 崩溃"@, "Vulkan device lost crash"@),
                evidence_text(idx, line),
                pick(loc, "这是图形设备丢失类崩溃，常见关联因素包括显卡驱动、超频/不稳定、显存压力、图形增强插件或特定版本的 X-Plane 图形问题。"@, "This is a graphics device loss crash. Common associated factors: GPU driver issues, overclocking/instability, VRAM pressure, graphics-enhancement plugins, or X-Plane graphics issues with a specific version."@),
                pick(loc, "先更新或回退显卡驱动，关闭超频和图形增强插件，用默认飞机+默认机场复测；如果只在某机场发生，再检查该 scenery。"@, "Update or roll back GPU drivers, disable overclocking and graphics-enhancement plugins, retest with default aircraft at a default airport. If it only happens at a specific airport, investigate that scenery."@),
            ),
        )
    } else {
        None
    }
}

pub fn check_vulkan_device_lost(idx: usize, line: &[char], lower: &[char], loc: Locale) -> (r: Option<Finding>)
    requires
        idx < usize::MAX,
    ensures
        opt_view(r) == spec_vulkan_device_lost(idx as nat, line@, lower@, loc),
{
    if contains_str(lower, "vulkan device loss") || contains_str(lower, "device lost") {
        Some(
            Finding::new(
                Severity::High,
                Confidence::High,
                string_from("vulkan_device_lost"),
                string_from(tr(loc, "Vulkan device lost 崩溃", "Vulkan device lost crash")),
                evidence_line(idx, line),
                string_from(tr(loc, "这是图形设备丢失类崩溃，常见关联因素包括显卡驱动、超频/不稳定、显存压力、图形增强插件或特定版本的 X-Plane 图形问题。", "This is a graphics device loss crash. Common associated factors: GPU driver issues, overclocking/instability, VRAM pressure, graphics-enhancement plugins, or X-Plane graphics issues with a specific version.")),
                string_from(tr(loc, "先更新或回退显卡驱动，关闭超频和图形增强插件，用默认飞机+默认机场复测；如果只在某机场发生，再检查该 scenery。", "Update or roll back GPU drivers, disable overclocking and graphics-enhancement plugins, retest with default aircraft at a default airport. If it only happens at a specific airport, investigate that scenery.")),
            ),
        )
    } else {
        None
    }
}

/// The `flywithlua_error` rule on one line.
pub open spec fn spec_flywithlua_error(idx: nat, line: Seq<char>, lower: Seq<char>, loc: Locale) -> Option<
    FindingView,
> {
    if contains(lower, "flywithlua"@) && (contains(lower, "error"@) || contains(lower, "stopped"@)) {
        Some(
            new_finding(
                Severity::Medium,
                Confidence::Medium,
                "flywithlua_error"@,
                pick(loc, "FlyWithLua 脚本错误线索"@, "FlyWithLua script error detected"@),
                evidence_text(idx, line),
                pick(loc, "FlyWithLua 或某个 Lua 脚本报告了错误。脚本错误可能导致功能失效、卡顿，甚至影响其他插件。"@, "FlyWithLua or a Lua script reported an error. Script errors can cause feature failures, stutters, or affect other plugins."@),
                pick(loc, "临时移走 FlyWithLua/Scripts 里的第三方脚本，只保留 FlyWithLua 本体复测，再逐个放回。"@, "Temporarily remove third-party scripts from FlyWithLua/Scripts, keep only FlyWithLua itself for a retest, then add them back one by one."@),
            ),
        )
    } else {
        None
    }
}

pub fn check_flywithlua_error(idx: usize, line: &[char], lower: &[char], loc: Locale) -> (r: Option<Finding>)
    requires
        idx < usize::MAX,
    ensures
        opt_view(r) == spec_flywithlua_error(idx as nat, line@, lower@, loc),
{
    if contains_str(lower, "flywithlua") && (contains_str(lower, "error") || contains_str(lower, "stopped")) {
        Some(
            Finding::new(
                Severity::Medium,
                Confidence::Medium,
                string_from("flywithlua_error"),
                string_from(tr(loc, "FlyWithLua 脚本错误线索", "FlyWithLua script error detected")),
                evidence_line(idx, line),
                string_from(tr(loc, "FlyWithLua 或某个 Lua 脚本报告了错误。脚本错误可能导致功能失效、卡顿，甚至影响其他插件。", "FlyWithLua or a Lua script reported an error. Script errors can cause feature failures, stutters, or affect other plugins.")),
                string_from(tr(loc, "临时移走 FlyWithLua/Scripts 里的第三方脚本，只保留 FlyWithLua 本体复测，再逐个放回。", "Temporarily remove third-party scripts from FlyWithLua/Scripts, keep only FlyWithLua itself for a retest, then add them back one by one.")),
            ),
        )
    } else {
        None
    }
}

/// The `macos_security_block` rule on one line.
pub open spec fn spec_macos_security_block(idx: nat, line: Seq<char>, lower: Seq<char>, loc: Locale) -> Option<
    FindingView,
> {
    if !(contains(lower, "flywithlua"@) && contains(lower, "scripts quarantine dir"@)) && (contains(lower, "notarized"@) || contains(lower, "code signature"@) || contains(lower, "quarantine"@)) {
        Some(
            new_finding(
                Severity::Medium,
                Confidence::Medium,
                "macos_security_block"@,
                pick(loc, "macOS 安全限制可能阻止插件加载"@, "macOS security policy may block plugin loading"@),
                evidence_text(idx, line),
                pick(loc, "日志出现 quarantine、notarized 或 code signature 相关字样，macOS 可能阻止了第三方插件运行。"@, "The log contains quarantine, notarized, or code signature related terms. macOS may be blocking third-party plugins from running."@),
                pick(loc, "确认插件来源可信后，按插件说明解除隔离属性或在系统安全设置中允许运行。"@, "After verifying the plugin is from a trusted source, follow the plugin's instructions to remove quarantine attributes or allow it in System Security settings."@),
            ),
        )
    } else {
        None
    }
}

pub fn check_macos_security_block(idx: usize, line: &[char], lower: &[char], loc: Locale) -> (r: Option<Finding>)
    requires
        idx < usize::MAX,
    ensures
        opt_view(r) == spec_macos_security_block(idx as nat, line@, lower@, loc),
{
    if !(contains_str(lower, "flywithlua") && contains_str(lower, "scripts quarantine dir")) && (contains_str(lower, "notarized") || contains_str(lower, "code signature") || contains_str(lower, "quarantine")) {
        Some(
            Finding::new(
                Severity::Medium,
                Confidence::Medium,
                string_from("macos_security_block"),
                string_from(tr(loc, "macOS 安全限制可能阻止插件加载", "macOS security policy may block plugin loading")),
                evidence_line(idx, line),
                string_from(tr(loc, "日志出现 quarantine、notarized 或 code signature 相关字样，macOS 可能阻止了第三方插件运行。", "The log contains quarantine, notarized, or code signature related terms. macOS may be blocking third-party plugins from running.")),
                string_from(tr(loc, "确认插件来源可信后，按插件说明解除隔离属性或在系统安全设置中允许运行。", "After verifying the plugin is from a trusted source, follow the plugin's instructions to remove quarantine attributes or allow it in System Security settings.")),
            ),
        )
    } else {
        None
    }
}

/// The `duplicate_scenery_log` rule on one line.
pub open spec fn spec_duplicate_scenery(idx: nat, line: Seq<char>, lower: Seq<char>, loc: Locale) -> Option<
    FindingView,
> {
    if contains(lower, "we found a duplicate runway"@) || contains(lower, "duplicate airport"@) || contains(lower, "duplicate scenery"@) {
        Some(
            new_finding(
                Severity::Medium,
                Confidence::Medium,
                "duplicate_scenery_log"@,
                pick(loc, "日志提示存在重复机场或风景"@, "Duplicate airport or scenery detected in log"@),
                evidence_text(idx, line),
                pick(loc, "重复机场或风景包可能导致显示异常、跑道重叠或加载顺序问题。"@, "Duplicate airport or scenery packages can cause display anomalies, overlapping runways, or load order issues."@),
                pick(loc, "检查 Custom Scenery 中是否安装了多个覆盖同一机场的包，并查看 scenery_packs.ini 顺序。"@, "Check if multiple packages covering the same airport are installed in Custom Scenery, and review the scenery_packs.ini ordering."@),
            ),
        )
    } else {
        None
    }
}

pub fn check_duplicate_scenery(idx: usize, line: &[char], lower: &[char], loc: Locale) -> (r: Option<Finding>)
    requires
        idx < usize::MAX,
    ensures
        opt_view(r) == spec_duplicate_scenery(idx as nat, line@, lower@, loc),
{
    if contains_str(lower, "we found a duplicate runway") || contains_str(lower, "duplicate airport") || contains_str(lower, "duplicate scenery") {
        Some(
            Finding::new(
                Severity::Medium,
                Confidence::Medium,
                string_from("duplicate_scenery_log"),
                string_from(tr(loc, "日志提示存在重复机场或风景", "Duplicate airport or scenery detected in log")),
                evidence_line(idx, line),
                string_from(tr(loc, "重复机场或风景包可能导致显示异常、跑道重叠或加载顺序问题。", "Duplicate airport or scenery packages can cause display anomalies, overlapping runways, or load order issues.")),
                string_from(tr(loc, "检查 Custom Scenery 中是否安装了多个覆盖同一机场的包，并查看 scenery_packs.ini 顺序。", "Check if multiple packages covering the same airport are installed in Custom Scenery, and review the scenery_packs.ini ordering.")),
            ),
        )
    } else {
        None
    }
}

/// The `plugin_load_failed` finding is counted once.
pub proof fn lemma_plugin_load_failed_once(idx: nat, line: Seq<char>, lower: Seq<char>, loc: Locale)
    ensures
        spec_plugin_load_failed(idx, line, lower, loc) matches Some(f) ==> f.occurrences == 1 && f.extra_evidence.len() <= 4 && f.kind == "plugin_load_failed"@ && crate::rules::evidence::log_evidence(f.evidence) && f.extra_evidence.len() == 0 && f.evidence == crate::rules::evidence::evidence_text(idx, line),
{
    broadcast use crate::rules::evidence::lemma_evidence_text_in_log;
}

/// The `graphics_api_error` finding is counted once.
pub proof fn lemma_graphics_api_error_once(idx: nat, line: Seq<char>, lower: Seq<char>, loc: Locale)
    ensures
        spec_graphics_api_error(idx, line, lower, loc) matches Some(f) ==> f.occurrences == 1 && f.extra_evidence.len() <= 4 && f.kind == "graphics_vulkan_error"@ && crate::rules::evidence::log_evidence(f.evidence) && f.extra_evidence.len() == 0 && f.evidence == crate::rules::evidence::evidence_text(idx, line),
{
    broadcast use crate::rules::evidence::lemma_evidence_text_in_log;
}

/// The `memory_vram` finding is counted once.
pub proof fn lemma_memory_vram_once(idx: nat, line: Seq<char>, lower: Seq<char>, loc: Locale)
    ensures
        spec_memory_vram(idx, line, lower, loc) matches Some(f) ==> f.occurrences == 1 && f.extra_evidence.len() <= 4 && f.kind == "memory_or_vram"@ && crate::rules::evidence::log_evidence(f.evidence) && f.extra_evidence.len() == 0 && f.evidence == crate::rules::evidence::evidence_text(idx, line),
{
    broadcast use crate::rules::evidence::lemma_evidence_text_in_log;
}

/// The `missing_scenery_library` finding is counted once.
pub proof fn lemma_missing_scenery_library_once(idx: nat, line: Seq<char>, lower: Seq<char>, loc: Locale)
    ensures
        spec_missing_scenery_library(idx, line, lower, loc) matches Some(f) ==> f.occurrences == 1 && f.extra_evidence.len() <= 4 && f.kind == "missing_scenery_library"@ && crate::rules::evidence::log_evidence(f.evidence) && f.extra_evidence.len() == 0 && f.evidence == crate::rules::evidence::evidence_text(idx, line),
{
    broadcast use crate::rules::evidence::lemma_evidence_text_in_log;
}

/// The `missing_global_scenery_tile` finding is counted once.
pub proof fn lemma_missing_global_scenery_tile_once(idx: nat, line: Seq<char>, lower: Seq<char>, loc: Locale)
    ensures
        spec_missing_global_scenery_tile(idx, line, lower, loc) matches Some(f) ==> f.occurrences == 1 && f.extra_evidence.len() <= 4 && f.kind == "missing_global_scenery_tile"@ && crate::rules::evidence::log_evidence(f.evidence) && f.extra_evidence.len() == 0 && f.evidence == crate::rules::evidence::evidence_text(idx, line),
{
    broadcast use crate::rules::evidence::lemma_evidence_text_in_log;
}

/// The `vulkan_device_lost` finding is counted once.
pub proof fn lemma_vulkan_device_lost_once(idx: nat, line: Seq<char>, lower: Seq<char>, loc: Locale)
    ensures
        spec_vulkan_device_lost(idx, line, lower, loc) matches Some(f) ==> f.occurrences == 1 && f.extra_evidence.len() <= 4 && f.kind == "vulkan_device_lost"@ && crate::rules::evidence::log_evidence(f.evidence) && f.extra_evidence.len() == 0 && f.evidence == crate::rules::evidence::evidence_text(idx, line),
{
    broadcast use crate::rules::evidence::lemma_evidence_text_in_log;
}

/// The `flywithlua_error` finding is counted once.
pub proof fn lemma_flywithlua_error_once(idx: nat, line: Seq<char>, lower: Seq<char>, loc: Locale)
    ensures
        spec_flywithlua_error(idx, line, lower, loc) matches Some(f) ==> f.occurrences == 1 && f.extra_evidence.len() <= 4 && f.kind == "flywithlua_error"@ && crate::rules::evidence::log_evidence(f.evidence) && f.extra_evidence.len() == 0 && f.evidence == crate::rules::evidence::evidence_text(idx, line),
{
    broadcast use crate::rules::evidence::lemma_evidence_text_in_log;
}

/// The `macos_security_block` finding is counted once.
pub proof fn lemma_macos_security_block_once(idx: nat, line: Seq<char>, lower: Seq<char>, loc: Locale)
    ensures
        spec_macos_security_block(idx, line, lower, loc) matches Some(f) ==> f.occurrences == 1 && f.extra_evidence.len() <= 4 && f.kind == "macos_security_block"@ && crate::rules::evidence::log_evidence(f.evidence) && f.extra_evidence.len() == 0 && f.evidence == crate::rules::evidence::evidence_text(idx, line),
{
    broadcast use crate::rules::evidence::lemma_evidence_text_in_log;
}

/// The `duplicate_scenery` finding is counted once.
pub proof fn lemma_duplicate_scenery_once(idx: nat, line: Seq<char>, lower: Seq<char>, loc: Locale)
    ensures
        spec_duplicate_scenery(idx, line, lower, loc) matches Some(f) ==> f.occurrences == 1 && f.extra_evidence.len() <= 4 && f.kind == "duplicate_scenery_log"@ && crate::rules::evidence::log_evidence(f.evidence) && f.extra_evidence.len() == 0 && f.evidence == crate::rules::evidence::evidence_text(idx, line),
{
    broadcast use crate::rules::evidence::lemma_evidence_text_in_log;
}

} // verus!
