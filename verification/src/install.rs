//! Findings about the installation's own `Log.txt` file.
use vstd::prelude::*;

use crate::i18n::{pick, tr, Locale};
use crate::model::{new_finding, Confidence, Finding, Severity};
use crate::text::{push_str, string_from};

verus! {

/// The finding that `Log.txt` is missing, at the path given.
pub fn missing_log_finding(log_path: &str, loc: Locale) -> (r: Finding)
    ensures
        r@ == new_finding(
            Severity::High,
            Confidence::High,
            "missing_log"@,
            pick(loc, "找不到 Log.txt"@, "Log.txt was not found"@),
            log_path@,
            pick(loc, "X-Plane 日志分诊工具需要 X-Plane 生成的最新 Log.txt。"@, "X-Plane Log Triage Tool needs the latest Log.txt generated by X-Plane."@),
            pick(loc, "请确认所选文件夹是 X-Plane 根目录，并且 X-Plane 至少启动过一次。"@, "Make sure the selected folder is the X-Plane root folder and that X-Plane has been started at least once."@),
        ),
{
    Finding::new(
        Severity::High,
        Confidence::High,
        string_from("missing_log"),
        string_from(tr(loc, "找不到 Log.txt", "Log.txt was not found")),
        string_from(log_path),
        string_from(tr(loc, "X-Plane 日志分诊工具需要 X-Plane 生成的最新 Log.txt。", "X-Plane Log Triage Tool needs the latest Log.txt generated by X-Plane.")),
        string_from(tr(loc, "请确认所选文件夹是 X-Plane 根目录，并且 X-Plane 至少启动过一次。", "Make sure the selected folder is the X-Plane root folder and that X-Plane has been started at least once.")),
    )
}

/// The finding that `Log.txt` is there but could not be read: the path
/// with the error in brackets.
pub fn log_read_failed_finding(log_path: &str, error: &str, loc: Locale) -> (r: Finding)
    ensures
        r@ == new_finding(
            Severity::High,
            Confidence::High,
            "log_read_failed"@,
            pick(loc, "Log.txt 存在但无法读取"@, "Log.txt exists but could not be read"@),
            log_path@ + " ("@ + error@ + ")"@,
            pick(loc, "文件存在，但操作系统拒绝访问或另一个进程正在使用它。"@, "The file exists, but the operating system denied access or another process is using it."@),
            pick(loc, "关闭 X-Plane 后重试。如果仍然失败，请检查文件权限。"@, "Close X-Plane and try again. If it still fails, check file permissions."@),
        ),
{
    let mut evidence = string_from(log_path);
    push_str(&mut evidence, " (");
    push_str(&mut evidence, error);
    push_str(&mut evidence, ")");
    Finding::new(
        Severity::High,
        Confidence::High,
        string_from("log_read_failed"),
        string_from(tr(loc, "Log.txt 存在但无法读取", "Log.txt exists but could not be read")),
        evidence,
        string_from(tr(loc, "文件存在，但操作系统拒绝访问或另一个进程正在使用它。", "The file exists, but the operating system denied access or another process is using it.")),
        string_from(tr(loc, "关闭 X-Plane 后重试。如果仍然失败，请检查文件权限。", "Close X-Plane and try again. If it still fails, check file permissions.")),
    )
}

} // verus!
