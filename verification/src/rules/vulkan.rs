//! Official Vulkan `VkResult` error codes in the log.
use vstd::prelude::*;

use crate::i18n::{fill, filled, pick, tr, Locale};
use crate::model::{new_finding, Confidence, Finding, FindingView, Severity};
use crate::rules::evidence::{evidence_line, evidence_text};
use crate::rules::keywords::opt_view;
use crate::text::{chars_of, contains, contains_str, string_from};

verus! {

/// The official `VkResult` error codes, in the order they are looked for.
pub open spec fn vk_code(i: nat) -> Seq<char> {
    if i == 0 {
        "VK_ERROR_OUT_OF_HOST_MEMORY"@
    } else if i == 1 {
        "VK_ERROR_OUT_OF_DEVICE_MEMORY"@
    } else if i == 2 {
        "VK_ERROR_INITIALIZATION_FAILED"@
    } else if i == 3 {
        "VK_ERROR_DEVICE_LOST"@
    } else if i == 4 {
        "VK_ERROR_MEMORY_MAP_FAILED"@
    } else if i == 5 {
        "VK_ERROR_LAYER_NOT_PRESENT"@
    } else if i == 6 {
        "VK_ERROR_EXTENSION_NOT_PRESENT"@
    } else if i == 7 {
        "VK_ERROR_FEATURE_NOT_PRESENT"@
    } else if i == 8 {
        "VK_ERROR_INCOMPATIBLE_DRIVER"@
    } else if i == 9 {
        "VK_ERROR_TOO_MANY_OBJECTS"@
    } else if i == 10 {
        "VK_ERROR_FORMAT_NOT_SUPPORTED"@
    } else if i == 11 {
        "VK_ERROR_FRAGMENTED_POOL"@
    } else if i == 12 {
        "VK_ERROR_UNKNOWN"@
    } else if i == 13 {
        "VK_ERROR_OUT_OF_POOL_MEMORY"@
    } else if i == 14 {
        "VK_ERROR_INVALID_EXTERNAL_HANDLE"@
    } else if i == 15 {
        "VK_ERROR_FRAGMENTATION"@
    } else if i == 16 {
        "VK_ERROR_INVALID_OPAQUE_CAPTURE_ADDRESS"@
    } else if i == 17 {
        "VK_ERROR_SURFACE_LOST_KHR"@
    } else if i == 18 {
        "VK_ERROR_NATIVE_WINDOW_IN_USE_KHR"@
    } else if i == 19 {
        "VK_ERROR_OUT_OF_DATE_KHR"@
    } else if i == 20 {
        "VK_ERROR_INCOMPATIBLE_DISPLAY_KHR"@
    } else if i == 21 {
        "VK_ERROR_INVALID_SHADER_NV"@
    } else if i == 22 {
        "VK_ERROR_VALIDATION_FAILED"@
    } else if i == 23 {
        "VK_ERROR_NOT_PERMITTED"@
    } else if i == 24 {
        "VK_ERROR_FULL_SCREEN_EXCLUSIVE_MODE_LOST_EXT"@
    } else {
        ""@
    }
}

pub const VK_CODE_COUNT: usize = 25;

pub fn vk_code_str(i: usize) -> (r: &'static str)
    requires
        i < VK_CODE_COUNT,
    ensures
        r@ == vk_code(i as nat),
{
    if i == 0 {
        "VK_ERROR_OUT_OF_HOST_MEMORY"
    } else if i == 1 {
        "VK_ERROR_OUT_OF_DEVICE_MEMORY"
    } else if i == 2 {
        "VK_ERROR_INITIALIZATION_FAILED"
    } else if i == 3 {
        "VK_ERROR_DEVICE_LOST"
    } else if i == 4 {
        "VK_ERROR_MEMORY_MAP_FAILED"
    } else if i == 5 {
        "VK_ERROR_LAYER_NOT_PRESENT"
    } else if i == 6 {
        "VK_ERROR_EXTENSION_NOT_PRESENT"
    } else if i == 7 {
        "VK_ERROR_FEATURE_NOT_PRESENT"
    } else if i == 8 {
        "VK_ERROR_INCOMPATIBLE_DRIVER"
    } else if i == 9 {
        "VK_ERROR_TOO_MANY_OBJECTS"
    } else if i == 10 {
        "VK_ERROR_FORMAT_NOT_SUPPORTED"
    } else if i == 11 {
        "VK_ERROR_FRAGMENTED_POOL"
    } else if i == 12 {
        "VK_ERROR_UNKNOWN"
    } else if i == 13 {
        "VK_ERROR_OUT_OF_POOL_MEMORY"
    } else if i == 14 {
        "VK_ERROR_INVALID_EXTERNAL_HANDLE"
    } else if i == 15 {
        "VK_ERROR_FRAGMENTATION"
    } else if i == 16 {
        "VK_ERROR_INVALID_OPAQUE_CAPTURE_ADDRESS"
    } else if i == 17 {
        "VK_ERROR_SURFACE_LOST_KHR"
    } else if i == 18 {
        "VK_ERROR_NATIVE_WINDOW_IN_USE_KHR"
    } else if i == 19 {
        "VK_ERROR_OUT_OF_DATE_KHR"
    } else if i == 20 {
        "VK_ERROR_INCOMPATIBLE_DISPLAY_KHR"
    } else if i == 21 {
        "VK_ERROR_INVALID_SHADER_NV"
    } else if i == 22 {
        "VK_ERROR_VALIDATION_FAILED"
    } else if i == 23 {
        "VK_ERROR_NOT_PERMITTED"
    } else if i == 24 {
        "VK_ERROR_FULL_SCREEN_EXCLUSIVE_MODE_LOST_EXT"
    } else {
        ""
    }
}

/// Whether the code is one after which X-Plane most likely cannot go on.
pub open spec fn vk_code_is_severe(i: nat) -> bool {
    i == 0 || i == 1 || i == 2 || i == 3 || i == 8
}

pub fn vulkan_result_severity(i: usize) -> (r: Severity)
    ensures
        r == (if vk_code_is_severe(i as nat) { Severity::High } else { Severity::Medium }),
{
    if i == 0 || i == 1 || i == 2 || i == 3 || i == 8 {
        Severity::High
    } else {
        Severity::Medium
    }
}

/// What a code means.
pub open spec fn vk_explanation(i: nat, loc: Locale) -> Seq<char> {
    if i == 0 {
        pick(loc, "Vulkan 报告主机内存分配失败。可能和系统内存压力、后台程序或资源加载过重有关。"@, "Vulkan reports host memory allocation failure. May be related to system memory pressure, background programs, or excessive resource loading."@)
    } else if i == 1 {
        pick(loc, "Vulkan 报告显存分配失败。常见关联因素是纹理质量过高、高分辨率 scenery、显存压力或显卡驱动问题。"@, "Vulkan reports device memory allocation failure. Common associated factors: texture quality too high, high-resolution scenery, VRAM pressure, or GPU driver issues."@)
    } else if i == 2 {
        pick(loc, "Vulkan 对象初始化失败。可能和驱动、图形功能支持、插件绘制或 X-Plane 图形初始化有关。"@, "Vulkan object initialization failed. May be related to drivers, graphics feature support, plugin rendering, or X-Plane graphics initialization."@)
    } else if i == 3 {
        pick(loc, "Vulkan 报告逻辑或物理设备丢失。这通常是图形设备/驱动层面的严重错误，X-Plane 很可能无法继续运行。"@, "Vulkan reports the logical or physical device was lost. This is usually a critical GPU/driver-level error; X-Plane likely cannot continue."@)
    } else if i == 4 {
        pick(loc, "日志包含 Vulkan 官方 VkResult 错误码。这个结果比普通关键词更可靠，应结合错误码前后的日志上下文排查。"@, "The log contains an official Vulkan VkResult error code. This is more reliable than generic keywords; investigate the log context before and after this error code."@)
    } else if i == 5 {
        pick(loc, "Vulkan 报告请求的 layer 不存在或无法加载，可能和 Vulkan runtime、调试层或驱动安装有关。"@, "Vulkan reports the requested layer is not present or cannot be loaded. May be related to Vulkan runtime, debug layers, or driver installation."@)
    } else if i == 6 {
        pick(loc, "Vulkan 报告请求的扩展不存在，可能是驱动或显卡不支持所需功能。"@, "Vulkan reports the requested extension is not present. The driver or GPU may not support the required feature."@)
    } else if i == 7 {
        pick(loc, "Vulkan 报告请求的功能不存在，可能是显卡或驱动不支持。"@, "Vulkan reports the requested feature is not present. The GPU or driver may not support it."@)
    } else if i == 8 {
        pick(loc, "Vulkan 报告驱动不兼容，当前驱动可能不支持所需的 Vulkan 版本或功能。"@, "Vulkan reports incompatible driver. The current driver may not support the required Vulkan version or features."@)
    } else if i == 9 {
        pick(loc, "日志包含 Vulkan 官方 VkResult 错误码。这个结果比普通关键词更可靠，应结合错误码前后的日志上下文排查。"@, "The log contains an official Vulkan VkResult error code. This is more reliable than generic keywords; investigate the log context before and after this error code."@)
    } else if i == 10 {
        pick(loc, "日志包含 Vulkan 官方 VkResult 错误码。这个结果比普通关键词更可靠，应结合错误码前后的日志上下文排查。"@, "The log contains an official Vulkan VkResult error code. This is more reliable than generic keywords; investigate the log context before and after this error code."@)
    } else if i == 11 {
        pick(loc, "日志包含 Vulkan 官方 VkResult 错误码。这个结果比普通关键词更可靠，应结合错误码前后的日志上下文排查。"@, "The log contains an official Vulkan VkResult error code. This is more reliable than generic keywords; investigate the log context before and after this error code."@)
    } else if i == 12 {
        pick(loc, "Vulkan 返回未知错误。官方语义是无法明确归因的实现或输入问题，需要结合上下文继续排查。"@, "Vulkan returned an unknown error. The official semantics are an implementation or input issue that cannot be clearly attributed; further investigation with context is needed."@)
    } else if i == 13 {
        pick(loc, "日志包含 Vulkan 官方 VkResult 错误码。这个结果比普通关键词更可靠，应结合错误码前后的日志上下文排查。"@, "The log contains an official Vulkan VkResult error code. This is more reliable than generic keywords; investigate the log context before and after this error code."@)
    } else if i == 14 {
        pick(loc, "日志包含 Vulkan 官方 VkResult 错误码。这个结果比普通关键词更可靠，应结合错误码前后的日志上下文排查。"@, "The log contains an official Vulkan VkResult error code. This is more reliable than generic keywords; investigate the log context before and after this error code."@)
    } else if i == 15 {
        pick(loc, "日志包含 Vulkan 官方 VkResult 错误码。这个结果比普通关键词更可靠，应结合错误码前后的日志上下文排查。"@, "The log contains an official Vulkan VkResult error code. This is more reliable than generic keywords; investigate the log context before and after this error code."@)
    } else if i == 16 {
        pick(loc, "日志包含 Vulkan 官方 VkResult 错误码。这个结果比普通关键词更可靠，应结合错误码前后的日志上下文排查。"@, "The log contains an official Vulkan VkResult error code. This is more reliable than generic keywords; investigate the log context before and after this error code."@)
    } else if i == 17 {
        pick(loc, "Vulkan surface 已不可用，通常和窗口或显示表面被系统改变有关。"@, "Vulkan surface is no longer available, usually related to the window or display surface being altered by the system."@)
    } else if i == 18 {
        pick(loc, "日志包含 Vulkan 官方 VkResult 错误码。这个结果比普通关键词更可靠，应结合错误码前后的日志上下文排查。"@, "The log contains an official Vulkan VkResult error code. This is more reliable than generic keywords; investigate the log context before and after this error code."@)
    } else if i == 19 {
        pick(loc, "Vulkan swapchain 已过期，通常和窗口、显示器、分辨率或全屏状态变化有关。"@, "Vulkan swapchain is out of date, usually related to window, display, resolution, or fullscreen state changes."@)
    } else if i == 20 {
        pick(loc, "日志包含 Vulkan 官方 VkResult 错误码。这个结果比普通关键词更可靠，应结合错误码前后的日志上下文排查。"@, "The log contains an official Vulkan VkResult error code. This is more reliable than generic keywords; investigate the log context before and after this error code."@)
    } else if i == 21 {
        pick(loc, "日志包含 Vulkan 官方 VkResult 错误码。这个结果比普通关键词更可靠，应结合错误码前后的日志上下文排查。"@, "The log contains an official Vulkan VkResult error code. This is more reliable than generic keywords; investigate the log context before and after this error code."@)
    } else if i == 22 {
        pick(loc, "日志包含 Vulkan 官方 VkResult 错误码。这个结果比普通关键词更可靠，应结合错误码前后的日志上下文排查。"@, "The log contains an official Vulkan VkResult error code. This is more reliable than generic keywords; investigate the log context before and after this error code."@)
    } else if i == 23 {
        pick(loc, "日志包含 Vulkan 官方 VkResult 错误码。这个结果比普通关键词更可靠，应结合错误码前后的日志上下文排查。"@, "The log contains an official Vulkan VkResult error code. This is more reliable than generic keywords; investigate the log context before and after this error code."@)
    } else if i == 24 {
        pick(loc, "Vulkan 独占全屏模式丢失，可能和切换窗口、显示器状态或系统抢占全屏有关。"@, "Vulkan exclusive fullscreen mode was lost. May be related to window switching, display state changes, or system takeover of fullscreen."@)
    } else {
        pick(loc, "日志包含 Vulkan 官方 VkResult 错误码。这个结果比普通关键词更可靠，应结合错误码前后的日志上下文排查。"@, "The log contains an official Vulkan VkResult error code. This is more reliable than generic keywords; investigate the log context before and after this error code."@)
    }
}

pub fn vulkan_result_explanation(i: usize, loc: Locale) -> (r: &'static str)
    ensures
        r@ == vk_explanation(i as nat, loc),
{
    if i == 0 {
        tr(loc, "Vulkan 报告主机内存分配失败。可能和系统内存压力、后台程序或资源加载过重有关。", "Vulkan reports host memory allocation failure. May be related to system memory pressure, background programs, or excessive resource loading.")
    } else if i == 1 {
        tr(loc, "Vulkan 报告显存分配失败。常见关联因素是纹理质量过高、高分辨率 scenery、显存压力或显卡驱动问题。", "Vulkan reports device memory allocation failure. Common associated factors: texture quality too high, high-resolution scenery, VRAM pressure, or GPU driver issues.")
    } else if i == 2 {
        tr(loc, "Vulkan 对象初始化失败。可能和驱动、图形功能支持、插件绘制或 X-Plane 图形初始化有关。", "Vulkan object initialization failed. May be related to drivers, graphics feature support, plugin rendering, or X-Plane graphics initialization.")
    } else if i == 3 {
        tr(loc, "Vulkan 报告逻辑或物理设备丢失。这通常是图形设备/驱动层面的严重错误，X-Plane 很可能无法继续运行。", "Vulkan reports the logical or physical device was lost. This is usually a critical GPU/driver-level error; X-Plane likely cannot continue.")
    } else if i == 4 {
        tr(loc, "日志包含 Vulkan 官方 VkResult 错误码。这个结果比普通关键词更可靠，应结合错误码前后的日志上下文排查。", "The log contains an official Vulkan VkResult error code. This is more reliable than generic keywords; investigate the log context before and after this error code.")
    } else if i == 5 {
        tr(loc, "Vulkan 报告请求的 layer 不存在或无法加载，可能和 Vulkan runtime、调试层或驱动安装有关。", "Vulkan reports the requested layer is not present or cannot be loaded. May be related to Vulkan runtime, debug layers, or driver installation.")
    } else if i == 6 {
        tr(loc, "Vulkan 报告请求的扩展不存在，可能是驱动或显卡不支持所需功能。", "Vulkan reports the requested extension is not present. The driver or GPU may not support the required feature.")
    } else if i == 7 {
        tr(loc, "Vulkan 报告请求的功能不存在，可能是显卡或驱动不支持。", "Vulkan reports the requested feature is not present. The GPU or driver may not support it.")
    } else if i == 8 {
        tr(loc, "Vulkan 报告驱动不兼容，当前驱动可能不支持所需的 Vulkan 版本或功能。", "Vulkan reports incompatible driver. The current driver may not support the required Vulkan version or features.")
    } else if i == 9 {
        tr(loc, "日志包含 Vulkan 官方 VkResult 错误码。这个结果比普通关键词更可靠，应结合错误码前后的日志上下文排查。", "The log contains an official Vulkan VkResult error code. This is more reliable than generic keywords; investigate the log context before and after this error code.")
    } else if i == 10 {
        tr(loc, "日志包含 Vulkan 官方 VkResult 错误码。这个结果比普通关键词更可靠，应结合错误码前后的日志上下文排查。", "The log contains an official Vulkan VkResult error code. This is more reliable than generic keywords; investigate the log context before and after this error code.")
    } else if i == 11 {
        tr(loc, "日志包含 Vulkan 官方 VkResult 错误码。这个结果比普通关键词更可靠，应结合错误码前后的日志上下文排查。", "The log contains an official Vulkan VkResult error code. This is more reliable than generic keywords; investigate the log context before and after this error code.")
    } else if i == 12 {
        tr(loc, "Vulkan 返回未知错误。官方语义是无法明确归因的实现或输入问题，需要结合上下文继续排查。", "Vulkan returned an unknown error. The official semantics are an implementation or input issue that cannot be clearly attributed; further investigation with context is needed.")
    } else if i == 13 {
        tr(loc, "日志包含 Vulkan 官方 VkResult 错误码。这个结果比普通关键词更可靠，应结合错误码前后的日志上下文排查。", "The log contains an official Vulkan VkResult error code. This is more reliable than generic keywords; investigate the log context before and after this error code.")
    } else if i == 14 {
        tr(loc, "日志包含 Vulkan 官方 VkResult 错误码。这个结果比普通关键词更可靠，应结合错误码前后的日志上下文排查。", "The log contains an official Vulkan VkResult error code. This is more reliable than generic keywords; investigate the log context before and after this error code.")
    } else if i == 15 {
        tr(loc, "日志包含 Vulkan 官方 VkResult 错误码。这个结果比普通关键词更可靠，应结合错误码前后的日志上下文排查。", "The log contains an official Vulkan VkResult error code. This is more reliable than generic keywords; investigate the log context before and after this error code.")
    } else if i == 16 {
        tr(loc, "日志包含 Vulkan 官方 VkResult 错误码。这个结果比普通关键词更可靠，应结合错误码前后的日志上下文排查。", "The log contains an official Vulkan VkResult error code. This is more reliable than generic keywords; investigate the log context before and after this error code.")
    } else if i == 17 {
        tr(loc, "Vulkan surface 已不可用，通常和窗口或显示表面被系统改变有关。", "Vulkan surface is no longer available, usually related to the window or display surface being altered by the system.")
    } else if i == 18 {
        tr(loc, "日志包含 Vulkan 官方 VkResult 错误码。这个结果比普通关键词更可靠，应结合错误码前后的日志上下文排查。", "The log contains an official Vulkan VkResult error code. This is more reliable than generic keywords; investigate the log context before and after this error code.")
    } else if i == 19 {
        tr(loc, "Vulkan swapchain 已过期，通常和窗口、显示器、分辨率或全屏状态变化有关。", "Vulkan swapchain is out of date, usually related to window, display, resolution, or fullscreen state changes.")
    } else if i == 20 {
        tr(loc, "日志包含 Vulkan 官方 VkResult 错误码。这个结果比普通关键词更可靠，应结合错误码前后的日志上下文排查。", "The log contains an official Vulkan VkResult error code. This is more reliable than generic keywords; investigate the log context before and after this error code.")
    } else if i == 21 {
        tr(loc, "日志包含 Vulkan 官方 VkResult 错误码。这个结果比普通关键词更可靠，应结合错误码前后的日志上下文排查。", "The log contains an official Vulkan VkResult error code. This is more reliable than generic keywords; investigate the log context before and after this error code.")
    } else if i == 22 {
        tr(loc, "日志包含 Vulkan 官方 VkResult 错误码。这个结果比普通关键词更可靠，应结合错误码前后的日志上下文排查。", "The log contains an official Vulkan VkResult error code. This is more reliable than generic keywords; investigate the log context before and after this error code.")
    } else if i == 23 {
        tr(loc, "日志包含 Vulkan 官方 VkResult 错误码。这个结果比普通关键词更可靠，应结合错误码前后的日志上下文排查。", "The log contains an official Vulkan VkResult error code. This is more reliable than generic keywords; investigate the log context before and after this error code.")
    } else if i == 24 {
        tr(loc, "Vulkan 独占全屏模式丢失，可能和切换窗口、显示器状态或系统抢占全屏有关。", "Vulkan exclusive fullscreen mode was lost. May be related to window switching, display state changes, or system takeover of fullscreen.")
    } else {
        tr(loc, "日志包含 Vulkan 官方 VkResult 错误码。这个结果比普通关键词更可靠，应结合错误码前后的日志上下文排查。", "The log contains an official Vulkan VkResult error code. This is more reliable than generic keywords; investigate the log context before and after this error code.")
    }
}

/// What to do about a code.
pub open spec fn vk_suggestion(i: nat, loc: Locale) -> Seq<char> {
    if i == 0 {
        pick(loc, "关闭后台程序，降低 scenery/插件负载，观察系统内存占用后复测。"@, "Close background programs, reduce scenery/plugin load, monitor system memory usage, and retest."@)
    } else if i == 1 {
        pick(loc, "降低纹理质量、抗锯齿和高分辨率 scenery，关闭不必要插件，再复测同一路线。"@, "Lower texture quality, anti-aliasing, and high-resolution scenery; disable unnecessary plugins and retest the same route."@)
    } else if i == 2 {
        pick(loc, "先用默认飞机和默认机场启动；若仍失败，更新显卡驱动并检查 X-Plane 图形设置。"@, "Start with default aircraft at a default airport. If it still fails, update GPU drivers and check X-Plane graphics settings."@)
    } else if i == 3 {
        pick(loc, "先更新或回退显卡驱动，关闭超频和图形增强插件，用默认飞机+默认机场复测；如果只在某机场发生，再检查该 scenery。"@, "Update or roll back GPU drivers, disable overclocking and graphics-enhancement plugins, retest with default aircraft at a default airport. If it only happens at a specific airport, investigate that scenery."@)
    } else if i == 4 {
        pick(loc, "把这条错误码前后 30 行日志一起保存，优先用默认飞机、默认机场、禁用第三方插件做对照复测。"@, "Save ~30 lines of log context before and after this error code. Prioritize a controlled retest with default aircraft, default airport, and third-party plugins disabled."@)
    } else if i == 5 {
        pick(loc, "检查 Vulkan runtime 和显卡驱动安装是否完整，移除不必要的 Vulkan 调试层或覆盖层工具后复测。"@, "Check that Vulkan runtime and GPU drivers are fully installed. Remove unnecessary Vulkan debug layers or overlay tools and retest."@)
    } else if i == 6 {
        pick(loc, "更新显卡驱动；如果硬件较旧，确认它是否满足 X-Plane 12 的图形要求。"@, "Update GPU drivers. If the hardware is older, check whether it meets X-Plane 12 graphics requirements."@)
    } else if i == 7 {
        pick(loc, "更新显卡驱动；如果硬件较旧，确认它是否满足 X-Plane 12 的图形要求。"@, "Update GPU drivers. If the hardware is older, check whether it meets X-Plane 12 graphics requirements."@)
    } else if i == 8 {
        pick(loc, "安装显卡厂商最新版正式驱动；如果刚更新后才出问题，也可以回退到稳定版本。"@, "Install the latest official driver from the GPU vendor. If the issue started right after a driver update, roll back to the previous stable version."@)
    } else if i == 9 {
        pick(loc, "把这条错误码前后 30 行日志一起保存，优先用默认飞机、默认机场、禁用第三方插件做对照复测。"@, "Save ~30 lines of log context before and after this error code. Prioritize a controlled retest with default aircraft, default airport, and third-party plugins disabled."@)
    } else if i == 10 {
        pick(loc, "把这条错误码前后 30 行日志一起保存，优先用默认飞机、默认机场、禁用第三方插件做对照复测。"@, "Save ~30 lines of log context before and after this error code. Prioritize a controlled retest with default aircraft, default airport, and third-party plugins disabled."@)
    } else if i == 11 {
        pick(loc, "把这条错误码前后 30 行日志一起保存，优先用默认飞机、默认机场、禁用第三方插件做对照复测。"@, "Save ~30 lines of log context before and after this error code. Prioritize a controlled retest with default aircraft, default airport, and third-party plugins disabled."@)
    } else if i == 12 {
        pick(loc, "把这条错误码前后 30 行日志一起保存，优先用默认飞机、默认机场、禁用第三方插件做对照复测。"@, "Save ~30 lines of log context before and after this error code. Prioritize a controlled retest with default aircraft, default airport, and third-party plugins disabled."@)
    } else if i == 13 {
        pick(loc, "把这条错误码前后 30 行日志一起保存，优先用默认飞机、默认机场、禁用第三方插件做对照复测。"@, "Save ~30 lines of log context before and after this error code. Prioritize a controlled retest with default aircraft, default airport, and third-party plugins disabled."@)
    } else if i == 14 {
        pick(loc, "把这条错误码前后 30 行日志一起保存，优先用默认飞机、默认机场、禁用第三方插件做对照复测。"@, "Save ~30 lines of log context before and after this error code. Prioritize a controlled retest with default aircraft, default airport, and third-party plugins disabled."@)
    } else if i == 15 {
        pick(loc, "把这条错误码前后 30 行日志一起保存，优先用默认飞机、默认机场、禁用第三方插件做对照复测。"@, "Save ~30 lines of log context before and after this error code. Prioritize a controlled retest with default aircraft, default airport, and third-party plugins disabled."@)
    } else if i == 16 {
        pick(loc, "把这条错误码前后 30 行日志一起保存，优先用默认飞机、默认机场、禁用第三方插件做对照复测。"@, "Save ~30 lines of log context before and after this error code. Prioritize a controlled retest with default aircraft, default airport, and third-party plugins disabled."@)
    } else if i == 17 {
        pick(loc, "切换窗口/全屏模式，重启 X-Plane；如果常发生，更新驱动并关闭覆盖层工具。"@, "Toggle window/fullscreen mode, restart X-Plane. If this happens frequently, update drivers and disable overlay tools."@)
    } else if i == 18 {
        pick(loc, "把这条错误码前后 30 行日志一起保存，优先用默认飞机、默认机场、禁用第三方插件做对照复测。"@, "Save ~30 lines of log context before and after this error code. Prioritize a controlled retest with default aircraft, default airport, and third-party plugins disabled."@)
    } else if i == 19 {
        pick(loc, "切换窗口/全屏模式，重启 X-Plane；如果常发生，更新驱动并关闭覆盖层工具。"@, "Toggle window/fullscreen mode, restart X-Plane. If this happens frequently, update drivers and disable overlay tools."@)
    } else if i == 20 {
        pick(loc, "把这条错误码前后 30 行日志一起保存，优先用默认飞机、默认机场、禁用第三方插件做对照复测。"@, "Save ~30 lines of log context before and after this error code. Prioritize a controlled retest with default aircraft, default airport, and third-party plugins disabled."@)
    } else if i == 21 {
        pick(loc, "把这条错误码前后 30 行日志一起保存，优先用默认飞机、默认机场、禁用第三方插件做对照复测。"@, "Save ~30 lines of log context before and after this error code. Prioritize a controlled retest with default aircraft, default airport, and third-party plugins disabled."@)
    } else if i == 22 {
        pick(loc, "把这条错误码前后 30 行日志一起保存，优先用默认飞机、默认机场、禁用第三方插件做对照复测。"@, "Save ~30 lines of log context before and after this error code. Prioritize a controlled retest with default aircraft, default airport, and third-party plugins disabled."@)
    } else if i == 23 {
        pick(loc, "把这条错误码前后 30 行日志一起保存，优先用默认飞机、默认机场、禁用第三方插件做对照复测。"@, "Save ~30 lines of log context before and after this error code. Prioritize a controlled retest with default aircraft, default airport, and third-party plugins disabled."@)
    } else if i == 24 {
        pick(loc, "改用窗口化或无边框模式，关闭可能抢占全屏的覆盖层工具。"@, "Switch to windowed or borderless mode, and disable overlay tools that may steal fullscreen focus."@)
    } else {
        pick(loc, "把这条错误码前后 30 行日志一起保存，优先用默认飞机、默认机场、禁用第三方插件做对照复测。"@, "Save ~30 lines of log context before and after this error code. Prioritize a controlled retest with default aircraft, default airport, and third-party plugins disabled."@)
    }
}

pub fn vulkan_result_suggestion(i: usize, loc: Locale) -> (r: &'static str)
    ensures
        r@ == vk_suggestion(i as nat, loc),
{
    if i == 0 {
        tr(loc, "关闭后台程序，降低 scenery/插件负载，观察系统内存占用后复测。", "Close background programs, reduce scenery/plugin load, monitor system memory usage, and retest.")
    } else if i == 1 {
        tr(loc, "降低纹理质量、抗锯齿和高分辨率 scenery，关闭不必要插件，再复测同一路线。", "Lower texture quality, anti-aliasing, and high-resolution scenery; disable unnecessary plugins and retest the same route.")
    } else if i == 2 {
        tr(loc, "先用默认飞机和默认机场启动；若仍失败，更新显卡驱动并检查 X-Plane 图形设置。", "Start with default aircraft at a default airport. If it still fails, update GPU drivers and check X-Plane graphics settings.")
    } else if i == 3 {
        tr(loc, "先更新或回退显卡驱动，关闭超频和图形增强插件，用默认飞机+默认机场复测；如果只在某机场发生，再检查该 scenery。", "Update or roll back GPU drivers, disable overclocking and graphics-enhancement plugins, retest with default aircraft at a default airport. If it only happens at a specific airport, investigate that scenery.")
    } else if i == 4 {
        tr(loc, "把这条错误码前后 30 行日志一起保存，优先用默认飞机、默认机场、禁用第三方插件做对照复测。", "Save ~30 lines of log context before and after this error code. Prioritize a controlled retest with default aircraft, default airport, and third-party plugins disabled.")
    } else if i == 5 {
        tr(loc, "检查 Vulkan runtime 和显卡驱动安装是否完整，移除不必要的 Vulkan 调试层或覆盖层工具后复测。", "Check that Vulkan runtime and GPU drivers are fully installed. Remove unnecessary Vulkan debug layers or overlay tools and retest.")
    } else if i == 6 {
        tr(loc, "更新显卡驱动；如果硬件较旧，确认它是否满足 X-Plane 12 的图形要求。", "Update GPU drivers. If the hardware is older, check whether it meets X-Plane 12 graphics requirements.")
    } else if i == 7 {
        tr(loc, "更新显卡驱动；如果硬件较旧，确认它是否满足 X-Plane 12 的图形要求。", "Update GPU drivers. If the hardware is older, check whether it meets X-Plane 12 graphics requirements.")
    } else if i == 8 {
        tr(loc, "安装显卡厂商最新版正式驱动；如果刚更新后才出问题，也可以回退到稳定版本。", "Install the latest official driver from the GPU vendor. If the issue started right after a driver update, roll back to the previous stable version.")
    } else if i == 9 {
        tr(loc, "把这条错误码前后 30 行日志一起保存，优先用默认飞机、默认机场、禁用第三方插件做对照复测。", "Save ~30 lines of log context before and after this error code. Prioritize a controlled retest with default aircraft, default airport, and third-party plugins disabled.")
    } else if i == 10 {
        tr(loc, "把这条错误码前后 30 行日志一起保存，优先用默认飞机、默认机场、禁用第三方插件做对照复测。", "Save ~30 lines of log context before and after this error code. Prioritize a controlled retest with default aircraft, default airport, and third-party plugins disabled.")
    } else if i == 11 {
        tr(loc, "把这条错误码前后 30 行日志一起保存，优先用默认飞机、默认机场、禁用第三方插件做对照复测。", "Save ~30 lines of log context before and after this error code. Prioritize a controlled retest with default aircraft, default airport, and third-party plugins disabled.")
    } else if i == 12 {
        tr(loc, "把这条错误码前后 30 行日志一起保存，优先用默认飞机、默认机场、禁用第三方插件做对照复测。", "Save ~30 lines of log context before and after this error code. Prioritize a controlled retest with default aircraft, default airport, and third-party plugins disabled.")
    } else if i == 13 {
        tr(loc, "把这条错误码前后 30 行日志一起保存，优先用默认飞机、默认机场、禁用第三方插件做对照复测。", "Save ~30 lines of log context before and after this error code. Prioritize a controlled retest with default aircraft, default airport, and third-party plugins disabled.")
    } else if i == 14 {
        tr(loc, "把这条错误码前后 30 行日志一起保存，优先用默认飞机、默认机场、禁用第三方插件做对照复测。", "Save ~30 lines of log context before and after this error code. Prioritize a controlled retest with default aircraft, default airport, and third-party plugins disabled.")
    } else if i == 15 {
        tr(loc, "把这条错误码前后 30 行日志一起保存，优先用默认飞机、默认机场、禁用第三方插件做对照复测。", "Save ~30 lines of log context before and after this error code. Prioritize a controlled retest with default aircraft, default airport, and third-party plugins disabled.")
    } else if i == 16 {
        tr(loc, "把这条错误码前后 30 行日志一起保存，优先用默认飞机、默认机场、禁用第三方插件做对照复测。", "Save ~30 lines of log context before and after this error code. Prioritize a controlled retest with default aircraft, default airport, and third-party plugins disabled.")
    } else if i == 17 {
        tr(loc, "切换窗口/全屏模式，重启 X-Plane；如果常发生，更新驱动并关闭覆盖层工具。", "Toggle window/fullscreen mode, restart X-Plane. If this happens frequently, update drivers and disable overlay tools.")
    } else if i == 18 {
        tr(loc, "把这条错误码前后 30 行日志一起保存，优先用默认飞机、默认机场、禁用第三方插件做对照复测。", "Save ~30 lines of log context before and after this error code. Prioritize a controlled retest with default aircraft, default airport, and third-party plugins disabled.")
    } else if i == 19 {
        tr(loc, "切换窗口/全屏模式，重启 X-Plane；如果常发生，更新驱动并关闭覆盖层工具。", "Toggle window/fullscreen mode, restart X-Plane. If this happens frequently, update drivers and disable overlay tools.")
    } else if i == 20 {
        tr(loc, "把这条错误码前后 30 行日志一起保存，优先用默认飞机、默认机场、禁用第三方插件做对照复测。", "Save ~30 lines of log context before and after this error code. Prioritize a controlled retest with default aircraft, default airport, and third-party plugins disabled.")
    } else if i == 21 {
        tr(loc, "把这条错误码前后 30 行日志一起保存，优先用默认飞机、默认机场、禁用第三方插件做对照复测。", "Save ~30 lines of log context before and after this error code. Prioritize a controlled retest with default aircraft, default airport, and third-party plugins disabled.")
    } else if i == 22 {
        tr(loc, "把这条错误码前后 30 行日志一起保存，优先用默认飞机、默认机场、禁用第三方插件做对照复测。", "Save ~30 lines of log context before and after this error code. Prioritize a controlled retest with default aircraft, default airport, and third-party plugins disabled.")
    } else if i == 23 {
        tr(loc, "把这条错误码前后 30 行日志一起保存，优先用默认飞机、默认机场、禁用第三方插件做对照复测。", "Save ~30 lines of log context before and after this error code. Prioritize a controlled retest with default aircraft, default airport, and third-party plugins disabled.")
    } else if i == 24 {
        tr(loc, "改用窗口化或无边框模式，关闭可能抢占全屏的覆盖层工具。", "Switch to windowed or borderless mode, and disable overlay tools that may steal fullscreen focus.")
    } else {
        tr(loc, "把这条错误码前后 30 行日志一起保存，优先用默认飞机、默认机场、禁用第三方插件做对照复测。", "Save ~30 lines of log context before and after this error code. Prioritize a controlled retest with default aircraft, default airport, and third-party plugins disabled.")
    }
}
/// The first official code, from index `i` on, that the line names.
pub open spec fn vk_code_from(line: Seq<char>, i: nat) -> Option<nat>
    decreases VK_CODE_COUNT - i,
{
    if i >= VK_CODE_COUNT {
        None
    } else if contains(line, vk_code(i)) {
        Some(i)
    } else {
        vk_code_from(line, i + 1)
    }
}

/// The first official code that the line names.
pub open spec fn vk_code_in(line: Seq<char>) -> Option<nat> {
    vk_code_from(line, 0)
}

pub fn extract_vulkan_result_code(line: &[char]) -> (r: Option<usize>)
    ensures
        match r {
            Some(i) => vk_code_in(line@) == Some(i as nat) && i < VK_CODE_COUNT,
            None => vk_code_in(line@) is None,
        },
{
    let mut i: usize = 0;
    while i < VK_CODE_COUNT
        invariant
            i <= VK_CODE_COUNT,
            vk_code_in(line@) == vk_code_from(line@, i as nat),
        decreases VK_CODE_COUNT - i,
    {
        if contains_str(line, vk_code_str(i)) {
            return Some(i);
        }
        i = i + 1;
    }
    None
}

/// The `vulkan_result_error` finding for code index `code` on one line.
pub open spec fn spec_vulkan_result_error(idx: nat, line: Seq<char>, code: nat, loc: Locale) -> FindingView {
    new_finding(
        if vk_code_is_severe(code) {
            Severity::High
        } else {
            Severity::Medium
        },
        Confidence::High,
        "vulkan_result_error"@,
        filled(loc, "Vulkan 官方错误码："@, ""@, "Vulkan error code: "@, ""@, vk_code(code)),
        evidence_text(idx, line),
        vk_explanation(code, loc),
        vk_suggestion(code, loc),
    )
}

pub fn check_vulkan_result_error(idx: usize, line: &[char], code: usize, loc: Locale) -> (r: Finding)
    requires
        idx < usize::MAX,
        code < VK_CODE_COUNT,
    ensures
        r@ == spec_vulkan_result_error(idx as nat, line@, code as nat, loc),
{
    let name = chars_of(vk_code_str(code));
    Finding::new(
        vulkan_result_severity(code),
        Confidence::High,
        string_from("vulkan_result_error"),
        fill(loc, "Vulkan 官方错误码：", "", "Vulkan error code: ", "", &name),
        evidence_line(idx, line),
        string_from(vulkan_result_explanation(code, loc)),
        string_from(vulkan_result_suggestion(code, loc)),
    )
}

/// The `vulkan_result_error` finding is counted once.
pub proof fn lemma_vulkan_result_error_once(idx: nat, line: Seq<char>, code: nat, loc: Locale)
    ensures
        spec_vulkan_result_error(idx, line, code, loc).occurrences == 1,
        spec_vulkan_result_error(idx, line, code, loc).extra_evidence.len() <= 4,
        spec_vulkan_result_error(idx, line, code, loc).kind == "vulkan_result_error"@,
        crate::rules::evidence::log_evidence(spec_vulkan_result_error(idx, line, code, loc).evidence),
        spec_vulkan_result_error(idx, line, code, loc).extra_evidence.len() == 0,
        spec_vulkan_result_error(idx, line, code, loc).evidence == crate::rules::evidence::evidence_text(idx, line),
{
    broadcast use crate::rules::evidence::lemma_evidence_text_in_log;
}

} // verus!
