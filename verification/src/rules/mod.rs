//! The log rules: from the text of a `Log.txt` to findings.
pub mod evidence;
pub mod keywords;
pub mod channels;
pub mod plugins;
pub mod assets;
pub mod vulkan;
pub mod vram;
pub mod subsystem;
pub mod simtime;
pub mod context;
pub mod merge;
pub mod analyze;
pub mod kinds;
pub mod langs;
