//! Data model and text parsing for a macOS system inspector.
//!
//! The library turns the textual output of system tools (`vm_stat`, `top`,
//! `sysctl`, `netstat`, `system_profiler`, ...) into typed records, keeps the
//! navigation state of the terminal interface, and formats sizes for display.
//! Running the tools and drawing the screen is left to the program around it.
pub mod text;
pub mod num;
pub mod types;
pub mod scan;
pub mod collectors;
pub mod utils;
pub mod sort;
pub mod app;
pub mod input;
pub mod display;
pub mod memory_map;
