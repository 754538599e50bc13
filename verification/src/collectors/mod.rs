//! Readers for the reports of the system tools.
pub mod system;
pub mod disk;
pub mod ram;
pub mod network;
pub mod process;
pub mod services;
pub mod security;
pub mod usb;
pub mod audio;
pub mod bluetooth;
pub mod wifi;
pub mod cpu;
pub mod thermal;
pub mod memory;
