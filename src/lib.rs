//! Watch-and-dispatch core for moving embroidery designs onto a machine's
//! USB stick: change detection, per-file dispatch decisions, USB target
//! resolution, converter result classification and machine-name lookup.
pub mod cache;
pub mod catalog;
pub mod config;
pub mod dispatch;
pub mod machine;
pub mod text;
pub mod usb;
pub mod watch;
