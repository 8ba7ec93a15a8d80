//! The `hermes` host tool: its commands, the hand-over of the Wi-Fi
//! credentials to a device, and the serial monitor.

pub mod configure;
pub mod commands;
pub mod monitor;
