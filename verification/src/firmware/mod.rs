//! The firmware side: reading the Wi-Fi credentials from the serial console,
//! and the rules of its HTTP upload endpoint.

pub mod configurator;
pub mod html;
pub mod upload;
pub mod credentials;
