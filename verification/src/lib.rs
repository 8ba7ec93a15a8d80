//! Verified core of the self-esp toolkit: the command line front ends, the
//! serial-port selection rules, the credential hand-over between the host tool
//! and the firmware, and the firmware's upload handling.

pub mod text;
pub mod firmware;
pub mod hermes;
pub mod path;
pub mod cli;
