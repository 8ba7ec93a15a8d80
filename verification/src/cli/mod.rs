//! The `cli` host tool: its commands, the choice of the serial port, and the
//! reports and files around flashing a board.

pub mod serial;
pub mod commands;
pub mod upload;
pub mod flasher;
