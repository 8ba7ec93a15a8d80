//! The serial monitor: shows what a board writes to its serial line.

use vstd::prelude::*;
use crate::text::str_from_utf8;

verus! {

broadcast use vstd::string::group_string_axioms;

/// The monitor command.
pub struct Configure {
    args: Vec<String>,
}

impl View for Configure {
    type V = Seq<String>;

    closed spec fn view(&self) -> Seq<String> {
        self.args@
    }
}

impl Configure {
    /// The command with its arguments.
    pub fn new(args: Vec<String>) -> (r: Configure)
        ensures
            r@ == args@,
    {
        Configure { args }
    }
}

/// What one read from the serial line gave.
pub enum PortRead {
    /// These bytes (none at all when nothing was there).
    Data(Vec<u8>),
    /// The read timed out.
    TimedOut,
    /// Any other error.
    Failed,
}

/// What the monitor does after a read.
pub enum MonitorStep {
    /// Print this text as it is.
    Print(String),
    /// Print these bytes as a list, since they are not UTF-8.
    PrintBytes(Vec<u8>),
    /// Read again.
    Idle,
    /// Report the error and stop.
    Stop,
}

/// One turn of the monitor loop: text is shown as text, other bytes as a list,
/// an empty read or a timeout leads to another read, any other error ends it.
pub fn monitor_step(read: PortRead) -> (r: MonitorStep)
    ensures
        match read {
            PortRead::Data(bytes) => if bytes@.len() == 0 {
                r is Idle
            } else if vstd::utf8::valid_utf8(bytes@) {
                r matches MonitorStep::Print(text) && vstd::utf8::encode_utf8(text@) == bytes@
            } else {
                r matches MonitorStep::PrintBytes(b) && b@ == bytes@
            },
            PortRead::TimedOut => r is Idle,
            PortRead::Failed => r is Stop,
        },
{
    match read {
        PortRead::Data(bytes) => {
            if bytes.len() == 0 {
                MonitorStep::Idle
            } else {
                match str_from_utf8(bytes.as_slice()) {
                    Some(text) => MonitorStep::Print(String::from_str(text)),
                    None => MonitorStep::PrintBytes(bytes),
                }
            }
        },
        PortRead::TimedOut => MonitorStep::Idle,
        PortRead::Failed => MonitorStep::Stop,
    }
}

} // verus!
