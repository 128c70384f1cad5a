//! What a dashboard says of its ports, and its pause.
use crate::text::{cat2, cat4, decimal, decimal_text};
use vstd::prelude::*;

verus! {

/// A display that can be paused.
#[derive(Debug, Clone, Copy, PartialEq, Eq, Structural)]
pub struct Dashboard {
    pub paused: bool,
}

impl Dashboard {
    pub fn new() -> (dashboard: Dashboard)
        ensures
            !dashboard.paused,
    {
        Dashboard { paused: false }
    }

    /// The display paused or going on, the other way round.
    pub open spec fn toggled(self) -> Dashboard {
        Dashboard { paused: !self.paused }
    }

    /// Pauses the display or goes on with it, and says so.
    pub fn toggle_pause(&mut self) -> (status: &'static str)
        ensures
            *final(self) == old(self).toggled(),
            final(self).paused == !old(self).paused,
            status@ == if final(self).paused {
                "paused (space: resume)"@
            } else {
                "resumed"@
            },
    {
        self.paused = !self.paused;
        if self.paused {
            "paused (space: resume)"
        } else {
            "resumed"
        }
    }
}

/// What is said of an input port.
pub fn input_status(baud_rate: u32) -> (r: String)
    ensures
        r@ == "baud="@ + decimal(baud_rate as nat),
{
    let baud = decimal_text(baud_rate as u64);
    cat2("baud=", baud.as_str())
}

/// What is said of an output port.
pub fn output_status(baud_rate: u32, format_name: &str) -> (r: String)
    ensures
        r@ == "baud="@ + decimal(baud_rate as nat) + " format="@ + format_name@,
{
    let baud = decimal_text(baud_rate as u64);
    cat4("baud=", baud.as_str(), " format=", format_name)
}

/// What is said of a port that failed.
pub fn error_status(message: &str) -> (r: String)
    ensures
        r@ == "error: "@ + message@,
{
    cat2("error: ", message)
}

} // verus!
