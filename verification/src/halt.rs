//! What the firmware does when it cannot go on.

use vstd::prelude::*;

verus! {

/// The firmware's answer to a fault it cannot recover from.
#[derive(Clone, Copy, Debug, PartialEq, Eq, Structural)]
pub enum Fatal {
    /// Stop where it is and stay there: no frame is sent again, so the
    /// chips keep what they last latched.
    Halt,
}

/// The policy of the panic handler: whatever went wrong, halt.  A frame
/// that was cut short cannot be mended by sending more, so nothing is
/// retried and nothing is restarted.
pub fn panic() -> (fatal: Fatal)
    ensures
        fatal == Fatal::Halt,
{
    Fatal::Halt
}

} // verus!
