//! What can go wrong: a caller's mistake, or a fault on the bus.

use vstd::prelude::*;

verus! {

/// A request that no chain of this shape can serve.  It is reported before
/// anything is put on the bus.
#[derive(Clone, Copy, Debug, PartialEq, Eq, Structural)]
pub enum ConfigError {
    /// The module index is not below the chain length.
    InvalidModule,
    /// The chain length is zero or above [`crate::chain::MAX_MODULES`].
    InvalidChainLength,
}

/// A shape that the rasterizer is not asked to draw.
#[derive(Clone, Copy, Debug, PartialEq, Eq, Structural)]
pub enum DrawError {
    /// The circle is beyond what the rasterizer computes; see
    /// [`crate::graphics::circle_in_reach`].
    OutOfReach,
    /// The text has more than [`crate::graphics::MAX_TEXT`] characters.
    TextTooLong,
}

/// The outcome of an operation that uses the bus.
#[derive(Debug, PartialEq, Eq)]
pub enum Error<E> {
    /// The request was refused; nothing was put on the bus.
    Config(ConfigError),
    /// The transport failed.  Its error is passed on as it came; the
    /// operation stopped there and was not tried again.
    Transfer(E),
}

} // verus!
