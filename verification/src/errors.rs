//! Failure taxonomy for the buffer-extension operations.
//!
//! Every variant reports a caller-contract violation detected before any
//! element is written; no operation leaves the buffer partially grown after
//! returning one of these.

use vstd::prelude::*;

verus! {

/// The ways a buffer-extension request can be rejected.
#[derive(Clone, Copy, Debug, PartialEq, Eq, Structural)]
pub enum RleError {
    /// The lookbehind length is zero: there is no fragment to repeat.
    InvalidLookbehind,
    /// The lookbehind length is larger than the buffer's current length.
    LookbehindExceedsBuffer,
    /// A source range has its start past its end, or reaches past the
    /// buffer's current length.
    RangeOutOfBounds,
    /// Resolving a range bound to a concrete index would overflow `usize`.
    IndexOverflow,
    /// The requested total length would overflow `usize`.
    LengthOverflow,
}

} // verus!
