//! Expansion of a run-length-encoded tail of a growable buffer, in place.
//!
//! The entry point is [`rle_decode`]: it appends `fill_length` elements to a
//! `Vec`, each one a copy of an element from the last `lookbehind_length`
//! positions the buffer held when the call began, repeated periodically. The
//! copy window doubles after every round, so the number of bulk copies is
//! logarithmic in `fill_length / lookbehind_length` rather than linear.
//!
//! The copy itself is [`append_from_within`], a primitive that appends a
//! sub-range of the buffer's own current contents to its end. It is usable on
//! its own and performs its own bounds checking.
//!
//! Both operations validate every precondition before touching the buffer and
//! report violations as [`RleError`] values; on an error the buffer is
//! returned unchanged.

mod append;
mod errors;
mod fill;

pub use crate::append::append_from_within;
pub use crate::append::SourceBound;
pub use crate::errors::RleError;
pub use crate::fill::rle_decode;
