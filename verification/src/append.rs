//! The overlap-safe append primitive: copy a sub-range of a buffer's current
//! contents onto its own end.
//!
//! The source range may overlap the region being written, because growth
//! happens while the copy runs. Every source index is strictly below the
//! destination index being written at that moment, so a forward element-wise
//! copy is always sound; the contract states that the appended elements are
//! exactly the source range as it stood when the call began.

use vstd::prelude::*;

use crate::errors::RleError;

verus! {

/// One endpoint of a source range, resolved to a concrete index before any
/// copying starts.
#[derive(Clone, Copy, Debug, PartialEq, Eq, Structural)]
pub enum SourceBound {
    /// The endpoint lies at this index, which belongs to the range.
    Included(usize),
    /// The endpoint lies at this index, which is excluded from the range.
    Excluded(usize),
    /// No endpoint given: the range extends to the buffer's edge.
    Unbounded,
}

/// Whether resolving `bound` as a range start would overflow `usize`.
pub open spec fn start_bound_overflows(bound: SourceBound) -> bool {
    match bound {
        SourceBound::Excluded(n) => n == usize::MAX,
        _ => false,
    }
}

/// The concrete start index that `bound` resolves to (meaningful only when
/// resolution does not overflow).
pub open spec fn resolved_start(bound: SourceBound) -> int {
    match bound {
        SourceBound::Included(n) => n as int,
        SourceBound::Excluded(n) => n as int + 1,
        SourceBound::Unbounded => 0,
    }
}

/// Whether resolving `bound` as a range end would overflow `usize`.
pub open spec fn end_bound_overflows(bound: SourceBound) -> bool {
    match bound {
        SourceBound::Included(n) => n == usize::MAX,
        _ => false,
    }
}

/// The concrete one-past-the-end index that `bound` resolves to, in a buffer
/// of length `buffer_len` (meaningful only when resolution does not
/// overflow).
pub open spec fn resolved_end(bound: SourceBound, buffer_len: int) -> int {
    match bound {
        SourceBound::Included(n) => n as int + 1,
        SourceBound::Excluded(n) => n as int,
        SourceBound::Unbounded => buffer_len,
    }
}

/// Resolve a start bound to a concrete index, rejecting the one bound whose
/// resolution does not fit in `usize`.
fn resolve_start_bound(bound: SourceBound) -> (result: Result<usize, RleError>)
    ensures
        match result {
            Ok(start) => !start_bound_overflows(bound) && start == resolved_start(bound),
            Err(error) => error == RleError::IndexOverflow && start_bound_overflows(bound),
        },
{
    match bound {
        SourceBound::Included(n) => Ok(n),
        SourceBound::Excluded(n) => match n.checked_add(1) {
            Some(start) => Ok(start),
            None => Err(RleError::IndexOverflow),
        },
        SourceBound::Unbounded => Ok(0),
    }
}

/// Resolve an end bound to a concrete one-past-the-end index in a buffer of
/// length `buffer_len`, rejecting the one bound whose resolution does not fit
/// in `usize`.
fn resolve_end_bound(bound: SourceBound, buffer_len: usize) -> (result: Result<usize, RleError>)
    ensures
        match result {
            Ok(end) => !end_bound_overflows(bound) && end == resolved_end(bound, buffer_len as int),
            Err(error) => error == RleError::IndexOverflow && end_bound_overflows(bound),
        },
{
    match bound {
        SourceBound::Included(n) => match n.checked_add(1) {
            Some(end) => Ok(end),
            None => Err(RleError::IndexOverflow),
        },
        SourceBound::Excluded(n) => Ok(n),
        SourceBound::Unbounded => Ok(buffer_len),
    }
}

/// Append a copy of the sub-range `[start, end)` of `buffer`'s current
/// contents to its own end.
///
/// The bounds are resolved to concrete indices first; a bound whose
/// resolution overflows is rejected with `IndexOverflow`, and a resolved
/// range that is inverted or reaches past the current length is rejected
/// with `RangeOutOfBounds`. On success the buffer grows by exactly
/// `end - start` elements, duplicates of the source range as it stood
/// immediately before the call. On any error the buffer is unchanged.
pub fn append_from_within<T: Copy>(
    buffer: &mut Vec<T>,
    start: SourceBound,
    end: SourceBound,
) -> (result: Result<(), RleError>)
    ensures
        ({
            let len = old(buffer)@.len() as int;
            let lo = resolved_start(start);
            let hi = resolved_end(end, len);
            match result {
                Ok(()) => {
                    &&& !start_bound_overflows(start)
                    &&& !end_bound_overflows(end)
                    &&& 0 <= lo <= hi <= len
                    &&& final(buffer)@ == old(buffer)@ + old(buffer)@.subrange(lo, hi)
                },
                Err(RleError::IndexOverflow) => {
                    &&& start_bound_overflows(start) || end_bound_overflows(end)
                    &&& final(buffer)@ == old(buffer)@
                },
                Err(RleError::RangeOutOfBounds) => {
                    &&& !start_bound_overflows(start)
                    &&& !end_bound_overflows(end)
                    &&& lo > hi || hi > len
                    &&& final(buffer)@ == old(buffer)@
                },
                _ => false,
            }
        }),
{
    let src_start: usize = match resolve_start_bound(start) {
        Ok(index) => index,
        Err(error) => return Err(error),
    };
    let src_end: usize = match resolve_end_bound(end, buffer.len()) {
        Ok(index) => index,
        Err(error) => return Err(error),
    };
    if src_start > src_end {
        return Err(RleError::RangeOutOfBounds);
    }
    if src_end > buffer.len() {
        return Err(RleError::RangeOutOfBounds);
    }
    let count: usize = src_end - src_start;
    // One reservation up front: later copies read from the buffer's own
    // tail, so no reallocation may happen mid-loop.
    buffer.reserve(count);

    let ghost snapshot = buffer@;
    let original_length: usize = buffer.len();
    let mut copied: usize = 0;
    while copied < count
        invariant
            copied <= count,
            src_end == src_start + count,
            src_start + count <= original_length,
            original_length == snapshot.len(),
            buffer@ == snapshot + snapshot.subrange(src_start as int, src_start + copied as int),
        decreases count - copied,
    {
        let element = buffer[src_start + copied];
        buffer.push(element);
        proof {
            assert(snapshot.subrange(src_start as int, src_start + copied + 1)
                =~= snapshot.subrange(src_start as int, src_start + copied as int)
                    .push(snapshot[src_start + copied as int]));
        }
        copied = copied + 1;
    }
    Ok(())
}

} // verus!
