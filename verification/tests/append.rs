//! Behavior of the standalone `append_from_within` primitive: bound
//! resolution, successful copies, and each rejection.

use rle_decode_helper::append_from_within;
use rle_decode_helper::RleError;
use rle_decode_helper::SourceBound;

#[test]
fn test_append_excluded_range() {
    let mut buf = vec![10, 20, 30, 40];
    append_from_within(&mut buf, SourceBound::Included(1), SourceBound::Excluded(3)).unwrap();
    assert_eq!(buf, &[10, 20, 30, 40, 20, 30]);
}

#[test]
fn test_append_inclusive_end() {
    let mut buf = vec![10, 20, 30, 40];
    append_from_within(&mut buf, SourceBound::Included(1), SourceBound::Included(2)).unwrap();
    assert_eq!(buf, &[10, 20, 30, 40, 20, 30]);
}

#[test]
fn test_append_excluded_start() {
    let mut buf = vec![10, 20, 30, 40];
    append_from_within(&mut buf, SourceBound::Excluded(0), SourceBound::Excluded(3)).unwrap();
    assert_eq!(buf, &[10, 20, 30, 40, 20, 30]);
}

#[test]
fn test_append_unbounded_duplicates_buffer() {
    let mut buf = vec![7, 8, 9];
    append_from_within(&mut buf, SourceBound::Unbounded, SourceBound::Unbounded).unwrap();
    assert_eq!(buf, &[7, 8, 9, 7, 8, 9]);
}

#[test]
fn test_append_empty_range() {
    let mut buf = vec![1, 2, 3];
    append_from_within(&mut buf, SourceBound::Included(2), SourceBound::Excluded(2)).unwrap();
    assert_eq!(buf, &[1, 2, 3]);
}

#[test]
fn test_append_range_past_length() {
    let mut buf = vec![1, 2, 3];
    assert_eq!(
        append_from_within(&mut buf, SourceBound::Included(1), SourceBound::Excluded(4)),
        Err(RleError::RangeOutOfBounds)
    );
    assert_eq!(buf, &[1, 2, 3]);
}

#[test]
fn test_append_inverted_range() {
    let mut buf = vec![1, 2, 3];
    assert_eq!(
        append_from_within(&mut buf, SourceBound::Included(2), SourceBound::Excluded(1)),
        Err(RleError::RangeOutOfBounds)
    );
    assert_eq!(buf, &[1, 2, 3]);
}

#[test]
fn test_append_start_bound_overflow() {
    let mut buf = vec![1, 2, 3];
    assert_eq!(
        append_from_within(&mut buf, SourceBound::Excluded(usize::MAX), SourceBound::Unbounded),
        Err(RleError::IndexOverflow)
    );
    assert_eq!(buf, &[1, 2, 3]);
}

#[test]
fn test_append_end_bound_overflow() {
    let mut buf = vec![1, 2, 3];
    assert_eq!(
        append_from_within(&mut buf, SourceBound::Included(0), SourceBound::Included(usize::MAX)),
        Err(RleError::IndexOverflow)
    );
    assert_eq!(buf, &[1, 2, 3]);
}
