//! The doubling fill: extend a buffer with a periodic repetition of its own
//! tail.
//!
//! `rle_decode` appends `fill_length` elements, each a copy of one of the
//! last `lookbehind_length` elements the buffer held at call start, repeated
//! periodically. Each round copies from the same fixed start index but with a
//! window that doubles, because the elements appended in earlier rounds are
//! themselves valid history; the number of copy rounds is therefore
//! logarithmic in `fill_length / lookbehind_length`.

use vstd::prelude::*;

use vstd::arithmetic::div_mod::lemma_add_mod_noop;
use vstd::arithmetic::div_mod::lemma_mod_bound;
use vstd::arithmetic::div_mod::lemma_mod_sub_multiples_vanish;
use vstd::arithmetic::div_mod::lemma_small_mod;

use crate::append::append_from_within;
use crate::append::SourceBound;
use crate::errors::RleError;

verus! {

/// The `fill` elements that extend `orig` periodically: element `i` is a
/// copy of `orig[orig.len() - lookbehind + (i % lookbehind)]`.
pub open spec fn periodic_extension<T>(orig: Seq<T>, lookbehind: int, fill: int) -> Seq<T>
    recommends
        1 <= lookbehind <= orig.len(),
        0 <= fill,
{
    Seq::new(fill as nat, |i: int| orig[orig.len() - lookbehind + (i % lookbehind)])
}

/// `window` repeated over and over, truncated to `fill` elements: the output
/// a naive reference fill produces by copying one window at a time.
pub open spec fn repeat_truncated<T>(window: Seq<T>, fill: int) -> Seq<T>
    recommends
        1 <= window.len(),
        0 <= fill,
{
    Seq::new(fill as nat, |i: int| window[i % (window.len() as int)])
}

/// Law: a zero-length fill is a no-op — the extended buffer is exactly the
/// original, in content and length.
pub proof fn lemma_zero_fill_is_noop<T>(orig: Seq<T>, lookbehind: int)
    requires
        1 <= lookbehind <= orig.len(),
    ensures
        orig + periodic_extension(orig, lookbehind, 0) == orig,
{
    assert(orig + periodic_extension(orig, lookbehind, 0) =~= orig);
}

/// Law: the periodic extension equals the source window repeated and
/// truncated — exactly what a naive reference fill produces by copying one
/// lookbehind window at a time. The doubling strategy is thus observably
/// identical to the naive one for every buffer, lookbehind and fill length.
pub proof fn lemma_extension_matches_naive<T>(orig: Seq<T>, lookbehind: int, fill: int)
    requires
        1 <= lookbehind <= orig.len(),
        0 <= fill,
    ensures
        periodic_extension(orig, lookbehind, fill) == repeat_truncated(
            orig.subrange(orig.len() - lookbehind, orig.len() as int),
            fill,
        ),
{
    let window = orig.subrange(orig.len() - lookbehind, orig.len() as int);
    assert forall|i: int| 0 <= i < fill implies periodic_extension(orig, lookbehind, fill)[i]
        == repeat_truncated(window, fill)[i] by {
        lemma_mod_bound(i, lookbehind);
    }
    assert(periodic_extension(orig, lookbehind, fill) =~= repeat_truncated(window, fill));
}

/// Decode a run-length-encoded tail: append `fill_length` elements to
/// `buffer`, each a copy of one of the last `lookbehind_length` elements the
/// buffer held when the call began, repeated periodically.
///
/// All preconditions are checked before the buffer is touched, in this
/// order: a zero `lookbehind_length` is rejected with `InvalidLookbehind`, a
/// `lookbehind_length` larger than the current length with
/// `LookbehindExceedsBuffer`, and a total length that would not fit in
/// `usize` with `LengthOverflow`. On any error the buffer is unchanged; on
/// success it has grown by exactly `fill_length` elements and element
/// `old_len + i` equals element `old_len - lookbehind_length +
/// (i % lookbehind_length)` of the original contents.
pub fn rle_decode<T: Copy>(
    buffer: &mut Vec<T>,
    lookbehind_length: usize,
    fill_length: usize,
) -> (result: Result<(), RleError>)
    ensures
        ({
            let orig = old(buffer)@;
            match result {
                Ok(()) => {
                    &&& 1 <= lookbehind_length <= orig.len()
                    &&& orig.len() + fill_length <= usize::MAX
                    &&& final(buffer)@ == orig + periodic_extension(
                        orig,
                        lookbehind_length as int,
                        fill_length as int,
                    )
                    &&& final(buffer)@.len() == orig.len() + fill_length
                    &&& forall|i: int|
                        orig.len() <= i < orig.len() + fill_length ==> final(buffer)@[i] == orig[
                            orig.len() - lookbehind_length + (
                            (i - orig.len()) % (lookbehind_length as int))
                        ]
                },
                Err(RleError::InvalidLookbehind) => {
                    &&& lookbehind_length == 0
                    &&& final(buffer)@ == orig
                },
                Err(RleError::LookbehindExceedsBuffer) => {
                    &&& lookbehind_length >= 1
                    &&& lookbehind_length > orig.len()
                    &&& final(buffer)@ == orig
                },
                Err(RleError::LengthOverflow) => {
                    &&& 1 <= lookbehind_length <= orig.len()
                    &&& orig.len() + fill_length > usize::MAX
                    &&& final(buffer)@ == orig
                },
                _ => false,
            }
        }),
{
    if lookbehind_length == 0 {
        return Err(RleError::InvalidLookbehind);
    }
    let copy_fragment_start: usize = match buffer.len().checked_sub(lookbehind_length) {
        Some(index) => index,
        None => return Err(RleError::LookbehindExceedsBuffer),
    };
    if buffer.len().checked_add(fill_length).is_none() {
        return Err(RleError::LengthOverflow);
    }
    // One reservation for the whole fill: nothing may reallocate once the
    // growth loop starts drawing on the freshly appended tail.
    buffer.reserve(fill_length);

    let ghost orig = buffer@;
    let mut remaining: usize = fill_length;
    let mut window: usize = lookbehind_length;
    while remaining > 0
        invariant
            remaining <= fill_length,
            1 <= lookbehind_length <= orig.len(),
            copy_fragment_start == orig.len() - lookbehind_length,
            orig.len() + fill_length <= usize::MAX,
            buffer@.len() == orig.len() + (fill_length - remaining),
            buffer@.subrange(0, orig.len() as int) == orig,
            forall|i: int|
                orig.len() <= i < buffer@.len() ==> buffer@[i] == orig[
                    copy_fragment_start + ((i - orig.len()) % (lookbehind_length as int))
                ],
            lookbehind_length <= window,
            remaining > 0 ==> window <= lookbehind_length + (fill_length - remaining),
            remaining > 0 ==> (fill_length - remaining) % (lookbehind_length as int) == 0,
            remaining > 0 ==> (window as int) % (lookbehind_length as int) == 0,
        decreases remaining,
    {
        let fill_size: usize = if window < remaining {
            window
        } else {
            remaining
        };
        let upper: usize = copy_fragment_start + fill_size;
        let ghost prev = buffer@;
        let ghost appended: int = fill_length - remaining;
        let ghost l: int = lookbehind_length as int;
        match append_from_within(
            buffer,
            SourceBound::Included(copy_fragment_start),
            SourceBound::Excluded(upper),
        ) {
            Ok(()) => {}
            Err(error) => {
                // The loop maintains the primitive's preconditions, so this
                // propagation is proven unreachable.
                return Err(error);
            }
        }
        proof {
            assert(buffer@.subrange(0, orig.len() as int) =~= orig);
            assert forall|i: int|
                orig.len() <= i < buffer@.len() implies buffer@[i] == orig[
                copy_fragment_start + ((i - orig.len()) % l)
            ] by {
                if i < prev.len() {
                    assert(buffer@[i] == prev[i]);
                } else {
                    let j = i - prev.len();
                    assert(buffer@[i] == prev[copy_fragment_start + j]);
                    if j < l {
                        assert(prev[copy_fragment_start + j] == prev.subrange(
                            0,
                            orig.len() as int,
                        )[copy_fragment_start + j]);
                        lemma_small_mod(j as nat, l as nat);
                    } else {
                        assert(prev[copy_fragment_start + j] == prev[orig.len() + (j - l)]);
                        assert(prev[orig.len() + (j - l)] == orig[
                            copy_fragment_start + ((j - l) % l)
                        ]);
                        lemma_mod_sub_multiples_vanish(j, l);
                    }
                    // i - orig.len() == appended + j, and appended is a
                    // multiple of the lookbehind, so both reduce to j % l.
                    lemma_add_mod_noop(appended, j, l);
                    lemma_mod_bound(j, l);
                    lemma_small_mod((j % l) as nat, l as nat);
                }
            }
        }
        remaining = remaining - fill_size;
        proof {
            if remaining > 0 {
                lemma_add_mod_noop(appended, window as int, l);
                lemma_small_mod(0nat, l as nat);
            }
        }
        if window <= usize::MAX / 2 {
            proof {
                lemma_add_mod_noop(window as int, window as int, l);
                lemma_small_mod(0nat, l as nat);
            }
            window = window * 2;
        }
    }
    proof {
        let l = lookbehind_length as int;
        let extension = periodic_extension(orig, l, fill_length as int);
        assert forall|i: int| 0 <= i < buffer@.len() implies buffer@[i] == (orig + extension)[i] by {
            if i < orig.len() {
                assert(buffer@[i] == buffer@.subrange(0, orig.len() as int)[i]);
            } else {
                lemma_mod_bound(i - orig.len(), l);
            }
        }
        assert(buffer@ =~= orig + extension);
    }
    Ok(())
}

} // verus!
