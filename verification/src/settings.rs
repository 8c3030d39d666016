//! The schema version marker of the settings store.

use crate::text::{chars_of, decimal_value, is_digit, read_decimal};
use vstd::prelude::*;

verus! {

/// The version of the settings schema that this library writes.
pub const SCHEMA_VERSION: u32 = 1;

/// What to do with the marker of the settings store.
#[derive(Debug, Clone, Copy, PartialEq, Eq, Structural)]
pub enum MarkerStep {
    /// There is no marker: write one with the version of this library.
    Insert,
    /// The marker is older than this library, or no number: replace it by
    /// the version of this library.
    Update,
    /// The marker is as new as this library: leave it.
    Keep,
}

/// The digits of a marker: all of it, or all after a leading `+`.
pub open spec fn marker_digits(marker: Seq<char>) -> Seq<char> {
    if marker.len() > 0 && marker[0] == '+' {
        marker.skip(1)
    } else {
        marker
    }
}

/// Whether `marker` names a version that is as new as this library: a
/// number in base ten, with or without a leading `+`, from the version of
/// this library up to the largest that fits 32 bits with a sign.
pub open spec fn is_current(marker: Seq<char>) -> bool {
    &&& marker_digits(marker).len() > 0
    &&& forall|i: int|
        0 <= i < marker_digits(marker).len() ==> is_digit(#[trigger] marker_digits(marker)[i])
    &&& SCHEMA_VERSION <= decimal_value(marker_digits(marker)) <= i32::MAX
}

/// What to do with the marker, given what the settings store holds for it.
pub open spec fn marker_step(stored: Option<Seq<char>>) -> MarkerStep {
    match stored {
        None => MarkerStep::Insert,
        Some(marker) => if is_current(marker) {
            MarkerStep::Keep
        } else {
            MarkerStep::Update
        },
    }
}

/// What to do with the marker, given what the settings store holds for it.
pub fn next_marker_step(stored: Option<&str>) -> (step: MarkerStep)
    ensures
        step == marker_step(
            match stored {
                Some(marker) => Some(marker@),
                None => None,
            },
        ),
{
    let marker = match stored {
        Some(marker) => chars_of(marker),
        None => {
            return MarkerStep::Insert;
        },
    };
    let from: usize = if marker.len() > 0 && marker[0] == '+' {
        1
    } else {
        0
    };
    let ghost digits = marker_digits(marker@);
    assert(digits =~= marker@.subrange(from as int, marker@.len() as int));
    if from == marker.len() {
        return MarkerStep::Update;
    }
    let mut i: usize = from;
    while i < marker.len()
        invariant
            from <= i <= marker.len(),
            digits == marker@.subrange(from as int, marker@.len() as int),
            digits == marker_digits(marker@),
            stored is Some && stored.unwrap()@ == marker@,
            forall|j: int| from <= j < i ==> is_digit(#[trigger] marker@[j]),
        decreases marker.len() - i,
    {
        if !('0' <= marker[i] && marker[i] <= '9') {
            assert(digits[i - from] == marker@[i as int]);
            return MarkerStep::Update;
        }
        i += 1;
    }
    assert forall|k: int| 0 <= k < digits.len() implies is_digit(#[trigger] digits[k]) by {
        assert(digits[k] == marker@[from + k]);
    }
    match read_decimal(&marker, from, marker.len(), 0x7fff_ffff) {
        Some(version) => if version >= SCHEMA_VERSION as u64 {
            MarkerStep::Keep
        } else {
            MarkerStep::Update
        },
        None => MarkerStep::Update,
    }
}

/// The marker that names the version of this library.
pub fn current_marker() -> (marker: String)
    ensures
        marker@ == "1"@,
{
    "1".to_owned()
}

} // verus!
