use std::time::{Duration, Instant};
use vstd::prelude::*;

verus! {

/// `std::time::Instant`, a reading of the monotonic clock. Opaque: nothing is claimed of what a
/// reading holds.
#[verifier::external_type_specification]
#[verifier::external_body]
pub struct ExInstant(Instant);

/// `std::time::Instant::now` reads the monotonic clock. Which reading comes back depends on when
/// it is called, so nothing is claimed of it.
pub assume_specification[ Instant::now ]() -> Instant;

/// `std::time::Instant::elapsed` gives the time that has passed since a reading. How much that is
/// depends on when it is called, so nothing is claimed of it.
pub assume_specification[ Instant::elapsed ](start: &Instant) -> Duration;

/// `String::from` on a string slice gives a `String` with the same characters. A chain whose names
/// are given as slices converts them by it.
pub assume_specification<'a>[ <String as From<&'a str>>::from ](s: &str) -> (text: String)
    ensures
        text@ == s@,
;

/// `From::from` from a type to itself gives back the value it was given. A chain whose names are
/// given as `String`s converts them by it.
pub assume_specification<Same>[ <Same as From<Same>>::from ](value: Same) -> (same: Same)
    ensures
        same == value,
;

} // verus!
