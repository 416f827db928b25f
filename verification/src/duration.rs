//! Lengths of time in whole seconds.

use vstd::prelude::*;

verus! {

/// A length of time, in seconds.
#[derive(Clone, Copy, Debug, PartialEq, Eq, Structural)]
pub struct DurationInSeconds(pub i64);

impl DurationInSeconds {
    pub fn from_seconds(value: i64) -> (r: Self)
        ensures
            r.0 == value,
    {
        DurationInSeconds(value)
    }

    pub fn as_seconds(&self) -> (r: i64)
        ensures
            r == self.0,
    {
        self.0
    }
}

/// A length of time that may be absent.
#[derive(Clone, Copy, Debug, PartialEq, Eq, Structural)]
pub struct OptionalDurationInSeconds(pub Option<i64>);

impl OptionalDurationInSeconds {
    /// No length of time.
    pub fn none() -> (r: Self)
        ensures
            r.0 is None,
    {
        OptionalDurationInSeconds(None)
    }

    pub fn from_option(value: Option<i64>) -> (r: Self)
        ensures
            r.0 == value,
    {
        OptionalDurationInSeconds(value)
    }

    pub fn to_option(&self) -> (r: Option<i64>)
        ensures
            r == self.0,
    {
        self.0
    }
}

} // verus!
