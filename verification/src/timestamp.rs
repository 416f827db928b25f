//! Instants as whole seconds since the Unix epoch.

use vstd::prelude::*;

verus! {

/// Whole seconds from `from` up to `to`; zero when `to` does not come after `from`.
pub open spec fn span(from: int, to: int) -> nat {
    if to > from {
        (to - from) as nat
    } else {
        0
    }
}

/// The number of seconds from `from` up to `to`, clamped at zero.
pub fn span_seconds(from: i64, to: i64) -> (r: u64)
    ensures
        r == span(from as int, to as int),
{
    if to <= from {
        0
    } else if from >= 0 || to < 0 {
        (to - from) as u64
    } else {
        let ahead: u64 = to as u64;
        let behind: u64 = (-(from + 1)) as u64;
        ahead + behind + 1
    }
}

/// An instant, in seconds since the Unix epoch.
#[derive(Clone, Copy, Debug, PartialEq, Eq, Structural)]
pub struct UnixTimestamp(pub i64);

/// The earliest second that the system clock can report.
pub const CLOCK_MIN_SECOND: i64 = -377705023201;

/// The latest second that the system clock can report.
pub const CLOCK_MAX_SECOND: i64 = 253402207200;

/// `jiff::Timestamp`, an instant of the `jiff` library. Nothing of what
/// it holds is known here.
#[verifier::external_type_specification]
#[verifier::external_body]
pub struct ExTimestamp(jiff::Timestamp);

/// `jiff::Error`, the error of the `jiff` library.
#[verifier::external_type_specification]
#[verifier::external_body]
pub struct ExTimestampError(jiff::Error);

/// The second of the Unix epoch, read from `jiff::Timestamp::UNIX_EPOCH`
/// with `as_second`. Trusted: the constant is documented as the instant
/// zero nanoseconds from the epoch, so the call gives 0.
#[verifier::external_body]
fn epoch_second() -> (r: i64)
    ensures
        r == 0,
{
    jiff::Timestamp::UNIX_EPOCH.as_second()
}

/// The current instant of the system clock, `jiff::Timestamp::now`.
/// Trusted, with nothing claimed of the result; the call panics rather
/// than return when the system clock is set outside the timestamps'
/// range.
#[verifier::external_body]
fn timestamp_now() -> jiff::Timestamp {
    jiff::Timestamp::now()
}

/// `jiff::Timestamp::as_second`. Trusted: the call gives the whole seconds
/// that the timestamp holds, the same for the same timestamp, and they lie
/// between those of the library's minimum and maximum timestamp.
#[verifier::external_body]
fn timestamp_second(timestamp: &jiff::Timestamp) -> (r: i64)
    ensures
        r == timestamp_seconds(*timestamp) && CLOCK_MIN_SECOND <= r <= CLOCK_MAX_SECOND,
{
    timestamp.as_second()
}

/// The timestamp of a second since the epoch,
/// `jiff::Timestamp::from_second`. Trusted: the call fails exactly when
/// the second lies outside the range of the timestamps.
#[verifier::external_body]
fn timestamp_from_second(second: i64) -> (r: Result<jiff::Timestamp, jiff::Error>)
    ensures
        r is Ok <==> CLOCK_MIN_SECOND <= second <= CLOCK_MAX_SECOND,
{
    jiff::Timestamp::from_second(second)
}

impl View for UnixTimestamp {
    type V = int;

    open spec fn view(&self) -> int {
        self.0 as int
    }
}

impl UnixTimestamp {
    /// The Unix epoch.
    pub fn new() -> (r: Self)
        ensures
            r@ == 0,
    {
        UnixTimestamp(epoch_second())
    }

    /// The current instant of the system clock. Nothing but its range is
    /// known of it: two calls may differ.
    pub fn now() -> (r: Self)
        ensures
            r.in_clock_range(),
    {
        let now = timestamp_now();
        UnixTimestamp(timestamp_second(&now))
    }

    /// The instant lies in the range of the system clock's timestamps.
    pub open spec fn in_clock_range(self) -> bool {
        CLOCK_MIN_SECOND <= self.0 <= CLOCK_MAX_SECOND
    }

    /// The instant of a timestamp, to the whole second.
    pub fn from_timestamp(timestamp: &jiff::Timestamp) -> (r: Self)
        ensures
            r.0 == timestamp_seconds(*timestamp),
            r.in_clock_range(),
    {
        UnixTimestamp(timestamp_second(timestamp))
    }

    /// The timestamp of this instant; none if the instant lies outside
    /// the range of the timestamps.
    pub fn to_timestamp(&self) -> (r: Option<jiff::Timestamp>)
        ensures
            r is Some <==> self.in_clock_range(),
    {
        match timestamp_from_second(self.0) {
            Ok(timestamp) => Some(timestamp),
            Err(_) => None,
        }
    }

    /// The instant `seconds` after the epoch.
    pub fn from_seconds(seconds: i64) -> (r: Self)
        ensures
            r@ == seconds,
    {
        UnixTimestamp(seconds)
    }

    pub fn as_seconds(&self) -> (r: i64)
        ensures
            r == self@,
    {
        self.0
    }

    /// The seconds held, or the epoch where none are held.
    pub fn from_option(value: Option<i64>) -> (r: Self)
        ensures
            r.0 == match value {
                Some(seconds) => seconds,
                None => 0,
            },
    {
        match value {
            Some(seconds) => UnixTimestamp(seconds),
            None => UnixTimestamp(0),
        }
    }

    /// Seconds from `self` up to `later`, zero when `later` is not later.
    pub fn seconds_until(&self, later: UnixTimestamp) -> (r: u64)
        ensures
            r == span(self@, later@),
    {
        span_seconds(self.0, later.0)
    }
}

/// The whole seconds since the Unix epoch that a timestamp of `jiff`
/// holds, fractions of a second cut off: what
/// `jiff::Timestamp::as_second` gives for it.
pub uninterp spec fn timestamp_seconds(timestamp: jiff::Timestamp) -> i64;

/// An instant that may be absent.
#[derive(Clone, Copy, Debug, PartialEq, Eq, Structural)]
pub struct OptionalUnixTimestamp(pub Option<i64>);

impl OptionalUnixTimestamp {
    /// The instant held, or `now` where none is held.
    pub open spec fn or(self, now: int) -> int {
        match self.0 {
            Some(value) => value as int,
            None => now,
        }
    }

    /// The instant held, or `now` where none is held.
    pub fn unwrap_or(&self, now: UnixTimestamp) -> (r: UnixTimestamp)
        ensures
            r@ == self.or(now@),
    {
        match self.0 {
            Some(value) => UnixTimestamp(value),
            None => now,
        }
    }

    /// The instant held, or the current instant of the system clock where
    /// none is held.
    pub fn unwrap_or_now(&self) -> (r: UnixTimestamp)
        ensures
            self.0 is Some ==> r@ == self.0->0,
            self.0 is None ==> r.in_clock_range(),
    {
        match self.0 {
            Some(value) => UnixTimestamp(value),
            None => UnixTimestamp::now(),
        }
    }

    /// The current instant of the system clock, present.
    pub fn now() -> (r: Self)
        ensures
            r.0 is Some,
            CLOCK_MIN_SECOND <= r.0->0 <= CLOCK_MAX_SECOND,
    {
        let ts: i64 = UnixTimestamp::now().as_seconds();
        OptionalUnixTimestamp(Some(ts))
    }

    /// The instant of a timestamp, to the whole second, present.
    pub fn some(time_stamp: jiff::Timestamp) -> (r: Self)
        ensures
            r.0 is Some,
            CLOCK_MIN_SECOND <= r.0->0 <= CLOCK_MAX_SECOND,
    {
        OptionalUnixTimestamp(Some(timestamp_second(&time_stamp)))
    }

    /// The instant of a timestamp, if there is one.
    pub fn from_timestamp(value: Option<jiff::Timestamp>) -> (r: Self)
        ensures
            r.0 is Some <==> value is Some,
            r.0 is Some ==> CLOCK_MIN_SECOND <= r.0->0 <= CLOCK_MAX_SECOND,
    {
        match value {
            Some(time_stamp) => OptionalUnixTimestamp::some(time_stamp),
            None => OptionalUnixTimestamp::none(),
        }
    }

    /// The timestamp of the instant held; none if no instant is held or
    /// it lies outside the range of the timestamps.
    pub fn to_timestamp(&self) -> (r: Option<jiff::Timestamp>)
        ensures
            r is Some <==> self.0 is Some && UnixTimestamp(self.0->0).in_clock_range(),
    {
        match self.0 {
            Some(seconds) => UnixTimestamp(seconds).to_timestamp(),
            None => None,
        }
    }

    /// The instant `seconds` after the epoch, present.
    pub fn from_seconds(seconds: i64) -> (r: Self)
        ensures
            r.0 == Some(seconds),
    {
        OptionalUnixTimestamp(Some(seconds))
    }

    /// The instant, if there is one.
    pub fn from_instant(value: Option<UnixTimestamp>) -> (r: Self)
        ensures
            r.0 == match value {
                Some(instant) => Some(instant.0),
                None => None,
            },
    {
        match value {
            Some(instant) => OptionalUnixTimestamp(Some(instant.0)),
            None => OptionalUnixTimestamp::none(),
        }
    }

    /// The instant held, if there is one.
    pub fn to_instant(&self) -> (r: Option<UnixTimestamp>)
        ensures
            r == match self.0 {
                Some(seconds) => Some(UnixTimestamp(seconds)),
                None => None,
            },
    {
        match self.0 {
            Some(seconds) => Some(UnixTimestamp(seconds)),
            None => None,
        }
    }

    /// No instant.
    pub fn none() -> (r: Self)
        ensures
            r.0 is None,
    {
        OptionalUnixTimestamp(None)
    }
}

impl From<i64> for UnixTimestamp {
    fn from(value: i64) -> (r: Self) {
        UnixTimestamp(value)
    }
}

impl vstd::std_specs::convert::FromSpecImpl<i64> for UnixTimestamp {
    open spec fn obeys_from_spec() -> bool {
        true
    }

    open spec fn from_spec(value: i64) -> Self {
        UnixTimestamp(value)
    }
}

impl From<UnixTimestamp> for i64 {
    fn from(value: UnixTimestamp) -> (r: Self) {
        value.0
    }
}

impl vstd::std_specs::convert::FromSpecImpl<UnixTimestamp> for i64 {
    open spec fn obeys_from_spec() -> bool {
        true
    }

    open spec fn from_spec(value: UnixTimestamp) -> Self {
        value.0
    }
}

impl From<Option<i64>> for OptionalUnixTimestamp {
    fn from(value: Option<i64>) -> (r: Self) {
        OptionalUnixTimestamp(value)
    }
}

impl vstd::std_specs::convert::FromSpecImpl<Option<i64>> for OptionalUnixTimestamp {
    open spec fn obeys_from_spec() -> bool {
        true
    }

    open spec fn from_spec(value: Option<i64>) -> Self {
        OptionalUnixTimestamp(value)
    }
}

/// The seconds from `rhs` to `self`, negative when `self` is the earlier.
impl core::ops::Sub for UnixTimestamp {
    type Output = i64;

    fn sub(self, rhs: Self) -> (r: i64) {
        self.0 - rhs.0
    }
}

impl vstd::std_specs::ops::SubSpecImpl for UnixTimestamp {
    open spec fn obeys_sub_spec() -> bool {
        true
    }

    /// The difference fits in 64 bits.
    open spec fn sub_req(self, rhs: Self) -> bool {
        i64::MIN <= self.0 - rhs.0 <= i64::MAX
    }

    open spec fn sub_spec(self, rhs: Self) -> i64 {
        (self.0 - rhs.0) as i64
    }
}

/// The seconds from `rhs` to `self`, where `rhs` holds an instant.
impl core::ops::Sub<OptionalUnixTimestamp> for UnixTimestamp {
    type Output = Option<i64>;

    fn sub(self, rhs: OptionalUnixTimestamp) -> (r: Option<i64>) {
        match rhs.0 {
            Some(rhs) => Some(self.0 - rhs),
            None => None,
        }
    }
}

impl vstd::std_specs::ops::SubSpecImpl<OptionalUnixTimestamp> for UnixTimestamp {
    open spec fn obeys_sub_spec() -> bool {
        true
    }

    /// The difference fits in 64 bits.
    open spec fn sub_req(self, rhs: OptionalUnixTimestamp) -> bool {
        rhs.0 is Some ==> i64::MIN <= self.0 - rhs.0->0 <= i64::MAX
    }

    open spec fn sub_spec(self, rhs: OptionalUnixTimestamp) -> Option<i64> {
        match rhs.0 {
            Some(rhs) => Some((self.0 - rhs) as i64),
            None => None,
        }
    }
}

/// The seconds from `rhs` to `self`, where `self` holds an instant.
impl core::ops::Sub<UnixTimestamp> for OptionalUnixTimestamp {
    type Output = Option<i64>;

    fn sub(self, rhs: UnixTimestamp) -> (r: Option<i64>) {
        match self.0 {
            Some(lhs) => Some(lhs - rhs.0),
            None => None,
        }
    }
}

impl vstd::std_specs::ops::SubSpecImpl<UnixTimestamp> for OptionalUnixTimestamp {
    open spec fn obeys_sub_spec() -> bool {
        true
    }

    /// The difference fits in 64 bits.
    open spec fn sub_req(self, rhs: UnixTimestamp) -> bool {
        self.0 is Some ==> i64::MIN <= self.0->0 - rhs.0 <= i64::MAX
    }

    open spec fn sub_spec(self, rhs: UnixTimestamp) -> Option<i64> {
        match self.0 {
            Some(lhs) => Some((lhs - rhs.0) as i64),
            None => None,
        }
    }
}

} // verus!
