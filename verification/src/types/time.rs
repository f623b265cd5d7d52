//! Date-times and timestamps: signed counts of seconds since the Unix epoch.

use crate::decimal::{decimal_i64, i64_to_string, parse_i64, signed_decimal};
use std::time::{Duration, SystemTime, SystemTimeError, UNIX_EPOCH};
use vstd::prelude::*;

verus! {

/// A point in time of the system clock, carried and never read.
#[verifier::external_type_specification]
#[verifier::external_body]
pub struct ExSystemTime(SystemTime);

/// The error of `SystemTime::duration_since`, carried and never read.
#[verifier::external_type_specification]
#[verifier::external_body]
pub struct ExSystemTimeError(SystemTimeError);

/// What `SystemTime::duration_since` gives for a time and the Unix epoch:
/// the span from the epoch to the time, or the error of a time that lies
/// before the epoch.
pub uninterp spec fn span_since_epoch(time: SystemTime) -> Result<Duration, SystemTimeError>;

/// What `SystemTimeError::duration` gives: how far before the epoch the
/// time lay.
pub uninterp spec fn span_of_error(error: SystemTimeError) -> Duration;

/// What `Duration::as_secs` gives: the whole seconds of a span.
pub uninterp spec fn seconds_in(span: Duration) -> u64;

/// `SystemTime::now`: the current time of the system clock.
#[verifier::external_body]
fn system_time_now() -> (now: SystemTime)
{
    SystemTime::now()
}

/// `SystemTime::duration_since` with the Unix epoch: the span from the epoch
/// to `time`, or an error where `time` lies before the epoch.
#[verifier::external_body]
fn since_unix_epoch(time: &SystemTime) -> (r: Result<Duration, SystemTimeError>)
    ensures
        r == span_since_epoch(*time),
{
    time.duration_since(UNIX_EPOCH)
}

/// `SystemTimeError::duration`: how far before the epoch the time lay.
#[verifier::external_body]
fn span_before_epoch(error: &SystemTimeError) -> (span: Duration)
    ensures
        span == span_of_error(*error),
{
    error.duration()
}

/// `Duration::as_secs`: the whole seconds of a span.
#[verifier::external_body]
fn whole_seconds(span: &Duration) -> (secs: u64)
    ensures
        secs == seconds_in(*span),
{
    span.as_secs()
}

/// `Duration::from_secs`: the span of `secs` whole seconds.
#[verifier::external_body]
fn span_of_seconds(secs: u64) -> (span: Duration)
    ensures
        seconds_in(span) == secs,
{
    Duration::from_secs(secs)
}

/// `SystemTime::checked_add` on the Unix epoch: the time `span` after the
/// epoch, or `None` where the system clock cannot represent it. The time
/// that comes back lies as many whole seconds after the epoch as `span`
/// has.
#[verifier::external_body]
fn unix_epoch_plus(span: Duration) -> (time: Option<SystemTime>)
    ensures
        time matches Some(t) ==> (span_since_epoch(t) matches Ok(back) && seconds_in(back)
            == seconds_in(span)),
{
    UNIX_EPOCH.checked_add(span)
}

/// `SystemTime::checked_sub` on the Unix epoch: the time `span` before the
/// epoch, or `None` where the system clock cannot represent it. The time
/// that comes back lies as many whole seconds before the epoch as `span`
/// has; it is the epoch itself only where `span` has none.
#[verifier::external_body]
fn unix_epoch_minus(span: Duration) -> (time: Option<SystemTime>)
    ensures
        time matches Some(t) ==> (match span_since_epoch(t) {
            Ok(back) => seconds_in(back) == 0 && seconds_in(span) == 0,
            Err(error) => seconds_in(span_of_error(error)) == seconds_in(span),
        }),
{
    UNIX_EPOCH.checked_sub(span)
}

/// The count of seconds that a number of whole seconds after the epoch
/// (`before` false) or before it (`before` true) stands for, kept within the
/// range of `i64`.
pub open spec fn seconds_from_span(secs: u64, before: bool) -> i64 {
    if before {
        if secs > 0x7fff_ffff_ffff_ffff {
            i64::MIN
        } else {
            (-(secs as int)) as i64
        }
    } else {
        if secs > 0x7fff_ffff_ffff_ffff {
            i64::MAX
        } else {
            secs as i64
        }
    }
}

/// The signed count of seconds of a span after or before the epoch.
pub fn signed_seconds(secs: u64, before: bool) -> (count: i64)
    ensures
        count == seconds_from_span(secs, before),
{
    if before {
        if secs > 0x7fff_ffff_ffff_ffff {
            i64::MIN
        } else {
            -(secs as i64)
        }
    } else {
        if secs > 0x7fff_ffff_ffff_ffff {
            i64::MAX
        } else {
            secs as i64
        }
    }
}

/// The signed count of whole seconds from the Unix epoch to a time:
/// negative where the time lies before the epoch, and kept within the range
/// of `i64`.
pub open spec fn seconds_of_time(time: SystemTime) -> i64 {
    match span_since_epoch(time) {
        Ok(span) => seconds_from_span(seconds_in(span), false),
        Err(error) => seconds_from_span(seconds_in(span_of_error(error)), true),
    }
}

/// The seconds from the Unix epoch to `time`, negative where `time` lies
/// before the epoch.
fn seconds_of(time: &SystemTime) -> (secs: i64)
    ensures
        secs == seconds_of_time(*time),
{
    match since_unix_epoch(time) {
        Ok(span) => signed_seconds(whole_seconds(&span), false),
        Err(error) => {
            let span = span_before_epoch(&error);
            signed_seconds(whole_seconds(&span), true)
        },
    }
}

/// The time that lies `secs` seconds from the Unix epoch, where the system
/// clock can represent it.
fn time_of(secs: i64) -> (time: Option<SystemTime>)
    ensures
        time matches Some(t) ==> seconds_of_time(t) == secs,
{
    if secs >= 0 {
        unix_epoch_plus(span_of_seconds(secs as u64))
    } else if secs == i64::MIN {
        unix_epoch_minus(span_of_seconds(0x8000_0000_0000_0000))
    } else {
        unix_epoch_minus(span_of_seconds((-secs) as u64))
    }
}

/// A UTC date-time.
#[derive(Debug, Clone, Copy, PartialEq)]
pub struct UTCDateTime {
    inner: i64,
}

impl View for UTCDateTime {
    type V = i64;

    closed spec fn view(&self) -> i64 {
        self.inner
    }
}

impl UTCDateTime {
    /// The date-time of the system clock at the call.
    pub fn now() -> (date: UTCDateTime)
        ensures
            exists|time: SystemTime| date@ == #[trigger] seconds_of_time(time),
    {
        let now = system_time_now();
        UTCDateTime::from_system_time(now)
    }

    /// The date-time `secs` seconds from the Unix epoch.
    pub fn from_secs(secs: i64) -> (date: UTCDateTime)
        ensures
            date@ == secs,
    {
        UTCDateTime { inner: secs }
    }

    /// The seconds from the Unix epoch.
    pub fn as_secs(&self) -> (secs: i64)
        ensures
            secs == self@,
    {
        self.inner
    }

    /// The date-time of a time of the system clock, counted in whole seconds
    /// and negative before the epoch.
    pub fn from_system_time(time: SystemTime) -> (date: UTCDateTime)
        ensures
            date@ == seconds_of_time(time),
    {
        UTCDateTime::from_secs(seconds_of(&time))
    }

    /// The time of the system clock for this date-time, where the clock can
    /// represent it.
    pub fn to_system_time(&self) -> (time: Option<SystemTime>)
        ensures
            time matches Some(t) ==> seconds_of_time(t) == self@,
    {
        time_of(self.inner)
    }

    /// The date-time that the text denotes as a count of seconds, if it
    /// denotes one.
    pub fn parse(s: &str) -> (r: Option<UTCDateTime>)
        ensures
            match decimal_i64(s@) {
                Some(secs) => r matches Some(date) && date@ == secs,
                None => r is None,
            },
    {
        match parse_i64(s) {
            Some(secs) => Some(UTCDateTime { inner: secs }),
            None => None,
        }
    }

    /// The count of seconds in base 10.
    pub fn to_string(&self) -> (s: String)
        ensures
            s@ == signed_decimal(self@ as int),
    {
        i64_to_string(self.inner)
    }
}

impl From<i64> for UTCDateTime {
    fn from(secs: i64) -> (date: UTCDateTime)
        ensures
            date@ == secs,
    {
        UTCDateTime { inner: secs }
    }
}

impl vstd::std_specs::convert::FromSpecImpl<i64> for UTCDateTime {
    open spec fn obeys_from_spec() -> bool {
        false
    }

    open spec fn from_spec(secs: i64) -> UTCDateTime {
        arbitrary()
    }
}

impl From<UTCDateTime> for i64 {
    fn from(date: UTCDateTime) -> (secs: i64)
        ensures
            secs == date@,
    {
        date.inner
    }
}

impl vstd::std_specs::convert::FromSpecImpl<UTCDateTime> for i64 {
    open spec fn obeys_from_spec() -> bool {
        true
    }

    open spec fn from_spec(date: UTCDateTime) -> i64 {
        date@
    }
}

/// A timestamp.
#[derive(Debug, Clone, Copy, PartialEq)]
pub struct Timestamp {
    inner: i64,
}

impl View for Timestamp {
    type V = i64;

    closed spec fn view(&self) -> i64 {
        self.inner
    }
}

impl Timestamp {
    /// The timestamp of the system clock at the call.
    pub fn now() -> (stamp: Timestamp)
        ensures
            exists|time: SystemTime| stamp@ == #[trigger] seconds_of_time(time),
    {
        let now = system_time_now();
        Timestamp::from_system_time(now)
    }

    /// The timestamp `secs` seconds from the Unix epoch.
    pub fn from_secs(secs: i64) -> (stamp: Timestamp)
        ensures
            stamp@ == secs,
    {
        Timestamp { inner: secs }
    }

    /// The seconds from the Unix epoch.
    pub fn as_secs(&self) -> (secs: i64)
        ensures
            secs == self@,
    {
        self.inner
    }

    /// The timestamp of a time of the system clock, counted in whole seconds
    /// and negative before the epoch.
    pub fn from_system_time(time: SystemTime) -> (stamp: Timestamp)
        ensures
            stamp@ == seconds_of_time(time),
    {
        Timestamp::from_secs(seconds_of(&time))
    }

    /// The time of the system clock for this timestamp, where the clock can
    /// represent it.
    pub fn to_system_time(&self) -> (time: Option<SystemTime>)
        ensures
            time matches Some(t) ==> seconds_of_time(t) == self@,
    {
        time_of(self.inner)
    }

    /// The timestamp that the text denotes as a count of seconds, if it
    /// denotes one.
    pub fn parse(s: &str) -> (r: Option<Timestamp>)
        ensures
            match decimal_i64(s@) {
                Some(secs) => r matches Some(stamp) && stamp@ == secs,
                None => r is None,
            },
    {
        match parse_i64(s) {
            Some(secs) => Some(Timestamp { inner: secs }),
            None => None,
        }
    }

    /// The count of seconds in base 10.
    pub fn to_string(&self) -> (s: String)
        ensures
            s@ == signed_decimal(self@ as int),
    {
        i64_to_string(self.inner)
    }
}

impl From<i64> for Timestamp {
    fn from(secs: i64) -> (stamp: Timestamp)
        ensures
            stamp@ == secs,
    {
        Timestamp { inner: secs }
    }
}

impl vstd::std_specs::convert::FromSpecImpl<i64> for Timestamp {
    open spec fn obeys_from_spec() -> bool {
        false
    }

    open spec fn from_spec(secs: i64) -> Timestamp {
        arbitrary()
    }
}

impl From<Timestamp> for i64 {
    fn from(stamp: Timestamp) -> (secs: i64)
        ensures
            secs == stamp@,
    {
        stamp.inner
    }
}

impl vstd::std_specs::convert::FromSpecImpl<Timestamp> for i64 {
    open spec fn obeys_from_spec() -> bool {
        true
    }

    open spec fn from_spec(stamp: Timestamp) -> i64 {
        stamp@
    }
}

impl From<SystemTime> for UTCDateTime {
    fn from(time: SystemTime) -> (date: UTCDateTime)
        ensures
            date@ == seconds_of_time(time),
    {
        UTCDateTime::from_system_time(time)
    }
}

impl vstd::std_specs::convert::FromSpecImpl<SystemTime> for UTCDateTime {
    open spec fn obeys_from_spec() -> bool {
        false
    }

    open spec fn from_spec(time: SystemTime) -> UTCDateTime {
        arbitrary()
    }
}

impl From<SystemTime> for Timestamp {
    fn from(time: SystemTime) -> (stamp: Timestamp)
        ensures
            stamp@ == seconds_of_time(time),
    {
        Timestamp::from_system_time(time)
    }
}

impl vstd::std_specs::convert::FromSpecImpl<SystemTime> for Timestamp {
    open spec fn obeys_from_spec() -> bool {
        false
    }

    open spec fn from_spec(time: SystemTime) -> Timestamp {
        arbitrary()
    }
}

} // verus!
