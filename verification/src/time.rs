//! Instants as plain integers, and the calendar work that `chrono` does on them.

use chrono::{DateTime, FixedOffset, TimeDelta, Utc};
use vstd::prelude::*;

verus! {

/// Why a text could not be read as a date and time.
#[derive(Clone, Copy, Debug, PartialEq, Eq, Structural)]
pub enum ParseFailure {
    /// A field is outside its permitted range.
    OutOfRange,
    /// No date and time has the given fields.
    Impossible,
    /// The fields do not determine a date and time.
    NotEnough,
    /// The text holds a character that does not belong there.
    Invalid,
    /// The text ends too early.
    TooShort,
    /// Text is left over after the date and time.
    TooLong,
    /// The format itself was not understood.
    BadFormat,
    /// A failure of a kind this library does not tell apart.
    Other,
}

/// An instant on the UTC time line, with the offset its text was written in.
///
/// `secs` counts whole non-leap seconds since the Unix epoch and `nanos` the
/// nanoseconds after it; inside a leap second `nanos` runs from one to two
/// thousand million. `offset` is in seconds east of UTC and takes no part in
/// the order of instants.
#[derive(Clone, Copy, Debug, PartialEq, Eq, Structural)]
pub struct Timestamp {
    pub secs: i64,
    pub nanos: u32,
    pub offset: i32,
}

impl Timestamp {
    /// Whether `self` is an earlier instant than `other`.
    pub open spec fn is_before(self, other: Timestamp) -> bool {
        self.secs < other.secs || (self.secs == other.secs && self.nanos < other.nanos)
    }

    /// Whether `self` and `other` are one instant, whatever their offsets.
    pub open spec fn same_instant(self, other: Timestamp) -> bool {
        self.secs == other.secs && self.nanos == other.nanos
    }

    /// Whether `self` lies `minutes` before `other` by the count of seconds,
    /// with the nanoseconds and the offset of `other`. A negative number of
    /// minutes says that it lies after.
    pub open spec fn is_minutes_before(self, other: Timestamp, minutes: int) -> bool {
        &&& self.secs == other.secs - 60 * minutes
        &&& self.nanos == other.nanos
        &&& self.offset == other.offset
    }

    /// Whether `self` lies outside a leap second.
    pub open spec fn plain(self) -> bool {
        self.nanos < 1_000_000_000
    }

    /// Tells whether `self` is an earlier instant than `other`.
    pub fn before(&self, other: &Timestamp) -> (r: bool)
        ensures
            r == self.is_before(*other),
    {
        self.secs < other.secs || (self.secs == other.secs && self.nanos < other.nanos)
    }

    /// Tells whether `self` and `other` are one instant.
    pub fn same(&self, other: &Timestamp) -> (r: bool)
        ensures
            r == self.same_instant(*other),
    {
        self.secs == other.secs && self.nanos == other.nanos
    }
}

/// What `DateTime::parse_from_rfc3339` makes of a text: the instant and
/// offset it reads, `None` where it fails.
pub uninterp spec fn rfc3339_reading(text: Seq<char>) -> Option<Timestamp>;

/// What `str::parse::<DateTime<Utc>>` makes of a text: the instant it reads,
/// at offset zero, or the kind of its failure. This reading is more lenient
/// than [`rfc3339_reading`].
pub uninterp spec fn utc_reading(text: Seq<char>) -> Result<Timestamp, ParseFailure>;

/// The instant `DateTime::checked_sub_signed` gives when the span that
/// `TimeDelta::try_minutes` makes of `minutes` is taken from `t`; `None`
/// where either refuses, or where `t` is no date and time that `chrono`
/// holds. For a span of one minute or more it is an earlier instant than
/// `t`; for `t` outside a leap second it lies sixty seconds before `t` for
/// every minute.
pub uninterp spec fn minutes_earlier(t: Timestamp, minutes: i64) -> Option<Timestamp>;

/// The instant `DateTime::checked_add_signed` gives when the span that
/// `TimeDelta::try_minutes` makes of `minutes` is added to `t`; `None`
/// where either refuses, or where `t` is no date and time that `chrono`
/// holds. For `t` outside a leap second it lies sixty seconds after `t` for
/// every minute.
pub uninterp spec fn minutes_later(t: Timestamp, minutes: i64) -> Option<Timestamp>;

/// The text `DateTime::to_rfc3339` writes for `t` in its offset; `None`
/// where `t` is no date and time that `chrono` holds.
pub uninterp spec fn rfc3339_text(t: Timestamp) -> Option<Seq<char>>;

/// Reads a text with `DateTime::parse_from_rfc3339`: the result is what
/// [`rfc3339_reading`] names, the instant being the parsed value's
/// `timestamp()` and `timestamp_subsec_nanos()` and the offset its
/// `offset().local_minus_utc()`.
#[verifier::external_body]
pub(crate) fn parse_rfc3339(text: &str) -> (r: Option<Timestamp>)
    ensures
        r == rfc3339_reading(text@),
{
    match DateTime::parse_from_rfc3339(text) {
        Ok(d) => Some(Timestamp {
            secs: d.timestamp(),
            nanos: d.timestamp_subsec_nanos(),
            offset: d.offset().local_minus_utc(),
        }),
        Err(_) => None,
    }
}

/// Reads a text with `str::parse::<DateTime<Utc>>`: the result is what
/// [`utc_reading`] names, a failure being named after the `kind()` of the
/// `chrono::ParseError`.
#[verifier::external_body]
pub(crate) fn parse_utc(text: &str) -> (r: Result<Timestamp, ParseFailure>)
    ensures
        r == utc_reading(text@),
{
    match text.parse::<DateTime<Utc>>() {
        Ok(d) => Ok(Timestamp { secs: d.timestamp(), nanos: d.timestamp_subsec_nanos(), offset: 0 }),
        Err(e) => Err(match e.kind() {
            chrono::format::ParseErrorKind::OutOfRange => ParseFailure::OutOfRange,
            chrono::format::ParseErrorKind::Impossible => ParseFailure::Impossible,
            chrono::format::ParseErrorKind::NotEnough => ParseFailure::NotEnough,
            chrono::format::ParseErrorKind::Invalid => ParseFailure::Invalid,
            chrono::format::ParseErrorKind::TooShort => ParseFailure::TooShort,
            chrono::format::ParseErrorKind::TooLong => ParseFailure::TooLong,
            chrono::format::ParseErrorKind::BadFormat => ParseFailure::BadFormat,
            _ => ParseFailure::Other,
        }),
    }
}

/// Takes `minutes` from an instant with `DateTime::checked_sub_signed`, the
/// span made by `TimeDelta::try_minutes`: the result is what
/// [`minutes_earlier`] names, in the offset of `t`. Taking a span of one
/// minute or more gives an earlier instant; and from an instant outside a
/// leap second the result differs by sixty seconds for every minute, and
/// in nothing else.
#[verifier::external_body]
pub(crate) fn checked_sub_minutes(t: Timestamp, minutes: i64) -> (r: Option<Timestamp>)
    ensures
        r == minutes_earlier(t, minutes),
        minutes > 0 ==> (r matches Some(e) ==> e.is_before(t)),
        t.plain() ==> (r matches Some(e) ==> e.is_minutes_before(t, minutes as int)),
{
    let zone = FixedOffset::east_opt(t.offset)?;
    let d = DateTime::from_timestamp(t.secs, t.nanos)?.with_timezone(&zone);
    let d = d.checked_sub_signed(TimeDelta::try_minutes(minutes)?)?;
    Some(Timestamp {
        secs: d.timestamp(),
        nanos: d.timestamp_subsec_nanos(),
        offset: d.offset().local_minus_utc(),
    })
}

/// Adds `minutes` to an instant with `DateTime::checked_add_signed`, the
/// span made by `TimeDelta::try_minutes`: the result is what
/// [`minutes_later`] names, in the offset of `t`. From an instant outside
/// a leap second the result differs by sixty seconds for every minute, and
/// in nothing else.
#[verifier::external_body]
pub(crate) fn checked_add_minutes(t: Timestamp, minutes: i64) -> (r: Option<Timestamp>)
    ensures
        r == minutes_later(t, minutes),
        t.plain() ==> (r matches Some(e) ==> t.is_minutes_before(e, minutes as int)),
{
    let zone = FixedOffset::east_opt(t.offset)?;
    let d = DateTime::from_timestamp(t.secs, t.nanos)?.with_timezone(&zone);
    let d = d.checked_add_signed(TimeDelta::try_minutes(minutes)?)?;
    Some(Timestamp {
        secs: d.timestamp(),
        nanos: d.timestamp_subsec_nanos(),
        offset: d.offset().local_minus_utc(),
    })
}

/// Writes an instant with `DateTime::to_rfc3339`, in its own offset: the
/// result's text is what [`rfc3339_text`] names.
#[verifier::external_body]
pub(crate) fn format_rfc3339(t: Timestamp) -> (r: Option<String>)
    ensures
        r is Some == rfc3339_text(t) is Some,
        r matches Some(s) ==> rfc3339_text(t) == Some(s@),
{
    let zone = FixedOffset::east_opt(t.offset)?;
    let d = DateTime::from_timestamp(t.secs, t.nanos)?.with_timezone(&zone);
    Some(d.to_rfc3339())
}

} // verus!
