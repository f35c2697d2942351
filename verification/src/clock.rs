//! Date-times as plain values: seconds since the Unix epoch, nanoseconds, and
//! the UTC offset they are expressed in. Parsing, formatting and calendar
//! arithmetic are done by the `time` crate; every `DateTime` is one that crate
//! can represent (its type invariant).

use vstd::prelude::*;

verus! {

/// An instant with the UTC offset it is expressed in.
#[derive(Debug, Clone, Copy)]
pub struct DateTime {
    unix_seconds: i64,
    nanosecond: u32,
    offset_seconds: i32,
}

impl DateTime {
    /// Only instants that the `time` crate represents exist as values.
    #[verifier::type_invariant]
    pub open spec fn well_formed(self) -> bool {
        representable(self.spec_unix() as int, self.spec_nanos(), self.spec_offset())
    }

    /// Whole seconds since 1970-01-01T00:00:00Z.
    pub closed spec fn spec_unix(self) -> i64 {
        self.unix_seconds
    }

    /// Nanoseconds within the second.
    pub closed spec fn spec_nanos(self) -> u32 {
        self.nanosecond
    }

    /// Offset from UTC, in seconds.
    pub closed spec fn spec_offset(self) -> i32 {
        self.offset_seconds
    }

    /// This instant is strictly later than `other` (offsets do not matter).
    pub open spec fn spec_after(self, other: DateTime) -> bool {
        self.spec_unix() > other.spec_unix() || (self.spec_unix() == other.spec_unix()
            && self.spec_nanos() > other.spec_nanos())
    }

    /// Whole seconds since the Unix epoch (`OffsetDateTime::unix_timestamp`).
    pub fn unix_timestamp(&self) -> (res: i64)
        ensures
            res == self.spec_unix(),
    {
        self.unix_seconds
    }

    /// Nanoseconds within the second.
    pub fn nanosecond(&self) -> (res: u32)
        ensures
            res == self.spec_nanos(),
    {
        self.nanosecond
    }

    /// Offset from UTC in seconds.
    pub fn offset_seconds(&self) -> (res: i32)
        ensures
            res == self.spec_offset(),
    {
        self.offset_seconds
    }

    /// Whether this instant is strictly later than `other`.
    pub fn is_after(&self, other: &DateTime) -> (res: bool)
        ensures
            res == self.spec_after(*other),
    {
        self.unix_seconds > other.unix_seconds || (self.unix_seconds == other.unix_seconds
            && self.nanosecond > other.nanosecond)
    }

    /// The same instant `seconds` later, if the `time` crate can represent it.
    pub fn checked_add_seconds(&self, seconds: i64) -> (res: Option<DateTime>)
        ensures
            res matches Some(r) ==> r.spec_unix() == self.spec_unix() + seconds && r.spec_nanos()
                == self.spec_nanos() && r.spec_offset() == self.spec_offset(),
            res is Some <==> representable(self.spec_unix() + seconds, self.spec_nanos(), self.spec_offset()),
    {
        proof {
            use_type_invariant(self);
        }
        add_seconds(self, seconds)
    }
}

/// Whether the `time` crate has an `OffsetDateTime` for the instant `unix` s +
/// `nanos` ns at offset `offset` s: the offset is a valid `UtcOffset`, `nanos` is
/// below one second, and the local date-time at that offset lies within the
/// crate's supported years.
pub uninterp spec fn representable(unix: int, nanos: u32, offset: i32) -> bool;

/// `OffsetDateTime::checked_add` of a whole number of seconds. The date-time is
/// rebuilt in its own offset from the epoch (`UNIX_EPOCH.checked_to_offset`,
/// then `checked_add`, then `replace_nanosecond`), so that building it succeeds
/// exactly on the values `representable` names; the addition then succeeds
/// exactly when the later instant is representable in the same offset.
#[verifier::external_body]
fn add_seconds(t: &DateTime, seconds: i64) -> (res: Option<DateTime>)
    requires
        representable(t.spec_unix() as int, t.spec_nanos(), t.spec_offset()),
    ensures
        res matches Some(r) ==> r.spec_unix() == t.spec_unix() + seconds && r.spec_nanos()
            == t.spec_nanos() && r.spec_offset() == t.spec_offset(),
        res is Some <==> representable(t.spec_unix() + seconds, t.spec_nanos(), t.spec_offset()),
{
    let offset = time::UtcOffset::from_whole_seconds(t.offset_seconds).ok()?;
    let odt = time::OffsetDateTime::UNIX_EPOCH.checked_to_offset(offset)?
        .checked_add(time::Duration::seconds(t.unix_seconds))?
        .replace_nanosecond(t.nanosecond).ok()?;
    let r = odt.checked_add(time::Duration::seconds(seconds))?;
    Some(DateTime { unix_seconds: r.unix_timestamp(), nanosecond: r.nanosecond(), offset_seconds: r.offset().whole_seconds() })
}

/// What `OffsetDateTime::parse(s, &Rfc3339)` yields, as (unix seconds,
/// nanoseconds, offset seconds); `None` when `s` is not RFC 3339.
pub uninterp spec fn rfc3339_parsed(s: Seq<char>) -> Option<(i64, u32, i32)>;

/// `OffsetDateTime::parse` with the RFC 3339 format; the error is the `time`
/// crate's message.
#[verifier::external_body]
pub(crate) fn parse_rfc3339(s: &str) -> (res: Result<DateTime, String>)
    ensures
        res matches Ok(t) ==> rfc3339_parsed(s@) == Some((t.spec_unix(), t.spec_nanos(), t.spec_offset()))
            && representable(t.spec_unix() as int, t.spec_nanos(), t.spec_offset()),
        res is Err ==> rfc3339_parsed(s@) is None,
{
    let t = time::OffsetDateTime::parse(s, &time::format_description::well_known::Rfc3339)
        .map_err(|e| e.to_string())?;
    Ok(DateTime { unix_seconds: t.unix_timestamp(), nanosecond: t.nanosecond(), offset_seconds: t.offset().whole_seconds() })
}

/// `OffsetDateTime::now_utc`: the current time (no claim on its value beyond
/// its offset, and that the crate represents it).
#[verifier::external_body]
pub(crate) fn now_utc() -> (res: DateTime)
    ensures
        res.spec_offset() == 0,
        representable(res.spec_unix() as int, res.spec_nanos(), res.spec_offset()),
{
    let t = time::OffsetDateTime::now_utc();
    DateTime { unix_seconds: t.unix_timestamp(), nanosecond: t.nanosecond(), offset_seconds: 0 }
}

/// What `format(&Rfc3339)` gives for the date-time (`None` where it fails).
pub uninterp spec fn rfc3339_text(unix: i64, nanos: u32, offset: i32) -> Option<Seq<char>>;

/// `OffsetDateTime::format` with the RFC 3339 format (it fails on a year it
/// cannot write in four digits, or an offset with seconds). The date-time is
/// rebuilt as in `add_seconds`, which succeeds on every representable value.
#[verifier::external_body]
pub(crate) fn format_rfc3339(t: &DateTime) -> (res: Option<String>)
    requires
        representable(t.spec_unix() as int, t.spec_nanos(), t.spec_offset()),
    ensures
        res matches Some(s) ==> rfc3339_text(t.spec_unix(), t.spec_nanos(), t.spec_offset()) == Some(s@),
        res is None ==> rfc3339_text(t.spec_unix(), t.spec_nanos(), t.spec_offset()) is None,
{
    let offset = time::UtcOffset::from_whole_seconds(t.offset_seconds).ok()?;
    let odt = time::OffsetDateTime::UNIX_EPOCH.checked_to_offset(offset)?
        .checked_add(time::Duration::seconds(t.unix_seconds))?
        .replace_nanosecond(t.nanosecond).ok()?;
    odt.format(&time::format_description::well_known::Rfc3339).ok()
}

/// The calendar date (year, month 1-12, day 1-31) of the date-time in its own
/// offset (`OffsetDateTime::date`).
pub uninterp spec fn local_date(unix: i64, nanos: u32, offset: i32) -> (i32, u8, u8);

/// `OffsetDateTime::date`, on the date-time rebuilt as in `add_seconds`, which
/// succeeds on every representable value.
#[verifier::external_body]
pub(crate) fn calendar_date(t: &DateTime) -> (res: Option<(i32, u8, u8)>)
    requires
        representable(t.spec_unix() as int, t.spec_nanos(), t.spec_offset()),
    ensures
        res == Some(local_date(t.spec_unix(), t.spec_nanos(), t.spec_offset())),
{
    let offset = time::UtcOffset::from_whole_seconds(t.offset_seconds).ok()?;
    let odt = time::OffsetDateTime::UNIX_EPOCH.checked_to_offset(offset)?
        .checked_add(time::Duration::seconds(t.unix_seconds))?
        .replace_nanosecond(t.nanosecond).ok()?;
    let d = odt.date();
    Some((d.year(), u8::from(d.month()), d.day()))
}

/// What `Date::parse(s, &format_description::parse(format))` yields as
/// (year, month, day); `None` when the description or the date does not parse.
pub uninterp spec fn date_parsed(s: Seq<char>, format: Seq<char>) -> Option<(i32, u8, u8)>;

/// `Date::parse` with a format description given in the `time` crate's syntax.
#[verifier::external_body]
pub(crate) fn parse_date(s: &str, format: &str) -> (res: Option<(i32, u8, u8)>)
    ensures
        res == date_parsed(s@, format@),
{
    let fmt = time::format_description::parse(format).ok()?;
    let d = time::Date::parse(s, &fmt).ok()?;
    Some((d.year(), u8::from(d.month()), d.day()))
}

} // verus!
