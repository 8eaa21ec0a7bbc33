//! Points in time, and their text.

use s3s::dto::FormatTimestampError;
use s3s::dto::ParseTimestampError;
use vstd::prelude::*;

verus! {

/// A calendar date and a time of day, with the offset from UTC at which they are
/// read.
#[derive(Debug, Clone, Copy, PartialEq, Eq, Structural)]
pub struct Timestamp {
    /// Nanoseconds from midnight of 1970-01-01 to the date and time of day, both
    /// read at the timestamp's own offset.
    pub wall_nanos: i128,
    /// Seconds by which the offset is ahead of UTC.
    pub offset_seconds: i32,
}

/// Midnight of -9999-01-01.
pub const MIN_WALL_NANOS: i128 = -377_705_116_800_000_000_000i128;

/// The last nanosecond of 9999-12-31.
pub const MAX_WALL_NANOS: i128 = 253_402_300_799_999_999_999i128;

/// Midnight of 0000-01-01.
pub const YEAR_ZERO_WALL_NANOS: i128 = -62_167_219_200_000_000_000i128;

/// The largest distance from UTC: 25 hours, 59 minutes and 59 seconds.
pub const MAX_OFFSET_SECONDS: i32 = 93_599i32;

/// The timestamp that `s3s` reads from an RFC 3339 text, if it reads one.
pub uninterp spec fn rfc3339_reading(text: Seq<char>) -> Option<Timestamp>;

/// The text that `s3s` writes for a timestamp in its date-time format.
pub uninterp spec fn date_time_text(timestamp: Timestamp) -> Seq<char>;

impl Timestamp {
    /// The year has at most four digits and the offset is one that a clock can have.
    pub open spec fn valid(&self) -> bool {
        &&& MIN_WALL_NANOS <= self.wall_nanos <= MAX_WALL_NANOS
        &&& -MAX_OFFSET_SECONDS <= self.offset_seconds <= MAX_OFFSET_SECONDS
    }

    /// The same date and time of day cut to the millisecond, read at UTC.
    pub open spec fn in_millis(&self) -> Timestamp {
        Timestamp {
            wall_nanos: (self.wall_nanos as int - (self.wall_nanos as int) % 1_000_000) as i128,
            offset_seconds: 0,
        }
    }

    /// Tells whether the timestamp is valid.
    pub fn is_valid(&self) -> (valid: bool)
        ensures
            valid == self.valid(),
    {
        MIN_WALL_NANOS <= self.wall_nanos && self.wall_nanos <= MAX_WALL_NANOS
            && -MAX_OFFSET_SECONDS <= self.offset_seconds && self.offset_seconds
            <= MAX_OFFSET_SECONDS
    }
}

/// The text is the timestamp's. From the year zero on it can be read again, as the
/// same date and time of day cut to the millisecond; the text names no offset but UTC.
pub open spec fn is_date_text(text: Seq<char>, timestamp: Timestamp) -> bool {
    &&& text == date_time_text(timestamp)
    &&& timestamp.wall_nanos >= YEAR_ZERO_WALL_NANOS ==> rfc3339_reading(text) == Some(
        timestamp.in_millis(),
    )
}

/// `s3s`'s error for a text that is not a timestamp.
#[verifier::external_type_specification]
#[verifier::external_body]
pub struct ExParseTimestampError(s3s::dto::ParseTimestampError);

/// `s3s`'s error for a timestamp that cannot be written.
#[verifier::external_type_specification]
#[verifier::external_body]
pub struct ExFormatTimestampError(s3s::dto::FormatTimestampError);

/// Calls `s3s::dto::Timestamp::parse` with the date-time format. Whether the text
/// is read, and as which date, time and offset, depends on the text alone; what
/// is read is in the range of `time::OffsetDateTime`.
#[verifier::external_body]
fn parse_rfc3339(text: &str) -> (reading: Result<Timestamp, ParseTimestampError>)
    ensures
        match reading {
            Ok(timestamp) => rfc3339_reading(text@) == Some(timestamp) && timestamp.valid(),
            Err(_) => rfc3339_reading(text@) is None,
        },
{
    let outside = s3s::dto::Timestamp::parse(s3s::dto::TimestampFormat::DateTime, text)?;
    let local = time::OffsetDateTime::from(outside);
    Ok(Timestamp {
        wall_nanos: local.replace_offset(time::UtcOffset::UTC).unix_timestamp_nanos(),
        offset_seconds: local.offset().whole_seconds(),
    })
}

/// Calls `s3s::dto::Timestamp::format` with the date-time format, on the timestamp
/// that has the given date, time and offset. It fails only where the year has more
/// than four digits or the writer fails; here the year is in range and the writer
/// is a vector. The text depends on the timestamp alone. It is the date and the time
/// of day with three digits for the fraction of the second, which are cut and not
/// rounded, and a `Z` whatever the offset is; with a year of four digits and no sign
/// it is an RFC 3339 text, which `s3s::dto::Timestamp::parse` reads as what it says.
#[verifier::external_body]
fn format_date_time(timestamp: Timestamp) -> (text: Result<String, FormatTimestampError>)
    requires
        timestamp.valid(),
    ensures
        text is Ok,
        text->Ok_0@ == date_time_text(timestamp),
        timestamp.wall_nanos >= YEAR_ZERO_WALL_NANOS ==> rfc3339_reading(text->Ok_0@) == Some(
            timestamp.in_millis(),
        ),
{
    let utc = time::OffsetDateTime::from_unix_timestamp_nanos(timestamp.wall_nanos).unwrap();
    let offset = time::UtcOffset::from_whole_seconds(timestamp.offset_seconds).unwrap();
    let mut bytes: Vec<u8> = Vec::new();
    let outside = s3s::dto::Timestamp::from(utc.replace_offset(offset));
    outside.format(s3s::dto::TimestampFormat::DateTime, &mut bytes)?;
    Ok(String::from_utf8(bytes).unwrap())
}

/// Calls `chrono::Utc::now`. Of the clock's reading nothing is said but that it is
/// a valid timestamp at UTC. A clock that is set before 1970 or beyond the year 9999
/// makes the call panic.
#[verifier::external_body]
fn utc_now() -> (now: Timestamp)
    ensures
        now.valid(),
        now.offset_seconds == 0,
{
    let system_time: std::time::SystemTime = chrono::Utc::now().into();
    let utc = time::OffsetDateTime::from(s3s::dto::Timestamp::from(system_time));
    Timestamp { wall_nanos: utc.unix_timestamp_nanos(), offset_seconds: 0 }
}

/// The timestamp that an RFC 3339 text denotes, if it denotes one.
pub fn parse_timestamp(text: &str) -> (reading: Option<Timestamp>)
    ensures
        reading == rfc3339_reading(text@),
        reading matches Some(timestamp) ==> timestamp.valid(),
{
    match parse_rfc3339(text) {
        Ok(timestamp) => Some(timestamp),
        Err(_) => None,
    }
}

/// The text of a timestamp.
pub fn timestamp_to_string(timestamp: Timestamp) -> (text: String)
    requires
        timestamp.valid(),
    ensures
        is_date_text(text@, timestamp),
{
    match format_date_time(timestamp) {
        Ok(text) => text,
        Err(_) => String::new(),
    }
}

/// The current time.
pub fn current_time() -> (now: Timestamp)
    ensures
        now.valid(),
        now.offset_seconds == 0,
{
    utc_now()
}

} // verus!
