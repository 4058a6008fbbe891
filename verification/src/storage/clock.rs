//! Times and ids, which `chrono` and `uuid` give.

use chrono::Timelike;
use vstd::prelude::*;

verus! {

/// A point in time: seconds since the start of 1970, and nanoseconds since the last whole second.
/// In a leap second there are more than a billion of these.
#[derive(Debug, Clone, Copy, PartialEq, Eq, Structural)]
pub struct UtcTime {
    pub seconds: i64,
    pub nanos: u32,
}

impl UtcTime {
    /// The time lies in the years that `chrono` knows, -262143 to 262142. A leap second may follow
    /// any second.
    pub open spec fn valid(self) -> bool {
        &&& -8334601228800 <= self.seconds <= 8210266876799
        &&& self.nanos < 2000000000
    }

    /// Whether the time is one that can be written.
    pub fn is_valid(&self) -> (r: bool)
        ensures
            r == self.valid(),
    {
        -8334601228800i64 <= self.seconds && self.seconds <= 8210266876799i64 && self.nanos
            < 2000000000
    }

    /// The time is one that RFC 3339 writes: it lies in the years 0 to 9999, and a leap second ends
    /// a minute.
    pub open spec fn is_plain(self) -> bool {
        &&& -62167219200 <= self.seconds <= 253402300799
        &&& self.nanos >= 1000000000 ==> self.seconds as int % 60 == 59
    }
}

/// How `chrono` writes a time, by its seconds and nanoseconds, as RFC 3339 has it.
pub uninterp spec fn rfc3339_text(seconds: i64, nanos: u32) -> Seq<char>;

/// What `chrono` reads a text of RFC 3339 as: the seconds and nanoseconds of its time, or how the
/// failure is worded.
pub uninterp spec fn rfc3339_time(text: Seq<char>) -> Result<(i64, u32), Seq<char>>;

/// What reading a time gave, as a result of views.
pub open spec fn time_view(created: Result<UtcTime, String>) -> Result<(i64, u32), Seq<char>> {
    match created {
        Ok(time) => Ok((time.seconds, time.nanos)),
        Err(problem) => Err(problem@),
    }
}

/// `chrono::DateTime::to_rfc3339`, on the second that `DateTime::from_timestamp` gives with the
/// nanoseconds set by `NaiveDateTime::with_nanosecond`, which takes a leap second behind any second.
/// A time in the years 0 to 9999 whose leap second, if it is in one, ends a minute is read back from
/// its text as what it was. Another year has a sign, and its text is not read back; a leap second
/// elsewhere is written as the second behind it.
#[verifier::external_body]
pub(crate) fn write_rfc3339(time: UtcTime) -> (r: String)
    requires
        time.valid(),
    ensures
        r@ == rfc3339_text(time.seconds, time.nanos),
        r@.len() > 0,
        (time.is_plain() ==> rfc3339_time(r@) == Ok::<(i64, u32), Seq<char>>(
            (time.seconds, time.nanos),
        )),
{
    let second = chrono::DateTime::from_timestamp(time.seconds, 0).unwrap().naive_utc();
    second.with_nanosecond(time.nanos).unwrap().and_utc().to_rfc3339()
}

/// `chrono::DateTime::parse_from_rfc3339`, the time taken at UTC. A text that is no time of
/// RFC 3339 is an error, worded as `chrono` displays it.
#[verifier::external_body]
pub(crate) fn read_rfc3339(text: &str) -> (r: Result<UtcTime, String>)
    ensures
        match r {
            Ok(time) => rfc3339_time(text@) == Ok::<(i64, u32), Seq<char>>(
                (time.seconds, time.nanos),
            ) && time.valid(),
            Err(problem) => rfc3339_time(text@) == Err::<(i64, u32), Seq<char>>(problem@),
        },
{
    chrono::DateTime::parse_from_rfc3339(text).map(
        |t| UtcTime { seconds: t.timestamp(), nanos: t.timestamp_subsec_nanos() },
    ).map_err(|e| e.to_string())
}

/// `chrono::Utc::now`: the time of the machine's clock, which is a time since 1970 and never in a
/// leap second.
#[verifier::external_body]
pub(crate) fn current_time() -> (r: UtcTime)
    ensures
        r.valid(),
        r.seconds >= 0,
        r.nanos < 1000000000,
{
    let now = chrono::Utc::now();
    UtcTime { seconds: now.timestamp(), nanos: now.timestamp_subsec_nanos() }
}

/// A digit of a hexadecimal number in small letters.
pub open spec fn is_hex(c: char) -> bool {
    '0' <= c <= '9' || 'a' <= c <= 'f'
}

/// A random id as text: 32 hexadecimal digits in groups of 8, 4, 4, 4 and 12, with the digits of
/// its version and variant in their places.
pub open spec fn is_random_id(text: Seq<char>) -> bool {
    &&& text.len() == 36
    &&& forall|i: int|
        0 <= i < 36 ==> if i == 8 || i == 13 || i == 18 || i == 23 {
            #[trigger] text[i] == '-'
        } else {
            is_hex(text[i])
        }
    &&& text[14] == '4'
    &&& text[19] == '8' || text[19] == '9' || text[19] == 'a' || text[19] == 'b'
}

/// `uuid::Uuid::new_v4`, as text: a random id of version 4. Which one is left to chance.
#[verifier::external_body]
pub(crate) fn random_id() -> (r: String)
    ensures
        is_random_id(r@),
{
    uuid::Uuid::new_v4().to_string()
}

/// The current time as text.
pub fn now_text() -> (r: String)
    ensures
        r@.len() > 0,
        exists|time: UtcTime|
            {
                &&& time.valid()
                &&& time.seconds >= 0
                &&& r@ == #[trigger] rfc3339_text(time.seconds, time.nanos)
            },
{
    write_rfc3339(current_time())
}

/// A time is one of whole days, those from the first of the year -262143 to the last of 262142, and
/// less than two seconds' worth of nanoseconds.
pub proof fn valid_time_is_on_a_day(time: UtcTime)
    ensures
        time.valid() <==> -96465292 <= (time.seconds as int) / 86400 <= 95026236 && time.nanos
            < 2 * 1000000000,
{
}

/// A plain time is one of whole days, those from the first of the year 0 to the last of 9999. A leap
/// second is the last of a minute.
pub proof fn plain_time_is_in_four_digit_years(time: UtcTime)
    ensures
        time.is_plain() <==> -719528 <= (time.seconds as int) / 86400 <= 2932896 && (time.nanos
            < 1000000000 || (time.seconds as int + 1) % 60 == 0),
{
}

} // verus!
