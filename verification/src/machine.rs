//! What differs from call to call: the time and fresh ids.
use vstd::prelude::*;

verus! {

/// A character of the text of an id.
pub open spec fn is_id_char(c: char) -> bool {
    '0' <= c <= '9' || 'a' <= c <= 'f' || c == '-'
}

/// The text of an id: 36 hexadecimal digits in lower case and hyphens.
pub open spec fn is_id(id: Seq<char>) -> bool {
    id.len() == 36 && forall|i: int| 0 <= i < id.len() ==> is_id_char(#[trigger] id[i])
}

/// `uuid::Uuid::new_v4`, written as text: a random id in the hyphenated form. Which one is left
/// open.
#[verifier::external_body]
pub(crate) fn random_id() -> (id: String)
    ensures
        is_id(id@),
{
    uuid::Uuid::new_v4().to_string()
}

/// The point in time of `chrono`, without a time zone; here always in coordinated universal time.
#[verifier::external_type_specification]
#[verifier::external_body]
pub struct ExNaiveDateTime(chrono::NaiveDateTime);

/// The seconds from the epoch to a point in time, leap seconds left out.
pub uninterp spec fn timestamp_seconds(time: chrono::NaiveDateTime) -> i64;

/// The milliseconds from the epoch to a point in time, leap seconds left out.
pub uninterp spec fn timestamp_millis(time: chrono::NaiveDateTime) -> i64;

/// `chrono::Utc::now`, without its time zone: the time that the machine shows. Nothing is said of
/// it. Where the machine shows a time before the epoch, or one too late to be a date, the call
/// panics.
#[verifier::external_body]
fn utc_now() -> (time: chrono::NaiveDateTime) {
    chrono::Utc::now().naive_utc()
}

/// `chrono::DateTime::timestamp`: the seconds from the epoch to `time`, under a name.
#[verifier::external_body]
fn seconds_of(time: chrono::NaiveDateTime) -> (seconds: i64)
    ensures
        seconds == timestamp_seconds(time),
{
    time.and_utc().timestamp()
}

/// `chrono::DateTime::timestamp_millis`: the milliseconds from the epoch to `time`, under a name.
#[verifier::external_body]
fn millis_of(time: chrono::NaiveDateTime) -> (millis: i64)
    ensures
        millis == timestamp_millis(time),
{
    time.and_utc().timestamp_millis()
}

/// The milliseconds from the epoch to the time that the machine shows. Which time that is, is left
/// open.
pub(crate) fn utc_millis() -> (millis: i64)
    ensures
        exists|time: chrono::NaiveDateTime| millis == #[trigger] timestamp_millis(time),
{
    millis_of(utc_now())
}

/// The point in time of `std::time`.
#[verifier::external_type_specification]
#[verifier::external_body]
pub struct ExSystemTime(std::time::SystemTime);

/// The error of `std::time` for a point in time that comes too early.
#[verifier::external_type_specification]
#[verifier::external_body]
pub struct ExSystemTimeError(std::time::SystemTimeError);

/// `std::time::SystemTime::now`: the time that the machine shows. Nothing is said of it.
#[verifier::external_body]
fn system_time() -> (time: std::time::SystemTime) {
    std::time::SystemTime::now()
}

/// The span from the epoch to a point in time, where it does not lie before the epoch.
pub uninterp spec fn epoch_span(time: std::time::SystemTime) -> Option<std::time::Duration>;

/// The whole milliseconds of a span.
pub uninterp spec fn span_millis(span: std::time::Duration) -> u128;

/// `std::time::SystemTime::duration_since` with `UNIX_EPOCH`: the span from the epoch to `time`,
/// under a name, or an error where there is none. Nothing is said of the error.
#[verifier::external_body]
fn since_epoch(time: std::time::SystemTime) -> (span: Result<
    std::time::Duration,
    std::time::SystemTimeError,
>)
    ensures
        match span {
            Ok(s) => epoch_span(time) == Some(s),
            Err(_) => epoch_span(time) is None,
        },
{
    time.duration_since(std::time::UNIX_EPOCH)
}

/// `std::time::Duration::as_millis`: the whole milliseconds of a span, under a name.
#[verifier::external_body]
fn whole_millis(span: std::time::Duration) -> (millis: u128)
    ensures
        millis == span_millis(span),
{
    span.as_millis()
}

/// The milliseconds from the epoch to a point in time, in 64 bits, and none before the epoch.
pub open spec fn unix_millis(time: std::time::SystemTime) -> int {
    match epoch_span(time) {
        Some(span) => span_millis(span) as int % 0x1_0000_0000_0000_0000,
        None => 0,
    }
}

/// The milliseconds from the epoch to a point in time, in 64 bits, and none before the epoch.
pub fn millis_at(time: std::time::SystemTime) -> (millis: u64)
    ensures
        millis == unix_millis(time),
{
    match since_epoch(time) {
        Ok(span) => low_bits(whole_millis(span)),
        Err(_) => 0,
    }
}

/// The milliseconds from the epoch to the time that the machine shows. Which time that is, is left
/// open.
pub fn now_millis() -> (millis: u64)
    ensures
        exists|time: std::time::SystemTime| millis == #[trigger] unix_millis(time),
{
    millis_at(system_time())
}

/// The low 64 bits of a number.
pub fn low_bits(n: u128) -> (low: u64)
    ensures
        low == n % 0x1_0000_0000_0000_0000,
{
    (n % 0x1_0000_0000_0000_0000) as u64
}

/// The seconds from the epoch to the time that the machine shows, for the `created` field of a
/// reply. Which time that is, is left open.
pub fn created_now() -> (seconds: i64)
    ensures
        exists|time: chrono::NaiveDateTime| seconds == #[trigger] timestamp_seconds(time),
{
    seconds_of(utc_now())
}

/// The id of a reply: `chatcmpl-` and a fresh id.
pub fn completion_id() -> (id: String)
    ensures
        exists|fresh: Seq<char>| is_id(fresh) && id@ == #[trigger] ("chatcmpl-"@ + fresh),
{
    let fresh = random_id();
    let mut id = "chatcmpl-".to_owned();
    id.push_str(fresh.as_str());
    assert(id@ == "chatcmpl-"@ + fresh@);
    id
}

} // verus!
