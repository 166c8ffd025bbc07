use vstd::prelude::*;
use vstd::string::StringExecFns;
use std::time::{Duration, Instant};
use crate::text::{decimal, decimal_text, digit, leading_chars};

verus! {

/// Number of buffered messages above which the history is trimmed.
pub const MESSAGE_CLEANUP_THRESHOLD: usize = 200;

/// Number of displayed messages above which the display is trimmed.
pub const DISPLAYED_CLEANUP_THRESHOLD: usize = 100;

/// Number of characters of a message's text that enter its key.
pub const KEY_TEXT_LENGTH: usize = 20;

/// Whether a history of `message_count` messages is due for trimming.
pub fn should_cleanup_messages(message_count: usize) -> (due: bool)
    ensures
        due == (message_count > MESSAGE_CLEANUP_THRESHOLD),
{
    message_count > MESSAGE_CLEANUP_THRESHOLD
}

/// Whether a display of `displayed_count` messages is due for trimming.
pub fn should_cleanup_displayed_messages(displayed_count: usize) -> (due: bool)
    ensures
        due == (displayed_count > DISPLAYED_CLEANUP_THRESHOLD),
{
    displayed_count > DISPLAYED_CLEANUP_THRESHOLD
}

/// The key of a message: the sender, at most the first twenty characters
/// of the text, and the time, separated by colons.
pub open spec fn message_key(username: Seq<char>, text: Seq<char>, timestamp: u64) -> Seq<char> {
    let head = text.take(if text.len() >= KEY_TEXT_LENGTH { KEY_TEXT_LENGTH as int } else { text.len() as int });
    username + ":"@ + head + ":"@ + decimal_text(timestamp as nat)
}

/// Builds the key by which a message is recognized when it arrives twice.
pub fn generate_message_key(username: &str, text: &str, timestamp: u64) -> (key: String)
    ensures
        key@ == message_key(username@, text@, timestamp),
{
    let mut key = String::from_str(username);
    key.append(":");
    key.append(leading_chars(text, KEY_TEXT_LENGTH));
    key.append(":");
    let time = decimal(timestamp);
    key.append(time.as_str());
    key
}

/// `std::time::Instant`, a reading of the machine's monotonic clock. It is
/// opaque here: a value of it is only carried through.
#[verifier::external_type_specification]
#[verifier::external_body]
pub struct ExInstant(std::time::Instant);

/// Calls `std::time::Instant::elapsed`. The result is the time that has
/// passed on this machine: nothing is claimed of it.
#[verifier::external_body]
fn elapsed_since(start: &Instant) -> (elapsed: Duration) {
    start.elapsed()
}

/// Calls `std::time::Duration::as_millis`, the whole milliseconds of a
/// duration. The duration is opaque here: nothing is claimed of the result.
#[verifier::external_body]
fn whole_millis(elapsed: &Duration) -> (millis: u128) {
    elapsed.as_millis()
}

/// A latency of `millis` milliseconds as a 64-bit number: the low 64 bits.
pub fn latency_of(millis: u128) -> (latency: u64)
    ensures
        latency == millis as u64,
{
    millis as u64
}

/// The milliseconds that have passed since `start_time`.
pub fn calculate_latency(start_time: Instant) -> (latency: u64) {
    let elapsed = elapsed_since(&start_time);
    latency_of(whole_millis(&elapsed))
}

/// The last second of the year 9999, in seconds since the Unix epoch.
pub const LAST_SECOND_OF_9999: u64 = 253402300799;

/// A number below a hundred in two decimal digits.
pub open spec fn two_digits(n: nat) -> Seq<char> {
    seq![digit(n / 10), digit(n % 10)]
}

/// The time of day, as hours and minutes in UTC, of the moment `seconds`
/// after the Unix epoch: two digits each, with a colon between.
pub open spec fn hour_minute(seconds: int) -> Seq<char> {
    let second_of_day = seconds % 86400;
    two_digits((second_of_day / 3600) as nat) + seq![':'] + two_digits(
        ((second_of_day % 3600) / 60) as nat,
    )
}

/// The text is a time of day: the hour and minute of some second.
pub open spec fn is_clock_text(text: Seq<char>) -> bool {
    exists|seconds: int| text == #[trigger] hour_minute(seconds)
}

/// Whether `chrono` has a date for the moment `seconds` after the Unix
/// epoch: whether the moment lies in the range of its calendar.
pub uninterp spec fn in_calendar(seconds: i64) -> bool;

/// Calls `chrono::DateTime::from_timestamp` with no nanoseconds and, where
/// that gives a date, writes it with `format("%H:%M")` and `to_string`.
/// Whether there is a date depends on `seconds` alone, and the contract
/// names it. Where there is one, the text is the hour of the day and the
/// minute of the hour, in two digits each. There is a date for every
/// moment from the epoch to the end of the year 9999: the dates of
/// `chrono` reach to the year 262142.
#[verifier::external_body]
fn clock_text_of(seconds: i64) -> (text: Option<String>)
    ensures
        text is Some <==> in_calendar(seconds),
        text matches Some(t) ==> t@ == hour_minute(seconds as int),
        0 <= seconds <= LAST_SECOND_OF_9999 ==> text is Some,
{
    match chrono::DateTime::from_timestamp(seconds, 0) {
        Some(date) => Some(date.format("%H:%M").to_string()),
        None => None,
    }
}

/// Calls `chrono::Utc::now` and writes the time of day with
/// `format("%H:%M")` and `to_string`. Which time it is depends on the
/// machine; the text is the hour and minute of some second, in two digits
/// each.
#[verifier::external_body]
fn clock_text_now() -> (text: String)
    ensures
        is_clock_text(text@),
{
    chrono::Utc::now().format("%H:%M").to_string()
}

/// The time of day of a timestamp, as hours and minutes in UTC. A
/// timestamp outside the range of dates is shown as the current time.
pub fn format_timestamp(timestamp: u64) -> (text: String)
    ensures
        is_clock_text(text@),
        in_calendar(timestamp as i64) ==> text@ == hour_minute(timestamp as i64 as int),
        timestamp <= LAST_SECOND_OF_9999 ==> text@ == hour_minute(timestamp as int),
{
    match clock_text_of(timestamp as i64) {
        Some(text) => text,
        None => clock_text_now(),
    }
}

/// Whether the regular expression `pattern` matches somewhere in `text`,
/// as `regex` decides it; `None` for a pattern that it does not compile.
pub uninterp spec fn pattern_found(pattern: Seq<char>, text: Seq<char>) -> Option<bool>;

/// Calls `regex::Regex::new` on the pattern and, where it compiles,
/// `Regex::is_match` on the text. The result depends on the two strings
/// alone; the contract names it.
#[verifier::external_body]
fn find_pattern(pattern: &str, text: &str) -> (found: Option<bool>)
    ensures
        found == pattern_found(pattern@, text@),
{
    match regex::Regex::new(pattern) {
        Ok(re) => Some(re.is_match(text)),
        Err(_) => None,
    }
}

/// The pattern that the names of mobile platforms match, in any case.
pub open spec fn mobile_pattern() -> Seq<char> {
    "(?i)(android|webos|iphone|ipad|ipod|blackberry|iemobile|opera mini)"@
}

/// Whether a search for the names of mobile platforms has found one: a
/// search that could not be made has found none.
pub fn mobile_of(found: Option<bool>) -> (mobile: bool)
    ensures
        mobile == (found == Some(true)),
{
    match found {
        Some(found) => found,
        None => false,
    }
}

/// Whether a browser's user agent names a mobile platform: whether the
/// pattern of their names compiles and matches it.
pub fn is_mobile_device(user_agent: &str) -> (mobile: bool)
    ensures
        mobile == (pattern_found(mobile_pattern(), user_agent@) == Some(true)),
{
    mobile_of(
        find_pattern("(?i)(android|webos|iphone|ipad|ipod|blackberry|iemobile|opera mini)", user_agent),
    )
}

} // verus!
