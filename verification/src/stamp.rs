use vstd::prelude::*;

verus! {

/// A reading of the wall clock.
#[derive(Clone, Copy, Debug)]
pub struct Moment {
    /// Whole seconds since the Unix epoch.
    pub seconds: u64,
    /// Microseconds since the Unix epoch.
    pub micros: i64,
}

/// Calls `uuid::Uuid::new_v4` and writes the identifier with `to_string`.
/// The identifier is random: nothing is claimed of it.
#[verifier::external_body]
pub(crate) fn fresh_id() -> (id: String) {
    uuid::Uuid::new_v4().to_string()
}

/// Calls `chrono::Utc::now` and reads the time with `timestamp`, the
/// seconds since the Unix epoch. The result is the machine's time: nothing
/// is claimed of it. `now` does not return on a machine whose clock stands
/// before the epoch.
#[verifier::external_body]
pub(crate) fn utc_seconds() -> (seconds: i64) {
    chrono::Utc::now().timestamp()
}

/// Calls `chrono::Utc::now` and reads the time with `timestamp_micros`, the
/// microseconds since the Unix epoch. The result is the machine's time:
/// nothing is claimed of it. `now` does not return on a machine whose clock
/// stands before the epoch.
#[verifier::external_body]
pub(crate) fn utc_micros() -> (micros: i64) {
    chrono::Utc::now().timestamp_micros()
}

/// The reading that belongs to a clock's two answers: the seconds are
/// taken as an unsigned number, the microseconds as they are.
pub fn moment_of(seconds: i64, micros: i64) -> (now: Moment)
    ensures
        now.seconds == seconds as u64,
        now.micros == micros,
{
    Moment { seconds: seconds as u64, micros }
}

/// Reads the wall clock.
pub fn read_clock() -> (now: Moment) {
    let seconds = utc_seconds();
    let micros = utc_micros();
    moment_of(seconds, micros)
}

} // verus!
