//! Wall-clock readings, rendered in the fixed formats the assistant shows.
//!
//! The readings come from the `chrono` crate; everything downstream of them is
//! verified against the shape stated here, for every value the clock may give.
use vstd::prelude::*;

verus! {

/// A snapshot of the wall clock, each field already rendered for display.
pub struct ClockStamp {
    /// `HH:MM:SS`
    pub time: String,
    /// `DD.MM.YYYY`
    pub date: String,
    /// `DD.MM.YYYY HH:MM:SS`
    pub datetime: String,
}

/// The shape every clock snapshot has: the renderings are never empty and the
/// time is always exactly eight characters.
pub open spec fn stamp_ok(s: ClockStamp) -> bool {
    &&& s.time@.len() == 8
    &&& s.date@.len() >= 10
    &&& s.datetime@.len() >= 19
}

/// Relies on `chrono::Local::now` and `DateTime::format` with `"%H:%M:%S"`:
/// hour, minute and second are each zero-padded to two digits, so the
/// rendering is exactly eight characters. The value depends on the clock.
#[verifier::external_body]
fn now_time_raw() -> (r: String)
    ensures
        r@.len() == 8,
{
    chrono::Local::now().format("%H:%M:%S").to_string()
}

/// Relies on `chrono::Local::now` and `DateTime::format` with `"%d.%m.%Y"`:
/// day and month are zero-padded to two digits and the year to at least four,
/// so the rendering has at least ten characters. The value depends on the clock.
#[verifier::external_body]
fn now_date_raw() -> (r: String)
    ensures
        r@.len() >= 10,
{
    chrono::Local::now().format("%d.%m.%Y").to_string()
}

/// Relies on `chrono::Local::now` and `DateTime::format` with
/// `"%d.%m.%Y %H:%M:%S"`: the date part has at least ten characters, the time
/// part exactly eight, joined by a space. The value depends on the clock.
#[verifier::external_body]
fn now_datetime_raw() -> (r: String)
    ensures
        r@.len() >= 19,
{
    chrono::Local::now().format("%d.%m.%Y %H:%M:%S").to_string()
}

/// Reads the wall clock once and returns all three renderings.
pub fn now_stamp() -> (s: ClockStamp)
    ensures
        stamp_ok(s),
{
    ClockStamp { time: now_time_raw(), date: now_date_raw(), datetime: now_datetime_raw() }
}

} // verus!
