//! Next fire times of cron expressions.
//!
//! The calendar arithmetic is done by the `cron_parser` crate. Its answers are
//! named here, and every answer is checked before it is accepted: an accepted
//! fire time lies strictly after its anchor and is on the schedule.

use vstd::prelude::*;

verus! {

/// Why no next fire time could be computed.
#[derive(Clone, Copy, Debug, PartialEq, Eq, Structural)]
pub enum ScheduleError {
    /// The expression is malformed, or it has no acceptable occurrence after
    /// the anchor.
    InvalidSchedule,
}

/// The first occurrence of `expr`, in seconds since the epoch, that
/// `cron_parser::parse` reports for the instant `anchor` seconds after the
/// epoch. `None` where it reports an error or where the instant is outside the
/// range of `chrono::DateTime`.
pub uninterp spec fn cron_next(expr: Seq<char>, anchor: i64) -> Option<i64>;

/// Whether `cron_parser::Schedule::includes` holds of `expr` and the instant
/// `at` seconds after the epoch. `false` where `expr` does not parse or the
/// instant is outside the range of `chrono::DateTime`.
pub uninterp spec fn cron_includes(expr: Seq<char>, at: i64) -> bool;

/// Calls `cron_parser::parse` on `expr` and the UTC instant `anchor` seconds
/// after the epoch, and gives the occurrence it returns as seconds since the
/// epoch. The contract only names that result.
#[verifier::external_body]
fn first_occurrence_after(expr: &str, anchor: i64) -> (r: Option<i64>)
    ensures
        r == cron_next(expr@, anchor),
{
    match chrono::DateTime::from_timestamp(anchor, 0) {
        Some(after) => match cron_parser::parse(expr, &after) {
            Ok(next) => Some(next.timestamp()),
            Err(_) => None,
        },
        None => None,
    }
}

/// Calls `cron_parser::Schedule::parse` on `expr` and then
/// `cron_parser::Schedule::includes` on the UTC instant `at` seconds after the
/// epoch. The contract only names that result.
#[verifier::external_body]
fn schedule_includes(expr: &str, at: i64) -> (r: bool)
    ensures
        r == cron_includes(expr@, at),
{
    match (cron_parser::Schedule::parse(expr), chrono::DateTime::from_timestamp(at, 0)) {
        (Ok(schedule), Some(instant)) => schedule.includes(&instant),
        _ => false,
    }
}

/// The next fire time of `expr` after `anchor`: the occurrence that the cron
/// crate reports, provided it lies strictly after `anchor` and is on the
/// schedule.
pub open spec fn next_trigger(expr: Seq<char>, anchor: i64) -> Option<i64> {
    accepted(anchor, cron_next(expr, anchor), match cron_next(expr, anchor) {
        Some(t) => cron_includes(expr, t),
        None => false,
    })
}

/// What is accepted of a reported occurrence `candidate`, given whether it is
/// on the schedule.
pub open spec fn accepted(anchor: i64, candidate: Option<i64>, on_schedule: bool) -> Option<i64> {
    match candidate {
        Some(t) => if t > anchor && on_schedule {
            Some(t)
        } else {
            None
        },
        None => None,
    }
}

/// Decides whether a reported occurrence is accepted as the next fire time.
pub fn accept_occurrence(anchor: i64, candidate: Option<i64>, on_schedule: bool) -> (r: Result<
    i64,
    ScheduleError,
>)
    ensures
        r == (match accepted(anchor, candidate, on_schedule) {
            Some(t) => Ok::<i64, ScheduleError>(t),
            None => Err::<i64, ScheduleError>(ScheduleError::InvalidSchedule),
        }),
{
    match candidate {
        Some(t) => {
            if t > anchor && on_schedule {
                Ok(t)
            } else {
                Err(ScheduleError::InvalidSchedule)
            }
        },
        None => Err(ScheduleError::InvalidSchedule),
    }
}

/// Whether the instant `at` is a fire time of the five-field cron expression
/// `expr`. `false` where `expr` is malformed.
pub fn is_fire_time(expr: &str, at: i64) -> (r: bool)
    ensures
        r == cron_includes(expr@, at),
{
    schedule_includes(expr, at)
}

/// Computes the next fire time of the five-field cron expression `expr`
/// strictly after `anchor`.
pub fn compute_next_trigger(expr: &str, anchor: i64) -> (r: Result<i64, ScheduleError>)
    ensures
        r == (match next_trigger(expr@, anchor) {
            Some(t) => Ok::<i64, ScheduleError>(t),
            None => Err::<i64, ScheduleError>(ScheduleError::InvalidSchedule),
        }),
        r matches Ok(t) ==> t > anchor && cron_includes(expr@, t),
{
    let candidate = first_occurrence_after(expr, anchor);
    let on_schedule = match candidate {
        Some(t) => schedule_includes(expr, t),
        None => false,
    };
    accept_occurrence(anchor, candidate, on_schedule)
}

} // verus!
