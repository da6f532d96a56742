use backend::schedule::{accept_occurrence, compute_next_trigger, is_fire_time, ScheduleError};

const NEW_YEAR_2024: i64 = 1_704_067_200;

#[test]
fn every_minute_fires_at_the_next_minute() {
    assert_eq!(compute_next_trigger("* * * * *", NEW_YEAR_2024), Ok(NEW_YEAR_2024 + 60));
}

#[test]
fn next_trigger_is_strictly_after_an_anchor_on_the_schedule() {
    // The anchor is itself a fire time: the next one is a minute later.
    assert!(is_fire_time("* * * * *", NEW_YEAR_2024));
    assert_eq!(compute_next_trigger("* * * * *", NEW_YEAR_2024), Ok(NEW_YEAR_2024 + 60));
    assert_eq!(compute_next_trigger("* * * * *", NEW_YEAR_2024 + 60), Ok(NEW_YEAR_2024 + 120));
}

#[test]
fn next_trigger_from_the_middle_of_a_minute() {
    assert_eq!(compute_next_trigger("* * * * *", NEW_YEAR_2024 + 90), Ok(NEW_YEAR_2024 + 120));
    assert_eq!(compute_next_trigger("* * * * *", NEW_YEAR_2024 + 59), Ok(NEW_YEAR_2024 + 60));
}

#[test]
fn every_five_minutes() {
    assert_eq!(compute_next_trigger("*/5 * * * *", NEW_YEAR_2024 + 60), Ok(NEW_YEAR_2024 + 300));
    assert_eq!(compute_next_trigger("*/5 * * * *", NEW_YEAR_2024 + 300), Ok(NEW_YEAR_2024 + 600));
}

#[test]
fn daily_at_half_past_nine() {
    let half_past_nine = NEW_YEAR_2024 + 9 * 3600 + 30 * 60;
    assert_eq!(compute_next_trigger("30 9 * * *", NEW_YEAR_2024), Ok(half_past_nine));
    assert_eq!(compute_next_trigger("30 9 * * *", half_past_nine), Ok(half_past_nine + 86_400));
}

#[test]
fn yearly_schedule_crosses_the_leap_year() {
    // 2024 has 366 days.
    assert_eq!(compute_next_trigger("0 0 1 1 *", NEW_YEAR_2024), Ok(NEW_YEAR_2024 + 366 * 86_400));
}

#[test]
fn next_trigger_is_on_the_schedule() {
    let anchors = [NEW_YEAR_2024, NEW_YEAR_2024 + 1, NEW_YEAR_2024 + 3_599, 0, -1];
    let schedules = ["* * * * *", "*/15 * * * *", "0 12 * * 1", "5 4 1 * *"];
    for schedule in schedules {
        for anchor in anchors {
            let next = compute_next_trigger(schedule, anchor).unwrap();
            assert!(next > anchor);
            assert!(is_fire_time(schedule, next));
        }
    }
}

#[test]
fn fire_times_are_whole_minutes_on_the_schedule() {
    assert!(is_fire_time("*/5 * * * *", NEW_YEAR_2024 + 300));
    assert!(!is_fire_time("*/5 * * * *", NEW_YEAR_2024 + 60));
    assert!(!is_fire_time("* * * * *", NEW_YEAR_2024 + 1));
    assert!(!is_fire_time("not a schedule", NEW_YEAR_2024));
    assert!(!is_fire_time("* * * * *", i64::MAX));
}

#[test]
fn malformed_expressions_are_invalid() {
    for expr in ["", "invalid", "* * * *", "* * * * * *", "60 * * * *", "* 24 * * *", "a b c d e"] {
        assert_eq!(compute_next_trigger(expr, NEW_YEAR_2024), Err(ScheduleError::InvalidSchedule));
    }
}

#[test]
fn schedule_that_never_occurs_is_invalid() {
    assert_eq!(
        compute_next_trigger("0 0 31 2 *", NEW_YEAR_2024),
        Err(ScheduleError::InvalidSchedule)
    );
}

#[test]
fn anchor_beyond_the_calendar_is_invalid() {
    assert_eq!(compute_next_trigger("* * * * *", i64::MAX), Err(ScheduleError::InvalidSchedule));
    assert_eq!(compute_next_trigger("* * * * *", i64::MIN), Err(ScheduleError::InvalidSchedule));
}

#[test]
fn surrounding_whitespace_is_ignored() {
    assert_eq!(compute_next_trigger("  * * * * * ", NEW_YEAR_2024), Ok(NEW_YEAR_2024 + 60));
}

#[test]
fn occurrence_after_anchor_on_schedule_is_accepted() {
    assert_eq!(accept_occurrence(10, Some(20), true), Ok(20));
    assert_eq!(accept_occurrence(-5, Some(-4), true), Ok(-4));
}

#[test]
fn occurrence_not_after_anchor_is_rejected() {
    assert_eq!(accept_occurrence(10, Some(10), true), Err(ScheduleError::InvalidSchedule));
    assert_eq!(accept_occurrence(10, Some(9), true), Err(ScheduleError::InvalidSchedule));
}

#[test]
fn occurrence_off_schedule_is_rejected() {
    assert_eq!(accept_occurrence(10, Some(20), false), Err(ScheduleError::InvalidSchedule));
}

#[test]
fn missing_occurrence_is_rejected() {
    assert_eq!(accept_occurrence(10, None, false), Err(ScheduleError::InvalidSchedule));
    assert_eq!(accept_occurrence(10, None, true), Err(ScheduleError::InvalidSchedule));
}
