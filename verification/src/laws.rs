//! What holds of the engine whatever its inputs: the laws that the rules of
//! the store, of the price band and of the scheduler obey together.

use crate::alerts::evaluate;
use crate::band::in_band;
use crate::cron::{advanced, poll};
use crate::model::{
    alert_ids, apply_cooldown, apply_cooldowns, cooled, deactivate, due_crons,
    expire_cooldowns, expired_count, is_due, is_expired, mark_fired, new_cron,
};
use crate::rows::{AlertRow, CronRow};
use crate::schedule::{cron_includes, next_trigger};
use vstd::prelude::*;

verus! {

// ---------------------------------------------------------------------------
// Triggering
// ---------------------------------------------------------------------------

/// A mark price triggers exactly the stored alerts that are not suppressed and
/// whose target lies in the band around it. A suppressed alert is never
/// triggered, wherever its target lies.
pub proof fn lemma_evaluate_exact(rows: Seq<AlertRow>, mark: u64, band_bps: u32, r: AlertRow)
    ensures
        evaluate(rows, mark, band_bps).contains(r) <==> rows.contains(r) && !r.alerted && in_band(
            r.price,
            mark,
            band_bps,
        ),
{
    let triggered = |r: AlertRow| !r.alerted && in_band(r.price, mark, band_bps);
    let hits = rows.filter(triggered);
    if hits.contains(r) {
        rows.lemma_filter_contains_rev(triggered, r);
        let i = choose|i: int| 0 <= i < hits.len() && hits[i] == r;
        rows.lemma_filter_pred(triggered, i);
    }
    if rows.contains(r) && triggered(r) {
        let i = choose|i: int| 0 <= i < rows.len() && rows[i] == r;
        rows.lemma_filter_contains(triggered, i);
    }
}

// ---------------------------------------------------------------------------
// Cooldown
// ---------------------------------------------------------------------------

/// Once an alert has fired it is suppressed until the end of its cooldown, and
/// no mark price triggers it.
pub proof fn lemma_fired_alert_is_suppressed(
    rows: Seq<AlertRow>,
    id: i64,
    until: i64,
    mark: u64,
    band_bps: u32,
)
    ensures
        forall|k: int|
            0 <= k < rows.len() && rows[k].id == id ==> {
                &&& (#[trigger] apply_cooldown(rows, id, until)[k]).alerted
                &&& apply_cooldown(rows, id, until)[k].cooldown_until == Some(until)
            },
        forall|r: AlertRow| #[trigger]
            evaluate(apply_cooldown(rows, id, until), mark, band_bps).contains(r) ==> r.id != id,
{
    let after = apply_cooldown(rows, id, until);
    assert forall|r: AlertRow| #[trigger]
        evaluate(after, mark, band_bps).contains(r) implies r.id != id by {
        lemma_evaluate_exact(after, mark, band_bps, r);
        let k = choose|k: int| 0 <= k < after.len() && after[k] == r;
        assert(after[k].id == rows[k].id);
    }
}

/// A sweep leaves an alert as it is while its cooldown has not ended: the
/// alert stays suppressed through every sweep up to and at the end of its
/// cooldown.
pub proof fn lemma_sweep_spares_running_cooldown(rows: Seq<AlertRow>, now: i64, k: int)
    requires
        0 <= k < rows.len(),
        rows[k].cooldown_until matches Some(until) && now <= until,
    ensures
        expire_cooldowns(rows, now)[k] == rows[k],
{
}

/// The table after one sweep at each of `times`, in order.
pub open spec fn swept(rows: Seq<AlertRow>, times: Seq<i64>) -> Seq<AlertRow>
    decreases times.len(),
{
    if times.len() == 0 {
        rows
    } else {
        expire_cooldowns(swept(rows, times.drop_last()), times.last())
    }
}

/// However many sweeps run before the cooldown of a fired alert has ended,
/// the alert stays suppressed as it was, and no mark price triggers it.
pub proof fn lemma_cooldown_outlasts_early_sweeps(
    rows: Seq<AlertRow>,
    id: i64,
    until: i64,
    times: Seq<i64>,
    mark: u64,
    band_bps: u32,
)
    requires
        forall|i: int| 0 <= i < times.len() ==> #[trigger] times[i] <= until,
    ensures
        swept(apply_cooldown(rows, id, until), times).len() == rows.len(),
        forall|k: int|
            0 <= k < rows.len() && rows[k].id == id ==> #[trigger] swept(
                apply_cooldown(rows, id, until),
                times,
            )[k] == cooled(rows[k], until),
        forall|r: AlertRow| #[trigger]
            evaluate(swept(apply_cooldown(rows, id, until), times), mark, band_bps).contains(r)
                ==> r.id != id,
    decreases times.len(),
{
    let fired = apply_cooldown(rows, id, until);
    let after = swept(fired, times);
    if times.len() > 0 {
        lemma_cooldown_outlasts_early_sweeps(rows, id, until, times.drop_last(), mark, band_bps);
        let before = swept(fired, times.drop_last());
        assert(times.last() <= until);
        assert forall|k: int| 0 <= k < rows.len() && rows[k].id == id implies #[trigger] after[k]
            == cooled(rows[k], until) by {
            lemma_sweep_spares_running_cooldown(before, times.last(), k);
        }
    }
    assert forall|r: AlertRow| #[trigger]
        evaluate(after, mark, band_bps).contains(r) implies r.id != id by {
        lemma_evaluate_exact(after, mark, band_bps, r);
        let k = choose|k: int| 0 <= k < after.len() && after[k] == r;
        lemma_swept_keeps_ids(fired, times, k);
        if rows[k].id == id {
            assert(after[k] == cooled(rows[k], until));
        }
    }
}

/// Sweeps keep every alert in its place, under its identifier and with its
/// target.
pub proof fn lemma_swept_keeps_ids(rows: Seq<AlertRow>, times: Seq<i64>, k: int)
    requires
        0 <= k < rows.len(),
    ensures
        swept(rows, times).len() == rows.len(),
        swept(rows, times)[k].id == rows[k].id,
        swept(rows, times)[k].price == rows[k].price,
    decreases times.len(),
{
    if times.len() > 0 {
        lemma_swept_keeps_ids(rows, times.drop_last(), k);
    }
}

/// A sweep that runs after the cooldown of an alert has ended clears its
/// suppression, so that it can be triggered again.
pub proof fn lemma_sweep_releases_ended_cooldown(rows: Seq<AlertRow>, now: i64, k: int)
    requires
        0 <= k < rows.len(),
        rows[k].cooldown_until matches Some(until) && until < now,
    ensures
        !expire_cooldowns(rows, now)[k].alerted,
        expire_cooldowns(rows, now)[k].cooldown_until is None,
        expire_cooldowns(rows, now)[k].price == rows[k].price,
        expire_cooldowns(rows, now)[k].id == rows[k].id,
{
}

/// A sweep changes every alert whose cooldown has ended, and no other.
pub proof fn lemma_sweep_touches_only_expired(rows: Seq<AlertRow>, now: i64, k: int)
    requires
        0 <= k < rows.len(),
        !is_expired(rows[k], now),
    ensures
        expire_cooldowns(rows, now)[k] == rows[k],
{
}

/// Sweeping is idempotent: a second sweep at the same time clears no alert
/// and changes nothing.
pub proof fn lemma_sweep_idempotent(rows: Seq<AlertRow>, now: i64)
    ensures
        expire_cooldowns(expire_cooldowns(rows, now), now) == expire_cooldowns(rows, now),
        expired_count(expire_cooldowns(rows, now), now) == 0,
{
    let once = expire_cooldowns(rows, now);
    let gone = |r: AlertRow| is_expired(r, now);
    assert(expire_cooldowns(once, now) =~= once);
    assert(once.all(|r: AlertRow| !gone(r))) by {
        assert forall|i: int| 0 <= i < once.len() implies !gone(#[trigger] once[i]) by {}
    }
    once.lemma_all_neg_filter_empty(gone);
}

/// After every alert that a mark price triggered has fired, the same mark
/// price triggers none: an alert fires at most once per cooldown window.
pub proof fn lemma_fired_matches_are_quiet(
    rows: Seq<AlertRow>,
    mark: u64,
    band_bps: u32,
    until: i64,
)
    ensures
        evaluate(
            apply_cooldowns(rows, alert_ids(evaluate(rows, mark, band_bps)), until),
            mark,
            band_bps,
        ).len() == 0,
{
    let hits = evaluate(rows, mark, band_bps);
    let ids = alert_ids(hits);
    let after = apply_cooldowns(rows, ids, until);
    let again = evaluate(after, mark, band_bps);
    if again.len() > 0 {
        let r = again[0];
        assert(again.contains(r));
        lemma_evaluate_exact(after, mark, band_bps, r);
        let k = choose|k: int| 0 <= k < after.len() && after[k] == r;
        assert(!ids.contains(rows[k].id));
        assert(after[k] == rows[k]);
        assert(rows.contains(rows[k]));
        lemma_evaluate_exact(rows, mark, band_bps, rows[k]);
        let j = choose|j: int| 0 <= j < hits.len() && hits[j] == rows[k];
        assert(ids[j] == rows[k].id);
    }
}

// ---------------------------------------------------------------------------
// Scheduling
// ---------------------------------------------------------------------------

/// A next fire time lies strictly after its anchor and is on the schedule.
pub proof fn lemma_next_trigger_sound(expr: Seq<char>, anchor: i64)
    ensures
        next_trigger(expr, anchor) matches Some(t) ==> t > anchor && cron_includes(expr, t),
{
}

/// Rescheduling a fired alert advances it: the alert was due at `now`, so its
/// new fire time, which lies after `now`, is strictly later than the one it
/// fired for. No alert fires twice for the same scheduled instant.
pub proof fn lemma_reschedule_advances(rows: Seq<CronRow>, k: int, now: i64)
    requires
        0 <= k < rows.len(),
        is_due(rows[k], now),
        next_trigger(rows[k].cron_schedule, now) is Some,
    ensures
        ({
            let next = next_trigger(rows[k].cron_schedule, now)->0;
            let after = mark_fired(rows, rows[k].id, next, now)[k];
            &&& after.next_trigger == Some(next)
            &&& after.last_triggered == Some(now)
            &&& next > rows[k].next_trigger->0
            &&& !is_due(after, now)
        }),
{
}

/// The instant from which the next fire time of an alert is counted: its last
/// firing, or its creation while it has not fired.
pub open spec fn anchor_of(r: CronRow) -> i64 {
    match r.last_triggered {
        Some(t) => t,
        None => r.created_at,
    }
}

/// Whether the next fire time of `r`, while it is active, is the one that its
/// schedule gives after its anchor.
pub open spec fn on_schedule(r: CronRow) -> bool {
    r.is_active ==> r.next_trigger is Some && r.next_trigger == next_trigger(
        r.cron_schedule,
        anchor_of(r),
    )
}

/// An alert is on schedule when it is created with the next fire time of its
/// schedule after its creation.
pub proof fn lemma_created_on_schedule(
    id: i64,
    chat_id: i64,
    coin: Seq<char>,
    token: Seq<char>,
    cron_schedule: Seq<char>,
    now: i64,
)
    requires
        next_trigger(cron_schedule, now) is Some,
    ensures
        on_schedule(
            new_cron(
                id,
                chat_id,
                coin,
                token,
                cron_schedule,
                next_trigger(cron_schedule, now)->0,
                now,
            ),
        ),
{
}

/// Rescheduling keeps every alert on schedule: the fired alert gets the next
/// fire time of its schedule after the firing, the others are untouched.
pub proof fn lemma_reschedule_keeps_schedule(rows: Seq<CronRow>, k: int, now: i64)
    requires
        0 <= k < rows.len(),
        forall|i: int| 0 <= i < rows.len() ==> on_schedule(#[trigger] rows[i]),
        forall|i: int| 0 <= i < rows.len() && (#[trigger] rows[i]).id == rows[k].id ==> i == k,
        next_trigger(rows[k].cron_schedule, now) is Some,
    ensures
        forall|i: int|
            0 <= i < rows.len() ==> on_schedule(
                #[trigger] mark_fired(
                    rows,
                    rows[k].id,
                    next_trigger(rows[k].cron_schedule, now)->0,
                    now,
                )[i],
            ),
{
    let next = next_trigger(rows[k].cron_schedule, now)->0;
    let after = mark_fired(rows, rows[k].id, next, now);
    assert forall|i: int| 0 <= i < rows.len() implies on_schedule(#[trigger] after[i]) by {
        assert(on_schedule(rows[i]));
    }
}

/// A deactivated alert stays in the store and is due at no time.
pub proof fn lemma_deactivated_is_never_due(rows: Seq<CronRow>, id: i64, now: i64, at: i64)
    ensures
        deactivate(rows, id, now).len() == rows.len(),
        forall|r: CronRow| #[trigger]
            due_crons(deactivate(rows, id, now), at).contains(r) ==> r.id != id,
{
    let after = deactivate(rows, id, now);
    let due = |r: CronRow| is_due(r, at);
    assert forall|r: CronRow| #[trigger] due_crons(after, at).contains(r) implies r.id != id by {
        let hits = after.filter(due);
        after.lemma_filter_contains_rev(due, r);
        let i = choose|i: int| 0 <= i < hits.len() && hits[i] == r;
        after.lemma_filter_pred(due, i);
        let k = choose|k: int| 0 <= k < after.len() && after[k] == r;
        assert(after[k].id == rows[k].id);
    }
}

/// Firing never brings a deactivated alert back: an alert that is not active
/// stays so.
pub proof fn lemma_firing_keeps_deactivated(
    rows: Seq<CronRow>,
    id: i64,
    next: i64,
    now: i64,
    k: int,
)
    requires
        0 <= k < rows.len(),
        !rows[k].is_active,
    ensures
        !mark_fired(rows, id, next, now)[k].is_active,
{
}

/// After a poll no alert is due at the time of the poll: each alert that was
/// due has moved on to a later fire time or is deactivated. A second poll at
/// the same time fires nothing.
pub proof fn lemma_poll_leaves_none_due(rows: Seq<CronRow>, now: i64)
    ensures
        due_crons(poll(rows, now), now).len() == 0,
        poll(poll(rows, now), now) == poll(rows, now),
{
    let after = poll(rows, now);
    let due = |r: CronRow| is_due(r, now);
    assert forall|i: int| 0 <= i < after.len() implies !due(#[trigger] after[i]) by {
        if is_due(rows[i], now) {
            assert(after[i] == advanced(rows[i], now));
        }
    }
    assert(after.all(|r: CronRow| !due(r)));
    after.lemma_all_neg_filter_empty(due);
    assert(poll(after, now) =~= after);
}

/// A poll keeps every alert on schedule.
pub proof fn lemma_poll_keeps_schedule(rows: Seq<CronRow>, now: i64)
    requires
        forall|i: int| 0 <= i < rows.len() ==> on_schedule(#[trigger] rows[i]),
    ensures
        forall|i: int| 0 <= i < rows.len() ==> on_schedule(#[trigger] poll(rows, now)[i]),
{
    assert forall|i: int| 0 <= i < rows.len() implies on_schedule(
        #[trigger] poll(rows, now)[i],
    ) by {
        assert(on_schedule(rows[i]));
    }
}

} // verus!
