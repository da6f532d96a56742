//! Recurring alerts: creating them, finding those that are due, and moving a
//! fired alert on to its next fire time.

use crate::db::Database;
use crate::error::AlertError;
use crate::laws::lemma_poll_leaves_none_due;
use crate::model::{
    active_crons, active_crons_for_chat, crons_wf, deactivate, deactivated, delete, due_crons,
    fired, first_match, has_cron, is_due, lemma_filter_ascending, lemma_first_match_skip,
    mark_fired, new_cron, StoreView,
};
use crate::registry::{resolve, AssetCatalog};
use crate::rows::{cron_views, CronAlert, CronRow};
use crate::schedule::{compute_next_trigger, next_trigger};
use vstd::prelude::*;

verus! {

/// The current mid price of one asset, as the feed reports it.
#[derive(Debug)]
pub struct MidPrice {
    pub token: String,
    /// In ticks.
    pub price: u64,
}

/// The view of a mid price.
pub struct MidPriceView {
    pub token: Seq<char>,
    pub price: u64,
}

impl View for MidPrice {
    type V = MidPriceView;

    open spec fn view(&self) -> MidPriceView {
        MidPriceView { token: self.token@, price: self.price }
    }
}

/// The views of a sequence of mid prices.
pub open spec fn mid_views(mids: Seq<MidPrice>) -> Seq<MidPriceView> {
    mids.map_values(|m: MidPrice| m@)
}

/// The price that `mids` holds for `token`: that of its first entry for it.
pub open spec fn price_of(mids: Seq<MidPriceView>, token: Seq<char>) -> Option<u64> {
    match first_match(mids, |m: MidPriceView| m.token == token) {
        Some(m) => Some(m.price),
        None => None,
    }
}

/// What a poll did with one alert that was due.
#[derive(Debug)]
pub struct CronFiring {
    /// The alert as it was when it came due.
    pub alert: CronAlert,
    /// Its next fire time, or `SchedulingFault` where its schedule yields
    /// none and it was deactivated.
    pub outcome: Result<i64, AlertError>,
}

/// What rescheduling at `now` gives for the schedule `expr`.
pub open spec fn rescheduled(expr: Seq<char>, now: i64) -> Result<i64, AlertError> {
    match next_trigger(expr, now) {
        Some(next) => Ok(next),
        None => Err(AlertError::SchedulingFault),
    }
}

/// `r` after it fired at `now`: moved on to the next fire time of its
/// schedule, or deactivated where the schedule yields none.
pub open spec fn advanced(r: CronRow, now: i64) -> CronRow {
    match next_trigger(r.cron_schedule, now) {
        Some(next) => fired(r, next, now),
        None => deactivated(r, now),
    }
}

/// The table after a poll at `now`: every alert that was due has fired and
/// moved on, the others are as they were.
pub open spec fn poll(rows: Seq<CronRow>, now: i64) -> Seq<CronRow> {
    rows.map_values(
        |r: CronRow|
            if is_due(r, now) {
                advanced(r, now)
            } else {
                r
            },
    )
}

/// The table after the alerts whose identifiers are among `ids` have fired at
/// `now`.
spec fn advance_ids(rows: Seq<CronRow>, ids: Seq<i64>, now: i64) -> Seq<CronRow> {
    rows.map_values(
        |r: CronRow|
            if ids.contains(r.id) {
                advanced(r, now)
            } else {
                r
            },
    )
}

/// The identifiers of the alerts, in order.
spec fn cron_ids(rows: Seq<CronRow>) -> Seq<i64> {
    rows.map_values(|r: CronRow| r.id)
}

/// Each due alert is one row of the table, and the only one with its
/// identifier; the due alerts have distinct identifiers.
proof fn lemma_due_rows(rows: Seq<CronRow>, next_id: i64, now: i64, j: int) -> (k: int)
    requires
        crons_wf(rows, next_id),
        0 <= j < due_crons(rows, now).len(),
    ensures
        0 <= k < rows.len(),
        rows[k] == due_crons(rows, now)[j],
        is_due(rows[k], now),
        forall|i: int| 0 <= i < rows.len() && (#[trigger] rows[i]).id == rows[k].id ==> i == k,
        forall|i: int|
            0 <= i < due_crons(rows, now).len() && (#[trigger] due_crons(rows, now)[i]).id
                == rows[k].id ==> i == j,
{
    let due_now = |r: CronRow| is_due(r, now);
    let due = rows.filter(due_now);
    assert(due.contains(due[j]));
    rows.lemma_filter_contains_rev(due_now, due[j]);
    rows.lemma_filter_pred(due_now, j);
    let k = choose|k: int| 0 <= k < rows.len() && rows[k] == due[j];
    assert forall|i: int| 0 <= i < rows.len() && (#[trigger] rows[i]).id == rows[k].id implies i
        == k by {
        if i < k {
            assert(rows[i].id < rows[k].id);
        }
        if k < i {
            assert(rows[k].id < rows[i].id);
        }
    }
    lemma_filter_ascending(rows, due_now, |r: CronRow| r.id);
    assert forall|i: int| 0 <= i < due.len() && (#[trigger] due[i]).id == rows[k].id implies i
        == j by {
        if i < j {
            assert(due[i].id < due[j].id);
        }
        if j < i {
            assert(due[j].id < due[i].id);
        }
    }
    k
}

/// Firing one more due alert, the next after the first `j`.
proof fn lemma_advance_next(rows: Seq<CronRow>, next_id: i64, now: i64, j: int)
    requires
        crons_wf(rows, next_id),
        0 <= j < due_crons(rows, now).len(),
    ensures
        ({
            let due = due_crons(rows, now);
            let ids = cron_ids(due);
            let before = advance_ids(rows, ids.take(j), now);
            let after = advance_ids(rows, ids.take(j + 1), now);
            &&& has_cron(before, due[j].id)
            &&& match next_trigger(due[j].cron_schedule, now) {
                Some(next) => mark_fired(before, due[j].id, next, now) == after,
                None => deactivate(before, due[j].id, now) == after,
            }
        }),
{
    let due = due_crons(rows, now);
    let ids = cron_ids(due);
    let shorter = ids.take(j);
    let longer = ids.take(j + 1);
    let before = advance_ids(rows, shorter, now);
    let after = advance_ids(rows, longer, now);
    let id = due[j].id;
    let k = lemma_due_rows(rows, next_id, now, j);
    assert(longer =~= shorter.push(id));
    assert(!shorter.contains(id)) by {
        if shorter.contains(id) {
            let i = choose|i: int| 0 <= i < shorter.len() && shorter[i] == id;
            assert(due[i].id == id);
        }
    }
    assert(before[k] == rows[k]);
    assert(before[k].id == id);
    let step = match next_trigger(due[j].cron_schedule, now) {
        Some(next) => mark_fired(before, id, next, now),
        None => deactivate(before, id, now),
    };
    assert forall|i: int| 0 <= i < rows.len() implies #[trigger] step[i] == after[i] by {
        let other = rows[i].id;
        if i == k {
            assert(longer[j] == id);
        } else if shorter.contains(other) {
            let m = choose|m: int| 0 <= m < shorter.len() && shorter[m] == other;
            assert(longer[m] == other);
            assert(before[i].id == other);
        } else if longer.contains(other) {
            let m = choose|m: int| 0 <= m < longer.len() && longer[m] == other;
            assert(shorter[m] == other);
        }
    }
    assert(step =~= after);
}

/// Firing the due alerts, by their identifiers, fires those alerts and no
/// other.
proof fn lemma_advance_all(rows: Seq<CronRow>, next_id: i64, now: i64)
    requires
        crons_wf(rows, next_id),
    ensures
        advance_ids(rows, cron_ids(due_crons(rows, now)), now) == poll(rows, now),
{
    let due_now = |r: CronRow| is_due(r, now);
    let due = due_crons(rows, now);
    let ids = cron_ids(due);
    let by_id = advance_ids(rows, ids, now);
    let by_rule = poll(rows, now);
    assert forall|i: int| 0 <= i < rows.len() implies #[trigger] by_id[i] == by_rule[i] by {
        if is_due(rows[i], now) {
            rows.lemma_filter_contains(due_now, i);
            let j = choose|j: int| 0 <= j < due.len() && due[j] == rows[i];
            assert(ids[j] == rows[i].id);
        }
        if ids.contains(rows[i].id) {
            let j = choose|j: int| 0 <= j < ids.len() && ids[j] == rows[i].id;
            let k = lemma_due_rows(rows, next_id, now, j);
        }
    }
    assert(by_id =~= by_rule);
}

/// The rules for cron alerts.
#[derive(Clone, Copy, Debug)]
pub struct CronService {}

impl CronService {
    /// The rules for cron alerts; there is nothing to configure.
    pub fn new() -> (service: Self) {
        CronService {  }
    }

    /// Creates a cron alert for the symbol `coin` on the schedule
    /// `cron_schedule`, due first at the next fire time after `now`. The
    /// symbol is resolved and the schedule is checked before anything is
    /// stored: the request fails with `UnknownAsset` where the symbol resolves
    /// to no asset, else with `InvalidSchedule` where the schedule has no next
    /// fire time, and then nothing is stored.
    pub fn create_cron_alert(
        &self,
        db: &mut Database,
        catalog: &AssetCatalog,
        chat_id: i64,
        coin: &str,
        cron_schedule: &str,
        now: i64,
    ) -> (r: Result<CronAlert, AlertError>)
        requires
            old(db).wf(),
        ensures
            final(db).wf(),
            match resolve(catalog@, coin@) {
                None => r matches Err(e) && e == AlertError::UnknownAsset,
                Some(token) => match next_trigger(cron_schedule@, now) {
                    None => r matches Err(e) && e == AlertError::InvalidSchedule,
                    Some(first) => if old(db)@.next_cron_id == i64::MAX {
                        r matches Err(e) && e == AlertError::StorageUnavailable
                    } else {
                        r matches Ok(alert) && alert@ == new_cron(
                            old(db)@.next_cron_id,
                            chat_id,
                            coin@,
                            token,
                            cron_schedule@,
                            first,
                            now,
                        )
                    },
                },
            },
            match r {
                Ok(alert) => final(db)@ == (StoreView {
                    cron_alerts: old(db)@.cron_alerts.push(alert@),
                    next_cron_id: (old(db)@.next_cron_id + 1) as i64,
                    ..old(db)@
                }),
                Err(_) => final(db)@ == old(db)@,
            },
    {
        let token = match catalog.resolve_token(coin) {
            Ok(token) => token,
            Err(e) => {
                return Err(e);
            },
        };
        let first = match compute_next_trigger(cron_schedule, now) {
            Ok(first) => first,
            Err(e) => {
                return Err(AlertError::from_schedule(e));
            },
        };
        match db.insert_cron_alert(chat_id, coin, token.as_str(), cron_schedule, first, now) {
            Ok(alert) => Ok(alert),
            Err(e) => Err(AlertError::from_store(e)),
        }
    }

    /// The active cron alerts, in store order.
    pub fn get_all_cron_alerts(&self, db: &Database) -> (res: Vec<CronAlert>)
        ensures
            cron_views(res@) == active_crons(db@.cron_alerts),
    {
        db.get_all_cron_alerts()
    }

    /// The active cron alerts of one chat, in store order.
    pub fn get_cron_alerts_for_chat(&self, db: &Database, chat_id: i64) -> (res: Vec<CronAlert>)
        ensures
            cron_views(res@) == active_crons_for_chat(db@.cron_alerts, chat_id),
    {
        db.get_cron_alerts_for_chat(chat_id)
    }

    /// Deactivates the alert `alert_id` at `now`. Fails with `NotFound`,
    /// leaving the store as it was, when there is no such alert.
    pub fn deactivate_cron_alert(&self, db: &mut Database, alert_id: i64, now: i64) -> (r: Result<
        (),
        AlertError,
    >)
        requires
            old(db).wf(),
        ensures
            final(db).wf(),
            final(db)@ == (StoreView {
                cron_alerts: deactivate(old(db)@.cron_alerts, alert_id, now),
                ..old(db)@
            }),
            r is Ok <==> has_cron(old(db)@.cron_alerts, alert_id),
            r matches Err(e) ==> e == AlertError::NotFound && final(db)@ == old(db)@,
    {
        match db.deactivate_cron_alert(alert_id, now) {
            Ok(()) => Ok(()),
            Err(e) => Err(AlertError::from_store(e)),
        }
    }

    /// Removes the alert `alert_id`. Fails with `NotFound`, leaving the store
    /// as it was, when there is no such alert.
    pub fn delete_cron_alert(&self, db: &mut Database, alert_id: i64) -> (r: Result<
        (),
        AlertError,
    >)
        requires
            old(db).wf(),
        ensures
            final(db).wf(),
            final(db)@ == (StoreView {
                cron_alerts: delete(old(db)@.cron_alerts, alert_id),
                ..old(db)@
            }),
            !has_cron(final(db)@.cron_alerts, alert_id),
            r is Ok <==> has_cron(old(db)@.cron_alerts, alert_id),
            r matches Err(e) ==> e == AlertError::NotFound && final(db)@ == old(db)@,
    {
        match db.delete_cron_alert(alert_id) {
            Ok(()) => Ok(()),
            Err(e) => Err(AlertError::from_store(e)),
        }
    }

    /// The active cron alerts that are due at `now`, in store order.
    pub fn get_triggered_cron_alerts(&self, db: &Database, now: i64) -> (res: Vec<CronAlert>)
        ensures
            cron_views(res@) == due_crons(db@.cron_alerts, now),
    {
        db.get_next_trigger_cron_alerts(now)
    }

    /// Records that the alert `alert_id` fired at `now` and is due next at
    /// `next_trigger`. Fails with `NotFound`, leaving the store as it was,
    /// when there is no such alert.
    pub fn mark_cron_alert_triggered(
        &self,
        db: &mut Database,
        alert_id: i64,
        next_trigger: i64,
        now: i64,
    ) -> (r: Result<(), AlertError>)
        requires
            old(db).wf(),
        ensures
            final(db).wf(),
            final(db)@ == (StoreView {
                cron_alerts: mark_fired(old(db)@.cron_alerts, alert_id, next_trigger, now),
                ..old(db)@
            }),
            r is Ok <==> has_cron(old(db)@.cron_alerts, alert_id),
            r matches Err(e) ==> e == AlertError::NotFound && final(db)@ == old(db)@,
    {
        match db.update_cron_alert_last_triggered(alert_id, next_trigger, now) {
            Ok(()) => Ok(()),
            Err(e) => Err(AlertError::from_store(e)),
        }
    }

    /// The current price of `token` among `mids`. Fails with
    /// `PriceUnavailable` when `mids` has no entry for it.
    pub fn get_price(&self, mids: &Vec<MidPrice>, token: &str) -> (r: Result<u64, AlertError>)
        ensures
            r == (match price_of(mid_views(mids@), token@) {
                Some(price) => Ok::<u64, AlertError>(price),
                None => Err::<u64, AlertError>(AlertError::PriceUnavailable),
            }),
    {
        let wanted = token.to_owned();
        let ghost views = mid_views(mids@);
        let ghost quoted = |m: MidPriceView| m.token == token@;
        let mut i: usize = 0;
        while i < mids.len()
            invariant
                i <= mids@.len(),
                views == mid_views(mids@),
                wanted@ == token@,
                quoted == |m: MidPriceView| m.token == token@,
                forall|k: int| 0 <= k < i ==> !quoted(#[trigger] views[k]),
            decreases mids@.len() - i,
        {
            proof {
                lemma_first_match_skip(views, quoted, i as int);
                assert(views.skip(i as int).first() == mids@[i as int]@);
            }
            if mids[i].token == wanted {
                return Ok(mids[i].price);
            }
            i += 1;
        }
        proof {
            lemma_first_match_skip(views, quoted, i as int);
        }
        Err(AlertError::PriceUnavailable)
    }

    /// Moves the alert on after it fired at `now`: computes the next fire time
    /// of its schedule after `now` and records it with the firing. Where the
    /// schedule yields no next fire time, the alert is deactivated and the
    /// result is `SchedulingFault`. Where the schedule is sound and the store
    /// no longer holds the alert, the result is `NotFound` and nothing is
    /// changed.
    pub fn reschedule(&self, db: &mut Database, alert: &CronAlert, now: i64) -> (r: Result<
        i64,
        AlertError,
    >)
        requires
            old(db).wf(),
        ensures
            final(db).wf(),
            match next_trigger(alert@.cron_schedule, now) {
                Some(next) => {
                    &&& final(db)@ == (StoreView {
                        cron_alerts: mark_fired(old(db)@.cron_alerts, alert.id, next, now),
                        ..old(db)@
                    })
                    &&& r == if has_cron(old(db)@.cron_alerts, alert.id) {
                        Ok::<i64, AlertError>(next)
                    } else {
                        Err::<i64, AlertError>(AlertError::NotFound)
                    }
                },
                None => {
                    &&& final(db)@ == (StoreView {
                        cron_alerts: deactivate(old(db)@.cron_alerts, alert.id, now),
                        ..old(db)@
                    })
                    &&& r == Err::<i64, AlertError>(AlertError::SchedulingFault)
                },
            },
            r matches Ok(next) ==> next > now,
            r matches Ok(next) ==> (alert.next_trigger matches Some(previous) ==> previous
                <= now ==> next > previous),
    {
        match compute_next_trigger(alert.cron_schedule.as_str(), now) {
            Ok(next) => match db.update_cron_alert_last_triggered(alert.id, next, now) {
                Ok(()) => Ok(next),
                Err(e) => Err(AlertError::from_store(e)),
            },
            Err(_) => {
                let _ = db.deactivate_cron_alert(alert.id, now);
                Err(AlertError::SchedulingFault)
            },
        }
    }

    /// Polls at `now`: gives the alerts that are due, to be notified, and
    /// moves each of them on. An alert whose schedule yields no next fire time
    /// is deactivated and reported as a `SchedulingFault`; the others go on
    /// all the same. After the poll no alert is due at `now`.
    pub fn fire_due(&self, db: &mut Database, now: i64) -> (firings: Vec<CronFiring>)
        requires
            old(db).wf(),
        ensures
            final(db).wf(),
            final(db)@ == (StoreView { cron_alerts: poll(old(db)@.cron_alerts, now), ..old(db)@ }),
            firings@.len() == due_crons(old(db)@.cron_alerts, now).len(),
            forall|j: int|
                0 <= j < firings@.len() ==> {
                    &&& (#[trigger] firings@[j]).alert@ == due_crons(old(db)@.cron_alerts, now)[j]
                    &&& firings@[j].outcome == rescheduled(firings@[j].alert@.cron_schedule, now)
                },
            due_crons(final(db)@.cron_alerts, now).len() == 0,
    {
        let due = db.get_next_trigger_cron_alerts(now);
        let ghost rows = db@.cron_alerts;
        let ghost ids = cron_ids(cron_views(due@));
        let mut firings: Vec<CronFiring> = Vec::new();
        let mut j: usize = 0;
        assert(advance_ids(rows, ids.take(0), now) =~= rows);
        while j < due.len()
            invariant
                j <= due@.len(),
                db.wf(),
                old(db).wf(),
                rows == old(db)@.cron_alerts,
                cron_views(due@) == due_crons(rows, now),
                ids == cron_ids(cron_views(due@)),
                db@ == (StoreView {
                    cron_alerts: advance_ids(rows, ids.take(j as int), now),
                    ..old(db)@
                }),
                firings@.len() == j,
                forall|i: int|
                    0 <= i < j ==> {
                        &&& (#[trigger] firings@[i]).alert@ == due_crons(rows, now)[i]
                        &&& firings@[i].outcome == rescheduled(
                            firings@[i].alert@.cron_schedule,
                            now,
                        )
                    },
            decreases due@.len() - j,
        {
            let alert = due[j].clone();
            proof {
                assert(cron_views(due@)[j as int] == alert@);
                lemma_advance_next(rows, old(db)@.next_cron_id, now, j as int);
            }
            let outcome = self.reschedule(db, &alert, now);
            firings.push(CronFiring { alert, outcome });
            j += 1;
        }
        proof {
            assert(ids.take(j as int) =~= ids);
            lemma_advance_all(rows, old(db)@.next_cron_id, now);
            lemma_poll_leaves_none_due(rows, now);
        }
        firings
    }
}

} // verus!
