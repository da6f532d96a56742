//! Price alerts: which of them a mark price triggers, and the cooldown that
//! keeps a triggered alert from firing on every tick.

use crate::band::{in_band, price_band};
use crate::config::EngineConfig;
use crate::db::Database;
use crate::error::AlertError;
use crate::laws::{lemma_evaluate_exact, lemma_fired_matches_are_quiet};
use crate::model::{
    alert_ids, alerts_for_chat, alerts_wf, apply_cooldowns, cooled, expire_cooldowns,
    expired_count, has_alert, is_open_in, lemma_apply_cooldowns_next, lemma_filter_agree,
    new_alert, StoreView,
};
use crate::registry::{resolve, AssetCatalog};
use crate::rows::{alert_views, AlertRow, AlertTable};
use vstd::prelude::*;

verus! {

/// The alerts that the mark price `mark` triggers: those that are not
/// suppressed and whose target lies in the band around `mark`.
pub open spec fn evaluate(rows: Seq<AlertRow>, mark: u64, band_bps: u32) -> Seq<AlertRow> {
    rows.filter(|r: AlertRow| !r.alerted && in_band(r.price, mark, band_bps))
}

/// The table after every alert that the mark price `mark` triggers has fired
/// and is suppressed until `until`.
pub open spec fn after_firing(rows: Seq<AlertRow>, mark: u64, band_bps: u32, until: i64) -> Seq<
    AlertRow,
> {
    rows.map_values(
        |r: AlertRow|
            if !r.alerted && in_band(r.price, mark, band_bps) {
                cooled(r, until)
            } else {
                r
            },
    )
}

/// Suppressing the alerts that a mark price triggers, by their identifiers,
/// suppresses those alerts and no other.
pub proof fn lemma_cooldowns_of_triggered(
    rows: Seq<AlertRow>,
    next_id: i64,
    mark: u64,
    band_bps: u32,
    until: i64,
)
    requires
        alerts_wf(rows, next_id),
    ensures
        apply_cooldowns(rows, alert_ids(evaluate(rows, mark, band_bps)), until) == after_firing(
            rows,
            mark,
            band_bps,
            until,
        ),
        forall|i: int|
            0 <= i < evaluate(rows, mark, band_bps).len() ==> has_alert(
                rows,
                (#[trigger] evaluate(rows, mark, band_bps)[i]).id,
            ),
{
    let hits = evaluate(rows, mark, band_bps);
    let ids = alert_ids(hits);
    let by_id = apply_cooldowns(rows, ids, until);
    let by_rule = after_firing(rows, mark, band_bps, until);
    assert forall|k: int| 0 <= k < rows.len() implies #[trigger] by_id[k] == by_rule[k] by {
        let r = rows[k];
        assert(rows.contains(r));
        lemma_evaluate_exact(rows, mark, band_bps, r);
        if hits.contains(r) {
            let j = choose|j: int| 0 <= j < hits.len() && hits[j] == r;
            assert(ids[j] == r.id);
        }
        if ids.contains(r.id) {
            let j = choose|j: int| 0 <= j < ids.len() && ids[j] == r.id;
            let hit = hits[j];
            assert(hits.contains(hit));
            lemma_evaluate_exact(rows, mark, band_bps, hit);
            let m = choose|m: int| 0 <= m < rows.len() && rows[m] == hit;
            if m < k {
                assert(rows[m].id < rows[k].id);
            }
            if k < m {
                assert(rows[k].id < rows[m].id);
            }
        }
    }
    assert(by_id =~= by_rule);
    assert forall|i: int| 0 <= i < hits.len() implies has_alert(rows, (#[trigger] hits[i]).id) by {
        assert(hits.contains(hits[i]));
        lemma_evaluate_exact(rows, mark, band_bps, hits[i]);
        let m = choose|m: int| 0 <= m < rows.len() && rows[m] == hits[i];
        assert(rows[m].id == hits[i].id);
    }
}

/// The rules for price alerts, under one configuration.
#[derive(Clone, Copy, Debug)]
pub struct AlertService {
    pub config: EngineConfig,
}

impl AlertService {
    /// The rules under `config`.
    pub fn new(config: EngineConfig) -> (service: Self)
        ensures
            service.config == config,
    {
        AlertService { config }
    }

    /// The alerts that the mark price `mark_px` triggers, in store order.
    pub fn get_triggered_alerts(&self, db: &Database, mark_px: u64) -> (res: Vec<AlertTable>)
        ensures
            alert_views(res@) == evaluate(db@.alerts, mark_px, self.config.band_bps),
    {
        let band = price_band(mark_px, self.config.band_bps);
        proof {
            let bps = self.config.band_bps;
            assert forall|r: AlertRow|
                is_open_in(r, band.0, band.1) == (!r.alerted && #[trigger] in_band(
                    r.price,
                    mark_px,
                    bps,
                )) by {}
            lemma_filter_agree(
                db@.alerts,
                |r: AlertRow| is_open_in(r, band.0, band.1),
                |r: AlertRow| !r.alerted && in_band(r.price, mark_px, bps),
            );
        }
        db.get_triggered_alerts(band.0, band.1)
    }

    /// Suppresses each of `alerts` for the cooldown window, counted from
    /// `now`. An alert that the store no longer holds does not keep the others
    /// from being suppressed; the result is `NotFound` if there was one.
    pub fn set_alert_cooldowns(&self, db: &mut Database, alerts: &Vec<AlertTable>, now: i64) -> (r:
        Result<(), AlertError>)
        requires
            old(db).wf(),
            now + self.config.cooldown_secs <= i64::MAX,
        ensures
            final(db).wf(),
            final(db)@ == (StoreView {
                alerts: apply_cooldowns(
                    old(db)@.alerts,
                    alert_ids(alert_views(alerts@)),
                    (now + self.config.cooldown_secs) as i64,
                ),
                ..old(db)@
            }),
            r is Ok <==> forall|i: int|
                0 <= i < alerts@.len() ==> has_alert(old(db)@.alerts, (#[trigger] alerts@[i]).id),
            r matches Err(e) ==> e == AlertError::NotFound,
    {
        let window = self.config.cooldown_secs;
        let ghost until = (now + window) as i64;
        let ghost rows = db@.alerts;
        let ghost ids = alert_ids(alert_views(alerts@));
        let mut all_found = true;
        let mut i: usize = 0;
        assert(apply_cooldowns(rows, ids.take(0), until) =~= rows);
        while i < alerts.len()
            invariant
                i <= alerts@.len(),
                db.wf(),
                now + window <= i64::MAX,
                until == (now + window) as i64,
                rows == old(db)@.alerts,
                ids == alert_ids(alert_views(alerts@)),
                ids.len() == alerts@.len(),
                db@ == (StoreView {
                    alerts: apply_cooldowns(rows, ids.take(i as int), until),
                    ..old(db)@
                }),
                all_found <==> forall|k: int|
                    0 <= k < i ==> has_alert(rows, (#[trigger] alerts@[k]).id),
            decreases alerts@.len() - i,
        {
            proof {
                assert(ids[i as int] == alerts@[i as int].id);
                lemma_apply_cooldowns_next(rows, ids, i as int, until);
            }
            match db.set_alert_cooldown(alerts[i].id, now, window) {
                Ok(()) => {},
                Err(_) => {
                    all_found = false;
                },
            }
            i += 1;
        }
        assert(ids.take(i as int) =~= ids);
        if all_found {
            Ok(())
        } else {
            Err(AlertError::NotFound)
        }
    }

    /// Fires on the mark price `mark_px` at `now`: gives the alerts that it
    /// triggers, to be notified, and suppresses each of them for the cooldown
    /// window. They are suppressed whether or not their notifications arrive,
    /// so the same mark price triggers none of them again.
    pub fn fire_triggered(&self, db: &mut Database, mark_px: u64, now: i64) -> (fired: Vec<
        AlertTable,
    >)
        requires
            old(db).wf(),
            now + self.config.cooldown_secs <= i64::MAX,
        ensures
            final(db).wf(),
            alert_views(fired@) == evaluate(old(db)@.alerts, mark_px, self.config.band_bps),
            final(db)@ == (StoreView {
                alerts: after_firing(
                    old(db)@.alerts,
                    mark_px,
                    self.config.band_bps,
                    (now + self.config.cooldown_secs) as i64,
                ),
                ..old(db)@
            }),
            evaluate(final(db)@.alerts, mark_px, self.config.band_bps).len() == 0,
    {
        let fired = self.get_triggered_alerts(db, mark_px);
        proof {
            let until = (now + self.config.cooldown_secs) as i64;
            lemma_cooldowns_of_triggered(
                db@.alerts,
                db@.next_alert_id,
                mark_px,
                self.config.band_bps,
                until,
            );
            lemma_fired_matches_are_quiet(db@.alerts, mark_px, self.config.band_bps, until);
        }
        let _ = self.set_alert_cooldowns(db, &fired, now);
        fired
    }

    /// Sweeps the cooldowns at `now`, and says how many alerts were cleared.
    pub fn reset_cooldowns(&self, db: &mut Database, now: i64) -> (count: usize)
        requires
            old(db).wf(),
        ensures
            final(db).wf(),
            final(db)@ == (StoreView {
                alerts: expire_cooldowns(old(db)@.alerts, now),
                ..old(db)@
            }),
            count == expired_count(old(db)@.alerts, now),
    {
        db.reset_cooldowns(now)
    }

    /// Every price alert, in store order.
    pub fn get_all_alerts(&self, db: &Database) -> (res: Vec<AlertTable>)
        ensures
            alert_views(res@) == db@.alerts,
    {
        db.get_all_alerts()
    }

    /// The price alerts of one chat, in store order.
    pub fn get_all_alerts_for_chat(&self, db: &Database, chat_id: i64) -> (res: Vec<AlertTable>)
        ensures
            alert_views(res@) == alerts_for_chat(db@.alerts, chat_id),
    {
        db.get_all_alerts_for_chat(chat_id)
    }

    /// Creates a price alert for the symbol `coin` at the target `price`. The
    /// symbol is resolved first: where it resolves to no asset the request
    /// fails with `UnknownAsset` and nothing is stored.
    pub fn create_alert(
        &self,
        db: &mut Database,
        catalog: &AssetCatalog,
        public_key: &str,
        chat_id: i64,
        coin: &str,
        price: u64,
        now: i64,
    ) -> (r: Result<AlertTable, AlertError>)
        requires
            old(db).wf(),
        ensures
            final(db).wf(),
            match resolve(catalog@, coin@) {
                None => r matches Err(e) && e == AlertError::UnknownAsset,
                Some(token) => if old(db)@.next_alert_id == i64::MAX {
                    r matches Err(e) && e == AlertError::StorageUnavailable
                } else {
                    r matches Ok(alert) && alert@ == new_alert(
                        old(db)@.next_alert_id,
                        public_key@,
                        chat_id,
                        coin@,
                        token,
                        price,
                        now,
                    )
                },
            },
            match r {
                Ok(alert) => final(db)@ == (StoreView {
                    alerts: old(db)@.alerts.push(alert@),
                    next_alert_id: (old(db)@.next_alert_id + 1) as i64,
                    ..old(db)@
                }),
                Err(_) => final(db)@ == old(db)@,
            },
    {
        match catalog.resolve_token(coin) {
            Ok(token) => {
                match db.insert_alert(public_key, chat_id, coin, token.as_str(), price, now) {
                    Ok(alert) => Ok(alert),
                    Err(e) => Err(AlertError::from_store(e)),
                }
            },
            Err(e) => Err(e),
        }
    }
}

} // verus!
