//! The alert store: both tables in memory, with every query and update that
//! the engine needs. Durable storage mirrors this state; the rules live here.

use crate::model::{
    active_crons, active_crons_for_chat, alert_tokens, alerts_for_chat, alerts_wf,
    apply_cooldown, can_be_released, can_come_due, cleared, cooled, crons_wf, deactivate,
    deactivated, delete, distinct,
    due_crons, expire_cooldowns, expired_count, find_matching, fired, has_alert, has_cron,
    is_due, is_expired, is_open_in, lemma_distinct, lemma_filter_agree, lemma_filter_all,
    lemma_filter_out_one, mark_fired, new_alert, new_cron, StoreView,
};
use crate::rows::{alert_views, cron_views, AlertRow, CronRow};
use vstd::prelude::*;

pub use crate::rows::{AlertTable, CronAlert};

verus! {

/// Why a store operation failed.
#[derive(Clone, Copy, Debug, PartialEq, Eq, Structural)]
pub enum StoreError {
    /// The store cannot take the write; here, its identifiers are used up.
    StorageUnavailable,
    /// No row has the identifier that was named.
    NotFound,
}

/// The alert store.
pub struct Database {
    alerts: Vec<AlertTable>,
    cron_alerts: Vec<CronAlert>,
    next_alert_id: i64,
    next_cron_id: i64,
}

impl View for Database {
    type V = StoreView;

    closed spec fn view(&self) -> StoreView {
        StoreView {
            alerts: alert_views(self.alerts@),
            cron_alerts: cron_views(self.cron_alerts@),
            next_alert_id: self.next_alert_id,
            next_cron_id: self.next_cron_id,
        }
    }
}

/// The views of a sequence of strings.
pub open spec fn string_views(strings: Seq<String>) -> Seq<Seq<char>> {
    strings.map_values(|s: String| s@)
}

/// Whether a price alert passes the optional conditions of a query.
spec fn selects_alert(chat: Option<i64>, band: Option<(u64, u64)>, r: AlertRow) -> bool {
    &&& chat matches Some(c) ==> r.chat_id == c
    &&& band matches Some(b) ==> is_open_in(r, b.0, b.1)
}

/// Whether a cron alert passes the optional conditions of a query.
spec fn selects_cron(
    active_only: bool,
    chat: Option<i64>,
    due_at: Option<i64>,
    r: CronRow,
) -> bool {
    &&& active_only ==> r.is_active
    &&& chat matches Some(c) ==> r.chat_id == c
    &&& due_at matches Some(now) ==> is_due(r, now)
}

/// Checks the invariant of the price-alert table.
fn alerts_consistent(alerts: &Vec<AlertTable>, next_id: i64) -> (ok: bool)
    ensures
        ok == alerts_wf(alert_views(alerts@), next_id),
{
    let ghost rows = alert_views(alerts@);
    if next_id < 1 {
        return false;
    }
    let mut i: usize = 0;
    while i < alerts.len()
        invariant
            i <= alerts@.len(),
            rows == alert_views(alerts@),
            1 <= next_id,
            alerts_wf(rows.take(i as int), next_id),
        decreases alerts@.len() - i,
    {
        let alert = &alerts[i];
        let ascending = i == 0 || alerts[i - 1].id < alert.id;
        let ok = 1 <= alert.id && alert.id < next_id && ascending && (!alert.alerted
            || alert.cooldown_until.is_some());
        if !ok {
            proof {
                if !ascending {
                    assert(rows[i - 1].id >= rows[i as int].id);
                }
            }
            return false;
        }
        proof {
            let head = rows.take(i as int);
            let next = rows.take(i + 1);
            assert forall|a: int, b: int| 0 <= a < b < next.len() implies (#[trigger] next[a]).id
                < (#[trigger] next[b]).id by {
                if b == i && a < i - 1 {
                    assert(head[a].id < head[i - 1].id);
                }
            }
        }
        i += 1;
    }
    assert(rows.take(i as int) =~= rows);
    true
}

/// Checks the invariant of the cron-alert table.
fn crons_consistent(alerts: &Vec<CronAlert>, next_id: i64) -> (ok: bool)
    ensures
        ok == crons_wf(cron_views(alerts@), next_id),
{
    let ghost rows = cron_views(alerts@);
    if next_id < 1 {
        return false;
    }
    let mut i: usize = 0;
    while i < alerts.len()
        invariant
            i <= alerts@.len(),
            rows == cron_views(alerts@),
            1 <= next_id,
            crons_wf(rows.take(i as int), next_id),
        decreases alerts@.len() - i,
    {
        let alert = &alerts[i];
        let ascending = i == 0 || alerts[i - 1].id < alert.id;
        let ok = 1 <= alert.id && alert.id < next_id && ascending && (!alert.is_active
            || alert.next_trigger.is_some());
        if !ok {
            proof {
                if !ascending {
                    assert(rows[i - 1].id >= rows[i as int].id);
                }
            }
            return false;
        }
        proof {
            let head = rows.take(i as int);
            let next = rows.take(i + 1);
            assert forall|a: int, b: int| 0 <= a < b < next.len() implies (#[trigger] next[a]).id
                < (#[trigger] next[b]).id by {
                if b == i && a < i - 1 {
                    assert(head[a].id < head[i - 1].id);
                }
            }
        }
        i += 1;
    }
    assert(rows.take(i as int) =~= rows);
    true
}

impl Database {
    /// The invariant of the store.
    pub open spec fn wf(&self) -> bool {
        self@.wf()
    }

    /// An empty store.
    pub fn new() -> (db: Self)
        ensures
            db@ == StoreView::empty(),
            db.wf(),
    {
        let db = Database {
            alerts: Vec::new(),
            cron_alerts: Vec::new(),
            next_alert_id: 1,
            next_cron_id: 1,
        };
        assert(db@.alerts =~= Seq::empty());
        assert(db@.cron_alerts =~= Seq::empty());
        db
    }

    /// A store that holds the given rows, as they were read back from durable
    /// storage, and assigns the given identifiers next. `None` when the rows
    /// and identifiers break the invariant of a store.
    pub fn load(
        alerts: Vec<AlertTable>,
        cron_alerts: Vec<CronAlert>,
        next_alert_id: i64,
        next_cron_id: i64,
    ) -> (r: Option<Self>)
        ensures
            match r {
                Some(db) => {
                    &&& db.wf()
                    &&& db@ == (StoreView {
                        alerts: alert_views(alerts@),
                        cron_alerts: cron_views(cron_alerts@),
                        next_alert_id,
                        next_cron_id,
                    })
                },
                None => !(alerts_wf(alert_views(alerts@), next_alert_id) && crons_wf(
                    cron_views(cron_alerts@),
                    next_cron_id,
                )),
            },
    {
        if alerts_consistent(&alerts, next_alert_id) && crons_consistent(
            &cron_alerts,
            next_cron_id,
        ) {
            Some(Database { alerts, cron_alerts, next_alert_id, next_cron_id })
        } else {
            None
        }
    }

    /// The identifier that the next price alert gets.
    pub fn next_alert_id(&self) -> (id: i64)
        ensures
            id == self@.next_alert_id,
    {
        self.next_alert_id
    }

    /// The identifier that the next cron alert gets.
    pub fn next_cron_id(&self) -> (id: i64)
        ensures
            id == self@.next_cron_id,
    {
        self.next_cron_id
    }

    /// Copies of the price alerts that pass the conditions, in store order.
    fn select_alerts(&self, chat: Option<i64>, band: Option<(u64, u64)>) -> (res: Vec<AlertTable>)
        ensures
            alert_views(res@) == self@.alerts.filter(|r: AlertRow| selects_alert(chat, band, r)),
    {
        let ghost rows = self@.alerts;
        let ghost keep = |r: AlertRow| selects_alert(chat, band, r);
        let mut res: Vec<AlertTable> = Vec::new();
        let mut i: usize = 0;
        while i < self.alerts.len()
            invariant
                i <= self.alerts@.len(),
                rows == self@.alerts,
                rows.len() == self.alerts@.len(),
                keep == |r: AlertRow| selects_alert(chat, band, r),
                alert_views(res@) == rows.take(i as int).filter(keep),
            decreases self.alerts@.len() - i,
        {
            let alert = &self.alerts[i];
            let in_chat = match chat {
                Some(c) => alert.chat_id == c,
                None => true,
            };
            let in_band = match band {
                Some(b) => !alert.alerted && b.0 <= alert.price && alert.price <= b.1,
                None => true,
            };
            proof {
                assert(rows.take(i + 1) =~= rows.take(i as int).push(rows[i as int]));
                rows.take(i as int).lemma_filter_push(rows[i as int], keep);
            }
            if in_chat && in_band {
                res.push(alert.clone());
            }
            i += 1;
        }
        assert(rows.take(i as int) =~= rows);
        res
    }

    /// Creates a price alert: not suppressed, with `now` as its creation time
    /// and as the end of its cooldown. Fails, leaving the store as it was,
    /// when no identifier is left.
    pub fn insert_alert(
        &mut self,
        public_key: &str,
        chat_id: i64,
        coin: &str,
        token: &str,
        price: u64,
        now: i64,
    ) -> (r: Result<AlertTable, StoreError>)
        requires
            old(self).wf(),
        ensures
            final(self).wf(),
            match r {
                Ok(alert) => {
                    &&& old(self)@.next_alert_id < i64::MAX
                    &&& alert@ == new_alert(
                        old(self)@.next_alert_id,
                        public_key@,
                        chat_id,
                        coin@,
                        token@,
                        price,
                        now,
                    )
                    &&& final(self)@ == (StoreView {
                        alerts: old(self)@.alerts.push(alert@),
                        next_alert_id: (old(self)@.next_alert_id + 1) as i64,
                        ..old(self)@
                    })
                },
                Err(e) => {
                    &&& e == StoreError::StorageUnavailable
                    &&& old(self)@.next_alert_id == i64::MAX
                    &&& final(self)@ == old(self)@
                },
            },
    {
        if self.next_alert_id == i64::MAX {
            return Err(StoreError::StorageUnavailable);
        }
        let alert = AlertTable {
            id: self.next_alert_id,
            public_key: public_key.to_owned(),
            chat_id,
            coin: coin.to_owned(),
            token: token.to_owned(),
            price,
            alerted: false,
            created_at: now,
            updated_at: now,
            cooldown_until: Some(now),
        };
        let stored = alert.clone();
        self.alerts.push(stored);
        self.next_alert_id = self.next_alert_id + 1;
        assert(self@.alerts =~= old(self)@.alerts.push(alert@));
        Ok(alert)
    }

    /// Every price alert, in store order.
    pub fn get_all_alerts(&self) -> (res: Vec<AlertTable>)
        ensures
            alert_views(res@) == self@.alerts,
    {
        proof {
            lemma_filter_all(self@.alerts, |r: AlertRow| selects_alert(None, None, r));
        }
        self.select_alerts(None, None)
    }

    /// The price alerts of one chat, in store order.
    pub fn get_all_alerts_for_chat(&self, chat_id: i64) -> (res: Vec<AlertTable>)
        ensures
            alert_views(res@) == alerts_for_chat(self@.alerts, chat_id),
    {
        proof {
            lemma_filter_agree(
                self@.alerts,
                |r: AlertRow| selects_alert(Some(chat_id), None, r),
                |r: AlertRow| r.chat_id == chat_id,
            );
        }
        self.select_alerts(Some(chat_id), None)
    }

    /// The price alerts that are not suppressed and whose target lies in
    /// `[lower_price, upper_price]`, in store order.
    pub fn get_triggered_alerts(&self, lower_price: u64, upper_price: u64) -> (res: Vec<AlertTable>)
        ensures
            alert_views(res@) == find_matching(self@.alerts, lower_price, upper_price),
    {
        proof {
            lemma_filter_agree(
                self@.alerts,
                |r: AlertRow| selects_alert(None, Some((lower_price, upper_price)), r),
                |r: AlertRow| is_open_in(r, lower_price, upper_price),
            );
        }
        self.select_alerts(None, Some((lower_price, upper_price)))
    }

    /// Suppresses the alert `alert_id` until `now + window`. Fails with
    /// `NotFound`, leaving the store as it was, when there is no such alert.
    pub fn set_alert_cooldown(&mut self, alert_id: i64, now: i64, window: u32) -> (r: Result<
        (),
        StoreError,
    >)
        requires
            old(self).wf(),
            now + window <= i64::MAX,
        ensures
            final(self).wf(),
            final(self)@ == (StoreView {
                alerts: apply_cooldown(old(self)@.alerts, alert_id, (now + window) as i64),
                ..old(self)@
            }),
            r is Ok <==> has_alert(old(self)@.alerts, alert_id),
            r matches Err(e) ==> e == StoreError::NotFound && final(self)@ == old(self)@,
    {
        let until: i64 = now + window as i64;
        let ghost rows = self@.alerts;
        let mut found = false;
        let mut i: usize = 0;
        while i < self.alerts.len()
            invariant
                i <= self.alerts@.len(),
                rows == old(self)@.alerts,
                rows.len() == self.alerts@.len(),
                self.cron_alerts == old(self).cron_alerts,
                self.next_alert_id == old(self).next_alert_id,
                self.next_cron_id == old(self).next_cron_id,
                forall|k: int|
                    0 <= k < i ==> (#[trigger] self.alerts@[k])@ == if rows[k].id == alert_id {
                        cooled(rows[k], until)
                    } else {
                        rows[k]
                    },
                forall|k: int| i <= k < rows.len() ==> (#[trigger] self.alerts@[k])@ == rows[k],
                found <==> exists|k: int| 0 <= k < i && (#[trigger] rows[k]).id == alert_id,
            decreases self.alerts@.len() - i,
        {
            if self.alerts[i].id == alert_id {
                self.alerts[i].alerted = true;
                self.alerts[i].cooldown_until = Some(until);
                found = true;
            }
            i += 1;
        }
        proof {
            assert(self@.alerts =~= apply_cooldown(rows, alert_id, until));
            if !found {
                assert(self@.alerts =~= rows);
            }
        }
        if found {
            Ok(())
        } else {
            Err(StoreError::NotFound)
        }
    }

    /// Sweeps the cooldowns at `now`: clears the suppression and the cooldown
    /// of every alert whose cooldown ended before `now`, and says how many
    /// alerts that were.
    pub fn reset_cooldowns(&mut self, now: i64) -> (count: usize)
        requires
            old(self).wf(),
        ensures
            final(self).wf(),
            final(self)@ == (StoreView {
                alerts: expire_cooldowns(old(self)@.alerts, now),
                ..old(self)@
            }),
            count == expired_count(old(self)@.alerts, now),
    {
        let ghost rows = self@.alerts;
        let ghost gone = |r: AlertRow| is_expired(r, now);
        let mut count: usize = 0;
        let mut i: usize = 0;
        while i < self.alerts.len()
            invariant
                i <= self.alerts@.len(),
                rows == old(self)@.alerts,
                rows.len() == self.alerts@.len(),
                self.cron_alerts == old(self).cron_alerts,
                self.next_alert_id == old(self).next_alert_id,
                self.next_cron_id == old(self).next_cron_id,
                gone == |r: AlertRow| is_expired(r, now),
                forall|k: int|
                    0 <= k < i ==> (#[trigger] self.alerts@[k])@ == if is_expired(rows[k], now) {
                        cleared(rows[k])
                    } else {
                        rows[k]
                    },
                forall|k: int| i <= k < rows.len() ==> (#[trigger] self.alerts@[k])@ == rows[k],
                count == rows.take(i as int).filter(gone).len(),
                count <= i,
            decreases self.alerts@.len() - i,
        {
            let expired = match self.alerts[i].cooldown_until {
                Some(t) => t < now,
                None => false,
            };
            proof {
                assert(rows.take(i + 1) =~= rows.take(i as int).push(rows[i as int]));
                rows.take(i as int).lemma_filter_push(rows[i as int], gone);
            }
            if expired {
                self.alerts[i].alerted = false;
                self.alerts[i].cooldown_until = None;
                count += 1;
            }
            i += 1;
        }
        proof {
            assert(rows.take(i as int) =~= rows);
            assert(self@.alerts =~= expire_cooldowns(rows, now));
        }
        count
    }

    /// The tokens that price alerts refer to, each once, in the order in
    /// which the store first holds them.
    pub fn get_all_unique_tokens(&self) -> (res: Vec<String>)
        ensures
            string_views(res@) == distinct(alert_tokens(self@.alerts)),
            string_views(res@).no_duplicates(),
            string_views(res@).to_set() == alert_tokens(self@.alerts).to_set(),
    {
        let ghost tokens = alert_tokens(self@.alerts);
        let mut res: Vec<String> = Vec::new();
        let mut i: usize = 0;
        while i < self.alerts.len()
            invariant
                i <= self.alerts@.len(),
                tokens == alert_tokens(self@.alerts),
                tokens.len() == self.alerts@.len(),
                string_views(res@) == distinct(tokens.take(i as int)),
            decreases self.alerts@.len() - i,
        {
            let token = &self.alerts[i].token;
            let ghost seen = string_views(res@);
            let mut known = false;
            let mut j: usize = 0;
            while j < res.len()
                invariant
                    j <= res@.len(),
                    seen == string_views(res@),
                    known <==> exists|k: int| 0 <= k < j && #[trigger] seen[k] == token@,
                decreases res@.len() - j,
            {
                if res[j] == *token {
                    known = true;
                    assert(seen[j as int] == token@);
                }
                j += 1;
            }
            proof {
                assert(tokens.take(i + 1).drop_last() =~= tokens.take(i as int));
            }
            if !known {
                res.push(token.clone());
            }
            i += 1;
        }
        proof {
            assert(tokens.take(i as int) =~= tokens);
            lemma_distinct(tokens);
        }
        res
    }

    /// Copies of the cron alerts that pass the conditions, in store order.
    fn select_crons(&self, active_only: bool, chat: Option<i64>, due_at: Option<i64>) -> (res: Vec<
        CronAlert,
    >)
        ensures
            cron_views(res@) == self@.cron_alerts.filter(
                |r: CronRow| selects_cron(active_only, chat, due_at, r),
            ),
    {
        let ghost rows = self@.cron_alerts;
        let ghost keep = |r: CronRow| selects_cron(active_only, chat, due_at, r);
        let mut res: Vec<CronAlert> = Vec::new();
        let mut i: usize = 0;
        while i < self.cron_alerts.len()
            invariant
                i <= self.cron_alerts@.len(),
                rows == self@.cron_alerts,
                rows.len() == self.cron_alerts@.len(),
                keep == |r: CronRow| selects_cron(active_only, chat, due_at, r),
                cron_views(res@) == rows.take(i as int).filter(keep),
            decreases self.cron_alerts@.len() - i,
        {
            let alert = &self.cron_alerts[i];
            let live = !active_only || alert.is_active;
            let in_chat = match chat {
                Some(c) => alert.chat_id == c,
                None => true,
            };
            let due = match due_at {
                Some(now) => alert.is_active && match alert.next_trigger {
                    Some(t) => t <= now,
                    None => false,
                },
                None => true,
            };
            proof {
                assert(rows.take(i + 1) =~= rows.take(i as int).push(rows[i as int]));
                rows.take(i as int).lemma_filter_push(rows[i as int], keep);
            }
            if live && in_chat && due {
                res.push(alert.clone());
            }
            i += 1;
        }
        assert(rows.take(i as int) =~= rows);
        res
    }

    /// Every cron alert, active or not, in store order.
    pub fn get_cron_alert_history(&self) -> (res: Vec<CronAlert>)
        ensures
            cron_views(res@) == self@.cron_alerts,
    {
        proof {
            lemma_filter_all(self@.cron_alerts, |r: CronRow| selects_cron(false, None, None, r));
        }
        self.select_crons(false, None, None)
    }

    /// Creates a cron alert: active, never triggered, due next at
    /// `next_trigger`. Fails, leaving the store as it was, when no identifier
    /// is left.
    pub fn insert_cron_alert(
        &mut self,
        chat_id: i64,
        coin: &str,
        token: &str,
        cron_schedule: &str,
        next_trigger: i64,
        now: i64,
    ) -> (r: Result<CronAlert, StoreError>)
        requires
            old(self).wf(),
        ensures
            final(self).wf(),
            match r {
                Ok(alert) => {
                    &&& old(self)@.next_cron_id < i64::MAX
                    &&& alert@ == new_cron(
                        old(self)@.next_cron_id,
                        chat_id,
                        coin@,
                        token@,
                        cron_schedule@,
                        next_trigger,
                        now,
                    )
                    &&& final(self)@ == (StoreView {
                        cron_alerts: old(self)@.cron_alerts.push(alert@),
                        next_cron_id: (old(self)@.next_cron_id + 1) as i64,
                        ..old(self)@
                    })
                },
                Err(e) => {
                    &&& e == StoreError::StorageUnavailable
                    &&& old(self)@.next_cron_id == i64::MAX
                    &&& final(self)@ == old(self)@
                },
            },
    {
        if self.next_cron_id == i64::MAX {
            return Err(StoreError::StorageUnavailable);
        }
        let alert = CronAlert {
            id: self.next_cron_id,
            chat_id,
            coin: coin.to_owned(),
            token: token.to_owned(),
            cron_schedule: cron_schedule.to_owned(),
            is_active: true,
            created_at: now,
            updated_at: now,
            last_triggered: None,
            next_trigger: Some(next_trigger),
        };
        let stored = alert.clone();
        self.cron_alerts.push(stored);
        self.next_cron_id = self.next_cron_id + 1;
        assert(self@.cron_alerts =~= old(self)@.cron_alerts.push(alert@));
        Ok(alert)
    }

    /// The active cron alerts, in store order.
    pub fn get_all_cron_alerts(&self) -> (res: Vec<CronAlert>)
        ensures
            cron_views(res@) == active_crons(self@.cron_alerts),
    {
        proof {
            lemma_filter_agree(
                self@.cron_alerts,
                |r: CronRow| selects_cron(true, None, None, r),
                |r: CronRow| r.is_active,
            );
        }
        self.select_crons(true, None, None)
    }

    /// The active cron alerts of one chat, in store order.
    pub fn get_cron_alerts_for_chat(&self, chat_id: i64) -> (res: Vec<CronAlert>)
        ensures
            cron_views(res@) == active_crons_for_chat(self@.cron_alerts, chat_id),
    {
        proof {
            lemma_filter_agree(
                self@.cron_alerts,
                |r: CronRow| selects_cron(true, Some(chat_id), None, r),
                |r: CronRow| r.is_active && r.chat_id == chat_id,
            );
        }
        self.select_crons(true, Some(chat_id), None)
    }

    /// The active cron alerts whose next fire time is `now` or earlier, in
    /// store order.
    pub fn get_next_trigger_cron_alerts(&self, now: i64) -> (res: Vec<CronAlert>)
        ensures
            cron_views(res@) == due_crons(self@.cron_alerts, now),
    {
        proof {
            lemma_filter_agree(
                self@.cron_alerts,
                |r: CronRow| selects_cron(true, None, Some(now), r),
                |r: CronRow| is_due(r, now),
            );
        }
        self.select_crons(true, None, Some(now))
    }

    /// Records that the alert `alert_id` fired at `now` and is due next at
    /// `next_trigger`. Fails with `NotFound`, leaving the store as it was,
    /// when there is no such alert.
    pub fn update_cron_alert_last_triggered(
        &mut self,
        alert_id: i64,
        next_trigger: i64,
        now: i64,
    ) -> (r: Result<(), StoreError>)
        requires
            old(self).wf(),
        ensures
            final(self).wf(),
            final(self)@ == (StoreView {
                cron_alerts: mark_fired(old(self)@.cron_alerts, alert_id, next_trigger, now),
                ..old(self)@
            }),
            r is Ok <==> has_cron(old(self)@.cron_alerts, alert_id),
            r matches Err(e) ==> e == StoreError::NotFound && final(self)@ == old(self)@,
    {
        let ghost rows = self@.cron_alerts;
        let mut found = false;
        let mut i: usize = 0;
        while i < self.cron_alerts.len()
            invariant
                i <= self.cron_alerts@.len(),
                rows == old(self)@.cron_alerts,
                rows.len() == self.cron_alerts@.len(),
                self.alerts == old(self).alerts,
                self.next_alert_id == old(self).next_alert_id,
                self.next_cron_id == old(self).next_cron_id,
                forall|k: int|
                    0 <= k < i ==> (#[trigger] self.cron_alerts@[k])@ == if rows[k].id
                        == alert_id {
                        fired(rows[k], next_trigger, now)
                    } else {
                        rows[k]
                    },
                forall|k: int|
                    i <= k < rows.len() ==> (#[trigger] self.cron_alerts@[k])@ == rows[k],
                found <==> exists|k: int| 0 <= k < i && (#[trigger] rows[k]).id == alert_id,
            decreases self.cron_alerts@.len() - i,
        {
            if self.cron_alerts[i].id == alert_id {
                self.cron_alerts[i].last_triggered = Some(now);
                self.cron_alerts[i].next_trigger = Some(next_trigger);
                self.cron_alerts[i].updated_at = now;
                found = true;
            }
            i += 1;
        }
        proof {
            assert(self@.cron_alerts =~= mark_fired(rows, alert_id, next_trigger, now));
            if !found {
                assert(self@.cron_alerts =~= rows);
            }
        }
        if found {
            Ok(())
        } else {
            Err(StoreError::NotFound)
        }
    }

    /// Deactivates the alert `alert_id` at `now`: it stays in the store and is
    /// in no query any more. Fails with `NotFound`, leaving the store as it
    /// was, when there is no such alert.
    pub fn deactivate_cron_alert(&mut self, alert_id: i64, now: i64) -> (r: Result<(), StoreError>)
        requires
            old(self).wf(),
        ensures
            final(self).wf(),
            final(self)@ == (StoreView {
                cron_alerts: deactivate(old(self)@.cron_alerts, alert_id, now),
                ..old(self)@
            }),
            r is Ok <==> has_cron(old(self)@.cron_alerts, alert_id),
            r matches Err(e) ==> e == StoreError::NotFound && final(self)@ == old(self)@,
    {
        let ghost rows = self@.cron_alerts;
        let mut found = false;
        let mut i: usize = 0;
        while i < self.cron_alerts.len()
            invariant
                i <= self.cron_alerts@.len(),
                rows == old(self)@.cron_alerts,
                rows.len() == self.cron_alerts@.len(),
                self.alerts == old(self).alerts,
                self.next_alert_id == old(self).next_alert_id,
                self.next_cron_id == old(self).next_cron_id,
                forall|k: int|
                    0 <= k < i ==> (#[trigger] self.cron_alerts@[k])@ == if rows[k].id
                        == alert_id {
                        deactivated(rows[k], now)
                    } else {
                        rows[k]
                    },
                forall|k: int|
                    i <= k < rows.len() ==> (#[trigger] self.cron_alerts@[k])@ == rows[k],
                found <==> exists|k: int| 0 <= k < i && (#[trigger] rows[k]).id == alert_id,
            decreases self.cron_alerts@.len() - i,
        {
            if self.cron_alerts[i].id == alert_id {
                self.cron_alerts[i].is_active = false;
                self.cron_alerts[i].updated_at = now;
                found = true;
            }
            i += 1;
        }
        proof {
            assert(self@.cron_alerts =~= deactivate(rows, alert_id, now));
            if !found {
                assert(self@.cron_alerts =~= rows);
            }
        }
        if found {
            Ok(())
        } else {
            Err(StoreError::NotFound)
        }
    }

    /// Removes the alert `alert_id` from the store. Fails with `NotFound`,
    /// leaving the store as it was, when there is no such alert.
    pub fn delete_cron_alert(&mut self, alert_id: i64) -> (r: Result<(), StoreError>)
        requires
            old(self).wf(),
        ensures
            final(self).wf(),
            final(self)@ == (StoreView {
                cron_alerts: delete(old(self)@.cron_alerts, alert_id),
                ..old(self)@
            }),
            !has_cron(final(self)@.cron_alerts, alert_id),
            r is Ok <==> has_cron(old(self)@.cron_alerts, alert_id),
            r matches Err(e) ==> e == StoreError::NotFound && final(self)@ == old(self)@,
    {
        let ghost rows = self@.cron_alerts;
        let ghost key = |r: CronRow| r.id;
        let mut i: usize = 0;
        while i < self.cron_alerts.len()
            invariant
                i <= self.cron_alerts@.len(),
                rows == self@.cron_alerts,
                *self == *old(self),
                self.wf(),
                key == |r: CronRow| r.id,
                forall|k: int| 0 <= k < i ==> (#[trigger] rows[k]).id != alert_id,
            decreases self.cron_alerts@.len() - i,
        {
            if self.cron_alerts[i].id == alert_id {
                proof {
                    lemma_filter_out_one(rows, key, i as int);
                    lemma_filter_agree(
                        rows,
                        |r: CronRow| key(r) != key(rows[i as int]),
                        |r: CronRow| r.id != alert_id,
                    );
                }
                self.cron_alerts.remove(i);
                proof {
                    assert(self@.cron_alerts =~= rows.remove(i as int));
                }
                return Ok(());
            }
            i += 1;
        }
        proof {
            lemma_filter_all(rows, |r: CronRow| r.id != alert_id);
        }
        Err(StoreError::NotFound)
    }
}

} // verus!
