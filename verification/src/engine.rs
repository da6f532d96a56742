//! The engine: one store and the rules that act on it, driven from outside.
//!
//! Whoever runs the engine feeds it what happens (a price update, a tick of
//! the sweep timer or of the cron timer, a request from a chat) together with
//! the current time, and sends what it hands back. The engine never waits and
//! never sends: each step decides and records, and suppression and
//! rescheduling are applied whether or not a notification arrives later.

use crate::alerts::{after_firing, evaluate, AlertService};
use crate::config::EngineConfig;
use crate::cron::{poll, rescheduled, CronFiring, CronService};
use crate::db::{string_views, Database};
use crate::model::{
    alert_tokens, distinct, due_crons, expire_cooldowns, expired_count, StoreView,
};
use crate::notification::{Command, NotificationService, Reply};
use crate::registry::AssetCatalog;
use crate::rows::{alert_views, AlertTable};
use vstd::prelude::*;

verus! {

/// An engine: a store, and the rules under one configuration.
pub struct AlertEngine {
    db: Database,
    service: NotificationService,
}

impl AlertEngine {
    /// The state of the store.
    pub closed spec fn store(&self) -> StoreView {
        self.db@
    }

    /// The configuration.
    pub closed spec fn config(&self) -> EngineConfig {
        self.service.alert_service.config
    }

    /// The invariant of the engine: that of its store.
    pub open spec fn wf(&self) -> bool {
        self.store().wf()
    }

    /// An engine on the store `db`.
    pub fn new(db: Database, config: EngineConfig) -> (engine: Self)
        requires
            db.wf(),
        ensures
            engine.wf(),
            engine.store() == db@,
            engine.config() == config,
    {
        AlertEngine {
            db,
            service: NotificationService::new(AlertService::new(config), CronService::new()),
        }
    }

    /// The store, to read it or to write it out.
    pub fn database(&self) -> (db: &Database)
        ensures
            db@ == self.store(),
    {
        &self.db
    }

    /// The tokens whose prices the engine needs: those of the price alerts,
    /// each once.
    pub fn feed_tokens(&self) -> (tokens: Vec<String>)
        ensures
            string_views(tokens@) == distinct(alert_tokens(self.store().alerts)),
            string_views(tokens@).no_duplicates(),
            string_views(tokens@).to_set() == alert_tokens(self.store().alerts).to_set(),
    {
        self.db.get_all_unique_tokens()
    }

    /// Whether a cooldown that starts at `now` ends at a representable time.
    pub fn can_fire_at(&self, now: i64) -> (ok: bool)
        ensures
            ok == (now + self.config().cooldown_secs <= i64::MAX),
    {
        now <= i64::MAX - self.service.alert_service.config.cooldown_secs as i64
    }

    /// A price update: gives the alerts that the mark price triggers, to be
    /// notified, and suppresses them for the cooldown window.
    pub fn on_price_update(&mut self, mark_px: u64, now: i64) -> (fired: Vec<AlertTable>)
        requires
            old(self).wf(),
            now + old(self).config().cooldown_secs <= i64::MAX,
        ensures
            final(self).wf(),
            final(self).config() == old(self).config(),
            alert_views(fired@) == evaluate(
                old(self).store().alerts,
                mark_px,
                old(self).config().band_bps,
            ),
            final(self).store() == (StoreView {
                alerts: after_firing(
                    old(self).store().alerts,
                    mark_px,
                    old(self).config().band_bps,
                    (now + old(self).config().cooldown_secs) as i64,
                ),
                ..old(self).store()
            }),
            evaluate(final(self).store().alerts, mark_px, old(self).config().band_bps).len() == 0,
    {
        self.service.alert_service.fire_triggered(&mut self.db, mark_px, now)
    }

    /// A tick of the sweep timer: clears the cooldowns that ended before
    /// `now`, and says how many.
    pub fn on_sweep_tick(&mut self, now: i64) -> (count: usize)
        requires
            old(self).wf(),
        ensures
            final(self).wf(),
            final(self).config() == old(self).config(),
            final(self).store() == (StoreView {
                alerts: expire_cooldowns(old(self).store().alerts, now),
                ..old(self).store()
            }),
            count == expired_count(old(self).store().alerts, now),
    {
        self.service.alert_service.reset_cooldowns(&mut self.db, now)
    }

    /// A tick of the cron timer: gives the cron alerts that are due, to be
    /// notified, and moves each of them on.
    pub fn on_cron_tick(&mut self, now: i64) -> (firings: Vec<CronFiring>)
        requires
            old(self).wf(),
        ensures
            final(self).wf(),
            final(self).config() == old(self).config(),
            final(self).store() == (StoreView {
                cron_alerts: poll(old(self).store().cron_alerts, now),
                ..old(self).store()
            }),
            firings@.len() == due_crons(old(self).store().cron_alerts, now).len(),
            forall|j: int|
                0 <= j < firings@.len() ==> {
                    &&& (#[trigger] firings@[j]).alert@ == due_crons(
                        old(self).store().cron_alerts,
                        now,
                    )[j]
                    &&& firings@[j].outcome == rescheduled(firings@[j].alert@.cron_schedule, now)
                },
            due_crons(final(self).store().cron_alerts, now).len() == 0,
    {
        self.service.cron_service.fire_due(&mut self.db, now)
    }

    /// A request from the chat `chat_id`: carries it out and gives the reply
    /// to send. What it does to the store is what
    /// [`NotificationService::handle_command`] states.
    pub fn on_command(
        &mut self,
        catalog: &AssetCatalog,
        chat_id: i64,
        cmd: Command,
        now: i64,
    ) -> (reply: Reply)
        requires
            old(self).wf(),
        ensures
            final(self).wf(),
            final(self).config() == old(self).config(),
            crate::notification::handles(
                old(self).store(),
                final(self).store(),
                catalog@,
                chat_id,
                cmd,
                now,
                reply,
            ),
    {
        self.service.handle_command(&mut self.db, catalog, chat_id, cmd, now)
    }
}

} // verus!
