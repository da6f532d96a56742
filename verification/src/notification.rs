//! The requests that a chat can make, and what each does to the store.
//!
//! A request arrives as a [`Command`] from one chat and is answered by a
//! [`Reply`]. The transport parses the one and renders and sends the other.

use crate::alerts::AlertService;
use crate::cron::CronService;
use crate::db::Database;
use crate::error::AlertError;
use crate::model::{
    active_crons_for_chat, alerts_for_chat, delete, new_alert, new_cron, StoreView,
};
use crate::registry::{resolve, AssetCatalog, CatalogView};
use crate::rows::{alert_views, cron_views, AlertTable, CronAlert};
use crate::schedule::{compute_next_trigger, next_trigger};
use vstd::prelude::*;

verus! {

/// The owner key under which alerts set from a chat are stored.
pub const CHAT_OWNER_KEY: &'static str = "0x00";

/// A request from a chat.
#[derive(Debug)]
pub enum Command {
    /// Describe the commands.
    Help,
    /// List the price alerts of the chat.
    Alert,
    /// Set a price alert for `coin` at the target `price`, in ticks.
    SetAlert { coin: String, price: u64 },
    /// List the active cron alerts of the chat.
    CronAlerts,
    /// Set a cron alert for `coin` on the five-field cron expression
    /// `schedule`.
    SetCronAlert { coin: String, schedule: String },
    /// Delete the cron alert `id`.
    DeleteCronAlert { id: i64 },
}

/// The answer to a request.
#[derive(Debug)]
pub enum Reply {
    /// The description of the commands.
    Help,
    /// The price alerts of the chat.
    Alerts { alerts: Vec<AlertTable> },
    /// The price alert was set.
    AlertSet { coin: String, price: u64 },
    /// The active cron alerts of the chat.
    CronAlerts { cron_alerts: Vec<CronAlert> },
    /// The cron alert was set.
    CronAlertSet { coin: String, schedule: String },
    /// The schedule has no next fire time; nothing was set.
    InvalidSchedule { schedule: String },
    /// The cron alert is gone.
    CronAlertDeleted { id: i64 },
    /// The request failed; nothing was changed.
    Failed { error: AlertError },
}

/// What setting a price alert does, from the store `before` to the store
/// `after`, and the reply it gives.
pub open spec fn sets_alert(
    before: StoreView,
    after: StoreView,
    catalog: CatalogView,
    chat_id: i64,
    coin: Seq<char>,
    price: u64,
    now: i64,
    reply: Reply,
) -> bool {
    match resolve(catalog, coin) {
        None => after == before && reply == (Reply::Failed { error: AlertError::UnknownAsset }),
        Some(token) => if before.next_alert_id == i64::MAX {
            after == before && reply == (Reply::Failed { error: AlertError::StorageUnavailable })
        } else {
            &&& after == (StoreView {
                alerts: before.alerts.push(
                    new_alert(
                        before.next_alert_id,
                        CHAT_OWNER_KEY@,
                        chat_id,
                        coin,
                        token,
                        price,
                        now,
                    ),
                ),
                next_alert_id: (before.next_alert_id + 1) as i64,
                ..before
            })
            &&& reply matches Reply::AlertSet { coin: c, price: p }
            &&& c@ == coin
            &&& p == price
        },
    }
}

/// What setting a cron alert does, from the store `before` to the store
/// `after`, and the reply it gives.
pub open spec fn sets_cron_alert(
    before: StoreView,
    after: StoreView,
    catalog: CatalogView,
    chat_id: i64,
    coin: Seq<char>,
    schedule: Seq<char>,
    now: i64,
    reply: Reply,
) -> bool {
    match next_trigger(schedule, now) {
        None => {
            &&& after == before
            &&& reply matches Reply::InvalidSchedule { schedule: s }
            &&& s@ == schedule
        },
        Some(first) => match resolve(catalog, coin) {
            None => after == before && reply == (Reply::Failed {
                error: AlertError::UnknownAsset,
            }),
            Some(token) => if before.next_cron_id == i64::MAX {
                after == before && reply == (Reply::Failed {
                    error: AlertError::StorageUnavailable,
                })
            } else {
                &&& after == (StoreView {
                    cron_alerts: before.cron_alerts.push(
                        new_cron(before.next_cron_id, chat_id, coin, token, schedule, first, now),
                    ),
                    next_cron_id: (before.next_cron_id + 1) as i64,
                    ..before
                })
                &&& reply matches Reply::CronAlertSet { coin: c, schedule: s }
                &&& c@ == coin
                &&& s@ == schedule
            },
        },
    }
}

/// What carrying out `cmd` for the chat `chat_id` at `now` does, from the
/// store `before` to the store `after`, and the reply it gives.
pub open spec fn handles(
    before: StoreView,
    after: StoreView,
    catalog: CatalogView,
    chat_id: i64,
    cmd: Command,
    now: i64,
    reply: Reply,
) -> bool {
    match cmd {
        Command::Help => after == before && reply is Help,
        Command::Alert => {
            &&& after == before
            &&& reply matches Reply::Alerts { alerts }
            &&& alert_views(alerts@) == alerts_for_chat(before.alerts, chat_id)
        },
        Command::SetAlert { coin, price } => sets_alert(
            before,
            after,
            catalog,
            chat_id,
            coin@,
            price,
            now,
            reply,
        ),
        Command::CronAlerts => {
            &&& after == before
            &&& reply matches Reply::CronAlerts { cron_alerts }
            &&& cron_views(cron_alerts@) == active_crons_for_chat(before.cron_alerts, chat_id)
        },
        Command::SetCronAlert { coin, schedule } => sets_cron_alert(
            before,
            after,
            catalog,
            chat_id,
            coin@,
            schedule@,
            now,
            reply,
        ),
        Command::DeleteCronAlert { id } => {
            &&& after == (StoreView { cron_alerts: delete(before.cron_alerts, id), ..before })
            &&& reply == (Reply::CronAlertDeleted { id })
        },
    }
}

/// Handles the requests of chats.
#[derive(Clone, Copy, Debug)]
pub struct NotificationService {
    pub alert_service: AlertService,
    pub cron_service: CronService,
}

impl NotificationService {
    /// A handler that applies the rules of the two services.
    pub fn new(alert_service: AlertService, cron_service: CronService) -> (service: Self)
        ensures
            service.alert_service == alert_service,
            service.cron_service == cron_service,
    {
        NotificationService { alert_service, cron_service }
    }

    /// Carries out the request `cmd` of the chat `chat_id` at `now`, and gives
    /// the reply to send. Symbols are resolved against `catalog`.
    ///
    /// Listing changes nothing. Setting an alert stores it only if its symbol
    /// resolves, and for a cron alert only if its schedule has a next fire
    /// time; the schedule is judged first. Deleting a cron alert that is
    /// already gone is answered like deleting one that was there.
    pub fn handle_command(
        &self,
        db: &mut Database,
        catalog: &AssetCatalog,
        chat_id: i64,
        cmd: Command,
        now: i64,
    ) -> (reply: Reply)
        requires
            old(db).wf(),
        ensures
            final(db).wf(),
            handles(old(db)@, final(db)@, catalog@, chat_id, cmd, now, reply),
    {
        match cmd {
            Command::Help => Reply::Help,
            Command::Alert => {
                let alerts = self.alert_service.get_all_alerts_for_chat(db, chat_id);
                Reply::Alerts { alerts }
            },
            Command::SetAlert { coin, price } => {
                match self.alert_service.create_alert(
                    db,
                    catalog,
                    CHAT_OWNER_KEY,
                    chat_id,
                    coin.as_str(),
                    price,
                    now,
                ) {
                    Ok(_) => Reply::AlertSet { coin, price },
                    Err(error) => Reply::Failed { error },
                }
            },
            Command::CronAlerts => {
                let cron_alerts = self.cron_service.get_cron_alerts_for_chat(db, chat_id);
                Reply::CronAlerts { cron_alerts }
            },
            Command::SetCronAlert { coin, schedule } => {
                if compute_next_trigger(schedule.as_str(), now).is_err() {
                    return Reply::InvalidSchedule { schedule };
                }
                match self.cron_service.create_cron_alert(
                    db,
                    catalog,
                    chat_id,
                    coin.as_str(),
                    schedule.as_str(),
                    now,
                ) {
                    Ok(_) => Reply::CronAlertSet { coin, schedule },
                    Err(error) => Reply::Failed { error },
                }
            },
            Command::DeleteCronAlert { id } => {
                let _ = self.cron_service.delete_cron_alert(db, id);
                Reply::CronAlertDeleted { id }
            },
        }
    }
}

} // verus!
