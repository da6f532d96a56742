//! The two kinds of stored alerts, and their mathematical views.

use vstd::prelude::*;

verus! {

/// A price alert as stored: it fires when the mark price comes within the
/// band around `price`, unless it is suppressed.
#[derive(Debug)]
pub struct AlertTable {
    /// Assigned by the store, unique among price alerts.
    pub id: i64,
    /// Who created the alert.
    pub public_key: String,
    /// Where notifications go.
    pub chat_id: i64,
    /// The symbol as the user wrote it.
    pub coin: String,
    /// The resolved asset identifier.
    pub token: String,
    /// The target price, in ticks.
    pub price: u64,
    /// Whether the alert is suppressed by a cooldown.
    pub alerted: bool,
    pub created_at: i64,
    pub updated_at: i64,
    /// End of the cooldown; `None` once a sweep has cleared it.
    pub cooldown_until: Option<i64>,
}

/// The view of a price alert.
pub struct AlertRow {
    pub id: i64,
    pub public_key: Seq<char>,
    pub chat_id: i64,
    pub coin: Seq<char>,
    pub token: Seq<char>,
    pub price: u64,
    pub alerted: bool,
    pub created_at: i64,
    pub updated_at: i64,
    pub cooldown_until: Option<i64>,
}

impl View for AlertTable {
    type V = AlertRow;

    open spec fn view(&self) -> AlertRow {
        AlertRow {
            id: self.id,
            public_key: self.public_key@,
            chat_id: self.chat_id,
            coin: self.coin@,
            token: self.token@,
            price: self.price,
            alerted: self.alerted,
            created_at: self.created_at,
            updated_at: self.updated_at,
            cooldown_until: self.cooldown_until,
        }
    }
}

impl Clone for AlertTable {
    fn clone(&self) -> (r: Self)
        ensures
            r@ == self@,
    {
        AlertTable {
            id: self.id,
            public_key: self.public_key.clone(),
            chat_id: self.chat_id,
            coin: self.coin.clone(),
            token: self.token.clone(),
            price: self.price,
            alerted: self.alerted,
            created_at: self.created_at,
            updated_at: self.updated_at,
            cooldown_until: self.cooldown_until,
        }
    }
}

/// A recurring alert as stored: it fires whenever `next_trigger` has passed,
/// while it is active.
#[derive(Debug)]
pub struct CronAlert {
    /// Assigned by the store, unique among cron alerts.
    pub id: i64,
    /// Where notifications go.
    pub chat_id: i64,
    /// The symbol as the user wrote it.
    pub coin: String,
    /// The resolved asset identifier.
    pub token: String,
    /// A five-field cron expression.
    pub cron_schedule: String,
    /// Cleared when the alert is deactivated; never set again.
    pub is_active: bool,
    pub created_at: i64,
    pub updated_at: i64,
    pub last_triggered: Option<i64>,
    /// Present while the alert is active.
    pub next_trigger: Option<i64>,
}

/// The view of a cron alert.
pub struct CronRow {
    pub id: i64,
    pub chat_id: i64,
    pub coin: Seq<char>,
    pub token: Seq<char>,
    pub cron_schedule: Seq<char>,
    pub is_active: bool,
    pub created_at: i64,
    pub updated_at: i64,
    pub last_triggered: Option<i64>,
    pub next_trigger: Option<i64>,
}

impl View for CronAlert {
    type V = CronRow;

    open spec fn view(&self) -> CronRow {
        CronRow {
            id: self.id,
            chat_id: self.chat_id,
            coin: self.coin@,
            token: self.token@,
            cron_schedule: self.cron_schedule@,
            is_active: self.is_active,
            created_at: self.created_at,
            updated_at: self.updated_at,
            last_triggered: self.last_triggered,
            next_trigger: self.next_trigger,
        }
    }
}

impl Clone for CronAlert {
    fn clone(&self) -> (r: Self)
        ensures
            r@ == self@,
    {
        CronAlert {
            id: self.id,
            chat_id: self.chat_id,
            coin: self.coin.clone(),
            token: self.token.clone(),
            cron_schedule: self.cron_schedule.clone(),
            is_active: self.is_active,
            created_at: self.created_at,
            updated_at: self.updated_at,
            last_triggered: self.last_triggered,
            next_trigger: self.next_trigger,
        }
    }
}

/// The views of a sequence of price alerts.
pub open spec fn alert_views(alerts: Seq<AlertTable>) -> Seq<AlertRow> {
    alerts.map_values(|a: AlertTable| a@)
}

/// The views of a sequence of cron alerts.
pub open spec fn cron_views(alerts: Seq<CronAlert>) -> Seq<CronRow> {
    alerts.map_values(|a: CronAlert| a@)
}

} // verus!
