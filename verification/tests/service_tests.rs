use backend::alerts::AlertService;
use backend::config::EngineConfig;
use backend::cron::{CronService, MidPrice};
use backend::db::{Database, StoreError};
use backend::error::AlertError;
use backend::notification::{Command, NotificationService, Reply, CHAT_OWNER_KEY};
use backend::registry::{AssetCatalog, SpotPair, TokenInfo};
use backend::rows::{AlertTable, CronAlert};
use backend::schedule::ScheduleError;

const NEW_YEAR_2024: i64 = 1_704_067_200;

fn catalog() -> AssetCatalog {
    AssetCatalog {
        tokens: vec![
            TokenInfo { name: "USDC".to_string(), index: 0 },
            TokenInfo { name: "PURR".to_string(), index: 1 },
            TokenInfo { name: "HYPE".to_string(), index: 150 },
            TokenInfo { name: "LONE".to_string(), index: 77 },
            TokenInfo { name: "HYPE".to_string(), index: 1 },
        ],
        pairs: vec![
            SpotPair { name: "PURR/USDC".to_string(), base_token: 1 },
            SpotPair { name: "@107".to_string(), base_token: 150 },
            SpotPair { name: "@200".to_string(), base_token: 150 },
        ],
    }
}

fn service() -> NotificationService {
    NotificationService::new(AlertService::new(EngineConfig::default()), CronService::new())
}

fn ids(alerts: &[AlertTable]) -> Vec<i64> {
    alerts.iter().map(|a| a.id).collect()
}

fn cron_ids(alerts: &[CronAlert]) -> Vec<i64> {
    alerts.iter().map(|a| a.id).collect()
}

#[test]
fn symbol_resolves_to_the_pair_that_trades_it() {
    assert_eq!(catalog().resolve_token("PURR"), Ok("PURR/USDC".to_string()));
}

#[test]
fn symbol_resolves_by_first_token_and_first_pair() {
    // The first token named HYPE has index 150; the first pair on it is @107.
    assert_eq!(catalog().resolve_token("HYPE"), Ok("@107".to_string()));
}

#[test]
fn unlisted_symbol_is_unknown() {
    assert_eq!(catalog().resolve_token("NOPE"), Err(AlertError::UnknownAsset));
    assert_eq!(catalog().resolve_token(""), Err(AlertError::UnknownAsset));
    assert_eq!(catalog().resolve_token("hype"), Err(AlertError::UnknownAsset));
}

#[test]
fn token_without_a_pair_is_unknown() {
    assert_eq!(catalog().resolve_token("LONE"), Err(AlertError::UnknownAsset));
    assert_eq!(catalog().resolve_token("USDC"), Err(AlertError::UnknownAsset));
}

#[test]
fn empty_catalog_resolves_nothing() {
    let empty = AssetCatalog { tokens: vec![], pairs: vec![] };
    assert_eq!(empty.resolve_token("HYPE"), Err(AlertError::UnknownAsset));
}

#[test]
fn store_errors_keep_their_meaning() {
    assert_eq!(AlertError::from_store(StoreError::NotFound), AlertError::NotFound);
    assert_eq!(
        AlertError::from_store(StoreError::StorageUnavailable),
        AlertError::StorageUnavailable
    );
    assert_eq!(
        AlertError::from_schedule(ScheduleError::InvalidSchedule),
        AlertError::InvalidSchedule
    );
}

#[test]
fn evaluate_returns_open_alerts_in_the_band() {
    let alerts = AlertService::new(EngineConfig::default());
    let mut db = Database::new();
    for price in [94, 95, 100, 105, 106] {
        db.insert_alert("k", 1, "HYPE", "@107", price, 0).unwrap();
    }
    db.set_alert_cooldown(3, 0, 60).unwrap();
    assert_eq!(ids(&alerts.get_triggered_alerts(&db, 100)), vec![2, 4]);
    assert!(alerts.get_triggered_alerts(&db, 0).is_empty());
    assert!(alerts.get_triggered_alerts(&db, 1_000).is_empty());
}

#[test]
fn evaluate_uses_the_configured_band() {
    let narrow = AlertService::new(EngineConfig { band_bps: 100, ..EngineConfig::default() });
    let wide = AlertService::new(EngineConfig { band_bps: 1_000, ..EngineConfig::default() });
    let mut db = Database::new();
    for price in [90, 99, 100, 101, 110] {
        db.insert_alert("k", 1, "HYPE", "@107", price, 0).unwrap();
    }
    assert_eq!(ids(&narrow.get_triggered_alerts(&db, 100)), vec![2, 3, 4]);
    assert_eq!(ids(&wide.get_triggered_alerts(&db, 100)), vec![1, 2, 3, 4, 5]);
}

#[test]
fn cooldowns_use_the_configured_window() {
    let alerts = AlertService::new(EngineConfig { cooldown_secs: 90, ..EngineConfig::default() });
    let mut db = Database::new();
    db.insert_alert("k", 1, "HYPE", "@107", 100, 0).unwrap();
    let hits = alerts.get_triggered_alerts(&db, 100);
    assert_eq!(alerts.set_alert_cooldowns(&mut db, &hits, 1_000), Ok(()));
    let stored = alerts.get_all_alerts(&db);
    assert!(stored[0].alerted);
    assert_eq!(stored[0].cooldown_until, Some(1_090));
}

#[test]
fn missing_alert_does_not_block_the_other_cooldowns() {
    let alerts = AlertService::new(EngineConfig::default());
    let mut db = Database::new();
    db.insert_alert("k", 1, "HYPE", "@107", 100, 0).unwrap();
    db.insert_alert("k", 1, "HYPE", "@107", 100, 0).unwrap();
    let mut hits = alerts.get_triggered_alerts(&db, 100);
    hits[0].id = 99;
    assert_eq!(alerts.set_alert_cooldowns(&mut db, &hits, 1_000), Err(AlertError::NotFound));
    let stored = alerts.get_all_alerts(&db);
    assert!(!stored[0].alerted);
    assert!(stored[1].alerted);
    assert_eq!(stored[1].cooldown_until, Some(1_060));
}

#[test]
fn cooldowns_of_no_alerts_change_nothing() {
    let alerts = AlertService::new(EngineConfig::default());
    let mut db = Database::new();
    db.insert_alert("k", 1, "HYPE", "@107", 100, 0).unwrap();
    assert_eq!(alerts.set_alert_cooldowns(&mut db, &vec![], 1_000), Ok(()));
    assert!(!alerts.get_all_alerts(&db)[0].alerted);
}

#[test]
fn firing_suppresses_exactly_the_triggered() {
    let alerts = AlertService::new(EngineConfig::default());
    let mut db = Database::new();
    for price in [90, 100, 104] {
        db.insert_alert("k", 1, "HYPE", "@107", price, 0).unwrap();
    }
    let fired = alerts.fire_triggered(&mut db, 100, 1_000);
    assert_eq!(ids(&fired), vec![2, 3]);
    assert!(!fired[0].alerted);
    let stored = alerts.get_all_alerts(&db);
    assert!(!stored[0].alerted);
    assert_eq!(stored[0].cooldown_until, Some(0));
    assert!(stored[1].alerted);
    assert!(stored[2].alerted);
    assert_eq!(stored[2].cooldown_until, Some(1_060));
    assert!(alerts.fire_triggered(&mut db, 100, 1_010).is_empty());
    assert_eq!(ids(&alerts.fire_triggered(&mut db, 92, 1_010)), vec![1]);
}

#[test]
fn sweep_through_the_service() {
    let alerts = AlertService::new(EngineConfig::default());
    let mut db = Database::new();
    db.insert_alert("k", 1, "HYPE", "@107", 100, 0).unwrap();
    alerts.fire_triggered(&mut db, 100, 1_000);
    assert_eq!(alerts.reset_cooldowns(&mut db, 1_060), 0);
    assert_eq!(alerts.reset_cooldowns(&mut db, 1_061), 1);
    assert_eq!(alerts.reset_cooldowns(&mut db, 1_061), 0);
    assert!(!alerts.get_all_alerts_for_chat(&db, 1)[0].alerted);
}

#[test]
fn created_alert_holds_the_resolved_token() {
    let alerts = AlertService::new(EngineConfig::default());
    let mut db = Database::new();
    let alert = alerts.create_alert(&mut db, &catalog(), "0xabc", 5, "HYPE", 46_600, 1_000).unwrap();
    assert_eq!(alert.id, 1);
    assert_eq!(alert.public_key, "0xabc");
    assert_eq!(alert.chat_id, 5);
    assert_eq!(alert.coin, "HYPE");
    assert_eq!(alert.token, "@107");
    assert_eq!(alert.price, 46_600);
    assert_eq!(alert.created_at, 1_000);
    assert_eq!(alert.cooldown_until, Some(1_000));
    assert_eq!(db.get_all_unique_tokens(), vec!["@107"]);
}

#[test]
fn alert_for_unknown_symbol_is_not_stored() {
    let alerts = AlertService::new(EngineConfig::default());
    let mut db = Database::new();
    let r = alerts.create_alert(&mut db, &catalog(), "0xabc", 5, "NOPE", 46_600, 1_000);
    assert!(matches!(r, Err(AlertError::UnknownAsset)));
    assert!(db.get_all_alerts().is_empty());
    assert_eq!(db.next_alert_id(), 1);
}

#[test]
fn alert_in_a_full_store_is_unavailable() {
    let alerts = AlertService::new(EngineConfig::default());
    let mut db = Database::load(vec![], vec![], i64::MAX, 1).unwrap();
    let r = alerts.create_alert(&mut db, &catalog(), "0xabc", 5, "HYPE", 46_600, 1_000);
    assert!(matches!(r, Err(AlertError::StorageUnavailable)));
    assert!(db.get_all_alerts().is_empty());
}

#[test]
fn created_cron_alert_is_due_at_its_first_fire_time() {
    let crons = CronService::new();
    let mut db = Database::new();
    let alert = crons
        .create_cron_alert(&mut db, &catalog(), 5, "HYPE", "*/5 * * * *", NEW_YEAR_2024 + 7)
        .unwrap();
    assert_eq!(alert.id, 1);
    assert_eq!(alert.token, "@107");
    assert_eq!(alert.cron_schedule, "*/5 * * * *");
    assert_eq!(alert.created_at, NEW_YEAR_2024 + 7);
    assert_eq!(alert.next_trigger, Some(NEW_YEAR_2024 + 300));
    assert_eq!(alert.last_triggered, None);
    assert!(alert.is_active);
    assert!(crons.get_triggered_cron_alerts(&db, NEW_YEAR_2024 + 299).is_empty());
    assert_eq!(cron_ids(&crons.get_triggered_cron_alerts(&db, NEW_YEAR_2024 + 300)), vec![1]);
}

#[test]
fn cron_alert_with_a_bad_schedule_is_not_stored() {
    let crons = CronService::new();
    let mut db = Database::new();
    let r = crons.create_cron_alert(&mut db, &catalog(), 5, "HYPE", "every day", NEW_YEAR_2024);
    assert!(matches!(r, Err(AlertError::InvalidSchedule)));
    assert!(db.get_cron_alert_history().is_empty());
    assert_eq!(db.next_cron_id(), 1);
}

#[test]
fn cron_alert_for_unknown_symbol_is_not_stored() {
    let crons = CronService::new();
    let mut db = Database::new();
    let r = crons.create_cron_alert(&mut db, &catalog(), 5, "NOPE", "* * * * *", NEW_YEAR_2024);
    assert!(matches!(r, Err(AlertError::UnknownAsset)));
    // The symbol is resolved before the schedule is checked.
    let r = crons.create_cron_alert(&mut db, &catalog(), 5, "NOPE", "every day", NEW_YEAR_2024);
    assert!(matches!(r, Err(AlertError::UnknownAsset)));
    assert!(db.get_cron_alert_history().is_empty());
}

#[test]
fn cron_alert_in_a_full_store_is_unavailable() {
    let crons = CronService::new();
    let mut db = Database::load(vec![], vec![], 1, i64::MAX).unwrap();
    let r = crons.create_cron_alert(&mut db, &catalog(), 5, "HYPE", "* * * * *", NEW_YEAR_2024);
    assert!(matches!(r, Err(AlertError::StorageUnavailable)));
    assert!(db.get_cron_alert_history().is_empty());
}

#[test]
fn reschedule_moves_to_the_next_fire_time_after_now() {
    let crons = CronService::new();
    let mut db = Database::new();
    let alert =
        crons.create_cron_alert(&mut db, &catalog(), 5, "HYPE", "* * * * *", NEW_YEAR_2024).unwrap();
    let now = NEW_YEAR_2024 + 90;
    assert_eq!(crons.reschedule(&mut db, &alert, now), Ok(NEW_YEAR_2024 + 120));
    let stored = crons.get_all_cron_alerts(&db);
    assert_eq!(stored[0].next_trigger, Some(NEW_YEAR_2024 + 120));
    assert_eq!(stored[0].last_triggered, Some(now));
    assert_eq!(stored[0].updated_at, now);
    assert!(stored[0].is_active);
}

#[test]
fn reschedule_always_advances_past_the_fired_instant() {
    let crons = CronService::new();
    let mut db = Database::new();
    let mut alert =
        crons.create_cron_alert(&mut db, &catalog(), 5, "HYPE", "*/7 * * * *", NEW_YEAR_2024).unwrap();
    let mut now = NEW_YEAR_2024;
    for step in [0, 1, 59, 60, 419, 420, 421, 3_600, 86_400] {
        now += step;
        let due = crons.get_triggered_cron_alerts(&db, now);
        if due.is_empty() {
            continue;
        }
        let previous = alert.next_trigger.unwrap();
        let next = crons.reschedule(&mut db, &due[0], now).unwrap();
        assert!(next > previous);
        assert!(next > now);
        alert = crons.get_all_cron_alerts(&db).remove(0);
        assert_eq!(alert.next_trigger, Some(next));
    }
}

#[test]
fn reschedule_with_a_broken_schedule_deactivates() {
    let crons = CronService::new();
    let broken = CronAlert {
        id: 1,
        chat_id: 5,
        coin: "HYPE".to_string(),
        token: "@107".to_string(),
        cron_schedule: "broken".to_string(),
        is_active: true,
        created_at: 0,
        updated_at: 0,
        last_triggered: None,
        next_trigger: Some(60),
    };
    let mut db = Database::load(vec![], vec![broken.clone()], 1, 2).unwrap();
    assert_eq!(crons.reschedule(&mut db, &broken, 90), Err(AlertError::SchedulingFault));
    assert!(crons.get_all_cron_alerts(&db).is_empty());
    assert!(crons.get_triggered_cron_alerts(&db, 1_000).is_empty());
    let history = db.get_cron_alert_history();
    assert!(!history[0].is_active);
    assert_eq!(history[0].updated_at, 90);
    assert_eq!(history[0].next_trigger, Some(60));
    assert_eq!(history[0].last_triggered, None);
}

#[test]
fn reschedule_of_a_deleted_alert_is_not_found() {
    let crons = CronService::new();
    let mut db = Database::new();
    let alert =
        crons.create_cron_alert(&mut db, &catalog(), 5, "HYPE", "* * * * *", NEW_YEAR_2024).unwrap();
    assert_eq!(crons.delete_cron_alert(&mut db, 1), Ok(()));
    assert_eq!(crons.reschedule(&mut db, &alert, NEW_YEAR_2024 + 90), Err(AlertError::NotFound));
    assert!(db.get_cron_alert_history().is_empty());
}

#[test]
fn cron_service_reports_absent_alerts() {
    let crons = CronService::new();
    let mut db = Database::new();
    assert_eq!(crons.deactivate_cron_alert(&mut db, 1, 0), Err(AlertError::NotFound));
    assert_eq!(crons.delete_cron_alert(&mut db, 1), Err(AlertError::NotFound));
    assert_eq!(crons.mark_cron_alert_triggered(&mut db, 1, 60, 0), Err(AlertError::NotFound));
}

#[test]
fn cron_service_marks_and_deactivates() {
    let crons = CronService::new();
    let mut db = Database::new();
    crons.create_cron_alert(&mut db, &catalog(), 5, "HYPE", "* * * * *", NEW_YEAR_2024).unwrap();
    crons.create_cron_alert(&mut db, &catalog(), 6, "PURR", "* * * * *", NEW_YEAR_2024).unwrap();
    assert_eq!(crons.mark_cron_alert_triggered(&mut db, 1, 500, 400), Ok(()));
    assert_eq!(crons.get_cron_alerts_for_chat(&db, 5)[0].next_trigger, Some(500));
    assert_eq!(crons.get_cron_alerts_for_chat(&db, 5)[0].last_triggered, Some(400));
    assert_eq!(crons.deactivate_cron_alert(&mut db, 1, 450), Ok(()));
    assert!(crons.get_cron_alerts_for_chat(&db, 5).is_empty());
    assert_eq!(cron_ids(&crons.get_all_cron_alerts(&db)), vec![2]);
}

#[test]
fn price_is_that_of_the_first_entry() {
    let crons = CronService::new();
    let mids = vec![
        MidPrice { token: "@1".to_string(), price: 10 },
        MidPrice { token: "@107".to_string(), price: 46_584 },
        MidPrice { token: "@107".to_string(), price: 1 },
    ];
    assert_eq!(crons.get_price(&mids, "@107"), Ok(46_584));
    assert_eq!(crons.get_price(&mids, "@1"), Ok(10));
}

#[test]
fn price_of_an_unquoted_token_is_unavailable() {
    let crons = CronService::new();
    let mids = vec![MidPrice { token: "@1".to_string(), price: 10 }];
    assert_eq!(crons.get_price(&mids, "@107"), Err(AlertError::PriceUnavailable));
    assert_eq!(crons.get_price(&vec![], "@1"), Err(AlertError::PriceUnavailable));
}

#[test]
fn poll_fires_each_due_alert_once() {
    let crons = CronService::new();
    let mut db = Database::new();
    crons.create_cron_alert(&mut db, &catalog(), 5, "HYPE", "* * * * *", NEW_YEAR_2024).unwrap();
    crons.create_cron_alert(&mut db, &catalog(), 5, "PURR", "0 * * * *", NEW_YEAR_2024).unwrap();
    crons.create_cron_alert(&mut db, &catalog(), 6, "PURR", "*/2 * * * *", NEW_YEAR_2024).unwrap();
    let now = NEW_YEAR_2024 + 150;
    let firings = crons.fire_due(&mut db, now);
    assert_eq!(firings.len(), 2);
    assert_eq!(firings[0].alert.id, 1);
    assert_eq!(firings[0].alert.next_trigger, Some(NEW_YEAR_2024 + 60));
    assert_eq!(firings[0].outcome, Ok(NEW_YEAR_2024 + 180));
    assert_eq!(firings[1].alert.id, 3);
    assert_eq!(firings[1].outcome, Ok(NEW_YEAR_2024 + 240));
    assert!(crons.fire_due(&mut db, now).is_empty());
    let stored = crons.get_all_cron_alerts(&db);
    assert_eq!(stored[0].next_trigger, Some(NEW_YEAR_2024 + 180));
    assert_eq!(stored[1].next_trigger, Some(NEW_YEAR_2024 + 3_600));
    assert_eq!(stored[1].last_triggered, None);
    assert_eq!(stored[2].last_triggered, Some(now));
}

#[test]
fn poll_isolates_a_scheduling_fault() {
    let crons = CronService::new();
    let row = |id: i64, schedule: &str| CronAlert {
        id,
        chat_id: 5,
        coin: "HYPE".to_string(),
        token: "@107".to_string(),
        cron_schedule: schedule.to_string(),
        is_active: true,
        created_at: 0,
        updated_at: 0,
        last_triggered: None,
        next_trigger: Some(NEW_YEAR_2024),
    };
    let mut db = Database::load(
        vec![],
        vec![row(1, "* * * * *"), row(2, "broken"), row(3, "* * * * *")],
        1,
        4,
    )
    .unwrap();
    let firings = crons.fire_due(&mut db, NEW_YEAR_2024 + 30);
    assert_eq!(firings.len(), 3);
    assert_eq!(firings[0].outcome, Ok(NEW_YEAR_2024 + 60));
    assert_eq!(firings[1].outcome, Err(AlertError::SchedulingFault));
    assert_eq!(firings[2].outcome, Ok(NEW_YEAR_2024 + 60));
    assert_eq!(cron_ids(&crons.get_all_cron_alerts(&db)), vec![1, 3]);
    assert!(!db.get_cron_alert_history()[1].is_active);
}

#[test]
fn help_changes_nothing() {
    let mut db = Database::new();
    let reply = service().handle_command(&mut db, &catalog(), 5, Command::Help, 0);
    assert!(matches!(reply, Reply::Help));
    assert!(db.get_all_alerts().is_empty());
}

#[test]
fn set_alert_stores_under_the_chat_owner_key() {
    let mut db = Database::new();
    let cmd = Command::SetAlert { coin: "HYPE".to_string(), price: 46_600 };
    let reply = service().handle_command(&mut db, &catalog(), 5, cmd, 1_000);
    match reply {
        Reply::AlertSet { coin, price } => {
            assert_eq!(coin, "HYPE");
            assert_eq!(price, 46_600);
        }
        other => panic!("unexpected reply {:?}", other),
    }
    let stored = db.get_all_alerts();
    assert_eq!(stored.len(), 1);
    assert_eq!(stored[0].public_key, "0x00");
    assert_eq!(CHAT_OWNER_KEY, "0x00");
    assert_eq!(stored[0].chat_id, 5);
    assert_eq!(stored[0].token, "@107");
    assert_eq!(stored[0].price, 46_600);
}

#[test]
fn set_alert_for_unknown_symbol_fails_and_stores_nothing() {
    let mut db = Database::new();
    let cmd = Command::SetAlert { coin: "NOPE".to_string(), price: 46_600 };
    let reply = service().handle_command(&mut db, &catalog(), 5, cmd, 1_000);
    assert!(matches!(reply, Reply::Failed { error: AlertError::UnknownAsset }));
    assert!(db.get_all_alerts().is_empty());
}

#[test]
fn alert_command_lists_the_alerts_of_the_chat() {
    let mut db = Database::new();
    let svc = service();
    for (chat, price) in [(5, 10), (6, 20), (5, 30)] {
        let cmd = Command::SetAlert { coin: "HYPE".to_string(), price };
        svc.handle_command(&mut db, &catalog(), chat, cmd, 1_000);
    }
    match svc.handle_command(&mut db, &catalog(), 5, Command::Alert, 1_000) {
        Reply::Alerts { alerts } => assert_eq!(ids(&alerts), vec![1, 3]),
        other => panic!("unexpected reply {:?}", other),
    }
}

#[test]
fn set_cron_alert_stores_an_active_alert() {
    let mut db = Database::new();
    let cmd = Command::SetCronAlert { coin: "PURR".to_string(), schedule: "0 9 * * *".to_string() };
    let reply = service().handle_command(&mut db, &catalog(), 5, cmd, NEW_YEAR_2024);
    match reply {
        Reply::CronAlertSet { coin, schedule } => {
            assert_eq!(coin, "PURR");
            assert_eq!(schedule, "0 9 * * *");
        }
        other => panic!("unexpected reply {:?}", other),
    }
    let stored = db.get_all_cron_alerts();
    assert_eq!(stored.len(), 1);
    assert_eq!(stored[0].token, "PURR/USDC");
    assert_eq!(stored[0].next_trigger, Some(NEW_YEAR_2024 + 9 * 3_600));
}

#[test]
fn set_cron_alert_judges_the_schedule_first() {
    let mut db = Database::new();
    let cmd = Command::SetCronAlert { coin: "NOPE".to_string(), schedule: "daily".to_string() };
    let reply = service().handle_command(&mut db, &catalog(), 5, cmd, NEW_YEAR_2024);
    match reply {
        Reply::InvalidSchedule { schedule } => assert_eq!(schedule, "daily"),
        other => panic!("unexpected reply {:?}", other),
    }
    let cmd = Command::SetCronAlert { coin: "NOPE".to_string(), schedule: "* * * * *".to_string() };
    let reply = service().handle_command(&mut db, &catalog(), 5, cmd, NEW_YEAR_2024);
    assert!(matches!(reply, Reply::Failed { error: AlertError::UnknownAsset }));
    assert!(db.get_cron_alert_history().is_empty());
}

#[test]
fn cron_alerts_command_lists_the_active_alerts_of_the_chat() {
    let mut db = Database::new();
    let svc = service();
    for chat in [5, 6, 5, 5] {
        let cmd =
            Command::SetCronAlert { coin: "HYPE".to_string(), schedule: "* * * * *".to_string() };
        svc.handle_command(&mut db, &catalog(), chat, cmd, NEW_YEAR_2024);
    }
    db.deactivate_cron_alert(3, NEW_YEAR_2024).unwrap();
    match svc.handle_command(&mut db, &catalog(), 5, Command::CronAlerts, NEW_YEAR_2024) {
        Reply::CronAlerts { cron_alerts } => assert_eq!(cron_ids(&cron_alerts), vec![1, 4]),
        other => panic!("unexpected reply {:?}", other),
    }
}

#[test]
fn delete_cron_alert_answers_alike_whether_it_was_there() {
    let mut db = Database::new();
    let svc = service();
    let cmd = Command::SetCronAlert { coin: "HYPE".to_string(), schedule: "* * * * *".to_string() };
    svc.handle_command(&mut db, &catalog(), 5, cmd, NEW_YEAR_2024);
    for _ in 0..2 {
        let reply = svc.handle_command(
            &mut db,
            &catalog(),
            5,
            Command::DeleteCronAlert { id: 1 },
            NEW_YEAR_2024,
        );
        assert!(matches!(reply, Reply::CronAlertDeleted { id: 1 }));
        assert!(db.get_cron_alert_history().is_empty());
    }
}
