use ats_bot::collector::{active_status, CollectorAction, CollectorEvent, UserCollector};
use ats_bot::config::{
    AppConfig, CredentialsConfig, DbConfig, DriverType, Duration, ServerConfig,
    UserCollectorConfig,
};

fn test_config() -> AppConfig {
    AppConfig {
        log_level: "debug".to_string(),
        user_collector: UserCollectorConfig {
            update_interval: Duration::from_secs(60),
            deactivate_after: Duration::from_secs(600),
            cleanup_after: Duration::from_secs(7 * 86400),
            cleanup_interval: Duration::from_secs(3600),
        },
        db: DbConfig {
            driver: DriverType::Postgres,
            database: "db".to_string(),
            host: "localhost".to_string(),
            port: 5432,
            credentials: CredentialsConfig {
                username: "u".to_string(),
                password: "p".to_string(),
            },
        },
        server: ServerConfig { recv_buf: 1024, host: "127.0.0.1".to_string(), port: 8080 },
    }
}

fn strings(v: &[&str]) -> Vec<String> {
    v.iter().map(|s| s.to_string()).collect()
}

#[test]
fn test_new() {
    let collector = UserCollector::new(test_config());
    assert!(collector.get_active_ids().is_empty());
}

#[test]
fn test_get_active_ids() {
    let mut collector = UserCollector::new(test_config());
    let a = collector.handle_event(CollectorEvent::ActiveIdsFetched(Some(strings(&["id1", "id2"]))));
    assert_eq!(a, CollectorAction::Wait);
    assert_eq!(collector.get_active_ids(), strings(&["id1", "id2"]));
}

#[test]
fn test_start_collecting_initial_fetch() {
    let mut collector = UserCollector::new(test_config());
    assert_eq!(collector.handle_event(CollectorEvent::Started), CollectorAction::FetchActiveIds);
    let a = collector
        .handle_event(CollectorEvent::ActiveIdsFetched(Some(strings(&["start1", "start2"]))));
    assert_eq!(a, CollectorAction::Wait);
    assert_eq!(collector.get_active_ids(), strings(&["start1", "start2"]));
    assert_eq!(collector.handle_event(CollectorEvent::Cancelled), CollectorAction::Stop);
}

#[test]
fn test_start_collecting_periodic_tasks() {
    let mut cfg = test_config();
    cfg.user_collector.update_interval = Duration::from_millis(100);
    cfg.user_collector.cleanup_interval = Duration::from_millis(200);
    let mut collector = UserCollector::new(cfg);
    assert_eq!(collector.handle_event(CollectorEvent::Started), CollectorAction::FetchActiveIds);
    collector.handle_event(CollectorEvent::ActiveIdsFetched(Some(strings(&["start"]))));
    assert_eq!(collector.get_active_ids(), strings(&["start"]));
    assert_eq!(
        collector.handle_event(CollectorEvent::UpdateTick),
        CollectorAction::DeactivateOldUsers { timeout_minutes: 10 }
    );
    assert_eq!(
        collector.handle_event(CollectorEvent::OldUsersDeactivated(Some(5))),
        CollectorAction::FetchActiveIds
    );
    collector.handle_event(CollectorEvent::ActiveIdsFetched(Some(strings(&["after_update"]))));
    assert_eq!(collector.get_active_ids(), strings(&["after_update"]));
    assert_eq!(
        collector.handle_event(CollectorEvent::CleanupTick),
        CollectorAction::CleanupOldUsers { days: 7 }
    );
    assert_eq!(
        collector.handle_event(CollectorEvent::OldUsersCleanedUp(Some(0))),
        CollectorAction::Wait
    );
    assert_eq!(collector.handle_event(CollectorEvent::Cancelled), CollectorAction::Stop);
}

#[test]
fn failed_fetch_keeps_previous_list() {
    let mut collector = UserCollector::new(test_config());
    collector.handle_event(CollectorEvent::ActiveIdsFetched(Some(strings(&["a"]))));
    assert_eq!(
        collector.handle_event(CollectorEvent::OldUsersDeactivated(None)),
        CollectorAction::FetchActiveIds
    );
    collector.handle_event(CollectorEvent::ActiveIdsFetched(None));
    assert_eq!(collector.get_active_ids(), strings(&["a"]));
}

#[test]
fn test_is_user_active() {
    assert!(active_status(Some(true)));
    assert!(!active_status(Some(false)));
    assert!(!active_status(None));
}
