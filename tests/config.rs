use rss_parser::config::{
    Config, FeedConfig, NotificationServiceConfig, RawConfig, RawFeedConfig,
    RawNotificationServiceConfig,
};
use rss_parser::defaults::{resolve, resolve_option};
use rss_parser::validation::ValidationError;

fn raw_feed(name: &str, url: &str, interval: Option<usize>, retries: Option<usize>, active: Option<bool>) -> RawFeedConfig {
    RawFeedConfig {
        name: name.to_string(),
        url: url.to_string(),
        update_interval: interval,
        update_retries: retries,
        active,
    }
}

fn notification() -> RawNotificationServiceConfig {
    RawNotificationServiceConfig { url: "http://notify.test/".to_string(), timeout: 5 }
}

#[test]
fn resolution_prefers_feed_then_global_then_fallback() {
    assert_eq!(resolve(Some(1), Some(2), 3), 1);
    assert_eq!(resolve(None, Some(2), 3), 2);
    assert_eq!(resolve(None, None, 3), 3);
    assert_eq!(resolve_option(Some(1), Some(2)), Some(1));
    assert_eq!(resolve_option(None, Some(2)), Some(2));
    assert_eq!(resolve_option::<u8>(None, None), None);
}

#[test]
fn feed_config_cascades_defaults_independently() {
    let c = FeedConfig::try_from_raw_feed_config(
        raw_feed("A", "http://a.test/", Some(600), None, None),
        Some(1200),
        Some(7),
    )
    .unwrap();
    assert_eq!(c.update_interval, 600);
    assert_eq!(c.update_retries, 7);
    let c = FeedConfig::try_from_raw_feed_config(
        raw_feed("A", "http://a.test/", None, Some(2), None),
        None,
        Some(7),
    )
    .unwrap();
    assert_eq!(c.update_interval, 15 * 60);
    assert_eq!(c.update_retries, 2);
    assert_eq!(c.name, "A");
    assert_eq!(c.url, "http://a.test/");
}

#[test]
fn raw_feed_checks_in_order() {
    assert_eq!(
        raw_feed(" ", "", Some(1), Some(0), None).validate(),
        Err(ValidationError::FeedEmptyName)
    );
    assert_eq!(
        raw_feed("A", "nope", Some(1), None, None).validate(),
        Err(ValidationError::InvalidUrlFormat)
    );
    assert_eq!(
        raw_feed("A", "http://a.test/", Some(1), Some(0), None).validate(),
        Err(ValidationError::FeedUpdateIntervalTooSmall(1))
    );
    assert_eq!(
        raw_feed("A", "http://a.test/", None, Some(0), None).validate(),
        Err(ValidationError::FeedUpdateRetriesTooSmall(0))
    );
}

#[test]
fn notification_timeout_must_be_positive() {
    let raw = RawNotificationServiceConfig { url: "http://n.test/".to_string(), timeout: 0 };
    assert_eq!(raw.validate_timeout(), Err(ValidationError::NotificationServiceTimeoutTooSmall(0)));
    assert_eq!(raw.validate(), Err(ValidationError::NotificationServiceTimeoutTooSmall(0)));
    let c = NotificationServiceConfig::from_raw(notification()).unwrap();
    assert_eq!(c.timeout, 5);
    let bad = RawNotificationServiceConfig { url: String::new(), timeout: 5 };
    assert_eq!(bad.validate(), Err(ValidationError::EmptyUrl));
}

#[test]
fn inactive_feeds_are_dropped_unchecked() {
    let raw = RawConfig {
        feeds: vec![
            raw_feed("off", "not a url", None, None, Some(false)),
            raw_feed("on", "http://on.test/", None, None, None),
            raw_feed("also", "http://also.test/", Some(900), None, Some(true)),
        ],
        update_interval: Some(600),
        update_retries: Some(4),
        notification_service: notification(),
    };
    let c = Config::from_raw(raw).unwrap();
    assert_eq!(c.feeds.len(), 2);
    assert_eq!(c.feeds[0].name, "on");
    assert_eq!(c.feeds[0].update_interval, 600);
    assert_eq!(c.feeds[0].update_retries, 4);
    assert_eq!(c.feeds[1].update_interval, 900);
    assert_eq!(c.notification_service.url, "http://notify.test/");
}

#[test]
fn no_active_feed_is_an_error() {
    let raw = RawConfig {
        feeds: vec![raw_feed("off", "http://off.test/", None, None, Some(false))],
        update_interval: None,
        update_retries: None,
        notification_service: notification(),
    };
    assert!(matches!(Config::from_raw(raw), Err(ValidationError::NoActiveFeeds)));
    let empty = RawConfig {
        feeds: vec![],
        update_interval: None,
        update_retries: None,
        notification_service: notification(),
    };
    assert!(matches!(Config::from_raw(empty), Err(ValidationError::NoActiveFeeds)));
}

#[test]
fn invalid_global_default_is_reported_first() {
    let raw = RawConfig {
        feeds: vec![],
        update_interval: Some(10),
        update_retries: None,
        notification_service: notification(),
    };
    assert_eq!(raw.validate(), Err(ValidationError::FeedUpdateIntervalTooSmall(10)));
    assert!(matches!(
        Config::from_raw(raw),
        Err(ValidationError::FeedUpdateIntervalTooSmall(10))
    ));
}

#[test]
fn first_invalid_active_feed_decides() {
    let raw = RawConfig {
        feeds: vec![
            raw_feed("ok", "http://ok.test/", None, None, None),
            raw_feed("", "http://x.test/", None, None, None),
            raw_feed("bad", "", None, None, None),
        ],
        update_interval: None,
        update_retries: None,
        notification_service: RawNotificationServiceConfig { url: String::new(), timeout: 0 },
    };
    assert!(matches!(Config::from_raw(raw), Err(ValidationError::FeedEmptyName)));
}

#[test]
fn notification_service_checked_after_feeds() {
    let raw = RawConfig {
        feeds: vec![raw_feed("ok", "http://ok.test/", None, None, None)],
        update_interval: None,
        update_retries: None,
        notification_service: RawNotificationServiceConfig { url: "http://n.test/".to_string(), timeout: 0 },
    };
    assert!(matches!(
        Config::from_raw(raw),
        Err(ValidationError::NotificationServiceTimeoutTooSmall(0))
    ));
}

#[test]
fn feed_config_keeps_trimmed_name() {
    let c = FeedConfig::try_from_raw_feed_config(
        raw_feed("  Spaced Name \t", "http://a.test/", None, None, None),
        None,
        None,
    )
    .unwrap();
    assert_eq!(c.name, "Spaced Name");
    assert_eq!(c.url, "http://a.test/");
}

#[test]
fn resolved_global_defaults_are_checked() {
    let r = FeedConfig::try_from_raw_feed_config(
        raw_feed("A", "http://a.test/", None, None, None),
        Some(1),
        None,
    );
    assert!(matches!(r, Err(ValidationError::FeedUpdateIntervalTooSmall(1))));
    let r = FeedConfig::try_from_raw_feed_config(
        raw_feed("A", "http://a.test/", None, None, None),
        None,
        Some(11),
    );
    assert!(matches!(r, Err(ValidationError::FeedUpdateRetriesTooBig(11))));
    let c = FeedConfig::try_from_raw_feed_config(
        raw_feed("A", "http://a.test/", Some(300), Some(2), None),
        Some(1),
        Some(11),
    )
    .unwrap();
    assert_eq!(c.update_interval, 300);
    assert_eq!(c.update_retries, 2);
}
