use rss_parser::errors::FeedError;
use rss_parser::urls::UrlError;
use rss_parser::settings::{Config, ConfigError, FeedDTO, QueueConfig, QueueError, RawConfig};

fn dto(name: &str, url: &str, interval: Option<u64>, retries: Option<usize>, active: Option<bool>) -> FeedDTO {
    FeedDTO {
        name: name.to_string(),
        url: url.to_string(),
        update_interval: interval,
        update_retries: retries,
        active,
    }
}

fn queue() -> QueueConfig {
    QueueConfig {
        endpoint: "amqp://localhost:5672".to_string(),
        exchange_name: "news".to_string(),
        username: "guest".to_string(),
        password: "guest".to_string(),
    }
}

#[test]
fn queue_fields_must_not_be_empty() {
    assert_eq!(queue().validate(), Ok(()));
    let mut q = queue();
    q.endpoint.clear();
    assert_eq!(q.validate(), Err(QueueError::EmptyEndpoint));
    let mut q = queue();
    q.exchange_name.clear();
    assert_eq!(q.validate(), Err(QueueError::EmptyExchangeName));
    let mut q = queue();
    q.username.clear();
    assert_eq!(q.validate(), Err(QueueError::EmptyUsername));
    let mut q = queue();
    q.password.clear();
    assert_eq!(q.validate(), Err(QueueError::EmptyPassword));
}

#[test]
fn dto_builds_trimmed_feed_with_cascaded_defaults() {
    let f = dto("  News  ", " https://Example.com/rss ", None, Some(5), None)
        .try_into_feed(Some(30), Some(2))
        .unwrap();
    assert_eq!(f.name().as_str(), "News");
    assert_eq!(f.url().as_str(), "https://example.com/rss");
    assert_eq!(f.update_interval().as_secs(), 30 * 60);
    assert_eq!(f.update_retries().as_usize(), 5);
    let g = dto("N", "https://example.com/", None, None, None)
        .try_into_feed(None, None)
        .unwrap();
    assert_eq!(g.update_interval().as_secs(), 15 * 60);
    assert_eq!(g.update_retries().as_usize(), 3);
}

#[test]
fn dto_reports_first_bad_field() {
    assert!(matches!(
        dto(" ", "", Some(1), Some(0), None).try_into_feed(None, None),
        Err(FeedError::EmptyName)
    ));
    assert!(matches!(
        dto("A", "  ", Some(1), Some(0), None).try_into_feed(None, None),
        Err(FeedError::EmptyUrl)
    ));
    assert!(matches!(
        dto("A", "no scheme", Some(1), Some(0), None).try_into_feed(None, None),
        Err(FeedError::InvalidUrl(_))
    ));
    assert!(matches!(
        dto("A", "http://a.test/", None, Some(0), None).try_into_feed(Some(4), None),
        Err(FeedError::InvalidUpdateInterval { min: 5, got: 4 })
    ));
    assert!(matches!(
        dto("A", "http://a.test/", None, None, None).try_into_feed(None, Some(11)),
        Err(FeedError::InvalidUpdateRetries { min: 1, max: 10, got: 11 })
    ));
}

#[test]
fn settings_keep_active_feeds_in_order() {
    let raw = RawConfig {
        feeds: vec![
            dto("one", "http://one.test/", None, None, None),
            dto("off", "::bad::", Some(0), Some(99), Some(false)),
            dto("two", "http://two.test/", Some(45), None, Some(true)),
        ],
        update_interval: Some(20),
        update_retries: Some(6),
        queue: queue(),
    };
    let c = Config::from_raw(raw).unwrap().unwrap();
    assert_eq!(c.feeds.len(), 2);
    assert_eq!(c.feeds[0].name().as_str(), "one");
    assert_eq!(c.feeds[0].update_interval().as_secs(), 20 * 60);
    assert_eq!(c.feeds[0].update_retries().as_usize(), 6);
    assert_eq!(c.feeds[1].name().as_str(), "two");
    assert_eq!(c.feeds[1].update_interval().as_secs(), 45 * 60);
    assert_eq!(c.queue.exchange_name, "news");
}

#[test]
fn settings_without_active_feed_fail() {
    let raw = RawConfig {
        feeds: vec![dto("off", "http://off.test/", None, None, Some(false))],
        update_interval: None,
        update_retries: None,
        queue: queue(),
    };
    assert!(matches!(Config::from_raw(raw).unwrap(), Err(ConfigError::NoActiveFeeds)));
}

#[test]
fn settings_report_globals_then_queue_then_feeds() {
    let raw = RawConfig {
        feeds: vec![dto("", "", None, None, None)],
        update_interval: Some(3),
        update_retries: None,
        queue: queue(),
    };
    assert!(matches!(
        Config::from_raw(raw).unwrap(),
        Err(ConfigError::FeedError(FeedError::InvalidUpdateInterval { min: 5, got: 3 }))
    ));
    let raw = RawConfig {
        feeds: vec![dto("", "", None, None, None)],
        update_interval: None,
        update_retries: Some(0),
        queue: queue(),
    };
    assert!(matches!(
        Config::from_raw(raw).unwrap(),
        Err(ConfigError::FeedError(FeedError::InvalidUpdateRetries { min: 1, max: 10, got: 0 }))
    ));
    let mut q = queue();
    q.username.clear();
    let raw = RawConfig {
        feeds: vec![dto("", "", None, None, None)],
        update_interval: None,
        update_retries: None,
        queue: q,
    };
    assert!(matches!(
        Config::from_raw(raw).unwrap(),
        Err(ConfigError::QueueError(QueueError::EmptyUsername))
    ));
    let raw = RawConfig {
        feeds: vec![
            dto("fine", "http://fine.test/", None, None, None),
            dto("broken", "http://broken.test/", None, Some(12), None),
        ],
        update_interval: None,
        update_retries: None,
        queue: queue(),
    };
    assert!(matches!(
        Config::from_raw(raw).unwrap(),
        Err(ConfigError::FeedError(FeedError::InvalidUpdateRetries { got: 12, .. }))
    ));
}

#[test]
fn interval_too_large_for_seconds_gives_none() {
    let raw = RawConfig {
        feeds: vec![dto("big", "http://big.test/", Some(u64::MAX), None, None)],
        update_interval: None,
        update_retries: None,
        queue: queue(),
    };
    assert!(Config::from_raw(raw).is_none());
}

#[test]
fn large_intervals_that_are_never_built_are_harmless() {
    let raw = RawConfig {
        feeds: vec![
            dto("off", "http://off.test/", Some(u64::MAX), None, Some(false)),
            dto("", "http://noname.test/", Some(u64::MAX), None, None),
        ],
        update_interval: Some(u64::MAX),
        update_retries: None,
        queue: queue(),
    };
    assert!(matches!(
        Config::from_raw(raw),
        Some(Err(ConfigError::FeedError(FeedError::EmptyName)))
    ));
    let raw = RawConfig {
        feeds: vec![
            dto("bad", "http://bad.test/", None, Some(0), None),
            dto("big", "http://big.test/", Some(u64::MAX), None, None),
        ],
        update_interval: None,
        update_retries: None,
        queue: queue(),
    };
    assert!(matches!(
        Config::from_raw(raw),
        Some(Err(ConfigError::FeedError(FeedError::InvalidUpdateRetries { got: 0, .. })))
    ));
}

#[test]
fn hostless_feed_url_is_refused_with_reason() {
    assert!(matches!(
        dto("A", "mailto:a@b.c", None, None, None).try_into_feed(None, None),
        Err(FeedError::InvalidUrl(UrlError::MissingHost))
    ));
}
