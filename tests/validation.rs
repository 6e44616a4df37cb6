use rss_parser::validation::{
    validate_feed_name, validate_feed_update_interval, validate_feed_update_retries, validate_url,
    ValidationError, MIN_UPDATE_INTERVAL,
};

#[test]
fn test_empty_url() {
    let result = validate_url("");
    assert_eq!(result, Err(ValidationError::EmptyUrl));
}

#[test]
fn test_invalid_url() {
    let result = validate_url("not-a-url");
    assert_eq!(result, Err(ValidationError::InvalidUrlFormat));
}

#[test]
fn validation_test_valid_url() {
    let result = validate_url("http://localhsot");
    assert_eq!(result, Ok(()));
}

#[test]
fn test_empty_feed_name() {
    let result = validate_feed_name("");
    assert_eq!(result, Err(ValidationError::FeedEmptyName));
}

#[test]
fn test_valid_feed_name() {
    let result = validate_feed_name("feed");
    assert_eq!(result, Ok(()));
}

#[test]
fn test_feed_too_small_update_interval() {
    const INVALID_UPDATE_INTERVAL: usize = 5;
    let result = validate_feed_update_interval(INVALID_UPDATE_INTERVAL);
    assert_eq!(
        result,
        Err(ValidationError::FeedUpdateIntervalTooSmall(INVALID_UPDATE_INTERVAL))
    );
}

#[test]
fn test_feed_valid_update_interval() {
    let result = validate_feed_update_interval(MIN_UPDATE_INTERVAL);
    assert_eq!(result, Ok(()));
}

#[test]
fn test_feed_too_small_update_retries() {
    const INVALID_UPDATE_RETRIES: usize = 0;
    let result = validate_feed_update_retries(INVALID_UPDATE_RETRIES);
    assert_eq!(
        result,
        Err(ValidationError::FeedUpdateRetriesTooSmall(INVALID_UPDATE_RETRIES))
    );
}

#[test]
fn test_feed_too_big_update_retries() {
    const INVALID_UPDATE_RETRIES: usize = 20;
    let result = validate_feed_update_retries(INVALID_UPDATE_RETRIES);
    assert_eq!(
        result,
        Err(ValidationError::FeedUpdateRetriesTooBig(INVALID_UPDATE_RETRIES))
    );
}

#[test]
fn whitespace_only_url_is_empty() {
    assert_eq!(validate_url(" \t\n "), Err(ValidationError::EmptyUrl));
}

#[test]
fn whitespace_only_feed_name_is_empty() {
    assert_eq!(validate_feed_name("   "), Err(ValidationError::FeedEmptyName));
}

#[test]
fn interval_just_below_floor_is_refused() {
    assert_eq!(
        validate_feed_update_interval(299),
        Err(ValidationError::FeedUpdateIntervalTooSmall(299))
    );
}

#[test]
fn retries_bounds_are_accepted() {
    assert_eq!(validate_feed_update_retries(1), Ok(()));
    assert_eq!(validate_feed_update_retries(10), Ok(()));
    assert_eq!(
        validate_feed_update_retries(11),
        Err(ValidationError::FeedUpdateRetriesTooBig(11))
    );
}

#[test]
fn url_is_checked_once_trimmed() {
    assert_eq!(validate_url("  http://a.test/x \u{A0}"), Ok(()));
}

#[test]
fn url_without_host_is_refused() {
    assert_eq!(validate_url("mailto:a@b.c"), Err(ValidationError::InvalidUrlFormat));
    assert_eq!(validate_url("data:,x"), Err(ValidationError::InvalidUrlFormat));
}
