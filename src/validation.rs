//! Field checks for raw configuration values.

use vstd::prelude::*;

use crate::text::{trim, trimmed};
use crate::urls::{accept_url, url_accepted};

verus! {

/// Update interval, in seconds, where neither the feed nor the configuration sets one.
pub const DEFAULT_UPDATE_INTERVAL: usize = 15 * 60;

/// Shortest update interval, in seconds.
pub const MIN_UPDATE_INTERVAL: usize = 5 * 60;

/// Retry budget where neither the feed nor the configuration sets one.
pub const DEFAULT_UPDATE_RETRIES: usize = 3;

pub const MIN_UPDATE_RETRIES: usize = 1;

pub const MAX_UPDATE_RETRIES: usize = 10;

/// Shortest timeout of the notification service.
pub const MIN_NOTIFICATION_TIMEOUT: usize = 1;

/// Why a raw configuration value was refused.
#[derive(Debug, PartialEq, Eq, Structural)]
pub enum ValidationError {
    EmptyUrl,
    InvalidUrlFormat,
    FeedEmptyName,
    FeedUpdateIntervalTooSmall(usize),
    FeedUpdateRetriesTooSmall(usize),
    FeedUpdateRetriesTooBig(usize),
    NotificationServiceTimeoutTooSmall(usize),
    NoActiveFeeds,
}

/// `a` where it is an error, else `b`: the first of two checks that fails.
pub open spec fn first_error(a: Result<(), ValidationError>, b: Result<(), ValidationError>) -> Result<(), ValidationError> {
    match a {
        Err(e) => Err(e),
        Ok(_) => b,
    }
}

pub open spec fn url_check(s: Seq<char>) -> Result<(), ValidationError> {
    if trimmed(s).len() == 0 {
        Err(ValidationError::EmptyUrl)
    } else if !url_accepted(trimmed(s)) {
        Err(ValidationError::InvalidUrlFormat)
    } else {
        Ok(())
    }
}

pub open spec fn feed_name_check(s: Seq<char>) -> Result<(), ValidationError> {
    if trimmed(s).len() == 0 {
        Err(ValidationError::FeedEmptyName)
    } else {
        Ok(())
    }
}

pub open spec fn update_interval_check(value: usize) -> Result<(), ValidationError> {
    if value < MIN_UPDATE_INTERVAL {
        Err(ValidationError::FeedUpdateIntervalTooSmall(value))
    } else {
        Ok(())
    }
}

pub open spec fn update_retries_check(value: usize) -> Result<(), ValidationError> {
    if value < MIN_UPDATE_RETRIES {
        Err(ValidationError::FeedUpdateRetriesTooSmall(value))
    } else if value > MAX_UPDATE_RETRIES {
        Err(ValidationError::FeedUpdateRetriesTooBig(value))
    } else {
        Ok(())
    }
}

/// The interval check, where a value is given.
pub open spec fn optional_interval_check(value: Option<usize>) -> Result<(), ValidationError> {
    match value {
        Some(v) => update_interval_check(v),
        None => Ok(()),
    }
}

/// The retry check, where a value is given.
pub open spec fn optional_retries_check(value: Option<usize>) -> Result<(), ValidationError> {
    match value {
        Some(v) => update_retries_check(v),
        None => Ok(()),
    }
}

/// Refuses a URL that is empty once trimmed, then one whose trimmed form is
/// not an absolute URL with a host.
pub fn validate_url(value: &str) -> (r: Result<(), ValidationError>)
    ensures
        r == url_check(value@),
{
    let value = trim(value);
    if value.is_empty() {
        return Err(ValidationError::EmptyUrl);
    }
    match accept_url(value) {
        Ok(_) => Ok(()),
        Err(_) => Err(ValidationError::InvalidUrlFormat),
    }
}

/// Refuses a name that is empty once trimmed.
pub fn validate_feed_name(value: &str) -> (r: Result<(), ValidationError>)
    ensures
        r == feed_name_check(value@),
{
    if trim(value).is_empty() {
        return Err(ValidationError::FeedEmptyName);
    }
    Ok(())
}

/// Refuses an interval below five minutes.
pub fn validate_feed_update_interval(value: usize) -> (r: Result<(), ValidationError>)
    ensures
        r == update_interval_check(value),
{
    if value < MIN_UPDATE_INTERVAL {
        return Err(ValidationError::FeedUpdateIntervalTooSmall(value));
    }
    Ok(())
}

/// Refuses a retry budget outside `1..=10`.
pub fn validate_feed_update_retries(value: usize) -> (r: Result<(), ValidationError>)
    ensures
        r == update_retries_check(value),
{
    if value < MIN_UPDATE_RETRIES {
        return Err(ValidationError::FeedUpdateRetriesTooSmall(value));
    }
    if value > MAX_UPDATE_RETRIES {
        return Err(ValidationError::FeedUpdateRetriesTooBig(value));
    }
    Ok(())
}

} // verus!
