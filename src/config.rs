//! Application settings: the feeds to poll and the notification service,
//! checked and completed with defaults.

use vstd::prelude::*;

use crate::defaults::{resolve, resolved};
use crate::text::{trim, trimmed};
use crate::validation::{
    first_error, optional_interval_check, optional_retries_check, update_interval_check,
    update_retries_check, url_check, feed_name_check,
    validate_feed_name, validate_feed_update_interval, validate_feed_update_retries, validate_url,
    ValidationError, DEFAULT_UPDATE_INTERVAL, DEFAULT_UPDATE_RETRIES, MIN_NOTIFICATION_TIMEOUT,
};

verus! {

/// Why the settings could not be loaded.
#[derive(Debug)]
pub enum ConfigError {
    FileReadError(std::io::Error),
    TomlParseError(toml::de::Error),
    ValidationError(ValidationError),
}

/// One feed as written in the settings, before any check.
#[derive(Debug)]
pub struct RawFeedConfig {
    pub name: String,
    pub url: String,
    pub update_interval: Option<usize>,
    pub update_retries: Option<usize>,
    pub active: Option<bool>,
}

/// One checked feed, with its defaults filled in.
#[derive(Debug)]
pub struct FeedConfig {
    pub name: String,
    pub url: String,
    /// Seconds between two polls.
    pub update_interval: usize,
    /// Most attempts per poll.
    pub update_retries: usize,
}

impl RawFeedConfig {
    /// The name, the URL, and then the interval and budget where given, in
    /// that order; the first failing check decides.
    pub open spec fn spec_validate(&self) -> Result<(), ValidationError> {
        first_error(
            feed_name_check(self.name@),
            first_error(
                url_check(self.url@),
                first_error(
                    optional_interval_check(self.update_interval),
                    optional_retries_check(self.update_retries),
                ),
            ),
        )
    }

    /// A feed is active unless it says otherwise.
    pub open spec fn is_active(&self) -> bool {
        self.active != Some(false)
    }

    pub fn validate(&self) -> (r: Result<(), ValidationError>)
        ensures
            r == self.spec_validate(),
    {
        validate_feed_name(self.name.as_str())?;
        validate_url(self.url.as_str())?;
        if let Some(value) = self.update_interval {
            validate_feed_update_interval(value)?;
        }
        if let Some(value) = self.update_retries {
            validate_feed_update_retries(value)?;
        }
        Ok(())
    }
}

/// `c` is the checked form of `raw`: its name trimmed, and its interval and
/// budget filled from its own value, else the global defaults
/// `update_interval` and `update_retries`, else the built-in ones.
pub open spec fn feed_config_built_from(
    c: FeedConfig,
    raw: RawFeedConfig,
    update_interval: Option<usize>,
    update_retries: Option<usize>,
) -> bool {
    &&& c.name@ == trimmed(raw.name@)
    &&& c.url == raw.url
    &&& c.update_interval == resolved(raw.update_interval, update_interval, DEFAULT_UPDATE_INTERVAL)
    &&& c.update_retries == resolved(raw.update_retries, update_retries, DEFAULT_UPDATE_RETRIES)
}

impl RawFeedConfig {
    /// The feed's own checks, then the interval and the budget that apply
    /// once the global defaults `update_interval` and `update_retries` fill
    /// what the feed leaves out.
    pub open spec fn spec_check_with(
        &self,
        update_interval: Option<usize>,
        update_retries: Option<usize>,
    ) -> Result<(), ValidationError> {
        first_error(
            self.spec_validate(),
            first_error(
                update_interval_check(
                    resolved(self.update_interval, update_interval, DEFAULT_UPDATE_INTERVAL),
                ),
                update_retries_check(
                    resolved(self.update_retries, update_retries, DEFAULT_UPDATE_RETRIES),
                ),
            ),
        )
    }
}

impl FeedConfig {
    /// Checks `raw_feed`, fills its interval and budget from its own value,
    /// else the global default, else the built-in default, checks the values
    /// that result, and keeps its trimmed name.
    pub fn try_from_raw_feed_config(
        raw_feed: RawFeedConfig,
        update_interval: Option<usize>,
        update_retries: Option<usize>,
    ) -> (r: Result<FeedConfig, ValidationError>)
        ensures
            match r {
                Ok(c) => raw_feed.spec_check_with(update_interval, update_retries) is Ok
                    && feed_config_built_from(c, raw_feed, update_interval, update_retries),
                Err(e) => raw_feed.spec_check_with(update_interval, update_retries) == Err::<
                    (),
                    ValidationError,
                >(e),
            },
    {
        raw_feed.validate()?;
        let interval = resolve(raw_feed.update_interval, update_interval, DEFAULT_UPDATE_INTERVAL);
        validate_feed_update_interval(interval)?;
        let retries = resolve(raw_feed.update_retries, update_retries, DEFAULT_UPDATE_RETRIES);
        validate_feed_update_retries(retries)?;
        let name = trim(raw_feed.name.as_str()).to_owned();
        Ok(
            FeedConfig {
                name,
                url: raw_feed.url,
                update_interval: interval,
                update_retries: retries,
            },
        )
    }
}

/// The notification service as written in the settings.
#[derive(Debug)]
pub struct RawNotificationServiceConfig {
    pub url: String,
    pub timeout: usize,
}

/// The checked notification service.
#[derive(Debug)]
pub struct NotificationServiceConfig {
    pub url: String,
    pub timeout: usize,
}

pub open spec fn timeout_check(timeout: usize) -> Result<(), ValidationError> {
    if timeout < MIN_NOTIFICATION_TIMEOUT {
        Err(ValidationError::NotificationServiceTimeoutTooSmall(timeout))
    } else {
        Ok(())
    }
}

impl RawNotificationServiceConfig {
    pub open spec fn spec_validate(&self) -> Result<(), ValidationError> {
        first_error(url_check(self.url@), timeout_check(self.timeout))
    }

    /// The URL, then the timeout.
    pub fn validate(&self) -> (r: Result<(), ValidationError>)
        ensures
            r == self.spec_validate(),
    {
        validate_url(self.url.as_str())?;
        self.validate_timeout()?;
        Ok(())
    }

    /// Refuses a timeout below one.
    pub fn validate_timeout(&self) -> (r: Result<(), ValidationError>)
        ensures
            r == timeout_check(self.timeout),
    {
        if self.timeout < MIN_NOTIFICATION_TIMEOUT {
            return Err(ValidationError::NotificationServiceTimeoutTooSmall(self.timeout));
        }
        Ok(())
    }
}

impl NotificationServiceConfig {
    pub fn from_raw(raw_config: RawNotificationServiceConfig) -> (r: Result<
        Self,
        ValidationError,
    >)
        ensures
            match r {
                Ok(c) => raw_config.spec_validate() is Ok && c.url == raw_config.url && c.timeout
                    == raw_config.timeout,
                Err(e) => raw_config.spec_validate() == Err::<(), ValidationError>(e),
            },
    {
        raw_config.validate()?;
        Ok(NotificationServiceConfig { url: raw_config.url, timeout: raw_config.timeout })
    }
}

/// The feeds of `feeds` that are active, in order.
pub open spec fn active_feeds(feeds: Seq<RawFeedConfig>) -> Seq<RawFeedConfig>
    decreases feeds.len(),
{
    if feeds.len() == 0 {
        Seq::empty()
    } else if feeds.last().is_active() {
        active_feeds(feeds.drop_last()).push(feeds.last())
    } else {
        active_feeds(feeds.drop_last())
    }
}

/// The check of the first feed of `feeds` that fails, given the global
/// defaults.
pub open spec fn first_feed_error(
    feeds: Seq<RawFeedConfig>,
    update_interval: Option<usize>,
    update_retries: Option<usize>,
) -> Result<(), ValidationError>
    decreases feeds.len(),
{
    if feeds.len() == 0 {
        Ok(())
    } else {
        first_error(
            first_feed_error(feeds.drop_last(), update_interval, update_retries),
            feeds.last().spec_check_with(update_interval, update_retries),
        )
    }
}

/// The settings as written, before any check.
#[derive(Debug)]
pub struct RawConfig {
    pub feeds: Vec<RawFeedConfig>,
    /// Global default interval, in seconds.
    pub update_interval: Option<usize>,
    /// Global default retry budget.
    pub update_retries: Option<usize>,
    pub notification_service: RawNotificationServiceConfig,
}

/// The checked settings.
#[derive(Debug)]
pub struct Config {
    /// The active feeds, in the order written.
    pub feeds: Vec<FeedConfig>,
    pub notification_service: NotificationServiceConfig,
}

impl RawConfig {
    /// The global defaults, where given.
    pub open spec fn spec_validate(&self) -> Result<(), ValidationError> {
        first_error(
            optional_interval_check(self.update_interval),
            optional_retries_check(self.update_retries),
        )
    }

    /// The outcome of checking the whole settings: the global defaults, then
    /// that some feed is active, then each active feed in order (an inactive
    /// one is never checked), then the notification service.
    pub open spec fn spec_check(&self) -> Result<(), ValidationError> {
        let active = active_feeds(self.feeds@);
        first_error(
            self.spec_validate(),
            if active.len() == 0 {
                Err(ValidationError::NoActiveFeeds)
            } else {
                first_error(
                    first_feed_error(active, self.update_interval, self.update_retries),
                    self.notification_service.spec_validate(),
                )
            },
        )
    }

    /// Checks the global defaults.
    pub fn validate(&self) -> (r: Result<(), ValidationError>)
        ensures
            r == self.spec_validate(),
    {
        if let Some(value) = self.update_interval {
            validate_feed_update_interval(value)?;
        }
        if let Some(value) = self.update_retries {
            validate_feed_update_retries(value)?;
        }
        Ok(())
    }
}

impl Config {
    /// Checks `raw_config`, drops its inactive feeds, and fills each active
    /// feed's interval and budget from its own value, else the global default,
    /// else the built-in one. Fails with the first failing check of
    /// [`RawConfig::spec_check`].
    pub fn from_raw(raw_config: RawConfig) -> (r: Result<Self, ValidationError>)
        ensures
            match r {
                Ok(c) => {
                    let active = active_feeds(raw_config.feeds@);
                    &&& raw_config.spec_check() is Ok
                    &&& c.feeds@.len() == active.len()
                    &&& forall|i: int|
                        0 <= i < active.len() ==> feed_config_built_from(
                            #[trigger] c.feeds@[i],
                            active[i],
                            raw_config.update_interval,
                            raw_config.update_retries,
                        )
                    &&& c.notification_service.url == raw_config.notification_service.url
                    &&& c.notification_service.timeout == raw_config.notification_service.timeout
                },
                Err(e) => raw_config.spec_check() == Err::<(), ValidationError>(e),
            },
    {
        raw_config.validate()?;
        let ghost rc = raw_config;
        let RawConfig { feeds, update_interval, update_retries, notification_service } = raw_config;
        let ghost all = feeds@;
        let mut rest = feeds;
        let mut active: Vec<RawFeedConfig> = Vec::new();
        let n = rest.len();
        let mut i: usize = 0;
        assert(all.subrange(0, 0) =~= Seq::<RawFeedConfig>::empty());
        while i < n
            invariant
                n == all.len(),
                i <= n,
                rest@ == all.subrange(i as int, n as int),
                active@ == active_feeds(all.subrange(0, i as int)),
                all == rc.feeds@,
            decreases n - i,
        {
            assert(all.subrange(0, i + 1).drop_last() =~= all.subrange(0, i as int));
            let f = rest.remove(0);
            assert(rest@ =~= all.subrange(i + 1, n as int));
            if f.active.unwrap_or(true) {
                active.push(f);
            }
            i = i + 1;
        }
        assert(all.subrange(0, n as int) =~= all);
        if active.len() == 0 {
            return Err(ValidationError::NoActiveFeeds);
        }
        let ghost chosen = active@;
        let m = active.len();
        let mut built: Vec<FeedConfig> = Vec::new();
        let mut j: usize = 0;
        assert(chosen.subrange(0, 0) =~= Seq::<RawFeedConfig>::empty());
        while j < m
            invariant
                m == chosen.len(),
                j <= m,
                active@ == chosen.subrange(j as int, m as int),
                first_feed_error(chosen.subrange(0, j as int), update_interval, update_retries) is Ok,
                built@.len() == j,
                forall|k: int|
                    0 <= k < j ==> feed_config_built_from(
                        #[trigger] built@[k],
                        chosen[k],
                        update_interval,
                        update_retries,
                    ),
                rc == raw_config,
                rc.spec_validate() is Ok,
                chosen == active_feeds(rc.feeds@),
                update_interval == rc.update_interval,
                update_retries == rc.update_retries,
                notification_service == rc.notification_service,
            decreases m - j,
        {
            assert(chosen.subrange(0, j + 1).drop_last() =~= chosen.subrange(0, j as int));
            let f = active.remove(0);
            assert(active@ =~= chosen.subrange(j + 1, m as int));
            assert(chosen.subrange(0, j + 1).last() == f);
            match FeedConfig::try_from_raw_feed_config(f, update_interval, update_retries) {
                Ok(c) => built.push(c),
                Err(e) => {
                    proof {
                        let prefix = chosen.subrange(0, j as int + 1);
                        assert(first_feed_error(prefix, update_interval, update_retries)
                            == first_error(
                            first_feed_error(prefix.drop_last(), update_interval, update_retries),
                            prefix.last().spec_check_with(update_interval, update_retries),
                        ));
                        assert(first_feed_error(prefix, update_interval, update_retries) == Err::<
                            (),
                            ValidationError,
                        >(e));
                        lemma_first_error_persists(
                            chosen,
                            j as int + 1,
                            update_interval,
                            update_retries,
                        );
                        assert(rc.spec_check() == Err::<(), ValidationError>(e));
                    }
                    return Err(e);
                },
            }
            j = j + 1;
        }
        assert(chosen.subrange(0, m as int) =~= chosen);
        let notification_service = NotificationServiceConfig::from_raw(notification_service)?;
        Ok(Config { feeds: built, notification_service })
    }
}

/// Once a prefix holds a failing feed, so does every longer one, with the
/// same first failure.
proof fn lemma_first_error_persists(
    feeds: Seq<RawFeedConfig>,
    k: int,
    update_interval: Option<usize>,
    update_retries: Option<usize>,
)
    requires
        0 <= k <= feeds.len(),
        first_feed_error(feeds.subrange(0, k), update_interval, update_retries) is Err,
    ensures
        first_feed_error(feeds, update_interval, update_retries) == first_feed_error(
            feeds.subrange(0, k),
            update_interval,
            update_retries,
        ),
    decreases feeds.len() - k,
{
    if k < feeds.len() {
        assert(feeds.subrange(0, k + 1).drop_last() =~= feeds.subrange(0, k));
        lemma_first_error_persists(feeds, k + 1, update_interval, update_retries);
    } else {
        assert(feeds.subrange(0, k) =~= feeds);
    }
}

} // verus!
