//! Service settings: the feeds to poll, built into validated [`Feed`]s, and
//! the message queue that receives what is found.

use vstd::prelude::*;

use crate::defaults::{first_present, resolve_option};
use crate::errors::FeedError;
use crate::feed::Feed;
use crate::text::trimmed;
use crate::types::{
    fits_in_seconds, interval_in_range, resolved_minutes, resolved_retries, FeedName, FeedUpdateInterval,
    FeedUpdateRetries, FeedUrl,
};
use crate::urls::{url_accepted, url_refusal, url_serialization};

verus! {

/// `std::io::Error`, carried through opaquely when the settings file cannot be read.
#[verifier::external_type_specification]
#[verifier::external_body]
pub struct ExIoError(std::io::Error);

/// `toml::de::Error`, carried through opaquely when the settings file is not valid TOML.
#[verifier::external_type_specification]
#[verifier::external_body]
pub struct ExTomlError(toml::de::Error);

/// Why the queue settings were refused.
#[derive(Debug, PartialEq, Eq, Structural)]
pub enum QueueError {
    EmptyEndpoint,
    EmptyExchangeName,
    EmptyUsername,
    EmptyPassword,
}

/// Why the settings could not be loaded.
#[derive(Debug)]
pub enum ConfigError {
    FileReadError(std::io::Error),
    TomlParseError(toml::de::Error),
    FeedError(FeedError),
    QueueError(QueueError),
    NoActiveFeeds,
}

/// Where to deliver what is found.
#[derive(Debug)]
pub struct QueueConfig {
    /// For instance `amqp://localhost:5672`.
    pub endpoint: String,
    pub exchange_name: String,
    pub username: String,
    pub password: String,
}

impl QueueConfig {
    /// The first of endpoint, exchange name, user name and password that is empty.
    pub open spec fn spec_validate(&self) -> Result<(), QueueError> {
        if self.endpoint@.len() == 0 {
            Err(QueueError::EmptyEndpoint)
        } else if self.exchange_name@.len() == 0 {
            Err(QueueError::EmptyExchangeName)
        } else if self.username@.len() == 0 {
            Err(QueueError::EmptyUsername)
        } else if self.password@.len() == 0 {
            Err(QueueError::EmptyPassword)
        } else {
            Ok(())
        }
    }

    pub fn validate(&self) -> (r: Result<(), QueueError>)
        ensures
            r == self.spec_validate(),
    {
        if self.endpoint.as_str().is_empty() {
            return Err(QueueError::EmptyEndpoint);
        }
        if self.exchange_name.as_str().is_empty() {
            return Err(QueueError::EmptyExchangeName);
        }
        if self.username.as_str().is_empty() {
            return Err(QueueError::EmptyUsername);
        }
        if self.password.as_str().is_empty() {
            return Err(QueueError::EmptyPassword);
        }
        Ok(())
    }
}

/// One feed as written in the settings, before any check.
#[derive(Debug)]
pub struct FeedDTO {
    pub name: String,
    pub url: String,
    /// Minutes between two polls.
    pub update_interval: Option<u64>,
    pub update_retries: Option<usize>,
    pub active: Option<bool>,
}

/// A name and a URL that a feed can be built with.
pub open spec fn name_and_url_valid(name: Seq<char>, url: Seq<char>) -> bool {
    &&& trimmed(name).len() > 0
    &&& trimmed(url).len() > 0
    &&& url_accepted(trimmed(url))
}

/// A name, a URL, an interval in minutes and a retry budget (the last two
/// possibly absent) from which a feed can be built.
pub open spec fn feed_inputs_valid(
    name: Seq<char>,
    url: Seq<char>,
    minutes: Option<u64>,
    retries: Option<usize>,
) -> bool {
    &&& name_and_url_valid(name, url)
    &&& resolved_minutes(minutes) >= FeedUpdateInterval::MIN_MINUTES
    &&& FeedUpdateRetries::MIN <= resolved_retries(retries) <= FeedUpdateRetries::MAX
}

/// `e` is the error for the first of name, URL, interval and budget that is
/// refused.
pub open spec fn feed_error_fits(
    e: FeedError,
    name: Seq<char>,
    url: Seq<char>,
    minutes: Option<u64>,
    retries: Option<usize>,
) -> bool {
    if trimmed(name).len() == 0 {
        e == FeedError::EmptyName
    } else if trimmed(url).len() == 0 {
        e == FeedError::EmptyUrl
    } else if !url_accepted(trimmed(url)) {
        e == FeedError::InvalidUrl(url_refusal(trimmed(url)))
    } else if resolved_minutes(minutes) < FeedUpdateInterval::MIN_MINUTES {
        e == (FeedError::InvalidUpdateInterval {
            min: FeedUpdateInterval::MIN_MINUTES,
            got: resolved_minutes(minutes),
        })
    } else if !(FeedUpdateRetries::MIN <= resolved_retries(retries) <= FeedUpdateRetries::MAX) {
        e == (FeedError::InvalidUpdateRetries {
            min: FeedUpdateRetries::MIN,
            max: FeedUpdateRetries::MAX,
            got: resolved_retries(retries),
        })
    } else {
        false
    }
}

/// `f` is the feed that the inputs describe.
pub open spec fn feed_built_from(
    f: Feed,
    name: Seq<char>,
    url: Seq<char>,
    minutes: Option<u64>,
    retries: Option<usize>,
) -> bool {
    &&& f.spec_name()@ == trimmed(name)
    &&& url_serialization(trimmed(url)) == Some(f.spec_url()@)
    &&& f.spec_update_interval().secs() == resolved_minutes(minutes) * 60
    &&& f.spec_update_retries().count() == resolved_retries(retries)
}

impl FeedDTO {
    /// A feed is active unless it says otherwise.
    pub open spec fn is_active(&self) -> bool {
        self.active != Some(false)
    }

    /// The interval in minutes that applies, given the global default.
    pub open spec fn minutes(&self, update_interval: Option<u64>) -> Option<u64> {
        first_present(self.update_interval, update_interval)
    }

    /// The retry budget that applies, given the global default.
    pub open spec fn retries(&self, update_retries: Option<usize>) -> Option<usize> {
        first_present(self.update_retries, update_retries)
    }

    pub open spec fn spec_valid(&self, update_interval: Option<u64>, update_retries: Option<usize>) -> bool {
        feed_inputs_valid(
            self.name@,
            self.url@,
            self.minutes(update_interval),
            self.retries(update_retries),
        )
    }

    /// Builds the feed; its interval and budget come from its own value, else
    /// the global default, else the built-in one. The name is checked first,
    /// then the URL, the interval and the budget. The interval is built only
    /// where name and URL pass, and must then fit in seconds.
    pub fn try_into_feed(self, update_interval: Option<u64>, update_retries: Option<usize>) -> (r:
        Result<Feed, FeedError>)
        requires
            name_and_url_valid(self.name@, self.url@) ==> interval_in_range(
                self.minutes(update_interval),
            ),
        ensures
            match r {
                Ok(f) => self.spec_valid(update_interval, update_retries) && feed_built_from(
                    f,
                    self.name@,
                    self.url@,
                    self.minutes(update_interval),
                    self.retries(update_retries),
                ),
                Err(e) => !self.spec_valid(update_interval, update_retries) && feed_error_fits(
                    e,
                    self.name@,
                    self.url@,
                    self.minutes(update_interval),
                    self.retries(update_retries),
                ),
            },
    {
        let name = FeedName::new(self.name.as_str())?;
        let url = FeedUrl::new(self.url.as_str())?;
        let update_interval = FeedUpdateInterval::new(
            resolve_option(self.update_interval, update_interval),
        )?;
        let update_retries = FeedUpdateRetries::new(
            resolve_option(self.update_retries, update_retries),
        )?;
        Ok(Feed::new(name, url, update_interval, update_retries))
    }
}

/// The feeds of `feeds` that are active, in order.
pub open spec fn active_dtos(feeds: Seq<FeedDTO>) -> Seq<FeedDTO>
    decreases feeds.len(),
{
    if feeds.len() == 0 {
        Seq::empty()
    } else if feeds.last().is_active() {
        active_dtos(feeds.drop_last()).push(feeds.last())
    } else {
        active_dtos(feeds.drop_last())
    }
}

/// The position of the first feed of `feeds` from which no feed can be built.
pub open spec fn first_invalid(
    feeds: Seq<FeedDTO>,
    update_interval: Option<u64>,
    update_retries: Option<usize>,
) -> Option<int>
    decreases feeds.len(),
{
    if feeds.len() == 0 {
        None
    } else {
        match first_invalid(feeds.drop_last(), update_interval, update_retries) {
            Some(k) => Some(k),
            None => if feeds.last().spec_valid(update_interval, update_retries) {
                None
            } else {
                Some(feeds.len() - 1)
            },
        }
    }
}

/// The settings as written, before any check.
#[derive(Debug)]
pub struct RawConfig {
    pub feeds: Vec<FeedDTO>,
    /// Global default interval, in minutes.
    pub update_interval: Option<u64>,
    /// Global default retry budget.
    pub update_retries: Option<usize>,
    pub queue: QueueConfig,
}

/// The checked settings.
#[derive(Debug)]
pub struct Config {
    /// The active feeds, in the order written.
    pub feeds: Vec<Feed>,
    pub queue: QueueConfig,
}

impl RawConfig {
    /// Every interval that loading the settings builds fits in seconds: that
    /// of each active feed whose name and URL pass and whose active
    /// predecessors are all valid, once the globals and the queue pass.
    pub open spec fn spec_built_intervals_fit(&self) -> bool {
        let active = active_dtos(self.feeds@);
        self.spec_validate() is Ok ==> forall|k: int|
            0 <= k < active.len() && first_invalid(
                active.subrange(0, k),
                self.update_interval,
                self.update_retries,
            ) is None && name_and_url_valid(active[k].name@, active[k].url@) ==> interval_in_range(
                #[trigger] active[k].minutes(self.update_interval),
            )
    }

    /// The global defaults, where given, and the queue settings are sound.
    pub open spec fn spec_validate(&self) -> Result<(), ConfigError> {
        let interval_low = self.update_interval matches Some(v) && v < FeedUpdateInterval::MIN_MINUTES;
        let retries_out = self.update_retries matches Some(v) && !(FeedUpdateRetries::MIN <= v
            <= FeedUpdateRetries::MAX);
        if interval_low {
            Err(
                ConfigError::FeedError(
                    FeedError::InvalidUpdateInterval {
                        min: FeedUpdateInterval::MIN_MINUTES,
                        got: self.update_interval->0,
                    },
                ),
            )
        } else if retries_out {
            Err(
                ConfigError::FeedError(
                    FeedError::InvalidUpdateRetries {
                        min: FeedUpdateRetries::MIN,
                        max: FeedUpdateRetries::MAX,
                        got: self.update_retries->0,
                    },
                ),
            )
        } else if self.queue.spec_validate() is Err {
            Err(ConfigError::QueueError(self.queue.spec_validate()->Err_0))
        } else {
            Ok(())
        }
    }

    /// The whole settings can be loaded: sound globals and queue, some active
    /// feed, and a valid feed for each active one (an inactive feed is never
    /// checked).
    pub open spec fn spec_valid(&self) -> bool {
        let active = active_dtos(self.feeds@);
        &&& self.spec_validate() is Ok
        &&& active.len() > 0
        &&& first_invalid(active, self.update_interval, self.update_retries) is None
    }

    /// `e` is the error for the first failing check: the globals, the queue,
    /// that some feed is active, then each active feed in order.
    pub open spec fn error_fits(&self, e: ConfigError) -> bool {
        let active = active_dtos(self.feeds@);
        if self.spec_validate() is Err {
            self.spec_validate() == Err::<(), ConfigError>(e)
        } else if active.len() == 0 {
            e is NoActiveFeeds
        } else {
            match first_invalid(active, self.update_interval, self.update_retries) {
                Some(k) => e matches ConfigError::FeedError(fe) && feed_error_fits(
                    fe,
                    active[k].name@,
                    active[k].url@,
                    active[k].minutes(self.update_interval),
                    active[k].retries(self.update_retries),
                ),
                None => false,
            }
        }
    }

    /// Checks the global defaults and the queue settings.
    pub fn validate(&self) -> (r: Result<(), ConfigError>)
        ensures
            r == self.spec_validate(),
    {
        if let Some(value) = self.update_interval {
            if value < FeedUpdateInterval::MIN_MINUTES {
                return Err(
                    ConfigError::FeedError(
                        FeedError::InvalidUpdateInterval {
                            min: FeedUpdateInterval::MIN_MINUTES,
                            got: value,
                        },
                    ),
                );
            }
        }
        if let Some(value) = self.update_retries {
            if let Err(e) = FeedUpdateRetries::new(Some(value)) {
                return Err(ConfigError::FeedError(e));
            }
        }
        if let Err(e) = self.queue.validate() {
            return Err(ConfigError::QueueError(e));
        }
        Ok(())
    }
}

impl Config {
    /// Checks `raw_config`, drops its inactive feeds, and builds a feed from
    /// each active one, in order. Comes back with `None`, and nothing built,
    /// exactly where a feed's interval would be built that does not fit in
    /// seconds.
    pub fn from_raw(raw_config: RawConfig) -> (r: Option<Result<Self, ConfigError>>)
        ensures
            r is None <==> !raw_config.spec_built_intervals_fit(),
            match r {
                Some(Ok(c)) => {
                    let active = active_dtos(raw_config.feeds@);
                    &&& raw_config.spec_valid()
                    &&& c.feeds@.len() == active.len()
                    &&& forall|i: int|
                        0 <= i < active.len() ==> feed_built_from(
                            #[trigger] c.feeds@[i],
                            active[i].name@,
                            active[i].url@,
                            active[i].minutes(raw_config.update_interval),
                            active[i].retries(raw_config.update_retries),
                        )
                    &&& c.queue == raw_config.queue
                },
                Some(Err(e)) => !raw_config.spec_valid() && raw_config.error_fits(e),
                None => true,
            },
    {
        if let Err(e) = raw_config.validate() {
            return Some(Err(e));
        }
        let ghost rc = raw_config;
        let RawConfig { feeds, update_interval, update_retries, queue } = raw_config;
        let ghost all = feeds@;
        let mut rest = feeds;
        let mut active: Vec<FeedDTO> = Vec::new();
        let n = rest.len();
        let mut i: usize = 0;
        assert(all.subrange(0, 0) =~= Seq::<FeedDTO>::empty());
        while i < n
            invariant
                n == all.len(),
                i <= n,
                all == rc.feeds@,
                rest@ == all.subrange(i as int, n as int),
                active@ == active_dtos(all.subrange(0, i as int)),
            decreases n - i,
        {
            assert(all.subrange(0, i + 1).drop_last() =~= all.subrange(0, i as int));
            let f = rest.remove(0);
            assert(rest@ =~= all.subrange(i + 1, n as int));
            assert(f == all[i as int]);
            if f.active.unwrap_or(true) {
                active.push(f);
            }
            i = i + 1;
        }
        assert(all.subrange(0, n as int) =~= all);
        if active.len() == 0 {
            return Some(Err(ConfigError::NoActiveFeeds));
        }
        let ghost chosen = active@;
        let m = active.len();
        let mut built: Vec<Feed> = Vec::new();
        let mut j: usize = 0;
        assert(chosen.subrange(0, 0) =~= Seq::<FeedDTO>::empty());
        while j < m
            invariant
                m == chosen.len(),
                j <= m,
                rc == raw_config,
                rc.spec_validate() is Ok,
                chosen == active_dtos(rc.feeds@),
                update_interval == rc.update_interval,
                update_retries == rc.update_retries,
                queue == rc.queue,
                active@ == chosen.subrange(j as int, m as int),
                first_invalid(chosen.subrange(0, j as int), update_interval, update_retries) is None,
                forall|k: int|
                    0 <= k < j && name_and_url_valid(chosen[k].name@, chosen[k].url@)
                        ==> interval_in_range(#[trigger] chosen[k].minutes(update_interval)),
                built@.len() == j,
                forall|k: int|
                    0 <= k < j ==> feed_built_from(
                        #[trigger] built@[k],
                        chosen[k].name@,
                        chosen[k].url@,
                        chosen[k].minutes(update_interval),
                        chosen[k].retries(update_retries),
                    ),
            decreases m - j,
        {
            let ghost prefix = chosen.subrange(0, j + 1);
            assert(prefix.drop_last() =~= chosen.subrange(0, j as int));
            let f = active.remove(0);
            assert(active@ =~= chosen.subrange(j + 1, m as int));
            assert(prefix.last() == f);
            assert(f == chosen[j as int]);
            if !fits_in_seconds(resolve_option(f.update_interval, update_interval)) && name_and_url_pass(&f) {
                return None;
            }
            match f.try_into_feed(update_interval, update_retries) {
                Ok(c) => built.push(c),
                Err(e) => {
                    proof {
                        assert(first_invalid(prefix, update_interval, update_retries) == Some(
                            j as int,
                        ));
                        lemma_first_invalid_persists(
                            chosen,
                            j as int + 1,
                            update_interval,
                            update_retries,
                        );
                        assert forall|k: int|
                            0 <= k < chosen.len() && first_invalid(
                                chosen.subrange(0, k),
                                update_interval,
                                update_retries,
                            ) is None && name_and_url_valid(chosen[k].name@, chosen[k].url@)
                                implies interval_in_range(
                            #[trigger] chosen[k].minutes(update_interval),
                        ) by {
                            if k > j {
                                assert(chosen.subrange(0, k).subrange(0, j + 1) =~= prefix);
                                lemma_first_invalid_persists(
                                    chosen.subrange(0, k),
                                    j as int + 1,
                                    update_interval,
                                    update_retries,
                                );
                            }
                        }
                    }
                    return Some(Err(ConfigError::FeedError(e)));
                },
            }
            j = j + 1;
        }
        assert(chosen.subrange(0, m as int) =~= chosen);
        Some(Ok(Config { feeds: built, queue }))
    }
}

/// Whether the name and the URL of `f` pass.
fn name_and_url_pass(f: &FeedDTO) -> (r: bool)
    ensures
        r == name_and_url_valid(f.name@, f.url@),
{
    match FeedName::new(f.name.as_str()) {
        Ok(_) => match FeedUrl::new(f.url.as_str()) {
            Ok(_) => true,
            Err(_) => false,
        },
        Err(_) => false,
    }
}

/// Once a prefix holds an invalid feed, every longer one has the same first
/// invalid feed.
proof fn lemma_first_invalid_persists(
    feeds: Seq<FeedDTO>,
    k: int,
    update_interval: Option<u64>,
    update_retries: Option<usize>,
)
    requires
        0 <= k <= feeds.len(),
        first_invalid(feeds.subrange(0, k), update_interval, update_retries) is Some,
    ensures
        first_invalid(feeds, update_interval, update_retries) == first_invalid(
            feeds.subrange(0, k),
            update_interval,
            update_retries,
        ),
    decreases feeds.len() - k,
{
    if k < feeds.len() {
        assert(feeds.subrange(0, k + 1).drop_last() =~= feeds.subrange(0, k));
        lemma_first_invalid_persists(feeds, k + 1, update_interval, update_retries);
    } else {
        assert(feeds.subrange(0, k) =~= feeds);
    }
}

} // verus!
