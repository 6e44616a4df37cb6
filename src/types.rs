//! Self-validating values that make up a feed.

use vstd::prelude::*;

use crate::errors::FeedError;
use crate::text::{
    all_white_space, lemma_trimmed_empty, lemma_trimmed_idempotent, lemma_trimmed_unchanged, trim,
    trimmed, unicode_white_space,
};
use crate::urls::{accept_url, url_accepted, url_refusal, url_serialization};

verus! {

/// The name of a feed: non-empty, without leading or trailing white space.
#[derive(Debug)]
pub struct FeedName(String);

impl View for FeedName {
    type V = Seq<char>;

    closed spec fn view(&self) -> Seq<char> {
        self.0@
    }
}

impl FeedName {
    #[verifier::type_invariant]
    closed spec fn inv(self) -> bool {
        &&& self.0@.len() > 0
        &&& trimmed(self.0@) == self.0@
    }

    /// The trimmed `name`; fails with `EmptyName` where nothing is left.
    pub fn new(name: &str) -> (r: Result<Self, FeedError>)
        ensures
            match r {
                Ok(n) => trimmed(name@).len() > 0 && n@ == trimmed(name@),
                Err(e) => trimmed(name@).len() == 0 && e == FeedError::EmptyName,
            },
            r is Err <==> all_white_space(name@),
            name@.len() > 0 && !unicode_white_space(name@[0]) && !unicode_white_space(name@.last())
                ==> (r matches Ok(n) && n@ == name@),
    {
        proof {
            lemma_trimmed_empty(name@);
            if name@.len() > 0 && !unicode_white_space(name@[0]) && !unicode_white_space(
                name@.last(),
            ) {
                lemma_trimmed_unchanged(name@);
            }
        }
        let t = trim(name);
        if t.is_empty() {
            return Err(FeedError::EmptyName);
        }
        proof {
            lemma_trimmed_idempotent(name@);
        }
        Ok(FeedName(t.to_owned()))
    }

    /// The name; never empty, never with white space at either end.
    pub fn as_str(&self) -> (r: &str)
        ensures
            r@ == self@,
            r@.len() > 0,
            trimmed(r@) == r@,
    {
        proof {
            use_type_invariant(self);
        }
        self.0.as_str()
    }
}

impl Clone for FeedName {
    fn clone(&self) -> (r: Self)
        ensures
            r@ == self@,
    {
        proof {
            use_type_invariant(self);
        }
        FeedName(self.0.clone())
    }
}

/// The source of a feed: the normalised serialisation of an absolute URL.
/// Two sources are equal when their parsed forms are.
#[derive(Debug)]
pub struct FeedUrl(String);

impl View for FeedUrl {
    type V = Seq<char>;

    closed spec fn view(&self) -> Seq<char> {
        self.0@
    }
}

impl FeedUrl {
    #[verifier::type_invariant]
    closed spec fn inv(self) -> bool {
        url_serialization(self.0@) == Some(self.0@) && url_accepted(self.0@)
    }

    /// The parsed form of the trimmed `url`. Fails with `EmptyUrl` where nothing
    /// is left after trimming, and with `InvalidUrl` where the rest is not an
    /// absolute URL with a host, carrying the reason.
    pub fn new(url: &str) -> (r: Result<Self, FeedError>)
        ensures
            match r {
                Ok(u) => trimmed(url@).len() > 0 && url_accepted(trimmed(url@))
                    && url_serialization(trimmed(url@)) == Some(u@),
                Err(FeedError::EmptyUrl) => trimmed(url@).len() == 0,
                Err(FeedError::InvalidUrl(e)) => {
                    &&& trimmed(url@).len() > 0
                    &&& !url_accepted(trimmed(url@))
                    &&& e == url_refusal(trimmed(url@))
                },
                Err(_) => false,
            },
            r matches Ok(u) ==> url_serialization(u@) == Some(u@) && url_accepted(u@),
    {
        let url = trim(url);
        if url.is_empty() {
            return Err(FeedError::EmptyUrl);
        }
        match accept_url(url) {
            Ok(s) => Ok(FeedUrl(s)),
            Err(e) => Err(FeedError::InvalidUrl(e)),
        }
    }

    /// The normalised URL; it parses back to itself, and has a host.
    pub fn as_str(&self) -> (r: &str)
        ensures
            r@ == self@,
            url_serialization(r@) == Some(r@),
            url_accepted(r@),
    {
        proof {
            use_type_invariant(self);
        }
        self.0.as_str()
    }
}

impl Clone for FeedUrl {
    fn clone(&self) -> (r: Self)
        ensures
            r@ == self@,
    {
        proof {
            use_type_invariant(self);
        }
        FeedUrl(self.0.clone())
    }
}

impl PartialEq for FeedUrl {
    fn eq(&self, other: &FeedUrl) -> (r: bool)
        ensures
            r == (self@ == other@),
    {
        self.0 == other.0
    }
}

impl vstd::std_specs::cmp::PartialEqSpecImpl for FeedUrl {
    open spec fn obeys_eq_spec() -> bool {
        true
    }

    open spec fn eq_spec(&self, other: &FeedUrl) -> bool {
        self@ == other@
    }
}

impl Eq for FeedUrl {}

/// The number of minutes that `minutes` stands for, the default where absent.
pub open spec fn resolved_minutes(minutes: Option<u64>) -> u64 {
    match minutes {
        Some(m) => m,
        None => FeedUpdateInterval::DEFAULT_MINUTES,
    }
}

/// Whether the interval that `minutes` stands for can be held in seconds.
pub open spec fn interval_in_range(minutes: Option<u64>) -> bool {
    resolved_minutes(minutes) * 60 <= u64::MAX
}

/// Whether the interval that `minutes` stands for can be held in seconds.
pub fn fits_in_seconds(minutes: Option<u64>) -> (r: bool)
    ensures
        r == interval_in_range(minutes),
{
    let m = match minutes {
        Some(m) => m,
        None => FeedUpdateInterval::DEFAULT_MINUTES,
    };
    assert((m <= u64::MAX / 60) == (m * 60 <= u64::MAX)) by (nonlinear_arith);
    m <= u64::MAX / 60
}

/// The minimum time between two polls of a feed, held in seconds.
#[derive(Debug)]
pub struct FeedUpdateInterval(u64);

impl FeedUpdateInterval {
    pub const DEFAULT_MINUTES: u64 = 15;
    pub const MIN_MINUTES: u64 = 5;

    #[verifier::type_invariant]
    closed spec fn inv(self) -> bool {
        &&& self.0 % 60 == 0
        &&& self.0 >= Self::MIN_MINUTES * 60
    }

    /// The interval in seconds.
    pub closed spec fn secs(&self) -> u64 {
        self.0
    }

    /// `minutes` (fifteen where absent) as an interval; fails where that is
    /// below five minutes, reporting the floor and the value, in minutes.
    pub fn new(minutes: Option<u64>) -> (r: Result<Self, FeedError>)
        requires
            interval_in_range(minutes),
        ensures
            match r {
                Ok(i) => resolved_minutes(minutes) >= Self::MIN_MINUTES
                    && i.secs() == resolved_minutes(minutes) * 60,
                Err(e) => resolved_minutes(minutes) < Self::MIN_MINUTES
                    && e == (FeedError::InvalidUpdateInterval {
                        min: Self::MIN_MINUTES,
                        got: resolved_minutes(minutes),
                    }),
            },
    {
        let minutes = match minutes {
            Some(m) => m,
            None => Self::DEFAULT_MINUTES,
        };
        if minutes < Self::MIN_MINUTES {
            return Err(FeedError::InvalidUpdateInterval { min: Self::MIN_MINUTES, got: minutes });
        }
        Ok(FeedUpdateInterval(minutes * 60))
    }

    /// The interval in seconds: a whole number of minutes, at least the floor.
    pub fn as_secs(&self) -> (r: u64)
        ensures
            r == self.secs(),
            r % 60 == 0,
            r >= Self::MIN_MINUTES * 60,
    {
        proof {
            use_type_invariant(self);
        }
        self.0
    }
}

impl Clone for FeedUpdateInterval {
    fn clone(&self) -> (r: Self)
        ensures
            r.secs() == self.secs(),
    {
        proof {
            use_type_invariant(self);
        }
        FeedUpdateInterval(self.0)
    }
}

/// The number of attempts that `retries` stands for, the default where absent.
pub open spec fn resolved_retries(retries: Option<usize>) -> usize {
    match retries {
        Some(r) => r,
        None => FeedUpdateRetries::DEFAULT,
    }
}

/// The most attempts made for a feed in one fetch pass.
#[derive(Debug)]
pub struct FeedUpdateRetries(usize);

impl FeedUpdateRetries {
    pub const DEFAULT: usize = 3;
    pub const MIN: usize = 1;
    pub const MAX: usize = 10;

    #[verifier::type_invariant]
    closed spec fn inv(self) -> bool {
        Self::MIN <= self.0 <= Self::MAX
    }

    /// The number of attempts.
    pub closed spec fn count(&self) -> usize {
        self.0
    }

    /// `retries` (three where absent) as a budget; fails where that lies
    /// outside `1..=10`, reporting both bounds and the value.
    pub fn new(retries: Option<usize>) -> (r: Result<Self, FeedError>)
        ensures
            match r {
                Ok(b) => Self::MIN <= resolved_retries(retries) <= Self::MAX
                    && b.count() == resolved_retries(retries),
                Err(e) => !(Self::MIN <= resolved_retries(retries) <= Self::MAX)
                    && e == (FeedError::InvalidUpdateRetries {
                        min: Self::MIN,
                        max: Self::MAX,
                        got: resolved_retries(retries),
                    }),
            },
    {
        let retries = match retries {
            Some(r) => r,
            None => Self::DEFAULT,
        };
        if retries < Self::MIN || retries > Self::MAX {
            return Err(
                FeedError::InvalidUpdateRetries { min: Self::MIN, max: Self::MAX, got: retries },
            );
        }
        Ok(FeedUpdateRetries(retries))
    }

    /// The number of attempts, within `1..=10`.
    pub fn as_usize(&self) -> (r: usize)
        ensures
            r == self.count(),
            Self::MIN <= r <= Self::MAX,
    {
        proof {
            use_type_invariant(self);
        }
        self.0
    }
}

impl Clone for FeedUpdateRetries {
    fn clone(&self) -> (r: Self)
        ensures
            r.count() == self.count(),
    {
        proof {
            use_type_invariant(self);
        }
        FeedUpdateRetries(self.0)
    }
}

} // verus!
