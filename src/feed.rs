//! A feed: the four validated values that describe one remote source.

use vstd::prelude::*;

use crate::types::{FeedName, FeedUpdateInterval, FeedUpdateRetries, FeedUrl};

verus! {

/// One remote source, fully valid by construction.
#[derive(Debug)]
pub struct Feed {
    name: FeedName,
    url: FeedUrl,
    update_interval: FeedUpdateInterval,
    update_retries: FeedUpdateRetries,
}

impl Feed {
    pub closed spec fn spec_name(&self) -> FeedName {
        self.name
    }

    pub closed spec fn spec_url(&self) -> FeedUrl {
        self.url
    }

    pub closed spec fn spec_update_interval(&self) -> FeedUpdateInterval {
        self.update_interval
    }

    pub closed spec fn spec_update_retries(&self) -> FeedUpdateRetries {
        self.update_retries
    }

    pub fn new(
        name: FeedName,
        url: FeedUrl,
        update_interval: FeedUpdateInterval,
        update_retries: FeedUpdateRetries,
    ) -> (r: Self)
        ensures
            r.spec_name() == name,
            r.spec_url() == url,
            r.spec_update_interval() == update_interval,
            r.spec_update_retries() == update_retries,
    {
        Feed { name, url, update_interval, update_retries }
    }

    pub fn name(&self) -> (r: &FeedName)
        ensures
            *r == self.spec_name(),
    {
        &self.name
    }

    pub fn url(&self) -> (r: &FeedUrl)
        ensures
            *r == self.spec_url(),
    {
        &self.url
    }

    pub fn update_interval(&self) -> (r: &FeedUpdateInterval)
        ensures
            *r == self.spec_update_interval(),
    {
        &self.update_interval
    }

    pub fn update_retries(&self) -> (r: &FeedUpdateRetries)
        ensures
            *r == self.spec_update_retries(),
    {
        &self.update_retries
    }
}

impl Clone for Feed {
    fn clone(&self) -> (r: Self)
        ensures
            r.spec_name()@ == self.spec_name()@,
            r.spec_url()@ == self.spec_url()@,
            r.spec_update_interval().secs() == self.spec_update_interval().secs(),
            r.spec_update_retries().count() == self.spec_update_retries().count(),
    {
        Feed {
            name: self.name.clone(),
            url: self.url.clone(),
            update_interval: self.update_interval.clone(),
            update_retries: self.update_retries.clone(),
        }
    }
}

} // verus!
