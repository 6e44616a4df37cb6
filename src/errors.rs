//! Errors raised while building the feed model.

use vstd::prelude::*;

use crate::urls::UrlError;

verus! {

/// Why a feed value could not be built.
#[derive(Debug)]
pub enum FeedError {
    /// The name is empty once white space is trimmed.
    EmptyName,
    /// The URL is empty once white space is trimmed.
    EmptyUrl,
    /// The URL is not an absolute URL with a host; the reason says why.
    InvalidUrl(UrlError),
    /// The update interval, in minutes, is below the floor.
    InvalidUpdateInterval { min: u64, got: u64 },
    /// The retry budget lies outside `min..=max`.
    InvalidUpdateRetries { min: usize, max: usize, got: usize },
}

} // verus!
