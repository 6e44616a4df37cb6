//! Validated feed model and a bounded, retrying fetch scheduler for RSS feeds.

pub mod text;
pub mod urls;
pub mod errors;
pub mod types;
pub mod feed;
pub mod fetcher;
pub mod news;
pub mod defaults;
pub mod validation;
pub mod config;
pub mod settings;
