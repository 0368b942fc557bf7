//! A library for running a crawler based on the trait `Spider`.
//!
//! The library holds what a crawl decides and remembers; the spider, the queues and the
//! files are its caller's.

pub mod crawler;
pub mod effects;
pub mod json;
pub mod laws;
pub mod listener;
pub mod processing_state;
pub mod record;
pub mod runs;
pub mod saving;
mod sequence;
pub mod spider;
pub mod state;
pub mod state_file;
pub mod statistics;
pub mod time;
pub mod turns;
pub mod visits;

pub use crawler::{Crawler, CrawlerOptions};
pub use spider::Url;
