//! The decisions of a crawl: which URLs are queued, and what is taken down of each.

use std::path::PathBuf;
use std::time::Duration;
use vstd::prelude::*;
use crate::processing_state::ProcessingState;
#[allow(unused_imports)]
use crate::processing_state::{is_processed, is_queued, is_scraped};
use crate::spider::Url;
use crate::state_file::{StateOutput, write_state};
use crate::statistics::{Statistics, StatisticsRecord, count_down, count_up};
#[allow(unused_imports)]
use crate::state::{OutcomeModel, scraped_ok_outcome};
#[allow(unused_imports)]
use crate::state_file::{are_storable, destination_of, loaded_states, saved_document};
#[allow(unused_imports)]
use crate::statistics::{one_down, one_up};
#[allow(unused_imports)]
use crate::time::duration_of_millis;
#[allow(unused_imports)]
use crate::json::json_text;
#[allow(unused_imports)]
use vstd::utf8::encode_utf8;

verus! {

/// How the crawler works.
#[derive(Debug)]
pub struct CrawlerOptions {
    /// Optional path to read and save state to.
    pub saved_state_path: Option<PathBuf>,
    /// The delay to use between scrapings.
    pub delay: Duration,
    /// The number of concurrent scrapers.
    pub crawling_concurrency: usize,
    /// The number of concurrent processors.
    pub processing_concurrency: usize,
}

impl Clone for CrawlerOptions {
    fn clone(&self) -> (copy: Self)
        ensures
            copy == *self,
    {
        Self {
            saved_state_path: self.saved_state_path.clone(),
            delay: self.delay,
            crawling_concurrency: self.crawling_concurrency,
            processing_concurrency: self.processing_concurrency,
        }
    }
}

impl Default for CrawlerOptions {
    fn default() -> (options: Self)
        ensures
            options.saved_state_path is None,
            options.delay == duration_of_millis(500),
            options.crawling_concurrency == 1,
            options.processing_concurrency == 20,
    {
        Self {
            saved_state_path: None,
            delay: Duration::from_millis(500),
            crawling_concurrency: 1,
            processing_concurrency: 20,
        }
    }
}

/// A crawl: how it works and how far it got.
pub struct Crawler<U: Url> {
    pub delay: Duration,
    pub crawling_concurrency: usize,
    pub processing_concurrency: usize,
    pub visited_urls: ProcessingState<U>,
    pub statistics: Statistics,
    /// How many scrapers are at work.
    pub active_spiders: usize,
}

/// How scraping a URL ended.
pub enum ScrapeEvent<I, U> {
    /// It gave these items and found these URLs.
    Scraped(Vec<I>, Vec<U>),
    /// It failed with this message.
    Failed(String),
    /// The crawl is shutting down.
    ShutDown,
}

/// What a scraper hands on: each of `items` to the processors together with `url`, then
/// `url` and the URLs that it led to to the listener.
pub struct ScrapeReport<I, U> {
    pub items: Vec<I>,
    pub url: U,
    pub new_urls: Vec<U>,
}

impl<U: Url> Crawler<U> {
    /// Whether what is remembered is in order.
    pub open spec fn wf(&self) -> bool {
        self.visited_urls.wf()
    }

    /// Whether the crawl works in the same way as `other`.
    pub open spec fn same_settings(&self, other: Crawler<U>) -> bool {
        &&& self.delay == other.delay
        &&& self.crawling_concurrency == other.crawling_concurrency
        &&& self.processing_concurrency == other.processing_concurrency
    }

    /// A crawl that starts from `visited_urls`.
    pub fn new(options: &CrawlerOptions, visited_urls: ProcessingState<U>) -> (crawler: Self)
        requires
            visited_urls.wf(),
        ensures
            crawler.wf(),
            crawler.delay == options.delay,
            crawler.crawling_concurrency == options.crawling_concurrency,
            crawler.processing_concurrency == options.processing_concurrency,
            crawler.visited_urls@ == visited_urls@,
            crawler.statistics == (Statistics {
                num_scrapings: 0,
                num_scrape_errors: 0,
                num_processings: 0,
                num_process_errors: 0,
            }),
            crawler.active_spiders == 0,
    {
        Crawler {
            delay: options.delay,
            crawling_concurrency: options.crawling_concurrency,
            processing_concurrency: options.processing_concurrency,
            visited_urls,
            statistics: Statistics::default(),
            active_spiders: 0,
        }
    }

    /// How many URLs wait for a scraper, and how many reports for the listener, at most;
    /// `None` where no such number is had.
    pub fn crawling_queue_capacity(&self) -> (capacity: Option<usize>)
        ensures
            match capacity {
                Some(capacity) => capacity == self.crawling_concurrency * 400,
                None => self.crawling_concurrency * 400 > usize::MAX,
            },
    {
        self.crawling_concurrency.checked_mul(400)
    }

    /// How many items wait for a processor at most; `None` where no such number is had.
    pub fn processing_queue_capacity(&self) -> (capacity: Option<usize>)
        ensures
            match capacity {
                Some(capacity) => capacity == self.processing_concurrency * 10,
                None => self.processing_concurrency * 10 > usize::MAX,
            },
    {
        self.processing_concurrency.checked_mul(10)
    }

    /// Queues a URL that the crawl starts from, whatever was known of it, and hands it back to
    /// be sent to the scrapers.
    pub fn queue_start_url(&mut self, url: U) -> (to_visit: U)
        requires
            old(self).wf(),
        ensures
            final(self).wf(),
            final(self).same_settings(*old(self)),
            final(self).statistics == old(self).statistics,
            final(self).active_spiders == old(self).active_spiders,
            is_queued(old(self).visited_urls@, final(self).visited_urls@, url),
            to_visit == url,
    {
        self.visited_urls.queue(&url);
        url
    }

    /// A scraper starts on a URL.
    pub fn begin_scrape(&mut self)
        ensures
            final(self).same_settings(*old(self)),
            final(self).visited_urls == old(self).visited_urls,
            final(self).statistics == old(self).statistics,
            final(self).active_spiders == one_up(old(self).active_spiders),
    {
        self.active_spiders = count_up(self.active_spiders);
    }

    /// A scraper is done with a URL.
    pub fn end_scrape(&mut self)
        ensures
            final(self).same_settings(*old(self)),
            final(self).visited_urls == old(self).visited_urls,
            final(self).statistics == old(self).statistics,
            final(self).active_spiders == one_down(old(self).active_spiders),
    {
        self.active_spiders = count_down(self.active_spiders);
    }

    /// Counts and takes down how scraping `url` ended, and says what the scraper hands on.
    /// A scraping that was cut short is neither counted nor taken down.
    pub fn record_scrape<I>(&mut self, url: U, event: ScrapeEvent<I, U>) -> (report: ScrapeReport<
        I,
        U,
    >)
        requires
            old(self).wf(),
        ensures
            final(self).wf(),
            final(self).same_settings(*old(self)),
            final(self).active_spiders == old(self).active_spiders,
            report.url == url,
            match event {
                ScrapeEvent::Scraped(items, new_urls) => {
                    &&& final(self).statistics == old(self).statistics.with_scraping(false)
                    &&& is_scraped(
                        old(self).visited_urls@,
                        final(self).visited_urls@,
                        url,
                        scraped_ok_outcome(),
                    )
                    &&& report.items == items
                    &&& report.new_urls == new_urls
                },
                ScrapeEvent::Failed(error) => {
                    &&& final(self).statistics == old(self).statistics.with_scraping(true)
                    &&& is_scraped(
                        old(self).visited_urls@,
                        final(self).visited_urls@,
                        url,
                        OutcomeModel::Error(error@),
                    )
                    &&& report.items@.len() == 0
                    &&& report.new_urls@.len() == 0
                },
                ScrapeEvent::ShutDown => {
                    &&& final(self).statistics == old(self).statistics
                    &&& final(self).visited_urls@ == old(self).visited_urls@
                    &&& report.items@.len() == 0
                    &&& report.new_urls@.len() == 0
                },
            },
    {
        match event {
            ScrapeEvent::Scraped(items, new_urls) => {
                self.statistics.count_scraping(false);
                self.visited_urls.scraped_ok(&url);
                ScrapeReport { items, url, new_urls }
            },
            ScrapeEvent::Failed(error) => {
                self.statistics.count_scraping(true);
                self.visited_urls.scrape_error(&url, error);
                ScrapeReport { items: Vec::new(), url, new_urls: Vec::new() }
            },
            ScrapeEvent::ShutDown => ScrapeReport { items: Vec::new(), url, new_urls: Vec::new() },
        }
    }

    /// Counts and takes down how processing what `url` gave ended: with an output, or with the
    /// message of an error.
    pub fn record_process(&mut self, url: &U, result: Result<String, String>)
        requires
            old(self).wf(),
        ensures
            final(self).wf(),
            final(self).same_settings(*old(self)),
            final(self).active_spiders == old(self).active_spiders,
            final(self).statistics == old(self).statistics.with_processing(result is Err),
            is_processed(
                old(self).visited_urls@,
                final(self).visited_urls@,
                *url,
                match result {
                    Ok(output) => OutcomeModel::Success(output@),
                    Err(error) => OutcomeModel::Error(error@),
                },
            ),
    {
        match result {
            Err(error) => {
                self.visited_urls.process_error(url, error);
                self.statistics.count_processing(true);
            },
            Ok(output) => {
                self.visited_urls.processed_ok(url, output);
                self.statistics.count_processing(false);
            },
        }
    }

    /// What is left to do once the crawl has ended: what the log is told, and what is written
    /// and where to.
    pub fn finish(
        &self,
        saved_state_path: Option<PathBuf>,
        running_time: Duration,
    ) -> (ending: (StatisticsRecord, Result<StateOutput, serde_json::Error>))
        requires
            self.wf(),
        ensures
            ending.0.message@ == "statistics"@,
            ending.0.num_processings == self.statistics.num_processings,
            ending.0.num_process_errors == self.statistics.num_process_errors,
            ending.0.num_scrapings == self.statistics.num_scrapings,
            ending.0.num_scrape_errors == self.statistics.num_scrape_errors,
            ending.0.running_time == running_time,
            ending.1 is Ok,
            ending.1->Ok_0.text@ == json_text(saved_document(self.visited_urls@)),
            ending.1->Ok_0.destination == destination_of(saved_state_path),
            are_storable::<U>(self.visited_urls@) ==> loaded_states::<U>(
                encode_utf8(ending.1->Ok_0.text@),
            ) == Some(self.visited_urls@),
    {
        let record = self.statistics.write_to_log(running_time);
        (record, write_state(saved_state_path, &self.visited_urls))
    }
}

} // verus!
