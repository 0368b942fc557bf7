//! How much was scraped and processed.

use std::time::Duration;
use vstd::prelude::*;

verus! {

/// How many scrapings and processings ended, and how many of them with an error.
///
/// All that count share the one value. It has no copies, which would count apart.
#[derive(Debug)]
pub struct Statistics {
    pub num_scrapings: usize,
    pub num_scrape_errors: usize,
    pub num_processings: usize,
    pub num_process_errors: usize,
}

/// What the log is told of a run.
#[derive(Debug)]
pub struct StatisticsRecord {
    pub message: &'static str,
    pub num_processings: usize,
    pub num_process_errors: usize,
    pub num_scrapings: usize,
    pub num_scrape_errors: usize,
    pub running_time: Duration,
}

/// A counter one up, which starts over past the largest number.
pub open spec fn one_up(count: usize) -> usize {
    if count == usize::MAX {
        0
    } else {
        (count + 1) as usize
    }
}

/// A counter one down, which goes to the largest number below zero.
pub open spec fn one_down(count: usize) -> usize {
    if count == 0 {
        usize::MAX
    } else {
        (count - 1) as usize
    }
}

/// A counter one up.
pub(crate) fn count_up(count: usize) -> (next: usize)
    ensures
        next == one_up(count),
{
    count.wrapping_add(1)
}

/// A counter one down.
pub(crate) fn count_down(count: usize) -> (next: usize)
    ensures
        next == one_down(count),
{
    count.wrapping_sub(1)
}

impl Default for Statistics {
    /// Nothing was scraped or processed.
    fn default() -> (statistics: Self)
        ensures
            statistics == (Statistics {
                num_scrapings: 0,
                num_scrape_errors: 0,
                num_processings: 0,
                num_process_errors: 0,
            }),
    {
        Self { num_scrapings: 0, num_scrape_errors: 0, num_processings: 0, num_process_errors: 0 }
    }
}

impl Statistics {
    /// One more scraping ended, with an error where `failed`.
    pub open spec fn with_scraping(self, failed: bool) -> Statistics {
        Statistics {
            num_scrapings: one_up(self.num_scrapings),
            num_scrape_errors: if failed {
                one_up(self.num_scrape_errors)
            } else {
                self.num_scrape_errors
            },
            ..self
        }
    }

    /// One more processing ended, with an error where `failed`.
    pub open spec fn with_processing(self, failed: bool) -> Statistics {
        Statistics {
            num_processings: one_up(self.num_processings),
            num_process_errors: if failed {
                one_up(self.num_process_errors)
            } else {
                self.num_process_errors
            },
            ..self
        }
    }

    /// Counts a scraping that ended.
    pub fn count_scraping(&mut self, failed: bool)
        ensures
            *final(self) == old(self).with_scraping(failed),
    {
        self.num_scrapings = count_up(self.num_scrapings);
        if failed {
            self.num_scrape_errors = count_up(self.num_scrape_errors);
        }
    }

    /// Counts a processing that ended.
    pub fn count_processing(&mut self, failed: bool)
        ensures
            *final(self) == old(self).with_processing(failed),
    {
        if failed {
            self.num_process_errors = count_up(self.num_process_errors);
        }
        self.num_processings = count_up(self.num_processings);
    }

    /// What the log is told after a run of `running_time`.
    pub fn write_to_log(&self, running_time: Duration) -> (record: StatisticsRecord)
        ensures
            record.message@ == "statistics"@,
            record.num_processings == self.num_processings,
            record.num_process_errors == self.num_process_errors,
            record.num_scrapings == self.num_scrapings,
            record.num_scrape_errors == self.num_scrape_errors,
            record.running_time == running_time,
    {
        StatisticsRecord {
            message: "statistics",
            num_processings: self.num_processings,
            num_process_errors: self.num_process_errors,
            num_scrapings: self.num_scrapings,
            num_scrape_errors: self.num_scrape_errors,
            running_time,
        }
    }

    /// Whether no more errors than endings were counted.
    pub open spec fn errors_within(self) -> bool {
        self.num_scrape_errors <= self.num_scrapings && self.num_process_errors
            <= self.num_processings
    }
}

/// No more errors than endings are ever counted, until a counter starts over.
pub proof fn law_errors_within(statistics: Statistics, failed: bool)
    requires
        statistics.errors_within(),
    ensures
        statistics.num_scrapings < usize::MAX ==> statistics.with_scraping(failed).errors_within(),
        statistics.num_processings < usize::MAX ==> statistics.with_processing(
            failed,
        ).errors_within(),
{
}

} // verus!
