use std::time::Duration;

use webcrawler::statistics::Statistics;

#[test]
fn statistics_start_at_zero() {
    let statistics = Statistics::default();
    assert_eq!(statistics.num_scrapings, 0);
    assert_eq!(statistics.num_scrape_errors, 0);
    assert_eq!(statistics.num_processings, 0);
    assert_eq!(statistics.num_process_errors, 0);
}

#[test]
fn errors_count_among_all() {
    let mut statistics = Statistics::default();
    statistics.count_scraping(false);
    statistics.count_scraping(true);
    statistics.count_scraping(false);
    statistics.count_processing(true);
    statistics.count_processing(true);
    assert_eq!(statistics.num_scrapings, 3);
    assert_eq!(statistics.num_scrape_errors, 1);
    assert_eq!(statistics.num_processings, 2);
    assert_eq!(statistics.num_process_errors, 2);
}

#[test]
fn counts_wrap_around() {
    let mut statistics = Statistics::default();
    statistics.num_scrapings = usize::MAX;
    statistics.num_process_errors = usize::MAX;
    statistics.count_scraping(false);
    statistics.count_processing(true);
    assert_eq!(statistics.num_scrapings, 0);
    assert_eq!(statistics.num_process_errors, 0);
    assert_eq!(statistics.num_processings, 1);
}

#[test]
fn log_record_holds_every_count() {
    let statistics = Statistics {
        num_scrapings: 4,
        num_scrape_errors: 3,
        num_processings: 2,
        num_process_errors: 1,
    };
    let record = statistics.write_to_log(Duration::from_millis(1234));
    assert_eq!(record.message, "statistics");
    assert_eq!(record.num_scrapings, 4);
    assert_eq!(record.num_scrape_errors, 3);
    assert_eq!(record.num_processings, 2);
    assert_eq!(record.num_process_errors, 1);
    assert_eq!(record.running_time, Duration::from_millis(1234));
}
