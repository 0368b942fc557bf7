use std::path::PathBuf;
use std::time::Duration;

use webcrawler::crawler::{Crawler, CrawlerOptions, ScrapeEvent};
use webcrawler::listener::{Listener, ListenerAction, ListenerEvent, ListenerPhase};
use webcrawler::processing_state::ProcessingState;
use webcrawler::state::{CrawledState, StateOutcome};
use webcrawler::state_file::{Destination, SavedState, read_state};
use webcrawler::time::Timestamp;

fn url(name: &str) -> String {
    format!("https://example.com/{}", name)
}

fn crawler() -> Crawler<String> {
    Crawler::new(&CrawlerOptions::default(), ProcessingState::new())
}

/// A listener that waits for a report.
fn receiving(crawler: &mut Crawler<String>) -> Listener<String> {
    let mut listener = Listener::new(400);
    let action = listener.step(crawler, ListenerEvent::Awake(false));
    assert!(matches!(action, Some(ListenerAction::TryReceive)));
    listener
}

fn sent(action: Option<ListenerAction<String>>) -> Option<String> {
    match action {
        Some(ListenerAction::Send(url)) => Some(url),
        _ => None,
    }
}

#[test]
fn default_options() {
    let options = CrawlerOptions::default();
    assert!(options.saved_state_path.is_none());
    assert_eq!(options.delay, Duration::from_millis(500));
    assert_eq!(options.crawling_concurrency, 1);
    assert_eq!(options.processing_concurrency, 20);
}

#[test]
fn options_are_copied() {
    let options = CrawlerOptions {
        saved_state_path: Some(PathBuf::from("state.json")),
        delay: Duration::from_millis(7),
        crawling_concurrency: 3,
        processing_concurrency: 4,
    };
    let copy = options.clone();
    assert_eq!(copy.saved_state_path, Some(PathBuf::from("state.json")));
    assert_eq!(copy.delay, Duration::from_millis(7));
    assert_eq!(copy.crawling_concurrency, 3);
    assert_eq!(copy.processing_concurrency, 4);
}

#[test]
fn crawler_takes_the_options() {
    let options = CrawlerOptions {
        saved_state_path: None,
        delay: Duration::from_millis(7),
        crawling_concurrency: 3,
        processing_concurrency: 4,
    };
    let crawler: Crawler<String> = Crawler::new(&options, ProcessingState::new());
    assert_eq!(crawler.delay, Duration::from_millis(7));
    assert_eq!(crawler.crawling_queue_capacity(), Some(1200));
    assert_eq!(crawler.processing_queue_capacity(), Some(40));
    assert_eq!(crawler.active_spiders, 0);
    assert_eq!(crawler.statistics.num_scrapings, 0);
}

#[test]
fn capacities_that_do_not_fit() {
    let mut crawler = crawler();
    crawler.crawling_concurrency = usize::MAX / 400;
    crawler.processing_concurrency = usize::MAX / 10;
    assert_eq!(crawler.crawling_queue_capacity(), Some(usize::MAX / 400 * 400));
    assert_eq!(crawler.processing_queue_capacity(), Some(usize::MAX / 10 * 10));
    crawler.crawling_concurrency += 1;
    crawler.processing_concurrency += 1;
    assert_eq!(crawler.crawling_queue_capacity(), None);
    assert_eq!(crawler.processing_queue_capacity(), None);
    crawler.crawling_concurrency = 0;
    assert_eq!(crawler.crawling_queue_capacity(), Some(0));
}

#[test]
fn start_urls_replace_what_was_known() {
    let mut visited_urls = ProcessingState::new();
    let early = Timestamp::new(0, 0).unwrap();
    visited_urls.insert(url("1"), CrawledState::new_at(url("1"), early));
    visited_urls.processed_ok(&url("1"), "out".to_string());
    let mut crawler = Crawler::new(&CrawlerOptions::default(), visited_urls);
    assert_eq!(crawler.queue_start_url(url("1")), url("1"));
    let state = crawler.visited_urls.get(&url("1")).unwrap();
    assert!(state.queued != early);
    assert!(state.process_result.is_none());
}

#[test]
fn active_spiders_are_counted() {
    let mut crawler = crawler();
    crawler.begin_scrape();
    crawler.begin_scrape();
    assert_eq!(crawler.active_spiders, 2);
    crawler.end_scrape();
    crawler.end_scrape();
    assert_eq!(crawler.active_spiders, 0);
    crawler.end_scrape();
    assert_eq!(crawler.active_spiders, usize::MAX);
    crawler.begin_scrape();
    assert_eq!(crawler.active_spiders, 0);
}

#[test]
fn scraped_url_is_taken_down_and_handed_on() {
    let mut crawler = crawler();
    let report = crawler.record_scrape(url("1"), ScrapeEvent::Scraped(vec![10, 20], vec![url("2"), url("1")]));
    assert_eq!(report.url, url("1"));
    assert_eq!(report.items, vec![10, 20]);
    assert_eq!(report.new_urls, vec![url("2"), url("1")]);
    assert_eq!(crawler.statistics.num_scrapings, 1);
    assert_eq!(crawler.statistics.num_scrape_errors, 0);
    let state = crawler.visited_urls.get(&url("1")).unwrap();
    assert!(matches!(&state.scrape_result, Some(StateOutcome::Success(text)) if text.is_empty()));
    assert!(!crawler.visited_urls.contains_key(&url("2")));
}

#[test]
fn failed_scrape_is_taken_down_and_reported_empty() {
    let mut crawler = crawler();
    let report = crawler.record_scrape(url("1"), ScrapeEvent::<u8, String>::Failed("no route".to_string()));
    assert_eq!(report.url, url("1"));
    assert!(report.items.is_empty() && report.new_urls.is_empty());
    assert_eq!(crawler.statistics.num_scrapings, 1);
    assert_eq!(crawler.statistics.num_scrape_errors, 1);
    let state = crawler.visited_urls.get(&url("1")).unwrap();
    assert!(matches!(&state.scrape_result, Some(StateOutcome::Error(text)) if text == "no route"));
}

#[test]
fn scrape_cut_short_leaves_no_trace() {
    let mut crawler = crawler();
    let report = crawler.record_scrape(url("1"), ScrapeEvent::<u8, String>::ShutDown);
    assert_eq!(report.url, url("1"));
    assert!(report.items.is_empty() && report.new_urls.is_empty());
    assert_eq!(crawler.statistics.num_scrapings, 0);
    assert!(!crawler.visited_urls.contains_key(&url("1")));
}

#[test]
fn processing_is_taken_down() {
    let mut crawler = crawler();
    crawler.record_process(&url("1"), Err("disk full".to_string()));
    assert_eq!(crawler.statistics.num_processings, 1);
    assert_eq!(crawler.statistics.num_process_errors, 1);
    assert!(!crawler.visited_urls.get(&url("1")).unwrap().is_processed());
    crawler.record_process(&url("1"), Ok("out".to_string()));
    assert_eq!(crawler.statistics.num_processings, 2);
    assert_eq!(crawler.statistics.num_process_errors, 1);
    let state = crawler.visited_urls.get(&url("1")).unwrap();
    assert!(matches!(&state.process_result, Some(StateOutcome::Success(text)) if text == "out"));
}

#[test]
fn ending_gives_the_log_and_the_state() {
    let mut crawler = crawler();
    crawler.record_process(&url("1"), Ok("out".to_string()));
    let (record, output) = crawler.finish(Some(PathBuf::from("state.json")), Duration::from_secs(3));
    assert_eq!(record.message, "statistics");
    assert_eq!(record.num_processings, 1);
    assert_eq!(record.running_time, Duration::from_secs(3));
    let output = output.unwrap();
    assert!(matches!(output.destination, Destination::File(path) if path == PathBuf::from("state.json")));
    let loaded = read_state::<String>(&SavedState::Contents(output.text.into_bytes()));
    let loaded = loaded.unwrap_or_else(|_| panic!());
    assert!(loaded.problem.is_none());
    assert!(loaded.visited_urls.get(&url("1")).unwrap().is_processed());
}

#[test]
fn listener_stops_when_shutting_down() {
    let mut crawler = crawler();
    let mut listener: Listener<String> = Listener::new(400);
    assert!(matches!(listener.step(&mut crawler, ListenerEvent::Awake(true)), Some(ListenerAction::Stop)));
    assert!(matches!(listener.phase, ListenerPhase::Stopped));
    assert!(listener.step(&mut crawler, ListenerEvent::Awake(false)).is_none());
    assert!(matches!(listener.phase, ListenerPhase::Stopped));
}

#[test]
fn listener_stops_when_no_work_is_left() {
    let cases = [(400, 400, 0, true), (399, 400, 0, false), (400, 399, 0, false), (400, 400, 1, false), (0, 0, 0, false)];
    for (reports, to_visit, active, stops) in cases {
        let mut crawler = crawler();
        crawler.active_spiders = active;
        let mut listener = receiving(&mut crawler);
        let action = listener.step(&mut crawler, ListenerEvent::Received(None));
        assert!(matches!(action, Some(ListenerAction::CountCapacity)));
        let action = listener.step(&mut crawler, ListenerEvent::Counted(reports, to_visit));
        if stops {
            assert!(matches!(action, Some(ListenerAction::Stop)));
        } else {
            assert!(matches!(action, Some(ListenerAction::Sleep(time)) if time == Duration::from_millis(5)));
            assert!(matches!(listener.step(&mut crawler, ListenerEvent::Awake(false)), Some(ListenerAction::TryReceive)));
        }
    }
}

#[test]
fn listener_sends_each_unknown_url_once_in_order() {
    let mut crawler = crawler();
    crawler.queue_start_url(url("known"));
    let mut listener = receiving(&mut crawler);
    let found = vec![url("known"), url("b"), url("a"), url("b"), url("start"), url("c")];
    let action = listener.step(&mut crawler, ListenerEvent::Received(Some((url("start"), found))));
    assert_eq!(sent(action), Some(url("b")));
    assert!(crawler.visited_urls.contains_key(&url("b")));
    assert!(!crawler.visited_urls.contains_key(&url("a")));
    assert_eq!(sent(listener.step(&mut crawler, ListenerEvent::Sent)), Some(url("a")));
    assert_eq!(sent(listener.step(&mut crawler, ListenerEvent::Sent)), Some(url("c")));
    assert!(matches!(listener.step(&mut crawler, ListenerEvent::Sent), Some(ListenerAction::CountCapacity)));
    let state = crawler.visited_urls.get(&url("start")).unwrap();
    assert!(matches!(state.scrape_result, Some(StateOutcome::Success(_))));
    assert!(crawler.visited_urls.get(&url("b")).unwrap().scrape_result.is_none());
}

#[test]
fn listener_passes_over_what_became_known_meanwhile() {
    let mut crawler = crawler();
    let mut listener = receiving(&mut crawler);
    let action = listener.step(&mut crawler, ListenerEvent::Received(Some((url("s"), vec![url("a"), url("b")]))));
    assert_eq!(sent(action), Some(url("a")));
    crawler.record_process(&url("b"), Ok("out".to_string()));
    assert!(matches!(listener.step(&mut crawler, ListenerEvent::Sent), Some(ListenerAction::CountCapacity)));
}

#[test]
fn listener_stops_when_interrupted() {
    let mut crawler = crawler();
    let mut listener = receiving(&mut crawler);
    let action = listener.step(&mut crawler, ListenerEvent::Received(Some((url("s"), vec![url("a"), url("b")]))));
    assert_eq!(sent(action), Some(url("a")));
    assert!(matches!(listener.step(&mut crawler, ListenerEvent::Interrupted), Some(ListenerAction::Stop)));
    assert!(crawler.visited_urls.contains_key(&url("a")));
    assert!(!crawler.visited_urls.contains_key(&url("b")));
}

#[test]
fn report_counts_as_scraped_even_after_an_error() {
    let mut crawler = crawler();
    let report = crawler.record_scrape(url("1"), ScrapeEvent::<u8, String>::Failed("no route".to_string()));
    let mut listener = receiving(&mut crawler);
    let action = listener.step(&mut crawler, ListenerEvent::Received(Some((report.url, report.new_urls))));
    assert!(matches!(action, Some(ListenerAction::CountCapacity)));
    let state = crawler.visited_urls.get(&url("1")).unwrap();
    assert!(matches!(&state.scrape_result, Some(StateOutcome::Success(text)) if text.is_empty()));
    assert_eq!(crawler.statistics.num_scrape_errors, 1);
}

#[test]
fn listener_takes_only_answers() {
    let mut crawler = crawler();
    let mut listener: Listener<String> = Listener::new(400);
    assert!(listener.step(&mut crawler, ListenerEvent::Sent).is_none());
    assert!(listener.step(&mut crawler, ListenerEvent::Interrupted).is_none());
    assert!(listener.step(&mut crawler, ListenerEvent::Counted(400, 400)).is_none());
    assert!(listener.step(&mut crawler, ListenerEvent::Received(Some((url("1"), vec![])))).is_none());
    assert!(matches!(listener.phase, ListenerPhase::Waiting));
    assert!(!crawler.visited_urls.contains_key(&url("1")));
    assert_eq!(listener.crawling_queue_capacity, 400);
}

/// Crawls to the end from three pages and gives what was scraped. Scraping leads from each of
/// them to one more page, which leads nowhere.
fn crawl_all(crawler: &mut Crawler<String>) -> Vec<String> {
    let capacity = crawler.crawling_queue_capacity().unwrap();
    let mut to_visit = Vec::new();
    for name in ["1", "2", "3"] {
        to_visit.push(crawler.queue_start_url(url(name)));
    }
    let mut reports = Vec::new();
    let mut scraped = Vec::new();
    let mut listener = Listener::new(capacity);
    let mut event = ListenerEvent::Awake(false);
    loop {
        let action = listener.step(crawler, event).unwrap();
        event = match action {
            ListenerAction::TryReceive => {
                if !to_visit.is_empty() {
                    let visited = to_visit.remove(0);
                    crawler.begin_scrape();
                    let found = if visited.ends_with('0') { vec![] } else { vec![format!("{}0", visited)] };
                    let event = ScrapeEvent::Scraped(vec![format!("Scraped from {}", visited)], found);
                    let report = crawler.record_scrape(visited, event);
                    for _item in report.items {
                        crawler.record_process(&report.url, Ok(String::new()));
                    }
                    scraped.push(report.url.clone());
                    reports.push((report.url, report.new_urls));
                    crawler.end_scrape();
                }
                let report = if reports.is_empty() { None } else { Some(reports.remove(0)) };
                ListenerEvent::Received(report)
            }
            ListenerAction::Send(url) => {
                to_visit.push(url);
                ListenerEvent::Sent
            }
            ListenerAction::CountCapacity => {
                ListenerEvent::Counted(capacity - reports.len(), capacity - to_visit.len())
            }
            ListenerAction::Sleep(_) => ListenerEvent::Awake(false),
            ListenerAction::Stop => return scraped,
        };
    }
}

#[test]
fn whole_crawl() {
    let mut crawler = crawler();
    let scraped = crawl_all(&mut crawler);
    assert_eq!(scraped, vec![url("1"), url("2"), url("3"), url("10"), url("20"), url("30")]);
    assert_eq!(crawler.statistics.num_scrapings, 6);
    assert_eq!(crawler.statistics.num_processings, 6);
    assert_eq!(crawler.statistics.num_scrape_errors, 0);
    assert_eq!(crawler.statistics.num_process_errors, 0);
    assert_eq!(crawler.active_spiders, 0);
    for name in ["1", "2", "3", "10", "20", "30"] {
        assert!(crawler.visited_urls.get(&url(name)).unwrap().is_processed());
    }
}

#[test]
fn second_crawl_scrapes_the_start_urls_only() {
    let mut first = crawler();
    crawl_all(&mut first);
    let (_, output) = first.finish(None, Duration::from_secs(1));
    let saved = SavedState::Contents(output.unwrap().text.into_bytes());
    let loaded = read_state(&saved).unwrap_or_else(|_| panic!());
    assert!(loaded.problem.is_none());
    let mut second = Crawler::new(&CrawlerOptions::default(), loaded.visited_urls);
    assert_eq!(crawl_all(&mut second), vec![url("1"), url("2"), url("3")]);
    for name in ["1", "2", "3", "10", "20", "30"] {
        assert!(second.visited_urls.get(&url(name)).unwrap().is_processed());
    }
    assert!(!second.visited_urls.contains_key(&url("100")));
}

#[test]
fn active_spiders_stay_within_bounds() {
    let mut crawler = crawler();
    crawler.active_spiders = 5;
    let mut open = 0;
    for begins in [true, true, false, true, true, false, false, true, false, false] {
        if begins {
            crawler.begin_scrape();
            open += 1;
        } else {
            crawler.end_scrape();
            open -= 1;
        }
        assert_eq!(crawler.active_spiders, 5 + open);
        assert!(crawler.active_spiders <= 5 + 3);
    }
    assert_eq!(crawler.active_spiders, 5);
}

#[test]
fn saved_records_stay_unless_started_from() {
    let early = Timestamp::new(0, 0).unwrap();
    let mut visited_urls = ProcessingState::new();
    for name in ["1", "20", "other"] {
        visited_urls.insert(url(name), CrawledState::new_at(url(name), early));
    }
    let mut crawler = Crawler::new(&CrawlerOptions::default(), visited_urls);
    let scraped = crawl_all(&mut crawler);
    assert_eq!(scraped, vec![url("1"), url("2"), url("3"), url("10"), url("30")]);
    for name in ["20", "other"] {
        let state = crawler.visited_urls.get(&url(name)).unwrap();
        assert!(state.queued == early);
        assert!(state.scrape_result.is_none() && state.process_result.is_none());
    }
    assert!(crawler.visited_urls.get(&url("1")).unwrap().queued != early);
}
