use webcrawler::state::{CrawledState, StateOutcome};
use webcrawler::time::Timestamp;

fn url() -> String {
    "https://example.com/1".to_string()
}

fn success(outcome: &Option<StateOutcome>) -> Option<&str> {
    match outcome {
        Some(StateOutcome::Success(text)) => Some(text.as_str()),
        _ => None,
    }
}

fn error(outcome: &Option<StateOutcome>) -> Option<&str> {
    match outcome {
        Some(StateOutcome::Error(text)) => Some(text.as_str()),
        _ => None,
    }
}

#[test]
fn new_state_is_queued_only() {
    let state = CrawledState::new(url());
    assert_eq!(state.url, url());
    assert!(state.scraped_at.is_none());
    assert!(state.scrape_result.is_none());
    assert!(state.processed_at.is_none());
    assert!(state.process_result.is_none());
    assert!(!state.is_processed());
    let state = CrawledState::queued(url());
    assert_eq!(state.url, url());
    assert!(state.scraped_at.is_none() && state.processed_at.is_none());
}

#[test]
fn new_state_takes_the_time_of_the_call() {
    let before = chrono::Utc::now();
    let state = CrawledState::new(url());
    let after = chrono::Utc::now();
    let queued: chrono::DateTime<chrono::Utc> = state.queued.to_text().parse().unwrap();
    assert!(before <= queued && queued <= after);
}

#[test]
fn scraped_ok_has_an_empty_outcome() {
    let mut state = CrawledState::queued(url());
    let queued = state.queued;
    state.scraped_ok();
    assert!(state.scraped_at.is_some());
    assert_eq!(success(&state.scrape_result), Some(""));
    assert!(state.processed_at.is_none() && state.process_result.is_none());
    assert!(state.queued == queued);
}

#[test]
fn scrape_error_keeps_the_message() {
    let mut state = CrawledState::queued(url());
    state.scrape_error("no route");
    assert!(state.scraped_at.is_some());
    assert_eq!(error(&state.scrape_result), Some("no route"));
    assert!(state.processed_at.is_none() && state.process_result.is_none());
}

#[test]
fn processed_ok_keeps_the_output() {
    let mut state = CrawledState::queued(url());
    state.processed_ok("out/1.html");
    assert!(state.processed_at.is_some());
    assert_eq!(success(&state.process_result), Some("out/1.html"));
    assert!(state.scraped_at.is_none() && state.scrape_result.is_none());
    assert!(state.is_processed());
}

#[test]
fn process_error_is_not_processed() {
    let mut state = CrawledState::queued(url());
    state.process_error("broken page".to_string());
    assert!(state.processed_at.is_some());
    assert_eq!(error(&state.process_result), Some("broken page"));
    assert!(!state.is_processed());
}

#[test]
fn last_outcome_decides_whether_processed() {
    let mut state = CrawledState::queued(url());
    state.process_error("broken page");
    state.processed_ok("out");
    assert!(state.is_processed());
    state.process_error("disk full");
    assert!(!state.is_processed());
    assert_eq!(error(&state.process_result), Some("disk full"));
}

#[test]
fn queued_and_ended_in_one_go() {
    let state = CrawledState::queued_and_scraped_ok(url());
    assert_eq!(success(&state.scrape_result), Some(""));
    assert!(state.process_result.is_none());

    let state = CrawledState::queued_and_scrape_error(url(), "no route".to_string());
    assert_eq!(error(&state.scrape_result), Some("no route"));
    assert!(state.process_result.is_none());

    let state = CrawledState::queued_and_processed_ok(url(), "out");
    assert_eq!(success(&state.process_result), Some("out"));
    assert!(state.scrape_result.is_none());

    let state = CrawledState::queued_and_process_error(url(), "disk full".to_string());
    assert_eq!(error(&state.process_result), Some("disk full"));
    assert!(state.scrape_result.is_none());
}

#[test]
fn reset_forgets_all_but_the_url() {
    let at = Timestamp::new(1_700_000_000, 0).unwrap();
    let mut state = CrawledState::new_at(url(), at);
    state.scraped_ok();
    state.processed_ok("out");
    state.reset_as_queued();
    assert_eq!(state.url, url());
    assert!(state.queued != at);
    assert!(state.scraped_at.is_none() && state.scrape_result.is_none());
    assert!(state.processed_at.is_none() && state.process_result.is_none());
    state.reset_as_queued_at(at);
    assert!(state.queued == at);
}

#[test]
fn recorded_times_are_those_given() {
    let queued = Timestamp::new(1_700_000_000, 0).unwrap();
    let scraped = Timestamp::new(1_700_000_001, 5).unwrap();
    let processed = Timestamp::new(1_700_000_002, 6).unwrap();
    let mut state = CrawledState::new_at(url(), queued);
    state.record_scrape(scraped, StateOutcome::Error("no route".to_string()));
    state.record_process(processed, StateOutcome::Success("out".to_string()));
    assert!(state.queued == queued);
    assert!(state.scraped_at == Some(scraped));
    assert!(state.processed_at == Some(processed));
    assert_eq!(error(&state.scrape_result), Some("no route"));
    assert_eq!(success(&state.process_result), Some("out"));
}
