use webcrawler::processing_state::ProcessingState;
use webcrawler::state::{CrawledState, StateOutcome};
use webcrawler::time::Timestamp;

fn url(name: &str) -> String {
    format!("https://example.com/{}", name)
}

fn early() -> Timestamp {
    Timestamp::new(0, 0).unwrap()
}

fn is_success(outcome: &Option<StateOutcome>, text: &str) -> bool {
    matches!(outcome, Some(StateOutcome::Success(found)) if found == text)
}

fn is_error(outcome: &Option<StateOutcome>, text: &str) -> bool {
    matches!(outcome, Some(StateOutcome::Error(found)) if found == text)
}

#[test]
fn nothing_is_known_at_first() {
    let state: ProcessingState<String> = ProcessingState::new();
    assert!(!state.contains_key(&url("1")));
    assert!(state.get(&url("1")).is_none());
}

#[test]
fn insert_replaces() {
    let mut state = ProcessingState::new();
    state.insert(url("1"), CrawledState::new_at(url("1"), early()));
    state.insert(url("2"), CrawledState::new_at(url("2"), early()));
    let mut replacement = CrawledState::new_at(url("1"), early());
    replacement.processed_ok("out");
    state.insert(url("1"), replacement);
    assert!(state.get(&url("1")).unwrap().is_processed());
    assert!(!state.get(&url("2")).unwrap().is_processed());
    assert!(!state.contains_key(&url("3")));
}

#[test]
fn outcomes_of_an_unknown_url() {
    let mut state = ProcessingState::new();
    state.scraped_ok(&url("1"));
    state.scrape_error(&url("2"), "no route".to_string());
    state.processed_ok(&url("3"), "out".to_string());
    state.process_error(&url("4"), "disk full".to_string());
    state.queue(&url("5"));
    let first = state.get(&url("1")).unwrap();
    assert!(first.url == url("1") && is_success(&first.scrape_result, ""));
    assert!(first.scraped_at.is_some() && first.process_result.is_none());
    let second = state.get(&url("2")).unwrap();
    assert!(second.url == url("2") && is_error(&second.scrape_result, "no route"));
    let third = state.get(&url("3")).unwrap();
    assert!(third.url == url("3") && is_success(&third.process_result, "out"));
    assert!(third.scrape_result.is_none());
    let fourth = state.get(&url("4")).unwrap();
    assert!(fourth.url == url("4") && is_error(&fourth.process_result, "disk full"));
    let fifth = state.get(&url("5")).unwrap();
    assert!(fifth.url == url("5") && fifth.scrape_result.is_none() && fifth.process_result.is_none());
}

#[test]
fn outcomes_of_a_known_url() {
    let mut state = ProcessingState::new();
    state.insert(url("1"), CrawledState::new_at(url("1"), early()));
    state.insert(url("2"), CrawledState::new_at(url("2"), early()));
    state.scrape_error(&url("1"), "no route".to_string());
    state.processed_ok(&url("1"), "out".to_string());
    let found = state.get(&url("1")).unwrap();
    assert!(found.queued == early());
    assert!(is_error(&found.scrape_result, "no route") && is_success(&found.process_result, "out"));
    state.scraped_ok(&url("1"));
    state.process_error(&url("1"), "disk full".to_string());
    let found = state.get(&url("1")).unwrap();
    assert!(found.queued == early());
    assert!(is_success(&found.scrape_result, "") && is_error(&found.process_result, "disk full"));
    let other = state.get(&url("2")).unwrap();
    assert!(other.scrape_result.is_none() && other.process_result.is_none());
}

#[test]
fn queueing_again_starts_over() {
    let mut state = ProcessingState::new();
    state.insert(url("1"), CrawledState::new_at(url("1"), early()));
    state.processed_ok(&url("1"), "out".to_string());
    state.queue(&url("1"));
    let found = state.get(&url("1")).unwrap();
    assert!(found.queued != early());
    assert!(!found.is_processed() && found.process_result.is_none());
}

#[test]
fn many_urls_are_told_apart() {
    let mut state = ProcessingState::new();
    for i in 0..500 {
        state.queue(&url(&i.to_string()));
    }
    state.processed_ok(&url("250"), "out".to_string());
    for i in 0..500 {
        let name = url(&i.to_string());
        let found = state.get(&name).unwrap();
        assert!(found.url == name);
        assert_eq!(found.is_processed(), i == 250);
    }
}
