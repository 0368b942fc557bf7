use std::path::PathBuf;

use webcrawler::json::{Json, JsonTree, member, set_member, without_repeats};
use webcrawler::processing_state::ProcessingState;
use webcrawler::spider::{Url, UrlModel};
use webcrawler::state::{CrawledState, StateOutcome};
use webcrawler::state_file::{
    Destination, LoadedState, SavedState, StateProblem, Unindexable, read_state, states_of_document,
    write_state,
};
use webcrawler::time::Timestamp;

/// A URL with a number, saved as an object.
#[derive(Clone)]
struct Page {
    url: String,
    page: serde_json::Number,
}

impl Page {
    fn new(page: serde_json::Number) -> Self {
        Page { url: "a".to_string(), page }
    }
}

impl Url for Page {
    fn model(&self) -> UrlModel {
        unreachable!("only proofs speak of it")
    }

    fn restored(_: JsonTree) -> Option<UrlModel> {
        unreachable!("only proofs speak of it")
    }

    fn restored_missing() -> Option<UrlModel> {
        unreachable!("only proofs speak of it")
    }

    fn url(&self) -> &String {
        &self.url
    }

    fn to_json(&self) -> Json {
        let page = match (self.page.as_u64(), self.page.as_i64()) {
            (Some(page), _) => Json::Unsigned(page),
            (_, Some(page)) => Json::Signed(page),
            _ => Json::Fraction(self.page.clone()),
        };
        Json::Object(vec![("url".to_string(), Json::Text(self.url.clone())), ("page".to_string(), page)])
    }

    fn from_json(json: &Json) -> Option<Self> {
        let Json::Object(entries) = json else { return None };
        let find = |name: &str| entries.iter().find(|entry| entry.0 == name).map(|entry| &entry.1);
        let Some(Json::Text(url)) = find("url") else { return None };
        let page = match find("page") {
            Some(Json::Unsigned(page)) => (*page).into(),
            Some(Json::Signed(page)) => (*page).into(),
            Some(Json::Fraction(page)) => page.clone(),
            _ => return None,
        };
        Some(Page { url: url.clone(), page })
    }

    fn from_missing() -> Option<Self> {
        None
    }
}

/// A URL that is saved as an object with members that share a name, and that need not be
/// saved at all.
#[derive(Clone)]
struct Repeated;

impl Url for Repeated {
    fn model(&self) -> UrlModel {
        unreachable!("only proofs speak of it")
    }

    fn restored(_: JsonTree) -> Option<UrlModel> {
        unreachable!("only proofs speak of it")
    }

    fn restored_missing() -> Option<UrlModel> {
        unreachable!("only proofs speak of it")
    }

    fn url(&self) -> &String {
        unreachable!("it is not asked for")
    }

    fn to_json(&self) -> Json {
        let inner = Json::Object(vec![
            ("b".to_string(), Json::Bool(true)),
            ("c".to_string(), Json::Unsigned(1)),
            ("b".to_string(), Json::Signed(-2)),
        ]);
        Json::Object(vec![
            ("a".to_string(), Json::Text("first".to_string())),
            ("a".to_string(), Json::Array(vec![inner, Json::Null])),
        ])
    }

    fn from_json(_: &Json) -> Option<Self> {
        Some(Repeated)
    }

    fn from_missing() -> Option<Self> {
        Some(Repeated)
    }
}

/// A URL that is saved as so many arrays, one in the other.
#[derive(Clone)]
struct Nested {
    url: String,
    depth: usize,
}

impl Url for Nested {
    fn model(&self) -> UrlModel {
        unreachable!("only proofs speak of it")
    }

    fn restored(_: JsonTree) -> Option<UrlModel> {
        unreachable!("only proofs speak of it")
    }

    fn restored_missing() -> Option<UrlModel> {
        unreachable!("only proofs speak of it")
    }

    fn url(&self) -> &String {
        &self.url
    }

    fn to_json(&self) -> Json {
        let mut json = Json::Text(self.url.clone());
        for _ in 0..self.depth {
            json = Json::Array(vec![json]);
        }
        json
    }

    fn from_json(json: &Json) -> Option<Self> {
        let mut depth = 0;
        let mut json = json;
        while let Json::Array(items) = json {
            depth += 1;
            json = items.first()?;
        }
        match json {
            Json::Text(url) => Some(Nested { url: url.clone(), depth }),
            _ => None,
        }
    }

    fn from_missing() -> Option<Self> {
        None
    }
}

fn at(secs: i64) -> Timestamp {
    Timestamp::new(secs, 0).unwrap()
}

fn read<U: Url>(text: &str) -> Result<LoadedState<U>, Unindexable> {
    read_state(&SavedState::Contents(text.as_bytes().to_vec()))
}

fn read_strings(text: &str) -> LoadedState<String> {
    match read(text) {
        Ok(loaded) => loaded,
        Err(_) => panic!("{}", text),
    }
}

fn is_mismatch(text: &str) -> bool {
    let loaded = read_strings(text);
    matches!(loaded.problem, Some(StateProblem::Mismatch)) && !loaded.visited_urls.contains_key("a")
}

/// A file that remembers `a` by the given record.
fn file_of(record: &str) -> String {
    format!("{{\"visited_urls\":{{\"a\":{}}}}}", record)
}

fn written<U: Url>(state: &ProcessingState<U>) -> String {
    match write_state(None, state) {
        Ok(output) => output.text,
        Err(error) => panic!("{}", error),
    }
}

#[test]
fn nothing_known_is_written() {
    let state: ProcessingState<String> = ProcessingState::new();
    assert_eq!(written(&state), "{\"visited_urls\":{}}");
}

#[test]
fn every_field_is_written() {
    let mut state = ProcessingState::new();
    state.insert("b".to_string(), CrawledState::new_at("b".to_string(), at(0)));
    let mut a = CrawledState::new_at("a".to_string(), at(1_700_000_000));
    a.record_scrape(at(1_700_000_001), StateOutcome::Success(String::new()));
    a.record_process(at(1_700_000_002), StateOutcome::Error("say \"no\"".to_string()));
    state.insert("a".to_string(), a);
    assert_eq!(
        written(&state),
        "{\"visited_urls\":{\
         \"a\":{\
         \"process_result\":{\"outcome\":\"say \\\"no\\\"\",\"status\":\"Error\"},\
         \"processed_at\":\"2023-11-14T22:13:22Z\",\
         \"queued\":\"2023-11-14T22:13:20Z\",\
         \"scrape_result\":{\"outcome\":\"\",\"status\":\"Ok\"},\
         \"scraped_at\":\"2023-11-14T22:13:21Z\",\
         \"url\":\"a\"},\
         \"b\":{\
         \"process_result\":null,\
         \"processed_at\":null,\
         \"queued\":\"1970-01-01T00:00:00Z\",\
         \"scrape_result\":null,\
         \"scraped_at\":null,\
         \"url\":\"b\"}}}"
    );
}

#[test]
fn destination_follows_the_path() {
    let state: ProcessingState<String> = ProcessingState::new();
    let output = write_state(Some(PathBuf::from("state.json")), &state).unwrap();
    assert!(matches!(output.destination, Destination::File(path) if path == PathBuf::from("state.json")));
    let output = write_state(None, &state).unwrap();
    assert!(matches!(output.destination, Destination::Stdout));
}

#[test]
fn what_is_written_is_read_back() {
    let mut state = ProcessingState::new();
    let mut a = CrawledState::new_at("a".to_string(), at(5));
    a.record_scrape(at(6), StateOutcome::Success(String::new()));
    a.record_process(at(7), StateOutcome::Success("\u{fc}mlaut \u{1f577} \\ \n".to_string()));
    state.insert("a".to_string(), a);
    let mut b = CrawledState::new_at("https://example.com/?q=\u{e9}".to_string(), at(8));
    b.record_scrape(at(9), StateOutcome::Error("no route".to_string()));
    state.insert(b.url.clone(), b);
    let text = written(&state);
    let loaded = read_strings(&text);
    assert!(loaded.problem.is_none());
    let a = loaded.visited_urls.get("a").unwrap();
    assert_eq!(a.url, "a");
    assert!(a.queued == at(5) && a.scraped_at == Some(at(6)) && a.processed_at == Some(at(7)));
    assert!(matches!(&a.scrape_result, Some(StateOutcome::Success(text)) if text.is_empty()));
    assert!(matches!(&a.process_result, Some(StateOutcome::Success(text)) if text == "\u{fc}mlaut \u{1f577} \\ \n"));
    let b = loaded.visited_urls.get("https://example.com/?q=\u{e9}").unwrap();
    assert!(b.queued == at(8) && b.scraped_at == Some(at(9)) && b.processed_at.is_none());
    assert!(matches!(&b.scrape_result, Some(StateOutcome::Error(text)) if text == "no route"));
    assert!(b.process_result.is_none());
    assert_eq!(written(&loaded.visited_urls), text);
}

#[test]
fn without_a_file_nothing_is_known() {
    for saved in [SavedState::Absent, SavedState::Unreadable] {
        let loaded: LoadedState<String> = read_state(&saved).unwrap_or_else(|_| panic!());
        assert!(loaded.problem.is_none());
        assert_eq!(written(&loaded.visited_urls), "{\"visited_urls\":{}}");
    }
}

#[test]
fn no_json_is_passed_over() {
    for text in ["", "{", "visited_urls", "{\"visited_urls\":{}} x", "{\"a\":1e999}"] {
        let loaded = read_strings(text);
        assert!(matches!(loaded.problem, Some(StateProblem::Json(_))), "{}", text);
        assert_eq!(written(&loaded.visited_urls), "{\"visited_urls\":{}}");
    }
    let loaded: LoadedState<String> =
        read_state(&SavedState::Contents(vec![b'"', 0xff, b'"'])).unwrap_or_else(|_| panic!());
    assert!(matches!(loaded.problem, Some(StateProblem::Json(_))));
}

#[test]
fn documents_without_visited_urls_are_passed_over() {
    for text in ["null", "{}", "{\"visited\":{}}", "{\"visited_urls\":null}", "{\"visited_urls\":[]}", "{\"visited_urls\":7}"] {
        assert!(is_mismatch(text), "{}", text);
    }
}

#[test]
fn documents_without_members_are_unindexable() {
    for text in ["[]", "[{\"visited_urls\":{}}]", "\"visited_urls\"", "7", "true"] {
        assert!(matches!(read::<String>(text), Err(Unindexable)), "{}", text);
    }
}

#[test]
fn other_members_are_ignored() {
    let record = "{\"url\":\"a\",\"queued\":\"1970-01-01T00:00:05Z\",\"colour\":[1,2]}";
    let text = format!("{{\"version\":1,\"visited_urls\":{{\"a\":{}}}}}", record);
    let loaded = read_strings(&text);
    assert!(loaded.problem.is_none());
    assert!(loaded.visited_urls.get("a").unwrap().queued == at(5));
}

#[test]
fn missing_optional_fields_are_none() {
    let loaded = read_strings(&file_of("{\"queued\":\"1970-01-01T00:00:05Z\",\"url\":\"u\"}"));
    assert!(loaded.problem.is_none());
    let state = loaded.visited_urls.get("a").unwrap();
    assert_eq!(state.url, "u");
    assert!(state.queued == at(5));
    assert!(state.scraped_at.is_none() && state.scrape_result.is_none());
    assert!(state.processed_at.is_none() && state.process_result.is_none());
}

#[test]
fn records_may_be_arrays() {
    let record = "[\"u\",\"1970-01-01T00:00:05Z\",\"1970-01-01T00:00:06Z\",[\"Ok\",\"\"],null,{\"status\":\"Error\",\"outcome\":\"e\"}]";
    let loaded = read_strings(&file_of(record));
    assert!(loaded.problem.is_none());
    let state = loaded.visited_urls.get("a").unwrap();
    assert_eq!(state.url, "u");
    assert!(state.scraped_at == Some(at(6)) && state.processed_at.is_none());
    assert!(matches!(&state.scrape_result, Some(StateOutcome::Success(text)) if text.is_empty()));
    assert!(matches!(&state.process_result, Some(StateOutcome::Error(text)) if text == "e"));
}

/// A record with this outcome of scraping.
fn scraped_record(outcome: &str) -> String {
    format!("{{\"url\":\"a\",\"queued\":\"1970-01-01T00:00:05Z\",\"scrape_result\":{}}}", outcome)
}

#[test]
fn status_may_be_an_object() {
    let loaded = read_strings(&file_of(&scraped_record("{\"status\":{\"Ok\":null},\"outcome\":\"x\"}")));
    assert!(loaded.problem.is_none());
    let state = loaded.visited_urls.get("a").unwrap();
    assert!(matches!(&state.scrape_result, Some(StateOutcome::Success(text)) if text == "x"));
    let loaded = read_strings(&file_of(&scraped_record("{\"outcome\":\"x\",\"status\":{\"Error\":null}}")));
    assert!(loaded.problem.is_none());
    let state = loaded.visited_urls.get("a").unwrap();
    assert!(matches!(&state.scrape_result, Some(StateOutcome::Error(text)) if text == "x"));
}

#[test]
fn other_object_statuses_are_passed_over() {
    let outcomes = [
        "[{\"Ok\":null},\"x\"]",
        "{\"status\":{\"Ok\":1},\"outcome\":\"x\"}",
        "{\"status\":{\"Fine\":null},\"outcome\":\"x\"}",
        "{\"status\":{\"Ok\":null,\"Error\":null},\"outcome\":\"x\"}",
        "{\"status\":{},\"outcome\":\"x\"}",
        "{\"status\":[\"Ok\"],\"outcome\":\"x\"}",
    ];
    for outcome in outcomes {
        assert!(is_mismatch(&file_of(&scraped_record(outcome))), "{}", outcome);
    }
}

#[test]
fn records_that_do_not_fit_are_passed_over() {
    let records = [
        "null",
        "{}",
        "\"a\"",
        "{\"url\":\"a\"}",
        "{\"queued\":\"1970-01-01T00:00:05Z\"}",
        "{\"url\":7,\"queued\":\"1970-01-01T00:00:05Z\"}",
        "{\"url\":\"a\",\"queued\":5}",
        "{\"url\":\"a\",\"queued\":null}",
        "{\"url\":\"a\",\"queued\":\"now\"}",
        "{\"url\":\"a\",\"queued\":\"1970-01-01T00:00:05Z\",\"scraped_at\":\"now\"}",
        "{\"url\":\"a\",\"queued\":\"1970-01-01T00:00:05Z\",\"scrape_result\":\"Ok\"}",
        "{\"url\":\"a\",\"queued\":\"1970-01-01T00:00:05Z\",\"scrape_result\":{}}",
        "{\"url\":\"a\",\"queued\":\"1970-01-01T00:00:05Z\",\"scrape_result\":{\"status\":\"Ok\"}}",
        "{\"url\":\"a\",\"queued\":\"1970-01-01T00:00:05Z\",\"scrape_result\":{\"outcome\":\"\"}}",
        "{\"url\":\"a\",\"queued\":\"1970-01-01T00:00:05Z\",\"scrape_result\":{\"status\":\"ok\",\"outcome\":\"\"}}",
        "{\"url\":\"a\",\"queued\":\"1970-01-01T00:00:05Z\",\"scrape_result\":{\"status\":\"Ok\",\"outcome\":null}}",
        "[\"a\",\"1970-01-01T00:00:05Z\",null,null,null]",
        "[\"a\",\"1970-01-01T00:00:05Z\",null,null,null,null,null]",
        "[\"a\",\"1970-01-01T00:00:05Z\",null,[\"Ok\"],null,null]",
    ];
    for record in records {
        assert!(is_mismatch(&file_of(record)), "{}", record);
    }
}

#[test]
fn one_record_that_does_not_fit_spoils_the_file() {
    let text = "{\"visited_urls\":{\"a\":{\"url\":\"a\",\"queued\":\"1970-01-01T00:00:05Z\"},\"b\":{}}}";
    assert!(is_mismatch(text));
}

#[test]
fn later_member_counts() {
    let text = "{\"visited_urls\":{},\"visited_urls\":{\"a\":{\"url\":\"u\",\"url\":\"v\",\"queued\":\"1970-01-01T00:00:05Z\"}}}";
    let loaded = read_strings(text);
    assert!(loaded.problem.is_none());
    assert_eq!(loaded.visited_urls.get("a").unwrap().url, "v");
}

/// What is written for a URL with this number.
fn written_page(page: serde_json::Number) -> String {
    let mut state = ProcessingState::new();
    state.insert("a".to_string(), CrawledState::new_at(Page::new(page), at(0)));
    written(&state)
}

#[test]
fn whole_numbers_are_read_back() {
    let pages: [serde_json::Number; 5] = [0u64.into(), 7u64.into(), u64::MAX.into(), (-1i64).into(), i64::MIN.into()];
    for page in pages {
        let text = written_page(page.clone());
        assert!(text.contains(&format!("\"url\":{{\"page\":{},\"url\":\"a\"}}", page)), "{}", text);
        let loaded: LoadedState<Page> = read(&text).unwrap_or_else(|_| panic!());
        assert!(loaded.problem.is_none());
        assert_eq!(loaded.visited_urls.get("a").unwrap().url.page, page);
    }
}

#[test]
fn fractions_are_written_as_they_are() {
    let cases = [
        (1.5f64, "1.5"),
        (0.1, "0.1"),
        (-0.0, "-0.0"),
        (1e300, "1e+300"),
        (f64::MAX, "1.7976931348623157e+308"),
        (f64::MIN_POSITIVE, "2.2250738585072014e-308"),
    ];
    for (page, expected) in cases {
        let text = written_page(serde_json::Number::from_f64(page).unwrap());
        assert!(text.contains(&format!("\"url\":{{\"page\":{},\"url\":\"a\"}}", expected)), "{}", text);
        let direct = serde_json::to_string(&page).unwrap();
        assert_eq!(direct, expected);
    }
}

#[test]
fn fractions_that_read_back_from_their_own_text_are_read_back() {
    for page in [1.5f64, 0.1, -0.0, 1234.5678] {
        let page = serde_json::Number::from_f64(page).unwrap();
        let loaded: LoadedState<Page> = read(&written_page(page.clone())).unwrap_or_else(|_| panic!());
        assert!(loaded.problem.is_none());
        let found = &loaded.visited_urls.get("a").unwrap().url.page;
        assert_eq!(found.to_string(), page.to_string());
    }
}

#[test]
fn later_of_two_members_is_written() {
    let mut state = ProcessingState::new();
    state.insert("a".to_string(), CrawledState::new_at(Repeated, at(0)));
    let text = written(&state);
    assert!(text.contains("\"url\":{\"a\":[{\"b\":-2,\"c\":1},null]}"), "{}", text);
    assert!(!text.contains("first"), "{}", text);
}

#[test]
fn repeats_are_removed() {
    let Json::Object(entries) = without_repeats(Repeated.to_json()) else { panic!() };
    assert_eq!(entries.len(), 1);
    let Json::Array(items) = &entries[0].1 else { panic!() };
    let Json::Object(inner) = &items[0] else { panic!() };
    assert_eq!(inner.len(), 2);
    assert!(matches!(member(inner, "b"), Some(Json::Signed(-2))));
    assert!(matches!(items[1], Json::Null));
}

#[test]
fn member_is_replaced() {
    let mut entries = Vec::new();
    set_member(&mut entries, "a".to_string(), Json::Bool(true));
    set_member(&mut entries, "b".to_string(), Json::Null);
    set_member(&mut entries, "a".to_string(), Json::Unsigned(1));
    assert_eq!(entries.len(), 2);
    assert!(matches!(member(&entries, "a"), Some(Json::Unsigned(1))));
    assert!(matches!(member(&entries, "b"), Some(Json::Null)));
    assert!(member(&entries, "c").is_none());
}

#[test]
fn missing_url_is_left_to_the_type() {
    let text = file_of("{\"queued\":\"1970-01-01T00:00:05Z\"}");
    let loaded: LoadedState<Repeated> = read(&text).unwrap_or_else(|_| panic!());
    assert!(loaded.problem.is_none());
    assert!(loaded.visited_urls.get("a").unwrap().queued == at(5));
    assert!(is_mismatch(&text));
}

#[test]
fn states_come_from_the_document() {
    let record = Json::Array(vec![
        Json::Text("u".to_string()),
        Json::Text("1970-01-01T00:00:05Z".to_string()),
        Json::Null,
        Json::Null,
        Json::Null,
        Json::Null,
    ]);
    let visited = Json::Object(vec![("a".to_string(), record)]);
    let document = Json::Object(vec![("visited_urls".to_string(), visited)]);
    let states = states_of_document::<String>(&document).unwrap().unwrap_or_else(|| panic!());
    assert_eq!(states.get("a").unwrap().url, "u");
    assert!(matches!(states_of_document::<String>(&Json::Object(vec![])), Ok(None)));
    assert!(matches!(states_of_document::<String>(&Json::Null), Ok(None)));
    assert!(matches!(states_of_document::<String>(&Json::Array(vec![document])), Err(Unindexable)));
    assert!(matches!(states_of_document::<String>(&Json::Unsigned(7)), Err(Unindexable)));
}

#[test]
fn nesting_is_bounded() {
    for (depth, read_back) in [(0, true), (1, true), (123, true), (124, true), (125, false), (130, false)] {
        let mut state = ProcessingState::new();
        let url = Nested { url: "a".to_string(), depth };
        state.insert("a".to_string(), CrawledState::new_at(url, at(0)));
        let loaded: LoadedState<Nested> = read(&written(&state)).unwrap_or_else(|_| panic!());
        match loaded.visited_urls.get("a") {
            Some(state) => assert!(read_back && state.url.depth == depth),
            None => assert!(!read_back && matches!(loaded.problem, Some(StateProblem::Json(_)))),
        }
    }
}
