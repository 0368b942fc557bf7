//! How what is remembered of one URL is saved as JSON and read back.

use vstd::prelude::*;
use crate::json::{Json, JsonTree, lemma_trees, member, set_member, without_repeats};
use crate::spider::{Url, UrlModel};
use crate::state::{CrawledState, OutcomeModel, StateModel, StateOutcome, outcome_model};
use crate::time::Timestamp;
#[allow(unused_imports)]
use crate::json::{has_no_repeats, lemma_members_names, members};

verus! {

/// The value that is saved for an outcome.
pub open spec fn saved_outcome(outcome: OutcomeModel) -> JsonTree {
    match outcome {
        OutcomeModel::Success(text) => JsonTree::Object(
            map!["status"@ => JsonTree::Text("Ok"@), "outcome"@ => JsonTree::Text(text)],
        ),
        OutcomeModel::Error(text) => JsonTree::Object(
            map!["status"@ => JsonTree::Text("Error"@), "outcome"@ => JsonTree::Text(text)],
        ),
    }
}

/// The value that is saved for an instant.
pub open spec fn saved_time(at: Timestamp) -> JsonTree {
    JsonTree::Text(at.text())
}

/// The value that is saved for an instant that may be missing.
pub open spec fn saved_optional_time(at: Option<Timestamp>) -> JsonTree {
    match at {
        Some(at) => saved_time(at),
        None => JsonTree::Null,
    }
}

/// The value that is saved for an outcome that may be missing.
pub open spec fn saved_optional_outcome(outcome: Option<OutcomeModel>) -> JsonTree {
    match outcome {
        Some(outcome) => saved_outcome(outcome),
        None => JsonTree::Null,
    }
}

/// The value that is saved for what is remembered of a URL.
pub open spec fn saved_state(state: StateModel) -> JsonTree {
    JsonTree::Object(
        map![
            "url"@ => state.url.json,
            "queued"@ => saved_time(state.queued),
            "scraped_at"@ => saved_optional_time(state.scraped_at),
            "scrape_result"@ => saved_optional_outcome(state.scrape_result),
            "processed_at"@ => saved_optional_time(state.processed_at),
            "process_result"@ => saved_optional_outcome(state.process_result),
        ],
    )
}

/// Whether an outcome whose status reads `status` is a success, or `None` where no outcome
/// has such a status.
pub open spec fn is_success_status(status: Seq<char>) -> Option<bool> {
    if status == "Ok"@ {
        Some(true)
    } else if status == "Error"@ {
        Some(false)
    } else {
        None
    }
}

/// Whether an outcome saved with the status `status` is a success: the status is given by
/// its name, or by an object whose one member bears its name and is null.
pub open spec fn restored_status(status: JsonTree) -> Option<bool> {
    match status {
        JsonTree::Text(name) => is_success_status(name),
        JsonTree::Object(fields) => if fields == map!["Ok"@ => JsonTree::Null] {
            Some(true)
        } else if fields == map!["Error"@ => JsonTree::Null] {
            Some(false)
        } else {
            None
        },
        _ => None,
    }
}

/// The outcome of the given kind with the given content, which must be text.
pub open spec fn outcome_of(success: Option<bool>, content: JsonTree) -> Option<OutcomeModel> {
    match (success, content) {
        (Some(true), JsonTree::Text(text)) => Some(OutcomeModel::Success(text)),
        (Some(false), JsonTree::Text(text)) => Some(OutcomeModel::Error(text)),
        _ => None,
    }
}

/// The outcome that a saved value gives, or `None` where it gives none: an object with a
/// status and an outcome, other members being passed over, or an array of just the two.
pub open spec fn restored_outcome(value: JsonTree) -> Option<OutcomeModel> {
    match value {
        JsonTree::Object(fields) => if fields.contains_key("status"@) && fields.contains_key(
            "outcome"@,
        ) {
            outcome_of(restored_status(fields["status"@]), fields["outcome"@])
        } else {
            None
        },
        JsonTree::Array(items) => if items.len() == 2 {
            match items[0] {
                JsonTree::Text(name) => outcome_of(is_success_status(name), items[1]),
                _ => None,
            }
        } else {
            None
        },
        _ => None,
    }
}

/// The instant that a saved value gives, or `None` where it gives none.
pub open spec fn restored_time(value: JsonTree) -> Option<Timestamp> {
    match value {
        JsonTree::Text(text) => Timestamp::of_text(text),
        _ => None,
    }
}

/// The instant, which may be missing, that a saved value gives. A value that is itself
/// missing counts as null.
pub open spec fn restored_optional_time(value: Option<JsonTree>) -> Option<Option<Timestamp>> {
    match value {
        None | Some(JsonTree::Null) => Some(None),
        Some(value) => match restored_time(value) {
            Some(at) => Some(Some(at)),
            None => None,
        },
    }
}

/// The outcome, which may be missing, that a saved value gives. A value that is itself
/// missing counts as null.
pub open spec fn restored_optional_outcome(value: Option<JsonTree>) -> Option<
    Option<OutcomeModel>,
> {
    match value {
        None | Some(JsonTree::Null) => Some(None),
        Some(value) => match restored_outcome(value) {
            Some(outcome) => Some(Some(outcome)),
            None => None,
        },
    }
}

/// What the crawler sees of a URL, from the value saved for it, which may be missing.
pub open spec fn restored_url<U: Url>(value: Option<JsonTree>) -> Option<UrlModel> {
    match value {
        Some(value) => U::restored(value),
        None => U::restored_missing(),
    }
}

/// What is remembered of a URL, from the values saved for its parts.
pub open spec fn restored_parts<U: Url>(
    url: Option<JsonTree>,
    queued: Option<JsonTree>,
    scraped_at: Option<JsonTree>,
    scrape_result: Option<JsonTree>,
    processed_at: Option<JsonTree>,
    process_result: Option<JsonTree>,
) -> Option<StateModel> {
    match (
        restored_url::<U>(url),
        queued,
        restored_optional_time(scraped_at),
        restored_optional_outcome(scrape_result),
        restored_optional_time(processed_at),
        restored_optional_outcome(process_result),
    ) {
        (
            Some(url),
            Some(queued),
            Some(scraped_at),
            Some(scrape_result),
            Some(processed_at),
            Some(process_result),
        ) => match restored_time(queued) {
            Some(queued) => Some(
                StateModel {
                    url,
                    queued,
                    scraped_at,
                    scrape_result,
                    processed_at,
                    process_result,
                },
            ),
            None => None,
        },
        _ => None,
    }
}

/// What is remembered of a URL, from the value saved for it, or `None` where the value gives
/// no such thing: an object, whose further members are passed over, or an array of just the
/// six parts in order.
pub open spec fn restored_state<U: Url>(value: JsonTree) -> Option<StateModel> {
    match value {
        JsonTree::Object(fields) => restored_parts::<U>(
            fields.get("url"@),
            fields.get("queued"@),
            fields.get("scraped_at"@),
            fields.get("scrape_result"@),
            fields.get("processed_at"@),
            fields.get("process_result"@),
        ),
        JsonTree::Array(items) => if items.len() == 6 {
            restored_parts::<U>(
                Some(items[0]),
                Some(items[1]),
                Some(items[2]),
                Some(items[3]),
                Some(items[4]),
                Some(items[5]),
            )
        } else {
            None
        },
        _ => None,
    }
}

/// The names of the members differ from each other.
pub proof fn lemma_member_names()
    ensures
        "status"@ != "outcome"@,
        "Ok"@ != "Error"@,
        "url"@ != "queued"@,
        "url"@ != "scraped_at"@,
        "url"@ != "scrape_result"@,
        "url"@ != "processed_at"@,
        "url"@ != "process_result"@,
        "queued"@ != "scraped_at"@,
        "queued"@ != "scrape_result"@,
        "queued"@ != "processed_at"@,
        "queued"@ != "process_result"@,
        "scraped_at"@ != "scrape_result"@,
        "scraped_at"@ != "processed_at"@,
        "scraped_at"@ != "process_result"@,
        "scrape_result"@ != "processed_at"@,
        "scrape_result"@ != "process_result"@,
        "processed_at"@ != "process_result"@,
{
    reveal_strlit("status");
    reveal_strlit("outcome");
    reveal_strlit("Ok");
    reveal_strlit("Error");
    reveal_strlit("url");
    reveal_strlit("queued");
    reveal_strlit("scraped_at");
    reveal_strlit("scrape_result");
    reveal_strlit("processed_at");
    reveal_strlit("process_result");
    assert("status"@.len() == 6);
    assert("outcome"@.len() == 7);
    assert("Ok"@.len() == 2);
    assert("Error"@.len() == 5);
    assert("url"@.len() == 3);
    assert("queued"@.len() == 6);
    assert("scraped_at"@.len() == 10);
    assert("scrape_result"@.len() == 13);
    assert("processed_at"@.len() == 12);
    assert("process_result"@.len() == 14);
}

/// An outcome is read back from the value saved for it.
pub proof fn law_outcome_restored(outcome: OutcomeModel)
    ensures
        restored_outcome(saved_outcome(outcome)) == Some(outcome),
{
    lemma_member_names();
}

/// Whether an instant, where there is one, is read back from the value saved for it.
pub open spec fn is_kept(at: Option<Timestamp>) -> bool {
    at matches Some(at) ==> restored_time(saved_time(at)) == Some(at)
}

/// What is remembered of a URL is read back from the value saved for it, where the URL and
/// each of its instants are read back from theirs.
pub proof fn law_state_restored<U: Url>(state: StateModel)
    requires
        U::restored(state.url.json) == Some(state.url),
        is_kept(Some(state.queued)),
        is_kept(state.scraped_at),
        is_kept(state.processed_at),
    ensures
        restored_state::<U>(saved_state(state)) == Some(state),
{
    lemma_member_names();
    if let Some(outcome) = state.scrape_result {
        law_outcome_restored(outcome);
    }
    if let Some(outcome) = state.process_result {
        law_outcome_restored(outcome);
    }
}

impl StateOutcome {
    /// The value that is saved for the outcome.
    pub fn to_json(&self) -> (json: Json)
        ensures
            json@ == saved_outcome(self@),
            has_no_repeats(json),
    {
        let (status, text) = match self {
            StateOutcome::Success(text) => ("Ok", text),
            StateOutcome::Error(text) => ("Error", text),
        };
        let mut entries: Vec<(String, Json)> = Vec::new();
        set_member(&mut entries, "status".to_owned(), Json::Text(status.to_owned()));
        set_member(&mut entries, "outcome".to_owned(), Json::Text(text.clone()));
        proof {
            assert(members(entries@) =~= map![
                "status"@ => JsonTree::Text(status@),
                "outcome"@ => JsonTree::Text(text@),
            ]);
        }
        Json::Object(entries)
    }
}

/// The value that is saved for an instant that may be missing.
fn time_to_json(at: &Option<Timestamp>) -> (json: Json)
    ensures
        json@ == saved_optional_time(*at),
        has_no_repeats(json),
        is_kept(*at),
{
    match at {
        Some(at) => Json::Text(at.to_text()),
        None => Json::Null,
    }
}

/// The value that is saved for an outcome that may be missing.
fn outcome_to_json(outcome: &Option<StateOutcome>) -> (json: Json)
    ensures
        json@ == saved_optional_outcome(outcome_model(*outcome)),
        has_no_repeats(json),
{
    match outcome {
        Some(outcome) => outcome.to_json(),
        None => Json::Null,
    }
}

impl<U: Url> CrawledState<U> {
    /// The value that is saved for what is remembered of the URL. The same is read back from
    /// it, where the URL is read back from the value saved for the URL.
    pub fn to_json(&self) -> (json: Json)
        ensures
            json@ == saved_state(self@),
            has_no_repeats(json),
            U::restored(self@.url.json) == Some(self@.url) ==> restored_state::<U>(json@) == Some(
                self@,
            ),
    {
        let mut entries: Vec<(String, Json)> = Vec::new();
        set_member(&mut entries, "url".to_owned(), without_repeats(self.url.to_json()));
        set_member(&mut entries, "queued".to_owned(), Json::Text(self.queued.to_text()));
        set_member(&mut entries, "scraped_at".to_owned(), time_to_json(&self.scraped_at));
        set_member(&mut entries, "scrape_result".to_owned(), outcome_to_json(&self.scrape_result));
        set_member(&mut entries, "processed_at".to_owned(), time_to_json(&self.processed_at));
        set_member(&mut entries, "process_result".to_owned(), outcome_to_json(&self.process_result));
        proof {
            assert(JsonTree::Object(members(entries@)) == saved_state(self@));
            if U::restored(self@.url.json) == Some(self@.url) {
                law_state_restored::<U>(self@);
            }
        }
        Json::Object(entries)
    }
}

/// The mathematical value of a saved value that may be missing.
pub open spec fn optional_tree(value: Option<&Json>) -> Option<JsonTree> {
    match value {
        Some(value) => Some(value@),
        None => None,
    }
}

/// Whether an outcome with the status `status` is a success.
fn success_of_name(status: &String) -> (success: Option<bool>)
    ensures
        success == is_success_status(status@),
{
    let ok = "Ok".to_owned();
    let error = "Error".to_owned();
    if *status == ok {
        Some(true)
    } else if *status == error {
        Some(false)
    } else {
        None
    }
}

/// Whether the object written as `entries` has one member, `name`, and that is null.
fn is_null_member(entries: &Vec<(String, Json)>, name: &str) -> (result: bool)
    ensures
        result == (members(entries@) == map![name@ => JsonTree::Null]),
{
    let wanted = name.to_owned();
    let mut i: usize = 0;
    while i < entries.len()
        invariant
            wanted@ == name@,
            i <= entries.len(),
            forall|j: int| 0 <= j < i ==> (#[trigger] entries@[j]).0@ == name@,
        decreases entries.len() - i,
    {
        if entries[i].0 != wanted {
            proof {
                lemma_members_names(entries@, entries@[i as int].0@);
            }
            return false;
        }
        i = i + 1;
    }
    match member(entries, name) {
        Some(Json::Null) => {
            proof {
                assert forall|other: Seq<char>| #[trigger]
                    members(entries@).contains_key(other) implies other == name@ by {
                    lemma_members_names(entries@, other);
                }
                assert(members(entries@) =~= map![name@ => JsonTree::Null]);
            }
            true
        },
        Some(_) => {
            assert(members(entries@)[name@] != JsonTree::Null);
            assert(map![name@ => JsonTree::Null][name@] == JsonTree::Null);
            false
        },
        None => {
            assert(map![name@ => JsonTree::Null].contains_key(name@));
            false
        },
    }
}

/// Whether an outcome saved with the status `status` is a success.
fn read_status(status: &Json) -> (success: Option<bool>)
    ensures
        success == restored_status(status@),
{
    match status {
        Json::Text(name) => success_of_name(name),
        Json::Object(entries) => if is_null_member(entries, "Ok") {
            Some(true)
        } else if is_null_member(entries, "Error") {
            Some(false)
        } else {
            None
        },
        _ => None,
    }
}

/// The outcome of the given kind with the given content.
fn make_outcome(success: Option<bool>, content: &Json) -> (outcome: Option<StateOutcome>)
    ensures
        outcome_model(outcome) == outcome_of(success, content@),
{
    match (success, content) {
        (Some(true), Json::Text(text)) => Some(StateOutcome::Success(text.clone())),
        (Some(false), Json::Text(text)) => Some(StateOutcome::Error(text.clone())),
        _ => None,
    }
}

impl StateOutcome {
    /// The outcome that a saved value gives.
    pub fn from_json(json: &Json) -> (outcome: Option<StateOutcome>)
        ensures
            outcome_model(outcome) == restored_outcome(json@),
    {
        match json {
            Json::Object(entries) => match (member(entries, "status"), member(entries, "outcome")) {
                (Some(status), Some(content)) => make_outcome(read_status(status), content),
                _ => None,
            },
            Json::Array(items) => {
                proof {
                    lemma_trees(items@);
                }
                if items.len() != 2 {
                    return None;
                }
                match &items[0] {
                    Json::Text(name) => make_outcome(success_of_name(name), &items[1]),
                    _ => None,
                }
            },
            _ => None,
        }
    }
}

/// The instant that a saved value gives.
fn read_time(json: &Json) -> (at: Option<Timestamp>)
    ensures
        at == restored_time(json@),
{
    match json {
        Json::Text(text) => Timestamp::from_text(text.as_str()),
        _ => None,
    }
}

/// The instant, which may be missing, that a saved value gives.
fn read_optional_time(json: Option<&Json>) -> (at: Option<Option<Timestamp>>)
    ensures
        at == restored_optional_time(optional_tree(json)),
{
    match json {
        None => Some(None),
        Some(Json::Null) => Some(None),
        Some(json) => match read_time(json) {
            Some(at) => Some(Some(at)),
            None => None,
        },
    }
}

/// The outcome, which may be missing, that a saved value gives.
fn read_optional_outcome(json: Option<&Json>) -> (outcome: Option<Option<StateOutcome>>)
    ensures
        match outcome {
            Some(outcome) => restored_optional_outcome(optional_tree(json)) == Some(
                outcome_model(outcome),
            ),
            None => restored_optional_outcome(optional_tree(json)) is None,
        },
{
    match json {
        None => Some(None),
        Some(Json::Null) => Some(None),
        Some(json) => match StateOutcome::from_json(json) {
            Some(outcome) => Some(Some(outcome)),
            None => None,
        },
    }
}

/// What is remembered of a URL, from the values saved for its parts.
fn read_parts<U: Url>(
    url: Option<&Json>,
    queued: Option<&Json>,
    scraped_at: Option<&Json>,
    scrape_result: Option<&Json>,
    processed_at: Option<&Json>,
    process_result: Option<&Json>,
) -> (state: Option<CrawledState<U>>)
    ensures
        match state {
            Some(state) => restored_parts::<U>(
                optional_tree(url),
                optional_tree(queued),
                optional_tree(scraped_at),
                optional_tree(scrape_result),
                optional_tree(processed_at),
                optional_tree(process_result),
            ) == Some(state@),
            None => restored_parts::<U>(
                optional_tree(url),
                optional_tree(queued),
                optional_tree(scraped_at),
                optional_tree(scrape_result),
                optional_tree(processed_at),
                optional_tree(process_result),
            ) is None,
        },
{
    let url = match url {
        Some(url) => U::from_json(url)?,
        None => U::from_missing()?,
    };
    let queued = match queued {
        Some(queued) => read_time(queued)?,
        None => return None,
    };
    Some(
        CrawledState {
            url,
            queued,
            scraped_at: read_optional_time(scraped_at)?,
            scrape_result: read_optional_outcome(scrape_result)?,
            processed_at: read_optional_time(processed_at)?,
            process_result: read_optional_outcome(process_result)?,
        },
    )
}

impl<U: Url> CrawledState<U> {
    /// What is remembered of a URL, from the value saved for it.
    pub fn from_json(json: &Json) -> (state: Option<CrawledState<U>>)
        ensures
            match state {
                Some(state) => restored_state::<U>(json@) == Some(state@),
                None => restored_state::<U>(json@) is None,
            },
    {
        match json {
            Json::Object(entries) => read_parts::<U>(
                member(entries, "url"),
                member(entries, "queued"),
                member(entries, "scraped_at"),
                member(entries, "scrape_result"),
                member(entries, "processed_at"),
                member(entries, "process_result"),
            ),
            Json::Array(items) => {
                proof {
                    lemma_trees(items@);
                }
                if items.len() != 6 {
                    return None;
                }
                read_parts::<U>(
                    Some(&items[0]),
                    Some(&items[1]),
                    Some(&items[2]),
                    Some(&items[3]),
                    Some(&items[4]),
                    Some(&items[5]),
                )
            },
            _ => None,
        }
    }
}

} // verus!
