//! The file in which the crawler keeps what it remembers from one run to the next.

use std::path::PathBuf;
use vstd::prelude::*;
#[allow(unused_imports)]
use vstd::utf8::encode_utf8;
use crate::json::{Json, JsonTree, member, parse, render, set_member};
#[allow(unused_imports)]
use crate::json::{json_document, json_text, max_nesting, restorable};
use crate::processing_state::ProcessingState;
#[allow(unused_imports)]
use crate::processing_state::{restored_states, saved_states};
#[allow(unused_imports)]
use crate::record::{saved_optional_outcome, saved_optional_time, saved_state, saved_time};
use crate::spider::{Url, UrlModel};
use crate::state::{OutcomeModel, StateModel};

verus! {

/// A path of the standard library.
#[verifier::external_type_specification]
#[verifier::external_body]
pub struct ExPathBuf(PathBuf);

/// `PathBuf::clone` gives a duplicate of the path.
pub assume_specification[ <PathBuf as Clone>::clone ](path: &PathBuf) -> (copy: PathBuf)
    ensures
        copy == *path,
;

/// What was found at the path of the state file.
pub enum SavedState {
    /// No path was given.
    Absent,
    /// The file could not be opened or read.
    Unreadable,
    /// The file holds these bytes.
    Contents(Vec<u8>),
}

/// Why a state file was passed over.
#[derive(Debug)]
pub enum StateProblem {
    /// It is no JSON document.
    Json(serde_json::Error),
    /// It holds something else than what is remembered of URLs.
    Mismatch,
}

/// What the crawler starts from.
pub struct LoadedState<U: Url> {
    pub visited_urls: ProcessingState<U>,
    /// Why the file was passed over, if it was.
    pub problem: Option<StateProblem>,
}

/// The state file holds a JSON value that can have no members: neither an object nor null.
#[derive(Debug, Clone, Copy, PartialEq, Eq, Structural)]
pub struct Unindexable;

/// Where the state is written to.
#[derive(Debug)]
pub enum Destination {
    File(PathBuf),
    Stdout,
}

/// What is to be written, and where to.
#[derive(Debug)]
pub struct StateOutput {
    pub destination: Destination,
    pub text: String,
}

/// The document that is saved for all that is remembered.
pub open spec fn saved_document(states: Map<Seq<char>, StateModel>) -> JsonTree {
    JsonTree::Object(map!["visited_urls"@ => saved_states(states)])
}

/// The member `visited_urls` of a document, null where an object lacks it, or `None` where
/// the document can have no members. Null counts as an object without members.
pub open spec fn visited_urls_of(document: JsonTree) -> Option<JsonTree> {
    match document {
        JsonTree::Object(fields) => Some(
            if fields.contains_key("visited_urls"@) {
                fields["visited_urls"@]
            } else {
                JsonTree::Null
            },
        ),
        JsonTree::Null => Some(JsonTree::Null),
        _ => None,
    }
}

/// What the crawler starts from when the state file holds `bytes`, or `None` where they are
/// a document that can have no members. A file that is no JSON document, or holds something
/// else, is passed over.
pub open spec fn loaded_states<U: Url>(bytes: Seq<u8>) -> Option<Map<Seq<char>, StateModel>> {
    match json_document(bytes) {
        None => Some(Map::empty()),
        Some(document) => match visited_urls_of(document) {
            None => None,
            Some(value) => Some(
                match restored_states::<U>(value) {
                    Some(states) => states,
                    None => Map::empty(),
                },
            ),
        },
    }
}

/// Whether a URL is read back from a state file: from the value that is saved for it, which
/// itself is read back from its text within the file.
pub open spec fn is_storable<U: Url>(url: UrlModel) -> bool {
    &&& U::restored(url.json) == Some(url)
    &&& restorable(url.json, (max_nesting() - 3) as nat)
}

/// Whether each remembered URL is read back from a state file.
pub open spec fn are_storable<U: Url>(states: Map<Seq<char>, StateModel>) -> bool {
    forall|text: Seq<char>| #[trigger] states.contains_key(text) ==> is_storable::<U>(states[text].url)
}

/// Where the state is written to, by the path that was given.
pub open spec fn destination_of(path: Option<PathBuf>) -> Destination {
    match path {
        Some(path) => Destination::File(path),
        None => Destination::Stdout,
    }
}

/// The value that is saved for an outcome is read back from its text.
proof fn lemma_outcome_restorable(outcome: Option<OutcomeModel>, nesting: nat)
    requires
        nesting > 0,
    ensures
        restorable(saved_optional_outcome(outcome), nesting),
{
    reveal_with_fuel(restorable, 2);
}

/// The value that is saved for what is remembered of a URL is read back from its text, where
/// the value saved for the URL is.
proof fn lemma_state_restorable(state: StateModel, nesting: nat)
    requires
        nesting > 1,
        restorable(state.url.json, (nesting - 1) as nat),
    ensures
        restorable(saved_state(state), nesting),
{
    let inner = (nesting - 1) as nat;
    lemma_outcome_restorable(state.scrape_result, inner);
    lemma_outcome_restorable(state.process_result, inner);
    assert(restorable(saved_time(state.queued), inner));
    assert(restorable(saved_optional_time(state.scraped_at), inner));
    assert(restorable(saved_optional_time(state.processed_at), inner));
    let fields = saved_state(state)->Object_0;
    assert forall|name: Seq<char>| #[trigger] fields.contains_key(name) implies restorable(
        fields[name],
        inner,
    ) by {
        if name == "process_result"@ {
        } else if name == "processed_at"@ {
        } else if name == "scrape_result"@ {
        } else if name == "scraped_at"@ {
        } else if name == "queued"@ {
        }
    }
}

/// The document that is saved for storable URLs is read back from its text.
proof fn lemma_document_restorable<U: Url>(states: Map<Seq<char>, StateModel>)
    requires
        are_storable::<U>(states),
    ensures
        restorable(saved_document(states), max_nesting()),
{
    let all = states.map_values(|state: StateModel| saved_state(state));
    assert forall|text: Seq<char>| #[trigger] all.contains_key(text) implies restorable(
        all[text],
        125,
    ) by {
        assert(is_storable::<U>(states[text].url));
        lemma_state_restorable(states[text], 125);
    }
    assert(restorable(saved_states(states), 126));
}

/// What is remembered of every known URL, from the document of a state file: `None` where it
/// holds something else.
pub fn states_of_document<U: Url>(document: &Json) -> (result: Result<
    Option<ProcessingState<U>>,
    Unindexable,
>)
    ensures
        match result {
            Ok(Some(states)) => {
                &&& states.wf()
                &&& visited_urls_of(document@) is Some
                &&& restored_states::<U>(visited_urls_of(document@)->0) == Some(states@)
            },
            Ok(None) => {
                &&& visited_urls_of(document@) is Some
                &&& restored_states::<U>(visited_urls_of(document@)->0) is None
            },
            Err(_) => visited_urls_of(document@) is None,
        },
{
    let null = Json::Null;
    let value = match document {
        Json::Object(fields) => match member(fields, "visited_urls") {
            Some(value) => value,
            None => &null,
        },
        Json::Null => &null,
        _ => {
            return Err(Unindexable);
        },
    };
    Ok(ProcessingState::from_json(value))
}

/// What the crawler starts from, by what was found at the path of the state file. Where there
/// is nothing to be had from the file, no URL is known.
pub fn read_state<U: Url>(saved: &SavedState) -> (result: Result<LoadedState<U>, Unindexable>)
    ensures
        match saved {
            SavedState::Contents(bytes) => match result {
                Ok(loaded) => {
                    &&& loaded.visited_urls.wf()
                    &&& loaded_states::<U>(bytes@) == Some(loaded.visited_urls@)
                    &&& match loaded.problem {
                        Some(StateProblem::Json(_)) => json_document(bytes@) is None,
                        Some(StateProblem::Mismatch) => json_document(bytes@) is Some
                            && restored_states::<U>(
                            visited_urls_of(json_document(bytes@)->0)->0,
                        ) is None,
                        None => json_document(bytes@) is Some && restored_states::<U>(
                            visited_urls_of(json_document(bytes@)->0)->0,
                        ) is Some,
                    }
                },
                Err(_) => loaded_states::<U>(bytes@) is None,
            },
            _ => {
                &&& result is Ok
                &&& result->Ok_0.visited_urls.wf()
                &&& result->Ok_0.visited_urls@ == Map::<Seq<char>, StateModel>::empty()
                &&& result->Ok_0.problem is None
            },
        },
{
    let bytes = match saved {
        SavedState::Contents(bytes) => bytes,
        _ => {
            return Ok(LoadedState { visited_urls: ProcessingState::new(), problem: None });
        },
    };
    let document = match parse(bytes.as_slice()) {
        Ok(document) => document,
        Err(error) => {
            return Ok(
                LoadedState {
                    visited_urls: ProcessingState::new(),
                    problem: Some(StateProblem::Json(error)),
                },
            );
        },
    };
    match states_of_document(&document) {
        Err(error) => Err(error),
        Ok(Some(visited_urls)) => Ok(LoadedState { visited_urls, problem: None }),
        Ok(None) => Ok(
            LoadedState {
                visited_urls: ProcessingState::new(),
                problem: Some(StateProblem::Mismatch),
            },
        ),
    }
}

/// What is written for all that is remembered, and where to. A later run starts from the
/// same, where each URL is storable.
pub fn write_state<U: Url>(
    saved_state_path: Option<PathBuf>,
    visited_urls: &ProcessingState<U>,
) -> (result: Result<StateOutput, serde_json::Error>)
    requires
        visited_urls.wf(),
    ensures
        result is Ok,
        result->Ok_0.text@ == json_text(saved_document(visited_urls@)),
        result->Ok_0.destination == destination_of(saved_state_path),
        are_storable::<U>(visited_urls@) ==> loaded_states::<U>(
            encode_utf8(result->Ok_0.text@),
        ) == Some(visited_urls@),
{
    let mut fields: Vec<(String, Json)> = Vec::new();
    set_member(&mut fields, "visited_urls".to_owned(), visited_urls.to_json());
    let document = Json::Object(fields);
    proof {
        assert(document@ == saved_document(visited_urls@));
        if are_storable::<U>(visited_urls@) {
            lemma_document_restorable::<U>(visited_urls@);
            assert forall|text: Seq<char>| #[trigger] visited_urls@.contains_key(text) implies
                U::restored(visited_urls@[text].url.json) == Some(visited_urls@[text].url) by {
                assert(is_storable::<U>(visited_urls@[text].url));
            }
        }
    }
    let destination = match saved_state_path {
        Some(path) => Destination::File(path),
        None => Destination::Stdout,
    };
    match render(&document) {
        Ok(text) => Ok(StateOutput { destination, text }),
        Err(error) => Err(error),
    }
}

} // verus!
