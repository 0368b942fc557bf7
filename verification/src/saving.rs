//! What the state file says of each URL, and what is read from it.

use vstd::prelude::*;
#[allow(unused_imports)]
use vstd::utf8::encode_utf8;
use crate::json::{Json, JsonTree};
use crate::spider::{Url, UrlModel};
use crate::state::{OutcomeModel, StateModel};
use crate::time::Timestamp;
#[allow(unused_imports)]
use crate::json::{
    has_no_repeats, json_document, json_text, lemma_members_last, lemma_members_names, lemma_trees,
    max_nesting, restorable, tree, trees,
};
#[allow(unused_imports)]
use crate::processing_state::restored_states;
#[allow(unused_imports)]
use crate::record::{
    lemma_member_names, restored_optional_outcome, restored_outcome, restored_state, saved_outcome,
    saved_state,
};
#[allow(unused_imports)]
use crate::state_file::{are_storable, is_storable, loaded_states, saved_document, visited_urls_of};
#[allow(unused_imports)]
use crate::time::{lemma_of_text, timestamp_of_text, timestamp_text};

verus! {

/// The names of the members of a record.
pub open spec fn record_names() -> Set<Seq<char>> {
    set![
        "url"@,
        "queued"@,
        "scraped_at"@,
        "scrape_result"@,
        "processed_at"@,
        "process_result"@,
    ]
}

/// Whether `value` says that something ended with the status `status` and the text `text`.
pub open spec fn says_outcome(value: JsonTree, status: Seq<char>, text: Seq<char>) -> bool {
    match value {
        JsonTree::Object(fields) => {
            &&& fields.contains_key("outcome"@)
            &&& fields["outcome"@] == JsonTree::Text(text)
            &&& fields.contains_key("status"@)
            &&& fields["status"@] == JsonTree::Text(status) || fields["status"@]
                == JsonTree::Object(map![status => JsonTree::Null])
        },
        JsonTree::Array(items) => items == seq![JsonTree::Text(status), JsonTree::Text(text)],
        _ => false,
    }
}

/// Whether the member `name` gives the instant `at`, or is null or missing where there is none.
pub open spec fn gives_time(
    fields: Map<Seq<char>, JsonTree>,
    name: Seq<char>,
    at: Option<Timestamp>,
) -> bool {
    match at {
        None => !fields.contains_key(name) || fields[name] == JsonTree::Null,
        Some(at) => {
            &&& fields.contains_key(name)
            &&& fields[name] is Text
            &&& Timestamp::of_text(fields[name]->Text_0) == Some(at)
        },
    }
}

/// Whether the member `name` gives the outcome, or is null or missing where there is none.
pub open spec fn gives_outcome(
    fields: Map<Seq<char>, JsonTree>,
    name: Seq<char>,
    outcome: Option<OutcomeModel>,
) -> bool {
    match outcome {
        None => !fields.contains_key(name) || fields[name] == JsonTree::Null,
        Some(OutcomeModel::Success(text)) => fields.contains_key(name) && says_outcome(
            fields[name],
            "Ok"@,
            text,
        ),
        Some(OutcomeModel::Error(text)) => fields.contains_key(name) && says_outcome(
            fields[name],
            "Error"@,
            text,
        ),
    }
}

/// The value saved for an outcome says with its status whether it is a success, and with its
/// outcome the text; it says nothing else.
pub proof fn law_saved_outcome(outcome: OutcomeModel)
    ensures
        saved_outcome(outcome) is Object,
        saved_outcome(outcome)->Object_0.dom() == set!["status"@, "outcome"@],
        saved_outcome(outcome)->Object_0["status"@] == JsonTree::Text("Ok"@) <==> outcome is Success,
        saved_outcome(outcome)->Object_0["status"@] == JsonTree::Text("Error"@) <==> outcome is Error,
        outcome matches OutcomeModel::Success(text) ==> saved_outcome(outcome)->Object_0["outcome"@]
            == JsonTree::Text(text),
        outcome matches OutcomeModel::Error(text) ==> saved_outcome(outcome)->Object_0["outcome"@]
            == JsonTree::Text(text),
{
    lemma_member_names();
    assert(saved_outcome(outcome)->Object_0.dom() =~= set!["status"@, "outcome"@]);
}

/// An outcome is read exactly from a value that says so: a success from the status `Ok`, an
/// error from the status `Error`, each with its text.
pub proof fn law_restored_outcome(value: JsonTree, text: Seq<char>)
    ensures
        restored_outcome(value) == Some(OutcomeModel::Success(text)) <==> says_outcome(
            value,
            "Ok"@,
            text,
        ),
        restored_outcome(value) == Some(OutcomeModel::Error(text)) <==> says_outcome(
            value,
            "Error"@,
            text,
        ),
{
    lemma_member_names();
    if let JsonTree::Object(fields) = value {
        assert(map!["Ok"@ => JsonTree::Null].contains_key("Ok"@));
        assert(!map!["Error"@ => JsonTree::Null].contains_key("Ok"@));
    }
    if let JsonTree::Array(items) = value {
        if items.len() == 2 {
            assert(items =~= seq![items[0], items[1]]);
        }
        let ok = seq![JsonTree::Text("Ok"@), JsonTree::Text(text)];
        let error = seq![JsonTree::Text("Error"@), JsonTree::Text(text)];
        assert(ok.len() == 2 && ok[0] == JsonTree::Text("Ok"@) && ok[1] == JsonTree::Text(text));
        assert(error.len() == 2 && error[0] == JsonTree::Text("Error"@) && error[1]
            == JsonTree::Text(text));
    }
}

/// In the value saved for a record each part stands under its own name, and there is no other:
/// a time as its text and an outcome as what it says, or null where there is none. So the
/// member `process_result` is null exactly when processing has not ended, and has the status
/// `Ok` exactly when the URL is processed.
pub proof fn law_saved_record(state: StateModel)
    ensures
        saved_state(state) is Object,
        saved_state(state)->Object_0.dom() == record_names(),
        saved_state(state)->Object_0["url"@] == state.url.json,
        saved_state(state)->Object_0["queued"@] == JsonTree::Text(
            timestamp_text(state.queued.seconds(), state.queued.nanoseconds()),
        ),
        saves_time(saved_state(state)->Object_0["scraped_at"@], state.scraped_at),
        saves_time(saved_state(state)->Object_0["processed_at"@], state.processed_at),
        saves_outcome(saved_state(state)->Object_0["scrape_result"@], state.scrape_result),
        saves_outcome(saved_state(state)->Object_0["process_result"@], state.process_result),
        saved_state(state)->Object_0["process_result"@] == JsonTree::Null
            <==> state.process_result is None,
        saved_state(state)->Object_0["scrape_result"@] == JsonTree::Null
            <==> state.scrape_result is None,
        state.is_processed() <==> exists|text: Seq<char>| #[trigger]
            says_outcome(saved_state(state)->Object_0["process_result"@], "Ok"@, text),
{
    lemma_member_names();
    let fields = saved_state(state)->Object_0;
    assert(fields.dom() =~= record_names());
    if let Some(outcome) = state.scrape_result {
        law_saved_outcome(outcome);
    }
    if let Some(outcome) = state.process_result {
        law_saved_outcome(outcome);
        if let OutcomeModel::Success(text) = outcome {
            assert(says_outcome(fields["process_result"@], "Ok"@, text));
        }
    }
}

/// Whether `value` is what stands for a time: its text, or null where there is none.
pub open spec fn saves_time(value: JsonTree, at: Option<Timestamp>) -> bool {
    &&& value == JsonTree::Null <==> at is None
    &&& at matches Some(at) ==> value == JsonTree::Text(
        timestamp_text(at.seconds(), at.nanoseconds()),
    )
}

/// Whether `value` is what stands for an outcome: an object that says what it is, or null where
/// there is none.
pub open spec fn saves_outcome(value: JsonTree, outcome: Option<OutcomeModel>) -> bool {
    &&& value == JsonTree::Null <==> outcome is None
    &&& outcome is Some ==> value is Object && value->Object_0.dom() == set!["status"@, "outcome"@]
    &&& outcome matches Some(OutcomeModel::Success(text)) ==> value->Object_0["status"@]
        == JsonTree::Text("Ok"@) && value->Object_0["outcome"@] == JsonTree::Text(text)
    &&& outcome matches Some(OutcomeModel::Error(text)) ==> value->Object_0["status"@]
        == JsonTree::Text("Error"@) && value->Object_0["outcome"@] == JsonTree::Text(text)
}

/// A record is read from an object exactly when each part is given by the member of its own
/// name: the URL, which may be missing where its type says so, the time of queueing, and the
/// times and outcomes, each of which is none exactly when its member is null or missing.
pub proof fn law_restored_record<U: Url>(fields: Map<Seq<char>, JsonTree>, state: StateModel)
    ensures
        restored_state::<U>(JsonTree::Object(fields)) == Some(state) <==> {
            &&& fields.contains_key("url"@) ==> U::restored(fields["url"@]) == Some(state.url)
            &&& !fields.contains_key("url"@) ==> U::restored_missing() == Some(state.url)
            &&& gives_time(fields, "queued"@, Some(state.queued))
            &&& gives_time(fields, "scraped_at"@, state.scraped_at)
            &&& gives_outcome(fields, "scrape_result"@, state.scrape_result)
            &&& gives_time(fields, "processed_at"@, state.processed_at)
            &&& gives_outcome(fields, "process_result"@, state.process_result)
        },
{
    lemma_member_names();
    lemma_given_outcome(fields, "scrape_result"@, state.scrape_result);
    lemma_given_outcome(fields, "process_result"@, state.process_result);
    assert(fields.get("url"@) == if fields.contains_key("url"@) {
        Some(fields["url"@])
    } else {
        None
    });
}

/// The outcome that the member `name` gives is the one that is read from it.
proof fn lemma_given_outcome(
    fields: Map<Seq<char>, JsonTree>,
    name: Seq<char>,
    outcome: Option<OutcomeModel>,
)
    ensures
        restored_optional_outcome(fields.get(name)) == Some(outcome)
            <==> gives_outcome(fields, name, outcome),
{
    if fields.contains_key(name) {
        let value = fields[name];
        match outcome {
            None => {},
            Some(OutcomeModel::Success(text)) => {
                law_restored_outcome(value, text);
            },
            Some(OutcomeModel::Error(text)) => {
                law_restored_outcome(value, text);
            },
        }
    }
}

/// Members with other names make no difference, and a time or an outcome that is null makes
/// none against one that is missing.
pub proof fn law_other_members_are_ignored<U: Url>(
    fields: Map<Seq<char>, JsonTree>,
    name: Seq<char>,
    value: JsonTree,
)
    ensures
        !record_names().contains(name) ==> restored_state::<U>(
            JsonTree::Object(fields.insert(name, value)),
        ) == restored_state::<U>(JsonTree::Object(fields)),
        set!["scraped_at"@, "scrape_result"@, "processed_at"@, "process_result"@].contains(name)
            && !fields.contains_key(name) ==> restored_state::<U>(
            JsonTree::Object(fields.insert(name, JsonTree::Null)),
        ) == restored_state::<U>(JsonTree::Object(fields)),
{
    lemma_member_names();
}

/// A record written as an array of its six parts is read as the object in which each part
/// stands under its name; an array of another length, and whatever is neither object nor
/// array, is none.
pub proof fn law_array_records<U: Url>(value: JsonTree)
    ensures
        value matches JsonTree::Array(items) && items.len() == 6 ==> restored_state::<U>(value)
            == restored_state::<U>(
            JsonTree::Object(
                map![
                    "url"@ => value->Array_0[0],
                    "queued"@ => value->Array_0[1],
                    "scraped_at"@ => value->Array_0[2],
                    "scrape_result"@ => value->Array_0[3],
                    "processed_at"@ => value->Array_0[4],
                    "process_result"@ => value->Array_0[5],
                ],
            ),
        ),
        value matches JsonTree::Array(items) && items.len() != 6 ==> restored_state::<U>(
            value,
        ) is None,
        value !is Array && value !is Object ==> restored_state::<U>(value) is None,
{
    lemma_member_names();
}

/// The document has one member, `visited_urls`, in which exactly the known URLs stand, each
/// with the value saved for what is remembered of it.
pub proof fn law_saved_document(states: Map<Seq<char>, StateModel>)
    ensures
        saved_document(states) is Object,
        saved_document(states)->Object_0.dom() == set!["visited_urls"@],
        saved_document(states)->Object_0["visited_urls"@] is Object,
        saved_document(states)->Object_0["visited_urls"@]->Object_0.dom() == states.dom(),
        forall|text: Seq<char>| #[trigger]
            states.contains_key(text)
                ==> saved_document(states)->Object_0["visited_urls"@]->Object_0[text]
                == saved_state(states[text]),
{
    assert(saved_document(states)->Object_0.dom() =~= set!["visited_urls"@]);
    assert(saved_document(states)->Object_0["visited_urls"@]->Object_0.dom() =~= states.dom());
}

/// Records are read from an object exactly when a record is read from each of its members, and
/// are those, each under its name; from anything else none are read.
pub proof fn law_restored_records<U: Url>(value: JsonTree, states: Map<Seq<char>, StateModel>)
    ensures
        restored_states::<U>(value) == Some(states) <==> {
            &&& value is Object
            &&& value->Object_0.dom() == states.dom()
            &&& forall|text: Seq<char>| #[trigger]
                states.contains_key(text) ==> restored_state::<U>(value->Object_0[text]) == Some(
                    states[text],
                )
        },
{
    if let JsonTree::Object(fields) = value {
        let read = fields.map_values(|value: JsonTree| restored_state::<U>(value)->0);
        if restored_states::<U>(value) == Some(states) {
            assert(states == read);
            assert(fields.dom() =~= states.dom());
        }
        if value->Object_0.dom() == states.dom() && (forall|text: Seq<char>| #[trigger]
            states.contains_key(text) ==> restored_state::<U>(fields[text]) == Some(states[text])) {
            assert forall|text: Seq<char>| #[trigger] fields.contains_key(text) implies restored_state::<
                U,
            >(fields[text]) is Some by {
                assert(states.dom().contains(text));
                assert(states.contains_key(text));
            }
            assert(read =~= states);
        }
    }
}

/// What the crawler starts from, by the document of the state file: where there is no document,
/// nothing; where it is neither an object nor null, there is no answer; where its member
/// `visited_urls` gives records, those; else, nothing.
pub proof fn law_loaded<U: Url>(bytes: Seq<u8>, states: Map<Seq<char>, StateModel>)
    ensures
        json_document(bytes) is None ==> loaded_states::<U>(bytes) == Some(
            Map::<Seq<char>, StateModel>::empty(),
        ),
        loaded_states::<U>(bytes) is None <==> json_document(bytes) is Some && json_document(
            bytes,
        )->0 !is Object && json_document(bytes)->0 !is Null,
        json_document(bytes) == Some(JsonTree::Null) ==> loaded_states::<U>(bytes) == Some(
            Map::<Seq<char>, StateModel>::empty(),
        ),
        json_document(bytes) matches Some(JsonTree::Object(fields)) && (!fields.contains_key(
            "visited_urls"@,
        ) || restored_states::<U>(fields["visited_urls"@]) is None) ==> loaded_states::<U>(bytes)
            == Some(Map::<Seq<char>, StateModel>::empty()),
        json_document(bytes) matches Some(JsonTree::Object(fields)) && fields.contains_key(
            "visited_urls"@,
        ) && restored_states::<U>(fields["visited_urls"@]) == Some(states) ==> loaded_states::<U>(
            bytes,
        ) == Some(states),
{
}

/// The member `visited_urls` of an object is that member, and null where it has none or is
/// itself null; nothing else has members.
pub proof fn law_visited_urls_member(document: JsonTree)
    ensures
        visited_urls_of(document) is Some <==> document is Object || document is Null,
        document matches JsonTree::Object(fields) && fields.contains_key("visited_urls"@)
            ==> visited_urls_of(document) == Some(document->Object_0["visited_urls"@]),
        document matches JsonTree::Object(fields) && !fields.contains_key("visited_urls"@)
            ==> visited_urls_of(document) == Some(JsonTree::Null),
        document is Null ==> visited_urls_of(document) == Some(JsonTree::Null),
{
}

/// What is read as an instant is what the text gives, and its text in the file is that of its
/// second and nanoseconds.
pub proof fn law_instant_texts(at: Timestamp, text: Seq<char>)
    ensures
        at.text() == timestamp_text(at.seconds(), at.nanoseconds()),
        Timestamp::of_text(text) == Some(at) ==> timestamp_of_text(text) == Some(
            (at.seconds(), at.nanoseconds()),
        ),
        Timestamp::of_text(text) is None <==> timestamp_of_text(text) is None,
{
    lemma_of_text(text);
}

/// The mathematical value of a JSON value is of its own kind and shows what it holds.
pub proof fn law_trees(
    value: u64,
    signed: i64,
    flag: bool,
    text: String,
    number: serde_json::Number,
    items: Vec<Json>,
    entries: Vec<(String, Json)>,
)
    ensures
        Json::Null@ == JsonTree::Null,
        Json::Bool(flag)@ == JsonTree::Bool(flag),
        Json::Unsigned(value)@ == JsonTree::Whole(value as int),
        Json::Signed(signed)@ == JsonTree::Whole(signed as int),
        Json::Fraction(number)@ == JsonTree::Fraction(number),
        Json::Text(text)@ == JsonTree::Text(text@),
        Json::Array(items)@ is Array && Json::Array(items)@->Array_0.len() == items@.len(),
        forall|i: int|
            0 <= i < items@.len() ==> #[trigger] items@[i]@ == Json::Array(items)@->Array_0[i],
        Json::Object(entries)@ is Object,
        forall|i: int|
            0 <= i < entries@.len() && (forall|j: int|
                i < j < entries@.len() ==> (#[trigger] entries@[j]).0@ != entries@[i].0@)
                ==> Json::Object(entries)@->Object_0.contains_key((#[trigger] entries@[i]).0@)
                && Json::Object(entries)@->Object_0[entries@[i].0@] == entries@[i].1@,
        forall|name: Seq<char>| #[trigger]
            Json::Object(entries)@->Object_0.contains_key(name) ==> exists|i: int|
                0 <= i < entries@.len() && (#[trigger] entries@[i]).0@ == name,
{
    lemma_trees(items@);
    assert forall|i: int| 0 <= i < items@.len() implies #[trigger] items@[i]@
        == Json::Array(items)@->Array_0[i] by {
        assert(trees(items@)[i] == tree(items@[i]));
    }
    assert forall|i: int|
        0 <= i < entries@.len() && (forall|j: int|
            i < j < entries@.len() ==> (#[trigger] entries@[j]).0@
                != entries@[i].0@) implies Json::Object(entries)@->Object_0.contains_key(
        (#[trigger] entries@[i]).0@,
    ) && Json::Object(entries)@->Object_0[entries@[i].0@] == entries@[i].1@ by {
        lemma_members_last(entries@, i);
    }
    assert forall|name: Seq<char>| #[trigger]
        Json::Object(entries)@->Object_0.contains_key(name) implies exists|i: int|
        0 <= i < entries@.len() && (#[trigger] entries@[i]).0@ == name by {
        lemma_members_names(entries@, name);
    }
}

/// A value without repeats has none within it, and its names differ.
pub proof fn law_no_repeats(items: Vec<Json>, entries: Vec<(String, Json)>, i: int, j: int)
    ensures
        has_no_repeats(Json::Object(entries)) && 0 <= i < j < entries@.len() ==> entries@[i].0@
            != entries@[j].0@,
        has_no_repeats(Json::Object(entries)) && 0 <= i < entries@.len() ==> has_no_repeats(
            entries@[i].1,
        ),
        has_no_repeats(Json::Array(items)) && 0 <= i < items@.len() ==> has_no_repeats(items@[i]),
{
    let object = Json::Object(entries);
    let array = Json::Array(items);
    if has_no_repeats(object) && 0 <= i < entries@.len() {
        assert(has_no_repeats(object->Object_0@[i].1));
    }
    if has_no_repeats(array) && 0 <= i < items@.len() {
        assert(has_no_repeats(array->Array_0@[i]));
    }
}

/// An array or an object is read back from its text exactly when there is room for one more
/// nesting and its parts are read back within what is left; a fraction, exactly when it is
/// read back from its own text; anything else always is.
pub proof fn law_restorable_parts(
    items: Seq<JsonTree>,
    fields: Map<Seq<char>, JsonTree>,
    number: serde_json::Number,
    other: JsonTree,
    nesting: nat,
)
    ensures
        restorable(JsonTree::Array(items), nesting + 1) <==> forall|i: int|
            0 <= i < items.len() ==> restorable(#[trigger] items[i], nesting),
        restorable(JsonTree::Object(fields), nesting + 1) <==> forall|name: Seq<char>| #[trigger]
            fields.contains_key(name) ==> restorable(fields[name], nesting),
        !restorable(JsonTree::Array(items), 0),
        !restorable(JsonTree::Object(fields), 0),
        restorable(JsonTree::Fraction(number), nesting) <==> json_document(
            encode_utf8(json_text(JsonTree::Fraction(number))),
        ) == Some(JsonTree::Fraction(number)),
        other is Null || other is Bool || other is Whole || other is Text ==> restorable(
            other,
            nesting,
        ),
{
    let array = JsonTree::Array(items);
    let object = JsonTree::Object(fields);
    if restorable(array, nesting + 1) {
        assert forall|i: int| 0 <= i < items.len() implies restorable(
            #[trigger] items[i],
            nesting,
        ) by {
            assert(restorable(array->Array_0[i], nesting));
        }
    }
    if restorable(object, nesting + 1) {
        assert forall|name: Seq<char>| #[trigger] fields.contains_key(name) implies restorable(
            fields[name],
            nesting,
        ) by {
            assert(object->Object_0.contains_key(name));
            assert(restorable(object->Object_0[name], nesting));
        }
    }
}

/// So many arrays around a value, one in the other.
pub open spec fn nested(depth: nat, value: JsonTree) -> JsonTree
    decreases depth,
{
    if depth == 0 {
        value
    } else {
        JsonTree::Array(seq![nested((depth - 1) as nat, value)])
    }
}

/// A text, a whole number, a truth value and null are read back from their text at whatever
/// nesting is within the limit, and not beyond it.
proof fn lemma_nesting(depth: nat, value: JsonTree, nesting: nat)
    requires
        value is Null || value is Bool || value is Whole || value is Text,
    ensures
        restorable(nested(depth, value), nesting) <==> depth <= nesting,
    decreases depth,
{
    if depth > 0 {
        let inner = nested((depth - 1) as nat, value);
        let items = seq![inner];
        assert(nested(depth, value) == JsonTree::Array(items));
        if nesting > 0 {
            lemma_nesting((depth - 1) as nat, value, (nesting - 1) as nat);
            assert(items[0] == inner);
            let less = (nesting - 1) as nat;
            let array = JsonTree::Array(items);
            if restorable(array, nesting) {
                assert(restorable(array->Array_0[0], less));
            }
            if restorable(inner, less) {
                assert forall|i: int| 0 <= i < items.len() implies restorable(
                    #[trigger] items[i],
                    less,
                ) by {
                    assert(items[i] == inner);
                }
                assert(restorable(array, nesting));
            }
        } else {
            assert(!restorable(JsonTree::Array(items), nesting));
        }
    }
}

/// A URL whose saved value is a text, a whole number, a truth value or null within at most 124
/// arrays is storable exactly when it is read back from that value; deeper ones are not.
pub proof fn law_storable_nesting<U: Url>(text: Seq<char>, depth: nat, value: JsonTree)
    requires
        value is Null || value is Bool || value is Whole || value is Text,
    ensures
        ({
            let url = UrlModel { text, json: nested(depth, value) };
            is_storable::<U>(url) <==> depth <= 124 && U::restored(nested(depth, value)) == Some(url)
        }),
{
    lemma_nesting(depth, value, (max_nesting() - 3) as nat);
}

/// What is remembered is storable exactly when each of its URLs is.
pub proof fn law_storable_states<U: Url>(states: Map<Seq<char>, StateModel>)
    ensures
        are_storable::<U>(states) <==> forall|text: Seq<char>| #[trigger]
            states.dom().contains(text) ==> is_storable::<U>(states[text].url),
{
    if forall|text: Seq<char>| #[trigger]
        states.dom().contains(text) ==> is_storable::<U>(states[text].url) {
        assert forall|text: Seq<char>| #[trigger] states.contains_key(text) implies is_storable::<U>(
            states[text].url,
        ) by {
            assert(states.dom().contains(text));
        }
    }
}

} // verus!
