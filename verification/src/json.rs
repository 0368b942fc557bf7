//! JSON values as the state file holds them, and their text form.

use vstd::prelude::*;
use vstd::utf8::encode_utf8;
use crate::sequence::reversed;

verus! {

/// A JSON value.
///
/// A whole number is held as such, any other as `serde_json` holds it. Of two members of an
/// object that share a name, the later one counts.
#[derive(Debug)]
pub enum Json {
    Null,
    Bool(bool),
    Unsigned(u64),
    Signed(i64),
    Fraction(serde_json::Number),
    Text(String),
    Array(Vec<Json>),
    Object(Vec<(String, Json)>),
}

/// The mathematical value of a [`Json`]: an object is a map, in no order.
pub enum JsonTree {
    Null,
    Bool(bool),
    Whole(int),
    Fraction(serde_json::Number),
    Text(Seq<char>),
    Array(Seq<JsonTree>),
    Object(Map<Seq<char>, JsonTree>),
}

impl View for Json {
    type V = JsonTree;

    open spec fn view(&self) -> JsonTree {
        tree(*self)
    }
}

/// What `json` stands for.
pub open spec fn tree(json: Json) -> JsonTree
    decreases json,
{
    match json {
        Json::Null => JsonTree::Null,
        Json::Bool(value) => JsonTree::Bool(value),
        Json::Unsigned(value) => JsonTree::Whole(value as int),
        Json::Signed(value) => JsonTree::Whole(value as int),
        Json::Fraction(number) => JsonTree::Fraction(number),
        Json::Text(text) => JsonTree::Text(text@),
        Json::Array(items) => JsonTree::Array(trees(items@)),
        Json::Object(entries) => JsonTree::Object(members(entries@)),
    }
}

/// What each of `items` stands for, in order.
pub open spec fn trees(items: Seq<Json>) -> Seq<JsonTree>
    decreases items,
{
    if items.len() == 0 {
        Seq::empty()
    } else {
        trees(items.drop_last()).push(tree(items.last()))
    }
}

/// The members of an object written as `entries`.
pub open spec fn members(entries: Seq<(String, Json)>) -> Map<Seq<char>, JsonTree>
    decreases entries,
{
    if entries.len() == 0 {
        Map::empty()
    } else {
        members(entries.drop_last()).insert(entries.last().0@, tree(entries.last().1))
    }
}

/// Whether no two of `entries` bear the same name.
pub open spec fn names_differ(entries: Seq<(String, Json)>) -> bool {
    forall|i: int, j: int|
        0 <= i < j < entries.len() ==> (#[trigger] entries[i]).0@ != (#[trigger] entries[j]).0@
}

/// Whether no object within `json`, nor `json` itself, bears a name twice.
pub open spec fn has_no_repeats(json: Json) -> bool
    decreases json,
{
    match json {
        Json::Array(items) => forall|i: int|
            0 <= i < items@.len() ==> has_no_repeats(#[trigger] items@[i]),
        Json::Object(entries) => {
            &&& names_differ(entries@)
            &&& forall|i: int|
                0 <= i < entries@.len() ==> has_no_repeats((#[trigger] entries@[i]).1)
        },
        _ => true,
    }
}

/// The largest nesting of arrays and objects that is read back from text.
pub open spec fn max_nesting() -> nat {
    127
}

/// Whether `value` comes back unchanged from its own text: its arrays and objects nest at
/// most `nesting` deep, and each number that is not whole is read back from its own text.
pub open spec fn restorable(value: JsonTree, nesting: nat) -> bool
    decreases nesting,
{
    match value {
        JsonTree::Null | JsonTree::Bool(_) | JsonTree::Whole(_) | JsonTree::Text(_) => true,
        JsonTree::Fraction(_) => json_document(encode_utf8(json_text(value))) == Some(value),
        JsonTree::Array(items) => nesting > 0 && forall|i: int|
            0 <= i < items.len() ==> restorable(#[trigger] items[i], (nesting - 1) as nat),
        JsonTree::Object(fields) => nesting > 0 && forall|name: Seq<char>| #[trigger]
            fields.contains_key(name) ==> restorable(fields[name], (nesting - 1) as nat),
    }
}

/// The value that the JSON document `bytes` holds, or `None` where `bytes` is no JSON
/// document.
pub uninterp spec fn json_document(bytes: Seq<u8>) -> Option<JsonTree>;

/// The compact text of `value`.
pub uninterp spec fn json_text(value: JsonTree) -> Seq<char>;

/// A value of the crate `serde_json`.
#[verifier::external_type_specification]
#[verifier::external_body]
pub struct ExValue(serde_json::Value);

/// A number of the crate `serde_json`.
#[verifier::external_type_specification]
#[verifier::external_body]
pub struct ExNumber(serde_json::Number);

/// An error of the crate `serde_json`.
#[verifier::external_type_specification]
#[verifier::external_body]
pub struct ExJsonError(serde_json::Error);

/// Turns a `serde_json::Number` into a [`Json`], by which of its three forms it has
/// (`serde_json::Number::as_u64`, `serde_json::Number::as_i64`). Nothing is stated of the
/// result.
#[verifier::external_body]
fn from_number(number: serde_json::Number) -> Json {
    match (number.as_u64(), number.as_i64()) {
        (Some(value), _) => Json::Unsigned(value),
        (None, Some(value)) => Json::Signed(value),
        (None, None) => Json::Fraction(number),
    }
}

/// Turns a `serde_json::Value` into a [`Json`], variant by variant. Nothing is stated of
/// the result.
#[verifier::external_body]
fn from_value(value: serde_json::Value) -> Json {
    match value {
        serde_json::Value::Null => Json::Null,
        serde_json::Value::Bool(value) => Json::Bool(value),
        serde_json::Value::Number(number) => from_number(number),
        serde_json::Value::String(text) => Json::Text(text),
        serde_json::Value::Array(items) => Json::Array(items.into_iter().map(from_value).collect()),
        serde_json::Value::Object(fields) => {
            Json::Object(fields.into_iter().map(|(name, value)| (name, from_value(value))).collect())
        },
    }
}

/// Turns a [`Json`] into a `serde_json::Value`, variant by variant. Nothing is stated of the
/// result.
#[verifier::external_body]
fn to_value(json: &Json) -> serde_json::Value {
    match json {
        Json::Null => serde_json::Value::Null,
        Json::Bool(value) => serde_json::Value::Bool(*value),
        Json::Unsigned(value) => serde_json::Value::Number((*value).into()),
        Json::Signed(value) => serde_json::Value::Number((*value).into()),
        Json::Fraction(number) => serde_json::Value::Number(number.clone()),
        Json::Text(text) => serde_json::Value::String(text.clone()),
        Json::Array(items) => serde_json::Value::Array(items.iter().map(to_value).collect()),
        Json::Object(entries) => {
            serde_json::Value::Object(entries.iter().map(|(name, value)| (name.clone(), to_value(value))).collect())
        },
    }
}

/// `serde_json::from_slice`, read as a `serde_json::Value`: it fails where `bytes` is no JSON
/// document, and else gives the value that the document holds. Both depend on `bytes` alone;
/// which bytes hold which value is not stated here.
#[verifier::external_body]
pub(crate) fn parse(bytes: &[u8]) -> (result: Result<Json, serde_json::Error>)
    ensures
        match result {
            Ok(json) => json_document(bytes@) == Some(json@),
            Err(_) => json_document(bytes@) is None,
        },
{
    serde_json::from_slice(bytes).map(from_value)
}

/// `serde_json::to_string` of the `serde_json::Value` that `json` stands for: its compact
/// text, with the members of an object in the order of their names. It fails only for a map
/// whose keys are no strings or a type that refuses to be written, and a `serde_json::Value`
/// is neither; so there always is a text, and it depends on the value alone. Where the nesting
/// stays within what `serde_json` reads, and each number that is not whole is read back from
/// its own text, the whole text read as a document holds the same value.
#[verifier::external_body]
pub(crate) fn render(json: &Json) -> (result: Result<String, serde_json::Error>)
    requires
        has_no_repeats(*json),
    ensures
        result is Ok,
        result->Ok_0@ == json_text(json@),
        restorable(json@, max_nesting()) ==> json_document(encode_utf8(result->Ok_0@)) == Some(
            json@,
        ),
{
    serde_json::to_string(&to_value(json))
}

/// A name is a member of `entries` exactly where some entry bears it.
pub proof fn lemma_members_names(entries: Seq<(String, Json)>, name: Seq<char>)
    ensures
        members(entries).contains_key(name) <==> exists|i: int|
            0 <= i < entries.len() && #[trigger] entries[i].0@ == name,
    decreases entries.len(),
{
    if entries.len() > 0 {
        let front = entries.drop_last();
        lemma_members_names(front, name);
        if members(entries).contains_key(name) {
            if entries.last().0@ == name {
                assert(entries[entries.len() - 1].0@ == name);
            } else {
                let i = choose|i: int| 0 <= i < front.len() && #[trigger] front[i].0@ == name;
                assert(entries[i].0@ == name);
            }
        }
        if exists|i: int| 0 <= i < entries.len() && #[trigger] entries[i].0@ == name {
            let i = choose|i: int| 0 <= i < entries.len() && #[trigger] entries[i].0@ == name;
            if i < front.len() {
                assert(front[i].0@ == name);
            }
        }
    }
}

/// The last entry that bears a name gives the member of that name.
pub proof fn lemma_members_last(entries: Seq<(String, Json)>, at: int)
    requires
        0 <= at < entries.len(),
        forall|j: int| at < j < entries.len() ==> (#[trigger] entries[j]).0@ != entries[at].0@,
    ensures
        members(entries).contains_key(entries[at].0@),
        members(entries)[entries[at].0@] == tree(entries[at].1),
    decreases entries.len(),
{
    let front = entries.drop_last();
    if at < front.len() {
        assert(entries[entries.len() - 1].0@ != entries[at].0@);
        assert forall|j: int| at < j < front.len() implies (#[trigger] front[j]).0@ != front[at].0@ by {
            assert(front[j] == entries[j]);
        }
        lemma_members_last(front, at);
    }
}

/// The items of an array stand for the items of its tree.
pub proof fn lemma_trees(items: Seq<Json>)
    ensures
        trees(items).len() == items.len(),
        forall|i: int| 0 <= i < items.len() ==> #[trigger] trees(items)[i] == tree(items[i]),
    decreases items.len(),
{
    if items.len() > 0 {
        lemma_trees(items.drop_last());
        assert forall|i: int| 0 <= i < items.len() implies #[trigger] trees(items)[i] == tree(
            items[i],
        ) by {
            if i < items.len() - 1 {
                assert(trees(items)[i] == trees(items.drop_last())[i]);
            }
        }
    }
}

/// The member `name` of the object written as `entries`.
pub fn member<'a>(entries: &'a Vec<(String, Json)>, name: &str) -> (found: Option<&'a Json>)
    ensures
        match found {
            Some(value) => members(entries@).contains_key(name@) && members(entries@)[name@]
                == value@,
            None => !members(entries@).contains_key(name@),
        },
{
    let wanted = name.to_owned();
    let mut i: usize = entries.len();
    while i > 0
        invariant
            wanted@ == name@,
            i <= entries.len(),
            forall|j: int| i <= j < entries.len() ==> (#[trigger] entries@[j]).0@ != name@,
        decreases i,
    {
        i = i - 1;
        if entries[i].0 == wanted {
            proof {
                lemma_members_last(entries@, i as int);
            }
            return Some(&entries[i].1);
        }
    }
    proof {
        lemma_members_names(entries@, name@);
    }
    None
}

/// Giving the last entry that bears a name another value changes the member of that name, and
/// no other.
proof fn lemma_members_update(entries: Seq<(String, Json)>, at: int, value: Json)
    requires
        0 <= at < entries.len(),
        forall|j: int| at < j < entries.len() ==> (#[trigger] entries[j]).0@ != entries[at].0@,
    ensures
        members(entries.update(at, (entries[at].0, value))) == members(entries).insert(
            entries[at].0@,
            tree(value),
        ),
    decreases entries.len(),
{
    let front = entries.drop_last();
    let updated = entries.update(at, (entries[at].0, value));
    if at < front.len() {
        assert(entries[entries.len() - 1].0@ != entries[at].0@);
        assert forall|j: int| at < j < front.len() implies (#[trigger] front[j]).0@ != front[at].0@ by {
            assert(front[j] == entries[j]);
        }
        lemma_members_update(front, at, value);
        assert(updated.drop_last() =~= front.update(at, (front[at].0, value)));
    } else {
        assert(updated.drop_last() =~= front);
    }
    assert(members(updated) =~= members(entries).insert(entries[at].0@, tree(value)));
}

/// Gives the object written as `entries` the member `name`, in place of any it has.
pub fn set_member(entries: &mut Vec<(String, Json)>, name: String, value: Json)
    ensures
        members(final(entries)@) == members(old(entries)@).insert(name@, value@),
        has_no_repeats(Json::Object(*old(entries))) && has_no_repeats(value) ==> has_no_repeats(
            Json::Object(*final(entries)),
        ),
{
    let ghost before = entries@;
    let mut i: usize = entries.len();
    while i > 0
        invariant
            i <= entries@.len(),
            entries@ == before,
            *entries == *old(entries),
            before == old(entries)@,
            forall|j: int| i <= j < before.len() ==> (#[trigger] before[j]).0@ != name@,
        decreases i,
    {
        i = i - 1;
        if entries[i].0 == name {
            entries[i].1 = value;
            proof {
                lemma_members_update(before, i as int, value);
                assert(entries@ =~= before.update(i as int, (before[i as int].0, value)));
            }
            return;
        }
    }
    entries.push((name, value));
    assert(entries@.drop_last() == before);
}

/// The same value, in which no object bears a name twice.
pub fn without_repeats(json: Json) -> (result: Json)
    ensures
        result@ == json@,
        has_no_repeats(result),
    decreases json,
{
    match json {
        Json::Array(items) => {
            let ghost all = items@;
            let mut left = reversed(items);
            let mut kept: Vec<Json> = Vec::new();
            while left.len() > 0
                invariant
                    json == Json::Array(items),
                    all == items@,
                    kept@.len() + left@.len() == all.len(),
                    left@.reverse() == all.skip(kept@.len() as int),
                    trees(kept@) == trees(all.take(kept@.len() as int)),
                    forall|i: int| 0 <= i < kept@.len() ==> has_no_repeats(#[trigger] kept@[i]),
                decreases left@.len(),
            {
                let ghost stack = left@;
                let ghost at = kept@.len() as int;
                let ghost before = kept@;
                if let Some(item) = left.pop() {
                    proof {
                        assert(stack.reverse()[0] == item);
                        assert(all.skip(at)[0] == all[at]);
                        assert(left@.reverse() =~= stack.reverse().skip(1));
                        assert(all.skip(at).skip(1) =~= all.skip(at + 1));
                        assert(decreases_to!(json => json->Array_0@[at]));
                    }
                    kept.push(without_repeats(item));
                    proof {
                        assert(kept@.drop_last() =~= before);
                        assert(all.take(at + 1).drop_last() =~= all.take(at));
                    }
                }
            }
            assert(all.take(kept@.len() as int) =~= all);
            Json::Array(kept)
        },
        Json::Object(entries) => {
            let ghost all = entries@;
            let mut left = reversed(entries);
            let mut kept: Vec<(String, Json)> = Vec::new();
            let ghost mut at: int = 0;
            assert(members(all.take(0)) =~= members(kept@));
            while left.len() > 0
                invariant
                    json == Json::Object(entries),
                    all == entries@,
                    0 <= at,
                    at + left@.len() == all.len(),
                    left@.reverse() == all.skip(at),
                    members(kept@) == members(all.take(at)),
                    has_no_repeats(Json::Object(kept)),
                decreases left@.len(),
            {
                let ghost stack = left@;
                if let Some((name, value)) = left.pop() {
                    proof {
                        assert(stack.reverse()[0] == (name, value));
                        assert(all.skip(at)[0] == all[at]);
                        assert(left@.reverse() =~= stack.reverse().skip(1));
                        assert(all.skip(at).skip(1) =~= all.skip(at + 1));
                        assert(decreases_to!(json => json->Object_0@[at].1));
                    }
                    set_member(&mut kept, name, without_repeats(value));
                    proof {
                        assert(all.take(at + 1).drop_last() =~= all.take(at));
                        at = at + 1;
                    }
                }
            }
            assert(all.take(at) =~= all);
            Json::Object(kept)
        },
        other => other,
    }
}

} // verus!
