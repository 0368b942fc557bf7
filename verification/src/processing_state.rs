//! What is remembered of every URL that was ever queued.

use vstd::hash_map::StringHashMap;
use vstd::prelude::*;
use crate::json::{Json, JsonTree};
#[allow(unused_imports)]
use crate::json::{has_no_repeats, lemma_members_last, lemma_members_names, members};
#[allow(unused_imports)]
use crate::record::{restored_state, saved_state};
use crate::spider::Url;
use crate::state::{CrawledState, OutcomeModel, StateModel};
#[allow(unused_imports)]
use crate::state::{is_taken, scraped_ok_outcome};
use crate::time::Timestamp;

verus! {

/// What is remembered of every known URL, by the text of the URL.
pub struct ProcessingState<U: Url> {
    /// The known URLs, each once, in the order in which they became known.
    entries: Vec<(String, CrawledState<U>)>,
    /// Where each URL stands among them.
    index: StringHashMap<usize>,
}

impl<U: Url> View for ProcessingState<U> {
    type V = Map<Seq<char>, StateModel>;

    closed spec fn view(&self) -> Map<Seq<char>, StateModel> {
        self.index@.map_values(|at: usize| self.entries@[at as int].1@)
    }
}

/// A copy of `url` is what `state` remembers, queued at the time that `state` gives, which is
/// one that a clock shows.
pub open spec fn is_fresh<U: Url>(url: U, state: StateModel) -> bool {
    &&& is_taken(state.queued)
    &&& exists|copy: U| #[trigger]
        cloned(url, copy) && state == StateModel::queued(copy.model(), state.queued)
}

/// Between `before` and `after`, `url` was queued, whatever was known of it, and nothing
/// else changed.
pub open spec fn is_queued<U: Url>(
    before: Map<Seq<char>, StateModel>,
    after: Map<Seq<char>, StateModel>,
    url: U,
) -> bool {
    let text = url.model().text;
    &&& after == before.insert(text, after[text])
    &&& is_fresh(url, after[text])
}

/// Between `before` and `after`, it was taken down how scraping `url` ended, and nothing else
/// changed. A URL that was not known before counts as queued.
pub open spec fn is_scraped<U: Url>(
    before: Map<Seq<char>, StateModel>,
    after: Map<Seq<char>, StateModel>,
    url: U,
    outcome: OutcomeModel,
) -> bool {
    let text = url.model().text;
    &&& after == before.insert(text, after[text])
    &&& exists|known: StateModel, at: Timestamp|
        {
            &&& if before.contains_key(text) {
                known == before[text]
            } else {
                is_fresh(url, known)
            }
            &&& is_taken(at)
            &&& after[text] == #[trigger] known.scraped(at, outcome)
        }
}

/// Between `before` and `after`, it was taken down how processing what `url` gave ended, and
/// nothing else changed. A URL that was not known before counts as queued.
pub open spec fn is_processed<U: Url>(
    before: Map<Seq<char>, StateModel>,
    after: Map<Seq<char>, StateModel>,
    url: U,
    outcome: OutcomeModel,
) -> bool {
    let text = url.model().text;
    &&& after == before.insert(text, after[text])
    &&& exists|known: StateModel, at: Timestamp|
        {
            &&& if before.contains_key(text) {
                known == before[text]
            } else {
                is_fresh(url, known)
            }
            &&& is_taken(at)
            &&& after[text] == #[trigger] known.processed(at, outcome)
        }
}

/// The value that is saved for all that is remembered.
pub open spec fn saved_states(states: Map<Seq<char>, StateModel>) -> JsonTree {
    JsonTree::Object(states.map_values(|state: StateModel| saved_state(state)))
}

/// All that is remembered, from the value saved for it, or `None` where some part of the
/// value gives no such thing.
pub open spec fn restored_states<U: Url>(value: JsonTree) -> Option<Map<Seq<char>, StateModel>> {
    match value {
        JsonTree::Object(fields) => if forall|text: Seq<char>| #[trigger]
            fields.contains_key(text) ==> restored_state::<U>(fields[text]) is Some {
            Some(fields.map_values(|value: JsonTree| restored_state::<U>(value)->0))
        } else {
            None
        },
        _ => None,
    }
}

impl<U: Url> ProcessingState<U> {
    /// Whether each entry is found under its own text.
    pub closed spec fn wf(&self) -> bool {
        &&& forall|text: Seq<char>| #[trigger]
            self.index@.contains_key(text) ==> self.index@[text] < self.entries@.len()
                && self.entries@[self.index@[text] as int].0@ == text
        &&& forall|i: int|
            0 <= i < self.entries@.len() ==> self.index@.contains_key(
                (#[trigger] self.entries@[i]).0@,
            ) && self.index@[self.entries@[i].0@] == i
    }

    /// No URL is known.
    pub fn new() -> (state: Self)
        ensures
            state.wf(),
            state@ == Map::<Seq<char>, StateModel>::empty(),
    {
        let state = ProcessingState { entries: Vec::new(), index: StringHashMap::new() };
        assert(state@ =~= Map::<Seq<char>, StateModel>::empty());
        state
    }

    /// Where the URL `text` stands among the entries.
    fn position(&self, text: &str) -> (found: Option<usize>)
        ensures
            match found {
                Some(at) => self.index@.contains_key(text@) && self.index@[text@] == at,
                None => !self.index@.contains_key(text@),
            },
    {
        match self.index.get(text) {
            Some(at) => Some(*at),
            None => None,
        }
    }

    /// Whether the URL `text` is known.
    pub fn contains_key(&self, text: &str) -> (known: bool)
        ensures
            known == self@.contains_key(text@),
    {
        self.index.contains_key(text)
    }

    /// What is remembered of the URL `text`.
    pub fn get(&self, text: &str) -> (found: Option<&CrawledState<U>>)
        requires
            self.wf(),
        ensures
            match found {
                Some(state) => self@.contains_key(text@) && self@[text@] == state@,
                None => !self@.contains_key(text@),
            },
    {
        match self.position(text) {
            Some(at) => Some(&self.entries[at].1),
            None => None,
        }
    }

    /// Remembers `state` of the URL `text`, in place of what was remembered of it.
    pub fn insert(&mut self, text: String, state: CrawledState<U>)
        requires
            old(self).wf(),
        ensures
            final(self).wf(),
            final(self)@ == old(self)@.insert(text@, state@),
    {
        match self.position(text.as_str()) {
            Some(at) => {
                self.entries[at].1 = state;
            },
            None => {
                let at: usize = self.entries.len();
                self.index.insert(text.clone(), at);
                self.entries.push((text, state));
            },
        }
        assert(self@ =~= old(self)@.insert(text@, state@));
    }

    /// Takes down that the URL was scraped without an error.
    pub fn scraped_ok(&mut self, url: &U)
        requires
            old(self).wf(),
        ensures
            final(self).wf(),
            is_scraped(old(self)@, final(self)@, *url, scraped_ok_outcome()),
    {
        match self.position(url.url().as_str()) {
            Some(at) => {
                self.entries[at].1.scraped_ok();
            },
            None => {
                let text = url.url().clone();
                let copy = url.clone();
                let state = CrawledState::queued_and_scraped_ok(copy);
                proof {
                    let known = StateModel::queued(copy.model(), state.queued);
                    assert(cloned(*url, copy));
                    assert(state@ == known.scraped(state.scraped_at->0, scraped_ok_outcome()));
                }
                self.insert(text, state);
            },
        }
        assert(self@ =~= old(self)@.insert(url.model().text, self@[url.model().text]));
    }

    /// Takes down that scraping the URL ended with an error.
    pub fn scrape_error(&mut self, url: &U, error: String)
        requires
            old(self).wf(),
        ensures
            final(self).wf(),
            is_scraped(old(self)@, final(self)@, *url, OutcomeModel::Error(error@)),
    {
        match self.position(url.url().as_str()) {
            Some(at) => {
                self.entries[at].1.scrape_error(error);
            },
            None => {
                let text = url.url().clone();
                let copy = url.clone();
                let state = CrawledState::queued_and_scrape_error(copy, error);
                proof {
                    let known = StateModel::queued(copy.model(), state.queued);
                    assert(cloned(*url, copy));
                    assert(state@ == known.scraped(state.scraped_at->0, OutcomeModel::Error(error@)));
                }
                self.insert(text, state);
            },
        }
        assert(self@ =~= old(self)@.insert(url.model().text, self@[url.model().text]));
    }

    /// Takes down that what the URL gave was processed without an error, with `output` as the
    /// result.
    pub fn processed_ok(&mut self, url: &U, output: String)
        requires
            old(self).wf(),
        ensures
            final(self).wf(),
            is_processed(old(self)@, final(self)@, *url, OutcomeModel::Success(output@)),
    {
        match self.position(url.url().as_str()) {
            Some(at) => {
                self.entries[at].1.processed_ok(output);
            },
            None => {
                let text = url.url().clone();
                let copy = url.clone();
                let state = CrawledState::queued_and_processed_ok(copy, output);
                proof {
                    let known = StateModel::queued(copy.model(), state.queued);
                    assert(cloned(*url, copy));
                    assert(state@ == known.processed(state.processed_at->0, OutcomeModel::Success(output@)));
                }
                self.insert(text, state);
            },
        }
        assert(self@ =~= old(self)@.insert(url.model().text, self@[url.model().text]));
    }

    /// Takes down that processing what the URL gave ended with an error.
    pub fn process_error(&mut self, url: &U, error: String)
        requires
            old(self).wf(),
        ensures
            final(self).wf(),
            is_processed(old(self)@, final(self)@, *url, OutcomeModel::Error(error@)),
    {
        match self.position(url.url().as_str()) {
            Some(at) => {
                self.entries[at].1.process_error(error);
            },
            None => {
                let text = url.url().clone();
                let copy = url.clone();
                let state = CrawledState::queued_and_process_error(copy, error);
                proof {
                    let known = StateModel::queued(copy.model(), state.queued);
                    assert(cloned(*url, copy));
                    assert(state@ == known.processed(state.processed_at->0, OutcomeModel::Error(error@)));
                }
                self.insert(text, state);
            },
        }
        assert(self@ =~= old(self)@.insert(url.model().text, self@[url.model().text]));
    }

    /// Queues the URL, whatever was known of it.
    pub fn queue(&mut self, url: &U)
        requires
            old(self).wf(),
        ensures
            final(self).wf(),
            is_queued(old(self)@, final(self)@, *url),
    {
        let text = url.url().clone();
        let copy = url.clone();
        assert(cloned(*url, copy));
        self.insert(text, CrawledState::queued(copy));
    }

    /// The value that is saved for all that is remembered. The same is read back from it,
    /// where each URL is read back from the value saved for the URL.
    pub fn to_json(&self) -> (json: Json)
        requires
            self.wf(),
        ensures
            json@ == saved_states(self@),
            has_no_repeats(json),
            (forall|text: Seq<char>| #[trigger]
                self@.contains_key(text) ==> U::restored(self@[text].url.json) == Some(
                    self@[text].url,
                )) ==> restored_states::<U>(json@) == Some(self@),
    {
        let mut fields: Vec<(String, Json)> = Vec::new();
        let mut i: usize = 0;
        while i < self.entries.len()
            invariant
                self.wf(),
                i <= self.entries.len(),
                fields@.len() == i,
                forall|j: int|
                    0 <= j < i ==> (#[trigger] fields@[j]).0@ == self.entries@[j].0@
                        && has_no_repeats(fields@[j].1),
                forall|text: Seq<char>| #[trigger]
                    members(fields@).contains_key(text) <==> self@.contains_key(text)
                        && self.index@[text] < i,
                forall|text: Seq<char>| #[trigger]
                    members(fields@).contains_key(text) ==> members(fields@)[text] == saved_state(
                        self@[text],
                    ),
                forall|text: Seq<char>| #[trigger]
                    members(fields@).contains_key(text) && U::restored(self@[text].url.json)
                        == Some(self@[text].url) ==> restored_state::<U>(members(fields@)[text])
                        == Some(self@[text]),
            decreases self.entries.len() - i,
        {
            let text = self.entries[i].0.clone();
            assert(self@[text@] == self.entries@[i as int].1@);
            let ghost before = fields@;
            fields.push((text, self.entries[i].1.to_json()));
            assert(fields@.drop_last() == before);
            assert(members(fields@) == members(before).insert(text@, fields@.last().1@));
            i = i + 1;
        }
        assert(members(fields@) =~= self@.map_values(|state: StateModel| saved_state(state)));
        proof {
            if forall|text: Seq<char>| #[trigger]
                self@.contains_key(text) ==> U::restored(self@[text].url.json) == Some(
                    self@[text].url,
                ) {
                assert(members(fields@).map_values(
                    |value: JsonTree| restored_state::<U>(value)->0,
                ) =~= self@);
            }
        }
        Json::Object(fields)
    }

    /// What is remembered of every known URL, from the value saved for it.
    pub fn from_json(json: &Json) -> (state: Option<Self>)
        ensures
            match state {
                Some(state) => state.wf() && restored_states::<U>(json@) == Some(state@),
                None => restored_states::<U>(json@) is None,
            },
    {
        let fields = match json {
            Json::Object(fields) => fields,
            _ => return None,
        };
        let mut state: Self = ProcessingState::new();
        let mut i: usize = fields.len();
        while i > 0
            invariant
                i <= fields.len(),
                json@ == JsonTree::Object(members(fields@)),
                state.wf(),
                forall|text: Seq<char>| #[trigger]
                    state@.contains_key(text) <==> exists|j: int|
                        i <= j < fields@.len() && #[trigger] fields@[j].0@ == text,
                forall|text: Seq<char>| #[trigger]
                    state@.contains_key(text) ==> members(fields@).contains_key(text)
                        && restored_state::<U>(members(fields@)[text]) == Some(state@[text]),
            decreases i,
        {
            i = i - 1;
            let ghost before = state@;
            if !state.contains_key(fields[i].0.as_str()) {
                proof {
                    assert forall|j: int| i < j < fields@.len() implies (#[trigger] fields@[j]).0@
                        != fields@[i as int].0@ by {
                        assert(state@.contains_key(fields@[i as int].0@) <== fields@[j].0@
                            == fields@[i as int].0@);
                    }
                    lemma_members_last(fields@, i as int);
                }
                match CrawledState::from_json(&fields[i].1) {
                    Some(read) => {
                        state.insert(fields[i].0.clone(), read);
                    },
                    None => {
                        return None;
                    },
                }
            }
            proof {
                let here = fields@[i as int].0@;
                assert(state@.contains_key(here));
                assert forall|text: Seq<char>| #[trigger] state@.contains_key(text) implies exists|
                    j: int,
                | i <= j < fields@.len() && #[trigger] fields@[j].0@ == text by {
                    if text == here {
                        assert(fields@[i as int].0@ == text);
                    } else {
                        assert(before.contains_key(text));
                    }
                }
                assert forall|text: Seq<char>|
                    (exists|j: int| i <= j < fields@.len() && #[trigger] fields@[j].0@ == text)
                    implies #[trigger] state@.contains_key(text) by {
                    let j = choose|j: int| i <= j < fields@.len() && #[trigger] fields@[j].0@ == text;
                    if j > i {
                        assert(before.contains_key(text));
                    }
                }
            }
        }
        proof {
            let all = members(fields@);
            assert forall|text: Seq<char>| #[trigger] all.contains_key(text) implies state@.contains_key(
                text,
            ) && restored_state::<U>(all[text]) == Some(state@[text]) by {
                lemma_members_names(fields@, text);
                let j = choose|j: int| 0 <= j < fields@.len() && #[trigger] fields@[j].0@ == text;
                assert(state@.contains_key(text));
            }
            assert(all.map_values(|value: JsonTree| restored_state::<U>(value)->0) =~= state@);
        }
        Some(state)
    }
}

/// What is remembered is of some URL.
pub proof fn lemma_remembers_urls<U: Url>(state: ProcessingState<U>, text: Seq<char>)
    requires
        state.wf(),
        state@.contains_key(text),
    ensures
        exists|url: U| #[trigger] url.model() == state@[text].url,
{
    let url = state.entries@[state.index@[text] as int].1.url;
    assert(url.model() == state@[text].url);
}

} // verus!
