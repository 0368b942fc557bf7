//! What is remembered of one URL.

use vstd::prelude::*;
use crate::spider::{Url, UrlModel};
use crate::time::Timestamp;

verus! {

/// How scraping a URL, or processing what was scraped, ended.
#[derive(Debug, Clone)]
pub enum StateOutcome {
    Success(String),
    Error(String),
}

/// The mathematical value of a [`StateOutcome`].
pub enum OutcomeModel {
    Success(Seq<char>),
    Error(Seq<char>),
}

impl View for StateOutcome {
    type V = OutcomeModel;

    open spec fn view(&self) -> OutcomeModel {
        match self {
            StateOutcome::Success(text) => OutcomeModel::Success(text@),
            StateOutcome::Error(text) => OutcomeModel::Error(text@),
        }
    }
}

/// What is remembered of one URL: when it was queued, and when and how it was last scraped
/// and processed.
#[derive(Debug, Clone)]
pub struct CrawledState<U: Url> {
    pub url: U,
    pub queued: Timestamp,
    pub scraped_at: Option<Timestamp>,
    pub scrape_result: Option<StateOutcome>,
    pub processed_at: Option<Timestamp>,
    pub process_result: Option<StateOutcome>,
}

/// The mathematical value of a [`CrawledState`].
pub struct StateModel {
    pub url: UrlModel,
    pub queued: Timestamp,
    pub scraped_at: Option<Timestamp>,
    pub scrape_result: Option<OutcomeModel>,
    pub processed_at: Option<Timestamp>,
    pub process_result: Option<OutcomeModel>,
}

/// The mathematical value of an outcome that may be missing.
pub open spec fn outcome_model(outcome: Option<StateOutcome>) -> Option<OutcomeModel> {
    match outcome {
        Some(outcome) => Some(outcome@),
        None => None,
    }
}

impl<U: Url> View for CrawledState<U> {
    type V = StateModel;

    open spec fn view(&self) -> StateModel {
        StateModel {
            url: self.url.model(),
            queued: self.queued,
            scraped_at: self.scraped_at,
            scrape_result: outcome_model(self.scrape_result),
            processed_at: self.processed_at,
            process_result: outcome_model(self.process_result),
        }
    }
}

impl StateModel {
    /// A URL that was queued at `at`, and no more.
    pub open spec fn queued(url: UrlModel, at: Timestamp) -> StateModel {
        StateModel {
            url,
            queued: at,
            scraped_at: None,
            scrape_result: None,
            processed_at: None,
            process_result: None,
        }
    }

    /// The URL scraped at `at` with the given outcome; all else is kept.
    pub open spec fn scraped(self, at: Timestamp, outcome: OutcomeModel) -> StateModel {
        StateModel { scraped_at: Some(at), scrape_result: Some(outcome), ..self }
    }

    /// The URL processed at `at` with the given outcome; all else is kept.
    pub open spec fn processed(self, at: Timestamp, outcome: OutcomeModel) -> StateModel {
        StateModel { processed_at: Some(at), process_result: Some(outcome), ..self }
    }

    /// Whether the URL was last processed without an error.
    pub open spec fn is_processed(self) -> bool {
        self.process_result matches Some(OutcomeModel::Success(_))
    }
}

/// The outcome of a scraping without an error.
pub open spec fn scraped_ok_outcome() -> OutcomeModel {
    OutcomeModel::Success(Seq::empty())
}

/// Whether `at` was taken from the clock: it is what a call of [`Timestamp::now`] gave.
pub open spec fn is_taken(at: Timestamp) -> bool {
    &&& at.is_reading()
    &&& call_ensures(Timestamp::now, (), at)
}

/// `From` of a type to itself hands its argument back.
pub assume_specification<T>[ <T as From<T>>::from ](value: T) -> (same: T)
    ensures
        same == value,
;

impl<U: Url> CrawledState<U> {
    /// A URL that is queued as of `at`.
    pub fn new_at(url: U, at: Timestamp) -> (state: Self)
        ensures
            state@ == StateModel::queued(url.model(), at),
            state.url == url,
    {
        Self {
            url,
            queued: at,
            scraped_at: None,
            scrape_result: None,
            processed_at: None,
            process_result: None,
        }
    }

    /// A URL that is queued now.
    pub fn new(url: U) -> (state: Self)
        ensures
            is_taken(state.queued),
            state@ == StateModel::queued(url.model(), state.queued),
            state.url == url,
    {
        Self::new_at(url, Timestamp::now())
    }

    /// Takes down how scraping ended at `at`.
    pub fn record_scrape(&mut self, at: Timestamp, outcome: StateOutcome)
        ensures
            final(self)@ == old(self)@.scraped(at, outcome@),
            final(self).url == old(self).url,
    {
        self.scraped_at = Some(at);
        self.scrape_result = Some(outcome);
    }

    /// Takes down how processing ended at `at`.
    pub fn record_process(&mut self, at: Timestamp, outcome: StateOutcome)
        ensures
            final(self)@ == old(self)@.processed(at, outcome@),
            final(self).url == old(self).url,
    {
        self.processed_at = Some(at);
        self.process_result = Some(outcome);
    }

    /// Queues the URL anew as of `at` and forgets how it was scraped and processed.
    pub fn reset_as_queued_at(&mut self, at: Timestamp)
        ensures
            final(self)@ == StateModel::queued(old(self).url.model(), at),
            final(self).url == old(self).url,
    {
        self.queued = at;
        self.scraped_at = None;
        self.scrape_result = None;
        self.processed_at = None;
        self.process_result = None;
    }

    /// A URL that is queued now.
    pub fn queued(url: U) -> (state: CrawledState<U>)
        ensures
            is_taken(state.queued),
            state@ == StateModel::queued(url.model(), state.queued),
            state.url == url,
    {
        Self::new(url)
    }

    /// A URL that is queued and scraped without an error now.
    pub fn queued_and_scraped_ok(url: U) -> (state: CrawledState<U>)
        ensures
            is_taken(state.queued),
            state.scraped_at is Some,
            is_taken(state.scraped_at->0),
            state@ == StateModel::queued(url.model(), state.queued).scraped(
                state.scraped_at->0,
                scraped_ok_outcome(),
            ),
            state.url == url,
    {
        let mut state = CrawledState::new(url);
        state.scraped_ok();
        state
    }

    /// A URL that is queued and scraped with an error now.
    pub fn queued_and_scrape_error(url: U, error: String) -> (state: CrawledState<U>)
        ensures
            is_taken(state.queued),
            state.scraped_at is Some,
            is_taken(state.scraped_at->0),
            state@ == StateModel::queued(url.model(), state.queued).scraped(
                state.scraped_at->0,
                OutcomeModel::Error(error@),
            ),
            state.url == url,
    {
        let mut state = CrawledState::new(url);
        state.scrape_error(error);
        state
    }

    /// A URL that is queued and processed without an error now.
    pub fn queued_and_processed_ok<S: Into<String>>(url: U, path: S) -> (state: CrawledState<U>)
        ensures
            is_taken(state.queued),
            state.processed_at is Some,
            is_taken(state.processed_at->0),
            exists|text: String| #[trigger]
                call_ensures(<S as Into<String>>::into, (path,), text) && state@
                    == StateModel::queued(url.model(), state.queued).processed(
                    state.processed_at->0,
                    OutcomeModel::Success(text@),
                ),
            state.url == url,
    {
        let mut state = CrawledState::new(url);
        let text: String = path.into();
        assert(call_ensures(<S as Into<String>>::into, (path,), text));
        state.processed_ok(text);
        state
    }

    /// A URL that is queued and processed with an error now.
    pub fn queued_and_process_error(url: U, error: String) -> (state: CrawledState<U>)
        ensures
            is_taken(state.queued),
            state.processed_at is Some,
            is_taken(state.processed_at->0),
            state@ == StateModel::queued(url.model(), state.queued).processed(
                state.processed_at->0,
                OutcomeModel::Error(error@),
            ),
            state.url == url,
    {
        let mut state = CrawledState::new(url);
        state.process_error(error);
        state
    }

    /// Takes down that processing ended now without an error, with `path` as its result.
    pub fn processed_ok<S: Into<String>>(&mut self, path: S)
        ensures
            final(self).processed_at is Some,
            is_taken(final(self).processed_at->0),
            exists|text: String| #[trigger]
                call_ensures(<S as Into<String>>::into, (path,), text) && final(self)@ == old(
                    self,
                )@.processed(final(self).processed_at->0, OutcomeModel::Success(text@)),
            final(self).url == old(self).url,
    {
        let at = Timestamp::now();
        let text: String = path.into();
        assert(call_ensures(<S as Into<String>>::into, (path,), text));
        self.record_process(at, StateOutcome::Success(text));
    }

    /// Takes down that scraping ended now without an error.
    pub fn scraped_ok(&mut self)
        ensures
            final(self).scraped_at is Some,
            is_taken(final(self).scraped_at->0),
            final(self)@ == old(self)@.scraped(final(self).scraped_at->0, scraped_ok_outcome()),
            final(self).url == old(self).url,
    {
        self.record_scrape(Timestamp::now(), StateOutcome::Success(String::new()));
    }

    /// Takes down that processing ended now with an error.
    pub fn process_error<S: Into<String>>(&mut self, error: S)
        ensures
            final(self).processed_at is Some,
            is_taken(final(self).processed_at->0),
            exists|text: String| #[trigger]
                call_ensures(<S as Into<String>>::into, (error,), text) && final(self)@ == old(
                    self,
                )@.processed(final(self).processed_at->0, OutcomeModel::Error(text@)),
            final(self).url == old(self).url,
    {
        let at = Timestamp::now();
        let text: String = error.into();
        assert(call_ensures(<S as Into<String>>::into, (error,), text));
        self.record_process(at, StateOutcome::Error(text));
    }

    /// Takes down that scraping ended now with an error.
    pub fn scrape_error<S: Into<String>>(&mut self, error: S)
        ensures
            final(self).scraped_at is Some,
            is_taken(final(self).scraped_at->0),
            exists|text: String| #[trigger]
                call_ensures(<S as Into<String>>::into, (error,), text) && final(self)@ == old(
                    self,
                )@.scraped(final(self).scraped_at->0, OutcomeModel::Error(text@)),
            final(self).url == old(self).url,
    {
        let at = Timestamp::now();
        let text: String = error.into();
        assert(call_ensures(<S as Into<String>>::into, (error,), text));
        self.record_scrape(at, StateOutcome::Error(text));
    }

    /// Queues the URL anew as of now and forgets how it was scraped and processed.
    pub fn reset_as_queued(&mut self)
        ensures
            is_taken(final(self).queued),
            final(self)@ == StateModel::queued(old(self).url.model(), final(self).queued),
            final(self).url == old(self).url,
    {
        self.reset_as_queued_at(Timestamp::now());
    }

    /// Whether the URL was last processed without an error.
    pub fn is_processed(&self) -> (processed: bool)
        ensures
            processed == self@.is_processed(),
    {
        matches!(self.process_result, Some(StateOutcome::Success(_)))
    }
}

} // verus!
