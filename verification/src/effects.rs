//! What each operation does to what is remembered and counted.

use std::path::PathBuf;
use vstd::arithmetic::div_mod::{
    lemma_mod_add_multiples_vanish, lemma_mod_self_0, lemma_small_mod,
};
use vstd::prelude::*;
use crate::crawler::Crawler;
use crate::json::JsonTree;
use crate::spider::{Url, UrlModel};
use crate::state::{CrawledState, OutcomeModel, StateModel, StateOutcome};
use crate::state_file::Destination;
use crate::statistics::Statistics;
use crate::time::{Timestamp, is_instant};
#[allow(unused_imports)]
use crate::processing_state::{is_processed, is_queued, is_scraped};
#[allow(unused_imports)]
use crate::spider::copies_faithfully;
#[allow(unused_imports)]
use crate::state::{outcome_model, scraped_ok_outcome};
#[allow(unused_imports)]
use crate::state_file::destination_of;
#[allow(unused_imports)]
use crate::statistics::{one_down, one_up};

verus! {

/// Nothing is remembered otherwise of any URL but `text`.
pub open spec fn only_changes(
    before: Map<Seq<char>, StateModel>,
    after: Map<Seq<char>, StateModel>,
    text: Seq<char>,
) -> bool {
    &&& forall|other: Seq<char>|
        other != text ==> (#[trigger] after.contains_key(other) <==> before.contains_key(other))
    &&& forall|other: Seq<char>|
        other != text && #[trigger] before.contains_key(other) ==> after[other] == before[other]
}

/// Queueing a URL forgets whatever was remembered of it: it is queued as of a reading of the
/// clock, neither scraped nor processed, and nothing else changes.
pub proof fn law_queueing_forgets<U: Url>(
    before: Map<Seq<char>, StateModel>,
    after: Map<Seq<char>, StateModel>,
    url: U,
)
    requires
        is_queued(before, after, url),
    ensures
        after.contains_key(url.model().text),
        after[url.model().text].scraped_at is None,
        after[url.model().text].scrape_result is None,
        after[url.model().text].processed_at is None,
        after[url.model().text].process_result is None,
        !after[url.model().text].is_processed(),
        call_ensures(Timestamp::now, (), after[url.model().text].queued),
        exists|copy: U| #[trigger]
            cloned(url, copy) && after[url.model().text].url == copy.model(),
        copies_faithfully::<U>() ==> after[url.model().text].url == url.model(),
        only_changes(before, after, url.model().text),
{
}

/// Taking down how scraping a URL ended sets the outcome and the time, which is a reading of
/// the clock. All else that was remembered of the URL is kept; where nothing was, it is queued
/// as of a reading of the clock and not processed. Nothing else changes.
pub proof fn law_scraping_is_taken_down<U: Url>(
    before: Map<Seq<char>, StateModel>,
    after: Map<Seq<char>, StateModel>,
    url: U,
    outcome: OutcomeModel,
)
    requires
        is_scraped(before, after, url, outcome),
    ensures
        after.contains_key(url.model().text),
        after[url.model().text].scrape_result == Some(outcome),
        after[url.model().text].scraped_at matches Some(at) && call_ensures(Timestamp::now, (), at),
        before.contains_key(url.model().text) ==> {
            let old_state = before[url.model().text];
            let new_state = after[url.model().text];
            &&& new_state.url == old_state.url
            &&& new_state.queued == old_state.queued
            &&& new_state.processed_at == old_state.processed_at
            &&& new_state.process_result == old_state.process_result
        },
        !before.contains_key(url.model().text) ==> {
            let new_state = after[url.model().text];
            &&& new_state.processed_at is None
            &&& new_state.process_result is None
            &&& call_ensures(Timestamp::now, (), new_state.queued)
            &&& exists|copy: U| #[trigger] cloned(url, copy) && new_state.url == copy.model()
        },
        only_changes(before, after, url.model().text),
{
}

/// Taking down how processing what a URL gave ended sets the outcome and the time, which is a
/// reading of the clock. All else that was remembered of the URL is kept; where nothing was,
/// it is queued as of a reading of the clock and not scraped. Nothing else changes.
pub proof fn law_processing_is_taken_down<U: Url>(
    before: Map<Seq<char>, StateModel>,
    after: Map<Seq<char>, StateModel>,
    url: U,
    outcome: OutcomeModel,
)
    requires
        is_processed(before, after, url, outcome),
    ensures
        after.contains_key(url.model().text),
        after[url.model().text].process_result == Some(outcome),
        after[url.model().text].processed_at matches Some(at) && call_ensures(
            Timestamp::now,
            (),
            at,
        ),
        before.contains_key(url.model().text) ==> {
            let old_state = before[url.model().text];
            let new_state = after[url.model().text];
            &&& new_state.url == old_state.url
            &&& new_state.queued == old_state.queued
            &&& new_state.scraped_at == old_state.scraped_at
            &&& new_state.scrape_result == old_state.scrape_result
        },
        !before.contains_key(url.model().text) ==> {
            let new_state = after[url.model().text];
            &&& new_state.scraped_at is None
            &&& new_state.scrape_result is None
            &&& call_ensures(Timestamp::now, (), new_state.queued)
            &&& exists|copy: U| #[trigger] cloned(url, copy) && new_state.url == copy.model()
        },
        only_changes(before, after, url.model().text),
{
}

/// Queueing a URL again, or after any scraping and processing of it, comes to the same as
/// queueing it at first, but for the time.
pub proof fn law_queueing_starts_over<U: Url>(
    fresh: Map<Seq<char>, StateModel>,
    known: Map<Seq<char>, StateModel>,
    fresh_after: Map<Seq<char>, StateModel>,
    known_after: Map<Seq<char>, StateModel>,
    url: U,
)
    requires
        !fresh.contains_key(url.model().text),
        known.contains_key(url.model().text),
        is_queued(fresh, fresh_after, url),
        is_queued(known, known_after, url),
        copies_faithfully::<U>(),
    ensures
        (StateModel {
            queued: fresh_after[url.model().text].queued,
            ..known_after[url.model().text]
        }) == fresh_after[url.model().text],
{
}

/// The record of a URL holds what was taken down, each part in its own place.
pub proof fn law_record_parts(
    url: UrlModel,
    queued: Timestamp,
    state: StateModel,
    at: Timestamp,
    outcome: OutcomeModel,
)
    ensures
        StateModel::queued(url, queued).url == url,
        StateModel::queued(url, queued).queued == queued,
        StateModel::queued(url, queued).scraped_at is None,
        StateModel::queued(url, queued).scrape_result is None,
        StateModel::queued(url, queued).processed_at is None,
        StateModel::queued(url, queued).process_result is None,
        state.scraped(at, outcome).scraped_at == Some(at),
        state.scraped(at, outcome).scrape_result == Some(outcome),
        state.processed(at, outcome).processed_at == Some(at),
        state.processed(at, outcome).process_result == Some(outcome),
{
}

/// Scraping without an error is a success that has no text.
pub proof fn law_scraped_ok_is_empty()
    ensures
        scraped_ok_outcome() matches OutcomeModel::Success(text) && text.len() == 0,
{
}

/// A URL is processed exactly when it has an outcome of processing and that is a success.
pub proof fn law_processed_is_success(state: StateModel)
    ensures
        state.is_processed() <==> state.process_result is Some && state.process_result->0 is Success,
        state.process_result is None ==> !state.is_processed(),
        state.process_result matches Some(OutcomeModel::Error(_)) ==> !state.is_processed(),
{
}

/// The mathematical value of a record shows each of its fields.
pub proof fn law_record_shows_fields<U: Url>(state: CrawledState<U>)
    ensures
        state@.url == state.url.model(),
        state@.queued == state.queued,
        state@.scraped_at == state.scraped_at,
        state@.processed_at == state.processed_at,
        state@.scrape_result is None <==> state.scrape_result is None,
        state@.process_result is None <==> state.process_result is None,
        state.scrape_result matches Some(outcome) ==> state@.scrape_result == Some(outcome@),
        state.process_result matches Some(outcome) ==> state@.process_result == Some(outcome@),
{
}

/// The mathematical value of an outcome shows what it is and its text.
pub proof fn law_outcome_shows_text(text: String)
    ensures
        StateOutcome::Success(text)@ == OutcomeModel::Success(text@),
        StateOutcome::Error(text)@ == OutcomeModel::Error(text@),
        outcome_model(Some(StateOutcome::Success(text))) == Some(OutcomeModel::Success(text@)),
        outcome_model(Some(StateOutcome::Error(text))) == Some(OutcomeModel::Error(text@)),
        outcome_model(None) is None,
{
}

/// A string is identified by its text, is saved as that text, and is read back from it alone.
pub proof fn law_string_urls(url: String, text: Seq<char>)
    ensures
        url.model().text == url@,
        url.model().json == JsonTree::Text(url@),
        String::restored(JsonTree::Text(text)) matches Some(model) && model.text == text
            && model.json == JsonTree::Text(text),
        forall|json: JsonTree| #[trigger]
            String::restored(json) is Some ==> json is Text,
        String::restored_missing() is None,
{
}

/// Settings are the same exactly when each of them is.
pub proof fn law_settings<U: Url>(one: Crawler<U>, other: Crawler<U>)
    ensures
        one.same_settings(other) <==> one.delay == other.delay && one.crawling_concurrency
            == other.crawling_concurrency && one.processing_concurrency
            == other.processing_concurrency,
{
}

/// The state goes to the given path, and to the standard output only where none is given.
pub proof fn law_destination(path: Option<PathBuf>)
    ensures
        path matches Some(path) ==> destination_of(Some(path)) == Destination::File(path),
        path is None ==> destination_of(path) is Stdout,
{
}

/// An instant has a second within range; it has less than a second of nanoseconds, or less
/// than two in the last second of a minute.
pub proof fn law_instants(secs: i64, nanos: u32)
    ensures
        is_instant(secs, nanos) ==> -8334601228800 <= secs <= 8210266876799 && nanos < 2_000_000_000,
        -8334601228800 <= secs <= 8210266876799 && nanos < 1_000_000_000 ==> is_instant(secs, nanos),
        -8334601228800 <= secs <= 8210266876799 && 1_000_000_000 <= nanos < 2_000_000_000 ==> (
        is_instant(secs, nanos) <==> (secs + 1) % 60 == 0),
{
}

/// A reading of the clock is an instant outside any leap second.
pub proof fn law_readings(at: Timestamp)
    requires
        call_ensures(Timestamp::now, (), at),
    ensures
        at.is_shown(),
        is_instant(at.seconds(), at.nanoseconds()),
        at.nanoseconds() < 1_000_000_000,
{
}

/// Counters count by one: up and down undo each other, and either starts over at its end.
pub proof fn law_counters(count: usize)
    ensures
        one_up(count) as int == (count + 1) % (usize::MAX + 1),
        one_down(count) as int == (count - 1) % (usize::MAX + 1),
        count < usize::MAX ==> one_up(count) == count + 1,
        count > 0 ==> one_down(count) == count - 1,
{
    let size = usize::MAX + 1;
    if count < usize::MAX {
        lemma_small_mod((count + 1) as nat, size as nat);
    } else {
        lemma_mod_self_0(size);
    }
    if count > 0 {
        lemma_small_mod((count - 1) as nat, size as nat);
    } else {
        lemma_mod_add_multiples_vanish(-1, size);
        lemma_small_mod((size - 1) as nat, size as nat);
    }
}

/// What ended in a run.
pub enum Ending {
    /// A scraping, with an error where `true`.
    Scraping(bool),
    /// A processing, with an error where `true`.
    Processing(bool),
}

/// The statistics after `endings` were counted, one after the other.
pub open spec fn counted(statistics: Statistics, endings: Seq<Ending>) -> Statistics
    decreases endings.len(),
{
    if endings.len() == 0 {
        statistics
    } else {
        let before = counted(statistics, endings.drop_last());
        match endings.last() {
            Ending::Scraping(failed) => before.with_scraping(failed),
            Ending::Processing(failed) => before.with_processing(failed),
        }
    }
}

/// Each ending is counted once, and each failure once more among the errors of its kind: after
/// any endings, as long as no counter starts over, the counts have grown by the number of
/// endings and of failures.
pub proof fn law_every_ending_counts(statistics: Statistics, endings: Seq<Ending>)
    requires
        statistics.num_scrapings + endings.len() <= usize::MAX,
        statistics.num_scrape_errors + endings.len() <= usize::MAX,
        statistics.num_processings + endings.len() <= usize::MAX,
        statistics.num_process_errors + endings.len() <= usize::MAX,
    ensures
        counted(statistics, endings).num_scrapings == statistics.num_scrapings + endings.filter(
            |ending: Ending| ending is Scraping,
        ).len(),
        counted(statistics, endings).num_scrape_errors == statistics.num_scrape_errors
            + endings.filter(|ending: Ending| ending == Ending::Scraping(true)).len(),
        counted(statistics, endings).num_processings == statistics.num_processings + endings.filter(
            |ending: Ending| ending is Processing,
        ).len(),
        counted(statistics, endings).num_process_errors == statistics.num_process_errors
            + endings.filter(|ending: Ending| ending == Ending::Processing(true)).len(),
    decreases endings.len(),
{
    reveal(Seq::filter);
    if endings.len() > 0 {
        let front = endings.drop_last();
        law_every_ending_counts(statistics, front);
        front.lemma_filter_len(|ending: Ending| ending is Scraping);
        front.lemma_filter_len(|ending: Ending| ending == Ending::Scraping(true));
        front.lemma_filter_len(|ending: Ending| ending is Processing);
        front.lemma_filter_len(|ending: Ending| ending == Ending::Processing(true));
    }
}

/// One more ending raises the count of its kind by one, and that of the errors of its kind by
/// one exactly when it failed; a counter at the largest number starts over; the counts of the
/// other kind stay.
pub proof fn law_one_ending_counts_one(statistics: Statistics, failed: bool)
    ensures
        ({
            let after = statistics.with_scraping(failed);
            &&& after.num_scrapings as int == (statistics.num_scrapings + 1) % (usize::MAX + 1)
            &&& failed ==> after.num_scrape_errors as int == (statistics.num_scrape_errors + 1) % (
            usize::MAX + 1)
            &&& !failed ==> after.num_scrape_errors == statistics.num_scrape_errors
            &&& after.num_processings == statistics.num_processings
            &&& after.num_process_errors == statistics.num_process_errors
        }),
        ({
            let after = statistics.with_processing(failed);
            &&& after.num_processings as int == (statistics.num_processings + 1) % (usize::MAX + 1)
            &&& failed ==> after.num_process_errors as int == (statistics.num_process_errors + 1)
                % (usize::MAX + 1)
            &&& !failed ==> after.num_process_errors == statistics.num_process_errors
            &&& after.num_scrapings == statistics.num_scrapings
            &&& after.num_scrape_errors == statistics.num_scrape_errors
        }),
{
    law_counters(statistics.num_scrapings);
    law_counters(statistics.num_scrape_errors);
    law_counters(statistics.num_processings);
    law_counters(statistics.num_process_errors);
}

} // verus!
