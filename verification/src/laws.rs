//! What holds of a crawl as a whole.

use vstd::prelude::*;
use crate::listener::{Listener, ListenerAction, ListenerEvent, ListenerPhase};
use crate::processing_state::ProcessingState;
#[allow(unused_imports)]
use crate::processing_state::lemma_remembers_urls;
use crate::spider::Url;
use crate::state::{OutcomeModel, StateModel};
use crate::time::Timestamp;
#[allow(unused_imports)]
use crate::listener::{is_known, is_looked_through, is_step};
#[allow(unused_imports)]
use crate::processing_state::{is_processed, is_queued, is_scraped};
#[allow(unused_imports)]
use crate::spider::copies_faithfully;
#[allow(unused_imports)]
use crate::state_file::{are_storable, is_storable};
#[allow(unused_imports)]
use crate::statistics::{one_down, one_up};
#[allow(unused_imports)]
use vstd::set_lib::{lemma_int_range, lemma_len_subset, set_int_range};

verus! {

/// Whether all that is known in `before` is known in `after`.
pub open spec fn keeps_known(
    before: Map<Seq<char>, StateModel>,
    after: Map<Seq<char>, StateModel>,
) -> bool {
    forall|text: Seq<char>| #[trigger] before.contains_key(text) ==> after.contains_key(text)
}

/// A known URL stays known, and what is remembered of the others stays as it is, whenever a
/// URL is queued, scraped or processed.
pub proof fn law_known_kept<U: Url>(
    before: Map<Seq<char>, StateModel>,
    after: Map<Seq<char>, StateModel>,
    url: U,
    outcome: OutcomeModel,
)
    requires
        is_queued(before, after, url) || is_scraped(before, after, url, outcome) || is_processed(
            before,
            after,
            url,
            outcome,
        ),
    ensures
        keeps_known(before, after),
        after.contains_key(url.model().text),
        forall|text: Seq<char>|
            text != url.model().text ==> (#[trigger] after.contains_key(text)
                <==> before.contains_key(text)) && after[text] == before[text],
{
    assert forall|text: Seq<char>| text != url.model().text implies after[text] == before[text] by {
    }
}

/// Every step of the control loop keeps what is known.
pub proof fn law_step_keeps_known<U: Url>(
    before: Listener<U>,
    known: Map<Seq<char>, StateModel>,
    active: usize,
    event: ListenerEvent<U>,
    after: Listener<U>,
    known_after: Map<Seq<char>, StateModel>,
    action: Option<ListenerAction<U>>,
)
    requires
        is_step(before, known, active, event, after, known_after, action),
    ensures
        keeps_known(known, known_after),
{
}

/// The control loop sends a URL only if it was not known, and then it is known.
pub proof fn law_sent_was_unknown<U: Url>(
    before: Listener<U>,
    known: Map<Seq<char>, StateModel>,
    active: usize,
    event: ListenerEvent<U>,
    after: Listener<U>,
    known_after: Map<Seq<char>, StateModel>,
    url: U,
)
    requires
        is_step(before, known, active, event, after, known_after, Some(ListenerAction::Send(url))),
    ensures
        !is_known(known, url),
        is_known(known_after, url),
{
}

/// One step of the control loop.
pub struct ListenerStep<U: Url> {
    pub before: Listener<U>,
    pub known: Map<Seq<char>, StateModel>,
    pub active: usize,
    pub event: ListenerEvent<U>,
    pub after: Listener<U>,
    pub known_after: Map<Seq<char>, StateModel>,
    pub action: Option<ListenerAction<U>>,
}

/// Whether `steps` are steps of the control loop one after the other, between which others
/// may have taken down more but nothing was forgotten.
pub open spec fn are_steps<U: Url>(steps: Seq<ListenerStep<U>>) -> bool {
    &&& forall|i: int|
        0 <= i < steps.len() ==> {
            let step = #[trigger] steps[i];
            is_step(
                step.before,
                step.known,
                step.active,
                step.event,
                step.after,
                step.known_after,
                step.action,
            )
        }
    &&& forall|i: int, j: int|
        0 <= i && j == i + 1 && j < steps.len() ==> keeps_known(
            (#[trigger] steps[i]).known_after,
            (#[trigger] steps[j]).known,
        )
}

/// What is known before a step is known before every later one.
proof fn lemma_known_later<U: Url>(steps: Seq<ListenerStep<U>>, i: int, j: int)
    requires
        are_steps(steps),
        0 <= i <= j < steps.len(),
    ensures
        keeps_known(steps[i].known, steps[j].known),
    decreases j - i,
{
    if i < j {
        lemma_known_later(steps, i, j - 1);
        let step = steps[j - 1];
        law_step_keeps_known(
            step.before,
            step.known,
            step.active,
            step.event,
            step.after,
            step.known_after,
            step.action,
        );
        assert(keeps_known(steps[j - 1].known_after, steps[j].known));
    }
}

/// A URL that is known is never sent to the scrapers again, however many steps later.
pub proof fn law_known_never_sent<U: Url>(
    steps: Seq<ListenerStep<U>>,
    i: int,
    j: int,
    text: Seq<char>,
)
    requires
        are_steps(steps),
        0 <= i <= j < steps.len(),
        steps[i].known.contains_key(text),
    ensures
        steps[j].action matches Some(ListenerAction::Send(url)) ==> url.model().text != text,
{
    lemma_known_later(steps, i, j);
    let step = steps[j];
    if let Some(ListenerAction::Send(url)) = step.action {
        law_sent_was_unknown(
            step.before,
            step.known,
            step.active,
            step.event,
            step.after,
            step.known_after,
            url,
        );
    }
}

/// No URL is sent to the scrapers twice.
pub proof fn law_never_sent_twice<U: Url>(
    steps: Seq<ListenerStep<U>>,
    i: int,
    j: int,
    first: U,
    second: U,
)
    requires
        are_steps(steps),
        0 <= i < j < steps.len(),
        steps[i].action == Some(ListenerAction::Send(first)),
        steps[j].action == Some(ListenerAction::Send(second)),
    ensures
        first.model().text != second.model().text,
{
    let step = steps[i];
    law_sent_was_unknown(
        step.before,
        step.known,
        step.active,
        step.event,
        step.after,
        step.known_after,
        first,
    );
    assert(keeps_known(steps[i].known_after, steps[i + 1].known));
    law_known_never_sent(steps, i + 1, j, first.model().text);
}

/// The texts of the URLs.
pub open spec fn texts_of<U: Url>(urls: Seq<U>) -> Seq<Seq<char>> {
    urls.map_values(|url: U| url.model().text)
}

/// Those of `texts` that are not in `known`, each once, in order.
pub open spec fn unknown_texts(known: Set<Seq<char>>, texts: Seq<Seq<char>>) -> Seq<Seq<char>>
    decreases texts.len(),
{
    if texts.len() == 0 {
        Seq::empty()
    } else if known.contains(texts[0]) {
        unknown_texts(known, texts.skip(1))
    } else {
        seq![texts[0]] + unknown_texts(known.insert(texts[0]), texts.skip(1))
    }
}

/// Texts at the front that are known make no difference.
proof fn lemma_skip_known(known: Set<Seq<char>>, texts: Seq<Seq<char>>, at: int)
    requires
        0 <= at <= texts.len(),
        forall|i: int| 0 <= i < at ==> known.contains(#[trigger] texts[i]),
    ensures
        unknown_texts(known, texts) == unknown_texts(known, texts.skip(at)),
    decreases at,
{
    if at == 0 {
        assert(texts.skip(0) =~= texts);
    } else {
        let rest = texts.skip(1);
        assert forall|i: int| 0 <= i < at - 1 implies known.contains(#[trigger] rest[i]) by {
            assert(rest[i] == texts[i + 1]);
        }
        lemma_skip_known(known, rest, at - 1);
        assert(rest.skip(at - 1) =~= texts.skip(at));
    }
}

/// Looking through found URLs sends the first that is not known and leaves those behind it;
/// so, step by step, the URLs that are sent for a report are those of it that are not known,
/// each once and in order, and when none is left the listener goes on.
pub proof fn law_unknown_sent_in_order<U: Url>(
    before: Map<Seq<char>, StateModel>,
    after: Map<Seq<char>, StateModel>,
    found: Seq<U>,
    next: ListenerPhase<U>,
    action: ListenerAction<U>,
)
    requires
        is_looked_through(before, after, found, next, action),
    ensures
        match action {
            ListenerAction::Send(url) => next matches ListenerPhase::Sending(left)
                && unknown_texts(before.dom(), texts_of(found)) == seq![url.model().text]
                + unknown_texts(after.dom(), texts_of(left@.reverse())),
            _ => unknown_texts(before.dom(), texts_of(found)).len() == 0,
        },
{
    let texts = texts_of(found);
    match action {
        ListenerAction::Send(url) => {
            let at = choose|at: int|
                {
                    &&& 0 <= at < found.len()
                    &&& url == #[trigger] found[at]
                    &&& !is_known(before, url)
                    &&& forall|i: int| 0 <= i < at ==> is_known(before, #[trigger] found[i])
                    &&& is_queued(before, after, url)
                    &&& next matches ListenerPhase::Sending(left) && left@.reverse() == found.skip(
                        at + 1,
                    )
                };
            assert forall|i: int| 0 <= i < at implies before.dom().contains(#[trigger] texts[i]) by {
                assert(is_known(before, found[i]));
            }
            lemma_skip_known(before.dom(), texts, at);
            let rest = texts.skip(at);
            assert(rest[0] == url.model().text);
            assert(rest.skip(1) =~= texts_of(found.skip(at + 1)));
            assert(after.dom() =~= before.dom().insert(url.model().text));
        },
        _ => {
            assert forall|i: int| 0 <= i < texts.len() implies before.dom().contains(
                #[trigger] texts[i],
            ) by {
                assert(is_known(before, found[i]));
            }
            lemma_skip_known(before.dom(), texts, texts.len() as int);
        },
    }
}

/// The unknown ones among `texts` are not known, are all different, come from `texts`, and
/// leave out none of it that is not known.
pub proof fn law_unknown_texts(known: Set<Seq<char>>, texts: Seq<Seq<char>>)
    ensures
        unknown_texts(known, texts).no_duplicates(),
        forall|text: Seq<char>| #[trigger]
            unknown_texts(known, texts).contains(text) <==> texts.contains(text) && !known.contains(
                text,
            ),
    decreases texts.len(),
{
    if texts.len() > 0 {
        let first = texts[0];
        let rest = texts.skip(1);
        assert forall|text: Seq<char>| #[trigger] texts.contains(text) <==> text == first
            || rest.contains(text) by {
            if texts.contains(text) && text != first {
                let i = choose|i: int| 0 <= i < texts.len() && texts[i] == text;
                assert(rest[i - 1] == text);
            }
            if rest.contains(text) {
                let i = choose|i: int| 0 <= i < rest.len() && rest[i] == text;
                assert(texts[i + 1] == text);
            }
        }
        if known.contains(first) {
            law_unknown_texts(known, rest);
        } else {
            let tail = unknown_texts(known.insert(first), rest);
            law_unknown_texts(known.insert(first), rest);
            let all = seq![first] + tail;
            assert(!tail.contains(first));
            assert forall|i: int, j: int| 0 <= i < j < all.len() implies all[i] != all[j] by {
                assert(all[j] == tail[j - 1]);
                if i > 0 {
                    assert(all[i] == tail[i - 1]);
                }
            }
            assert forall|text: Seq<char>| #[trigger] all.contains(text) <==> text == first
                || tail.contains(text) by {
                if all.contains(text) && text != first {
                    let i = choose|i: int| 0 <= i < all.len() && all[i] == text;
                    assert(tail[i - 1] == text);
                }
                if tail.contains(text) {
                    let i = choose|i: int| 0 <= i < tail.len() && tail[i] == text;
                    assert(all[i + 1] == text);
                }
                if text == first {
                    assert(all[0] == text);
                }
            }
        }
    }
}

/// The control loop ends only when the crawl shuts down, or when both queues are empty and
/// no scraper is at work.
pub proof fn law_stops_when_done<U: Url>(
    before: Listener<U>,
    known: Map<Seq<char>, StateModel>,
    active: usize,
    event: ListenerEvent<U>,
    after: Listener<U>,
    known_after: Map<Seq<char>, StateModel>,
)
    requires
        is_step(before, known, active, event, after, known_after, Some(ListenerAction::<U>::Stop)),
    ensures
        after.phase is Stopped,
        known_after == known,
        match event {
            ListenerEvent::Awake(shutting_down) => shutting_down,
            ListenerEvent::Interrupted => true,
            ListenerEvent::Counted(reports, to_visit) => {
                &&& active == 0
                &&& reports == before.crawling_queue_capacity
                &&& to_visit == before.crawling_queue_capacity
            },
            _ => false,
        },
{
}

/// Once ended, the control loop asks for nothing and changes nothing.
pub proof fn law_stopped_for_good<U: Url>(
    before: Listener<U>,
    known: Map<Seq<char>, StateModel>,
    active: usize,
    event: ListenerEvent<U>,
    after: Listener<U>,
    known_after: Map<Seq<char>, StateModel>,
    action: Option<ListenerAction<U>>,
)
    requires
        before.phase is Stopped,
        is_step(before, known, active, event, after, known_after, action),
    ensures
        action is None,
        after == before,
        known_after == known,
{
}

/// Scraping takes down nothing of processing, nor the other way round, and neither changes
/// which URL it is or when it was queued.
pub proof fn law_records_apart(state: StateModel, at: Timestamp, outcome: OutcomeModel)
    ensures
        state.scraped(at, outcome).process_result == state.process_result,
        state.scraped(at, outcome).processed_at == state.processed_at,
        state.scraped(at, outcome).is_processed() == state.is_processed(),
        state.processed(at, outcome).scrape_result == state.scrape_result,
        state.processed(at, outcome).scraped_at == state.scraped_at,
        state.scraped(at, outcome).url == state.url,
        state.processed(at, outcome).url == state.url,
        state.scraped(at, outcome).queued == state.queued,
        state.processed(at, outcome).queued == state.queued,
{
}

/// A URL counts as processed exactly when its last processing ended without an error: not
/// when it is queued, and not after an error.
pub proof fn law_processed_by_last_outcome(
    state: StateModel,
    at: Timestamp,
    outcome: OutcomeModel,
)
    ensures
        state.processed(at, outcome).is_processed() <==> outcome is Success,
        !StateModel::queued(state.url, at).is_processed(),
{
}

/// Only the last scraping and the last processing are remembered.
pub proof fn law_last_outcome_counts(
    state: StateModel,
    first_at: Timestamp,
    first: OutcomeModel,
    at: Timestamp,
    outcome: OutcomeModel,
)
    ensures
        state.scraped(first_at, first).scraped(at, outcome) == state.scraped(at, outcome),
        state.processed(first_at, first).processed(at, outcome) == state.processed(at, outcome),
{
}

/// A scraper that starts and ends leaves the number of scrapers at work as it was.
pub proof fn law_scrape_begun_and_ended(active: usize)
    ensures
        one_down(one_up(active)) == active,
        one_up(one_down(active)) == active,
{
}

/// How many scrapings of those that `changes` tells of have begun and not ended: `true` stands
/// for a beginning and `false` for an end.
pub open spec fn open_scrapings(changes: Seq<bool>) -> int
    decreases changes.len(),
{
    if changes.len() == 0 {
        0
    } else if changes.last() {
        open_scrapings(changes.drop_last()) + 1
    } else {
        open_scrapings(changes.drop_last()) - 1
    }
}

/// The number of scrapers at work after `changes`, where it was `active` before.
pub open spec fn active_after(active: usize, changes: Seq<bool>) -> usize
    decreases changes.len(),
{
    if changes.len() == 0 {
        active
    } else if changes.last() {
        one_up(active_after(active, changes.drop_last()))
    } else {
        one_down(active_after(active, changes.drop_last()))
    }
}

/// Where scrapings end only after they began and at most `most` are open at a time, the
/// number of scrapers at work is always what it was at first and the scrapings that are open.
/// So it never falls below what it was, nor exceeds it by more than `most`, and it is what it
/// was exactly when no scraping is open.
pub proof fn law_active_within(active: usize, changes: Seq<bool>, most: nat)
    requires
        active + most <= usize::MAX,
        forall|i: int|
            0 <= i <= changes.len() ==> 0 <= #[trigger] open_scrapings(changes.take(i)) <= most,
    ensures
        active_after(active, changes) == active + open_scrapings(changes),
        active <= active_after(active, changes) <= active + most,
        active_after(active, changes) == active <==> open_scrapings(changes) == 0,
    decreases changes.len(),
{
    assert(changes.take(changes.len() as int) =~= changes);
    if changes.len() > 0 {
        let front = changes.drop_last();
        assert forall|i: int| 0 <= i <= front.len() implies 0 <= #[trigger] open_scrapings(
            front.take(i),
        ) <= most by {
            assert(front.take(i) =~= changes.take(i));
        }
        law_active_within(active, front, most);
    }
}

/// The scrapers that are at work after `changes`, each of which gives a scraper and whether it
/// begins (`true`) or ends a scraping.
pub open spec fn busy_after(changes: Seq<(int, bool)>) -> Set<int>
    decreases changes.len(),
{
    if changes.len() == 0 {
        Set::empty()
    } else if changes.last().1 {
        busy_after(changes.drop_last()).insert(changes.last().0)
    } else {
        busy_after(changes.drop_last()).remove(changes.last().0)
    }
}

/// Whether each change is of one of `concurrency` scrapers, which begins a scraping only when
/// it is not at work and ends one only when it is.
pub open spec fn take_turns(changes: Seq<(int, bool)>, concurrency: nat) -> bool {
    forall|i: int|
        0 <= i < changes.len() ==> {
            let (scraper, begins) = #[trigger] changes[i];
            0 <= scraper < concurrency && begins == !busy_after(changes.take(i)).contains(scraper)
        }
}

/// Which of the changes are beginnings.
pub open spec fn beginnings(changes: Seq<(int, bool)>) -> Seq<bool> {
    changes.map_values(|change: (int, bool)| change.1)
}

/// The scrapings that are open are as many as the scrapers at work.
proof fn lemma_open_are_busy(changes: Seq<(int, bool)>, concurrency: nat)
    requires
        take_turns(changes, concurrency),
    ensures
        busy_after(changes).finite(),
        busy_after(changes).subset_of(set_int_range(0, concurrency as int)),
        busy_after(changes).len() <= concurrency,
        open_scrapings(beginnings(changes)) == busy_after(changes).len(),
    decreases changes.len(),
{
    if changes.len() > 0 {
        let front = changes.drop_last();
        assert forall|i: int| 0 <= i < front.len() implies {
            let (scraper, begins) = #[trigger] front[i];
            0 <= scraper < concurrency && begins == !busy_after(front.take(i)).contains(scraper)
        } by {
            assert(front[i] == changes[i]);
            assert(front.take(i) =~= changes.take(i));
        }
        lemma_open_are_busy(front, concurrency);
        assert(changes.take(changes.len() - 1) =~= front);
        assert(changes[changes.len() - 1] == changes.last());
        assert(beginnings(changes).drop_last() =~= beginnings(front));
    }
    lemma_int_range(0, concurrency as int);
    lemma_len_subset(busy_after(changes), set_int_range(0, concurrency as int));
}

/// With `concurrency` scrapers, the count of those at work is always what it was at first and
/// how many are at work: it never falls below what it was, nor exceeds it by more than
/// `concurrency`, is above it while any scraper is at work, and is what it was once none is.
pub proof fn law_scrapers_within(active: usize, changes: Seq<(int, bool)>, concurrency: nat)
    requires
        active + concurrency <= usize::MAX,
        take_turns(changes, concurrency),
    ensures
        active_after(active, beginnings(changes)) == active + busy_after(changes).len(),
        active <= active_after(active, beginnings(changes)) <= active + concurrency,
        active_after(active, beginnings(changes)) == active <==> busy_after(changes)
            == Set::<int>::empty(),
{
    let begins = beginnings(changes);
    assert forall|i: int| 0 <= i <= begins.len() implies 0 <= #[trigger] open_scrapings(
        begins.take(i),
    ) <= concurrency by {
        let front = changes.take(i);
        assert forall|j: int| 0 <= j < front.len() implies {
            let (scraper, begins) = #[trigger] front[j];
            0 <= scraper < concurrency && begins == !busy_after(front.take(j)).contains(scraper)
        } by {
            assert(front[j] == changes[j]);
            assert(front.take(j) =~= changes.take(j));
        }
        lemma_open_are_busy(front, concurrency);
        assert(beginnings(front) =~= begins.take(i));
    }
    law_active_within(active, begins, concurrency);
    lemma_open_are_busy(changes, concurrency);
    if busy_after(changes).len() == 0 {
        assert(busy_after(changes) =~= Set::<int>::empty());
    }
}

/// Whether what is remembered under a text is of the URL with that text.
pub open spec fn are_keyed_by_text(states: Map<Seq<char>, StateModel>) -> bool {
    forall|text: Seq<char>| #[trigger] states.contains_key(text) ==> states[text].url.text == text
}

/// What is remembered under a text stays of the URL with that text, where copies of a URL
/// are the same URL.
pub proof fn law_keyed_by_text<U: Url>(
    before: Map<Seq<char>, StateModel>,
    after: Map<Seq<char>, StateModel>,
    url: U,
    outcome: OutcomeModel,
)
    requires
        copies_faithfully::<U>(),
        are_keyed_by_text(before),
        is_queued(before, after, url) || is_scraped(before, after, url, outcome) || is_processed(
            before,
            after,
            url,
            outcome,
        ),
    ensures
        are_keyed_by_text(after),
{
    assert forall|text: Seq<char>| #[trigger] after.contains_key(text) implies after[text].url.text
        == text by {
        if text != url.model().text {
            assert(before.contains_key(text));
            assert(after[text] == before[text]);
        }
    }
}

/// Copies of a string are the same URL.
pub proof fn law_strings_copy_faithfully()
    ensures
        copies_faithfully::<String>(),
{
}

/// Strings are read back from a state file, so whatever is remembered of URLs that are
/// strings is what a later run starts from.
pub proof fn law_strings_storable(visited_urls: ProcessingState<String>)
    requires
        visited_urls.wf(),
    ensures
        are_storable::<String>(visited_urls@),
{
    assert forall|text: Seq<char>| #[trigger] visited_urls@.contains_key(text) implies is_storable::<
        String,
    >(visited_urls@[text].url) by {
        lemma_remembers_urls(visited_urls, text);
        let url = choose|url: String| #[trigger] url.model() == visited_urls@[text].url;
    }
}

} // verus!
