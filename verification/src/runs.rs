//! What holds of a whole run, and of one run after another.

use vstd::prelude::*;
use crate::laws::{keeps_known, law_known_kept, law_step_keeps_known, texts_of};
use crate::listener::{Listener, ListenerAction, ListenerEvent, ListenerPhase};
use crate::spider::Url;
use crate::state::{OutcomeModel, StateModel};
#[allow(unused_imports)]
use crate::listener::{is_known, is_looked_through, is_step};
#[allow(unused_imports)]
use crate::processing_state::{is_processed, is_queued, is_scraped};
#[allow(unused_imports)]
use crate::state::scraped_ok_outcome;

verus! {

/// What happens in a run.
pub enum RunEvent<U: Url> {
    /// A URL that the run starts from is queued and handed to the scrapers.
    Start(U),
    /// It is taken down how scraping a URL ended.
    Scrape(U, OutcomeModel),
    /// It is taken down how processing what a URL gave ended.
    Process(U, OutcomeModel),
    /// The control loop is told something, and asks for something.
    Listen(ListenerEvent<U>, Option<ListenerAction<U>>),
}

/// One step of a run: what is remembered and what the control loop waits for, before and
/// after an event that happens while `active` scrapers are at work.
pub struct RunStep<U: Url> {
    pub known: Map<Seq<char>, StateModel>,
    pub listener: Listener<U>,
    pub active: usize,
    pub event: RunEvent<U>,
    pub known_after: Map<Seq<char>, StateModel>,
    pub listener_after: Listener<U>,
}

/// Whether the step does what its event says, and no more.
pub open spec fn is_run_step<U: Url>(step: RunStep<U>) -> bool {
    match step.event {
        RunEvent::Start(url) => {
            &&& is_queued(step.known, step.known_after, url)
            &&& step.listener_after == step.listener
        },
        RunEvent::Scrape(url, outcome) => {
            &&& is_scraped(step.known, step.known_after, url, outcome)
            &&& step.listener_after == step.listener
        },
        RunEvent::Process(url, outcome) => {
            &&& is_processed(step.known, step.known_after, url, outcome)
            &&& step.listener_after == step.listener
        },
        RunEvent::Listen(event, action) => is_step(
            step.listener,
            step.known,
            step.active,
            event,
            step.listener_after,
            step.known_after,
            action,
        ),
    }
}

/// Whether `steps` are the steps of a run, each from where the one before it ended.
pub open spec fn is_run<U: Url>(steps: Seq<RunStep<U>>) -> bool {
    &&& forall|i: int| 0 <= i < steps.len() ==> is_run_step(#[trigger] steps[i])
    &&& forall|i: int, j: int|
        #![trigger steps[i], steps[j]]
        0 <= i && j == i + 1 && j < steps.len() ==> steps[j].known == steps[i].known_after
            && steps[j].listener == steps[i].listener_after
}

/// Whether the event queues, scrapes, processes, reports or finds the URL `text`.
pub open spec fn touches<U: Url>(event: RunEvent<U>, text: Seq<char>) -> bool {
    ||| event matches RunEvent::Start(url) && url.model().text == text
    ||| worked_on(event) == Some(text)
    ||| found_texts(event).contains(text)
}

/// Whether the URL `text` is handed to the scrapers by the event: as one that the run starts
/// from, or by the control loop.
pub open spec fn hands_out<U: Url>(event: RunEvent<U>, text: Seq<char>) -> bool {
    match event {
        RunEvent::Start(url) => url.model().text == text,
        RunEvent::Listen(_, Some(ListenerAction::Send(url))) => url.model().text == text,
        _ => false,
    }
}

/// Whether the event is that the control loop sends a URL to the scrapers.
pub open spec fn is_send<U: Url>(event: RunEvent<U>) -> bool {
    event matches RunEvent::Listen(_, Some(ListenerAction::Send(_)))
}

/// The text of the URL that the event takes down the end of, if it is such an event.
pub open spec fn worked_on<U: Url>(event: RunEvent<U>) -> Option<Seq<char>> {
    match event {
        RunEvent::Scrape(url, _) => Some(url.model().text),
        RunEvent::Process(url, _) => Some(url.model().text),
        RunEvent::Listen(ListenerEvent::Received(Some((visited, _))), _) => Some(
            visited.model().text,
        ),
        _ => None,
    }
}

/// The texts of the URLs that a scraper found, where the event reports of them.
pub open spec fn found_texts<U: Url>(event: RunEvent<U>) -> Seq<Seq<char>> {
    match event {
        RunEvent::Listen(ListenerEvent::Received(Some((_, found))), _) => texts_of(found@),
        _ => Seq::empty(),
    }
}

/// Whether a URL is scraped, processed or reported only after it was handed to the scrapers.
pub open spec fn works_on_handed_out<U: Url>(steps: Seq<RunStep<U>>) -> bool {
    forall|i: int|
        0 <= i < steps.len() && worked_on((#[trigger] steps[i]).event) is Some ==> exists|j: int|
            0 <= j < i && hands_out((#[trigger] steps[j]).event, worked_on(steps[i].event)->0)
}

/// Whether each URL that a scraper finds is one to which the scraped URL links.
pub open spec fn finds_links<U: Url>(
    steps: Seq<RunStep<U>>,
    links: spec_fn(Seq<char>) -> Set<Seq<char>>,
) -> bool {
    forall|i: int, text: Seq<char>|
        0 <= i < steps.len() && #[trigger] found_texts(steps[i].event).contains(text) ==> links(
            worked_on(steps[i].event)->0,
        ).contains(text)
}

/// Whether the control loop takes a report of the URL `text` in this step, with every URL
/// to which it links.
pub open spec fn reports<U: Url>(
    step: RunStep<U>,
    text: Seq<char>,
    links: spec_fn(Seq<char>) -> Set<Seq<char>>,
) -> bool {
    &&& step.listener.phase is Receiving
    &&& step.event matches RunEvent::Listen(ListenerEvent::Received(Some(_)), _)
    &&& worked_on(step.event) == Some(text)
    &&& forall|other: Seq<char>| #[trigger]
        links(text).contains(other) ==> found_texts(step.event).contains(other)
}

/// Whether the control loop is interrupted while it sends a URL to the scrapers.
pub open spec fn is_interrupted<U: Url>(steps: Seq<RunStep<U>>) -> bool {
    exists|i: int|
        0 <= i < steps.len() && (#[trigger] steps[i]).event matches RunEvent::Listen(
            ListenerEvent::Interrupted,
            _,
        )
}

/// Whether the URL `text` and every URL to which it links are among `known`.
pub open spec fn is_explored(
    known: Set<Seq<char>>,
    text: Seq<char>,
    links: spec_fn(Seq<char>) -> Set<Seq<char>>,
) -> bool {
    &&& known.contains(text)
    &&& forall|other: Seq<char>| #[trigger] links(text).contains(other) ==> known.contains(other)
}

/// Whether every URL to which one of `known` links is among them.
pub open spec fn is_closed(
    known: Set<Seq<char>>,
    links: spec_fn(Seq<char>) -> Set<Seq<char>>,
) -> bool {
    forall|text: Seq<char>| #[trigger] known.contains(text) ==> is_explored(known, text, links)
}

/// Every step of a run keeps what is known.
pub proof fn law_run_step_keeps_known<U: Url>(step: RunStep<U>)
    requires
        is_run_step(step),
    ensures
        keeps_known(step.known, step.known_after),
{
    match step.event {
        RunEvent::Start(url) => {
            law_known_kept(step.known, step.known_after, url, scraped_ok_outcome());
        },
        RunEvent::Scrape(url, outcome) => {
            law_known_kept(step.known, step.known_after, url, outcome);
        },
        RunEvent::Process(url, outcome) => {
            law_known_kept(step.known, step.known_after, url, outcome);
        },
        RunEvent::Listen(event, action) => {
            law_step_keeps_known(
                step.listener,
                step.known,
                step.active,
                event,
                step.listener_after,
                step.known_after,
                action,
            );
        },
    }
}

/// What is known after a step of a run is known after every later one.
pub proof fn law_known_later<U: Url>(steps: Seq<RunStep<U>>, i: int, j: int)
    requires
        is_run(steps),
        0 <= i <= j < steps.len(),
    ensures
        keeps_known(steps[i].known_after, steps[j].known_after),
    decreases j - i,
{
    if i < j {
        law_known_later(steps, i, j - 1);
        law_run_step_keeps_known(steps[j]);
        assert(steps[j].known == steps[j - 1].known_after);
    }
}

/// A step that touches only known URLs, while none waits to be sent, makes no URL known and
/// sends none.
proof fn lemma_step_adds_nothing<U: Url>(step: RunStep<U>)
    requires
        is_run_step(step),
        step.listener.phase !is Sending,
        forall|text: Seq<char>| #[trigger] touches(step.event, text) ==> step.known.contains_key(text),
    ensures
        step.known_after.dom() == step.known.dom(),
        step.listener_after.phase !is Sending,
        !is_send(step.event),
{
    match step.event {
        RunEvent::Start(url) => {
            assert(touches(step.event, url.model().text));
            assert(step.known_after.dom() =~= step.known.dom());
        },
        RunEvent::Scrape(url, _) => {
            assert(touches(step.event, url.model().text));
            assert(step.known_after.dom() =~= step.known.dom());
        },
        RunEvent::Process(url, _) => {
            assert(touches(step.event, url.model().text));
            assert(step.known_after.dom() =~= step.known.dom());
        },
        RunEvent::Listen(ListenerEvent::Received(Some((visited, found))), action) => {
            if step.listener.phase is Receiving {
                assert(touches(step.event, visited.model().text));
                let scraped = choose|scraped: Map<Seq<char>, StateModel>|
                    {
                        &&& #[trigger] is_scraped(step.known, scraped, visited, scraped_ok_outcome())
                        &&& is_looked_through(
                            scraped,
                            step.known_after,
                            found@,
                            step.listener_after.phase,
                            action->0,
                        )
                    };
                assert(scraped.dom() =~= step.known.dom());
                assert forall|i: int| 0 <= i < found@.len() implies is_known(
                    scraped,
                    #[trigger] found@[i],
                ) by {
                    assert(texts_of(found@)[i] == found@[i].model().text);
                    assert(touches(step.event, found@[i].model().text));
                }
            }
        },
        RunEvent::Listen(_, _) => {},
    }
}

/// A run that touches only URLs that were known when it began makes no URL known, and the
/// control loop sends none.
pub proof fn law_known_only_adds_nothing<U: Url>(steps: Seq<RunStep<U>>, at: int)
    requires
        is_run(steps),
        0 <= at < steps.len(),
        steps[0].listener.phase !is Sending,
        forall|i: int, text: Seq<char>|
            0 <= i <= at && #[trigger] touches(steps[i].event, text) ==> steps[0].known.contains_key(
                text,
            ),
    ensures
        steps[at].known_after.dom() == steps[0].known.dom(),
        steps[at].listener_after.phase !is Sending,
        !is_send(steps[at].event),
    decreases at,
{
    if at > 0 {
        law_known_only_adds_nothing(steps, at - 1);
        assert(steps[at].known == steps[at - 1].known_after);
        assert(steps[at].listener == steps[at - 1].listener_after);
        assert forall|text: Seq<char>| #[trigger] touches(
            steps[at].event,
            text,
        ) implies steps[at].known.contains_key(text) by {
            assert(steps[0].known.dom().contains(text));
        }
    }
    lemma_step_adds_nothing(steps[at]);
}

/// A run that starts from URLs which were known when it began, as was every URL to which they
/// link, makes no URL known; the control loop sends none, and only URLs that the run starts
/// from are scraped or processed.
pub proof fn law_explored_run_adds_nothing<U: Url>(
    steps: Seq<RunStep<U>>,
    links: spec_fn(Seq<char>) -> Set<Seq<char>>,
    at: int,
)
    requires
        is_run(steps),
        works_on_handed_out(steps),
        finds_links(steps, links),
        0 <= at < steps.len(),
        steps[0].listener.phase !is Sending,
        forall|i: int|
            0 <= i < steps.len() && (#[trigger] steps[i]).event is Start ==> is_explored(
                steps[0].known.dom(),
                steps[i].event->Start_0.model().text,
                links,
            ),
    ensures
        steps[at].known_after.dom() == steps[0].known.dom(),
        !is_send(steps[at].event),
        worked_on(steps[at].event) is Some ==> exists|j: int|
            0 <= j < at && (#[trigger] steps[j]).event is Start && hands_out(
                steps[j].event,
                worked_on(steps[at].event)->0,
            ),
{
    lemma_explored_run(steps, links, at);
    law_known_only_adds_nothing(steps, at);
    if worked_on(steps[at].event) is Some {
        let text = worked_on(steps[at].event)->0;
        let j = choose|j: int| 0 <= j < at && hands_out((#[trigger] steps[j]).event, text);
        law_known_only_adds_nothing(steps, j);
        assert(steps[j].event is Start);
    }
}

/// Such a run touches only URLs that were known when it began.
proof fn lemma_explored_run<U: Url>(
    steps: Seq<RunStep<U>>,
    links: spec_fn(Seq<char>) -> Set<Seq<char>>,
    at: int,
)
    requires
        is_run(steps),
        works_on_handed_out(steps),
        finds_links(steps, links),
        0 <= at < steps.len(),
        steps[0].listener.phase !is Sending,
        forall|i: int|
            0 <= i < steps.len() && (#[trigger] steps[i]).event is Start ==> is_explored(
                steps[0].known.dom(),
                steps[i].event->Start_0.model().text,
                links,
            ),
    ensures
        forall|i: int, text: Seq<char>|
            0 <= i <= at && #[trigger] touches(steps[i].event, text) ==> steps[0].known.contains_key(
                text,
            ),
    decreases at,
{
    if at > 0 {
        lemma_explored_run(steps, links, at - 1);
    }
    let event = steps[at].event;
    if worked_on(event) is Some {
        let visited = worked_on(event)->0;
        let j = choose|j: int| 0 <= j < at && hands_out((#[trigger] steps[j]).event, visited);
        law_known_only_adds_nothing(steps, j);
        assert(steps[j].event is Start);
        assert(is_explored(steps[0].known.dom(), visited, links));
    }
    assert forall|text: Seq<char>| #[trigger] touches(event, text) implies steps[0].known.contains_key(
        text,
    ) by {
        if found_texts(event).contains(text) {
            assert(links(worked_on(event)->0).contains(text));
            assert(steps[0].known.dom().contains(text));
        } else if let RunEvent::Start(url) = event {
            assert(is_explored(steps[0].known.dom(), url.model().text, links));
        }
    }
}

/// Once the control loop has taken a report, each URL found is known, or waits to be looked
/// at, after every later step, unless the loop is interrupted.
proof fn lemma_found_known_or_waiting<U: Url>(
    steps: Seq<RunStep<U>>,
    i: int,
    j: int,
    found: Seq<U>,
    at: int,
)
    requires
        is_run(steps),
        0 <= i <= j < steps.len(),
        0 <= at < found.len(),
        steps[i].listener.phase is Receiving,
        steps[i].event matches RunEvent::Listen(ListenerEvent::Received(Some((_, list))), _)
            && list@ == found,
        !is_interrupted(steps),
    ensures
        is_known(steps[j].known_after, found[at]) || (steps[j].listener_after.phase matches
            ListenerPhase::Sending(left) && left@.contains(found[at])),
    decreases j - i,
{
    let step = steps[j];
    let url = found[at];
    if i == j {
        if let RunEvent::Listen(ListenerEvent::Received(Some((visited, _))), action) = step.event {
            let scraped = choose|scraped: Map<Seq<char>, StateModel>|
                {
                    &&& #[trigger] is_scraped(step.known, scraped, visited, scraped_ok_outcome())
                    &&& is_looked_through(
                        scraped,
                        step.known_after,
                        found,
                        step.listener_after.phase,
                        action->0,
                    )
                };
            lemma_looked_through(
                scraped,
                step.known_after,
                found,
                step.listener_after.phase,
                action->0,
                at,
            );
        }
    } else {
        lemma_found_known_or_waiting(steps, i, j - 1, found, at);
        assert(step.known == steps[j - 1].known_after);
        assert(step.listener == steps[j - 1].listener_after);
        law_run_step_keeps_known(step);
        if !is_known(step.known, url) {
            let left = step.listener.phase->Sending_0@;
            if let RunEvent::Listen(ListenerEvent::Sent, action) = step.event {
                let back = left.reverse();
                let place = choose|place: int| 0 <= place < left.len() && left[place] == url;
                assert(back[left.len() - 1 - place] == url);
                lemma_looked_through(
                    step.known,
                    step.known_after,
                    back,
                    step.listener_after.phase,
                    action->0,
                    left.len() - 1 - place,
                );
            }
        }
    }
}

/// After looking at found URLs, each of them is known or waits to be looked at.
proof fn lemma_looked_through<U: Url>(
    before: Map<Seq<char>, StateModel>,
    after: Map<Seq<char>, StateModel>,
    found: Seq<U>,
    next: ListenerPhase<U>,
    action: ListenerAction<U>,
    i: int,
)
    requires
        is_looked_through(before, after, found, next, action),
        0 <= i < found.len(),
    ensures
        is_known(after, found[i]) || (next matches ListenerPhase::Sending(left) && left@.contains(
            found[i],
        )),
{
    if let ListenerAction::Send(url) = action {
        let at = choose|at: int|
            {
                &&& 0 <= at < found.len()
                &&& url == #[trigger] found[at]
                &&& !is_known(before, url)
                &&& forall|k: int| 0 <= k < at ==> is_known(before, #[trigger] found[k])
                &&& is_queued(before, after, url)
                &&& next matches ListenerPhase::Sending(left) && left@.reverse() == found.skip(
                    at + 1,
                )
            };
        if i > at {
            let left = next->Sending_0@;
            let rest = found.skip(at + 1);
            assert(rest[i - at - 1] == found[i]);
            assert(left.reverse().len() == left.len());
            assert(left[left.len() - 1 - (i - at - 1)] == left.reverse()[i - at - 1]);
        } else {
            assert(is_known(after, found[i]));
        }
    } else {
        assert(is_known(before, found[i]));
    }
}

/// Once the control loop has taken a report and no found URL waits any more, every URL of the
/// report is known.
pub proof fn law_reported_urls_become_known<U: Url>(
    steps: Seq<RunStep<U>>,
    i: int,
    j: int,
    visited: U,
    found: Seq<U>,
)
    requires
        is_run(steps),
        0 <= i <= j < steps.len(),
        steps[i].listener.phase is Receiving,
        steps[i].event matches RunEvent::Listen(ListenerEvent::Received(Some((url, list))), _)
            && url == visited && list@ == found,
        steps[j].listener_after.phase !is Sending,
        !is_interrupted(steps),
    ensures
        forall|at: int| 0 <= at < found.len() ==> is_known(steps[j].known_after, #[trigger] found[at]),
{
    assert forall|at: int| 0 <= at < found.len() implies is_known(
        steps[j].known_after,
        #[trigger] found[at],
    ) by {
        lemma_found_known_or_waiting(steps, i, j, found, at);
    }
}

/// Where a run that was not interrupted has taken a report of a URL, and no found URL waits any
/// more, that URL and every URL to which it links are known.
pub proof fn law_reported_is_explored<U: Url>(
    steps: Seq<RunStep<U>>,
    links: spec_fn(Seq<char>) -> Set<Seq<char>>,
    i: int,
    text: Seq<char>,
)
    requires
        is_run(steps),
        0 <= i < steps.len(),
        reports(steps[i], text, links),
        steps.last().listener_after.phase !is Sending,
        !is_interrupted(steps),
    ensures
        is_explored(steps.last().known_after.dom(), text, links),
{
    let last = steps.len() - 1;
    let known = steps.last().known_after;
    if let RunEvent::Listen(ListenerEvent::Received(Some((visited, found))), _) = steps[i].event {
        assert(steps[i].known_after.contains_key(text)) by {
            lemma_visited_known(steps[i], visited, found);
        }
        law_known_later(steps, i, last);
        law_reported_urls_become_known(steps, i, last, visited, found@);
        assert forall|other: Seq<char>| #[trigger] links(text).contains(
            other,
        ) implies known.dom().contains(other) by {
            assert(found_texts(steps[i].event).contains(other));
            let at = choose|at: int| 0 <= at < found@.len() && texts_of(found@)[at] == other;
            assert(is_known(known, found@[at]));
        }
    }
}

/// A URL of which the control loop has taken a report is known.
proof fn lemma_visited_known<U: Url>(step: RunStep<U>, visited: U, found: Vec<U>)
    requires
        is_run_step(step),
        step.listener.phase is Receiving,
        step.event matches RunEvent::Listen(ListenerEvent::Received(Some((url, list))), _) && url
            == visited && list == found,
    ensures
        is_known(step.known_after, visited),
{
    if let RunEvent::Listen(ListenerEvent::Received(Some(_)), action) = step.event {
        let scraped = choose|scraped: Map<Seq<char>, StateModel>|
            {
                &&& #[trigger] is_scraped(step.known, scraped, visited, scraped_ok_outcome())
                &&& is_looked_through(
                    scraped,
                    step.known_after,
                    found@,
                    step.listener_after.phase,
                    action->0,
                )
            };
        assert(is_known(scraped, visited));
    }
}

/// Where a run that was not interrupted has taken a report of every URL that is known in the
/// end, and no found URL waits any more, every URL to which a known one links is known.
pub proof fn law_ended_run_is_closed<U: Url>(
    steps: Seq<RunStep<U>>,
    links: spec_fn(Seq<char>) -> Set<Seq<char>>,
)
    requires
        is_run(steps),
        steps.len() > 0,
        steps.last().listener_after.phase !is Sending,
        !is_interrupted(steps),
        forall|text: Seq<char>| #[trigger]
            steps.last().known_after.contains_key(text) ==> exists|i: int|
                0 <= i < steps.len() && reports(#[trigger] steps[i], text, links),
    ensures
        is_closed(steps.last().known_after.dom(), links),
{
    let known = steps.last().known_after;
    assert forall|text: Seq<char>| #[trigger] known.dom().contains(text) implies is_explored(
        known.dom(),
        text,
        links,
    ) by {
        assert(known.contains_key(text));
        let i = choose|i: int| 0 <= i < steps.len() && reports(#[trigger] steps[i], text, links);
        law_reported_is_explored(steps, links, i, text);
    }
}

/// A second run from what a first run left, with the same links, scrapes and processes the URLs
/// that it starts from and no other: the control loop sends none, and what is known stays the
/// same. The first run, whatever it began with, was not interrupted, has taken a report of each
/// of these URLs, and left no found URL waiting.
pub proof fn law_second_run_visits_starts_only<U: Url>(
    first: Seq<RunStep<U>>,
    second: Seq<RunStep<U>>,
    links: spec_fn(Seq<char>) -> Set<Seq<char>>,
    at: int,
)
    requires
        is_run(first),
        first.len() > 0,
        first.last().listener_after.phase !is Sending,
        !is_interrupted(first),
        is_run(second),
        works_on_handed_out(second),
        finds_links(second, links),
        0 <= at < second.len(),
        second[0].known == first.last().known_after,
        second[0].listener.phase !is Sending,
        forall|i: int|
            0 <= i < second.len() && (#[trigger] second[i]).event is Start ==> exists|j: int|
                0 <= j < first.len() && reports(
                    #[trigger] first[j],
                    second[i].event->Start_0.model().text,
                    links,
                ),
    ensures
        second[at].known_after.dom() == first.last().known_after.dom(),
        !is_send(second[at].event),
        worked_on(second[at].event) is Some ==> exists|j: int|
            0 <= j < at && (#[trigger] second[j]).event is Start && hands_out(
                second[j].event,
                worked_on(second[at].event)->0,
            ),
{
    assert forall|i: int|
        0 <= i < second.len() && (#[trigger] second[i]).event is Start implies is_explored(
        second[0].known.dom(),
        second[i].event->Start_0.model().text,
        links,
    ) by {
        let text = second[i].event->Start_0.model().text;
        let j = choose|j: int| 0 <= j < first.len() && reports(#[trigger] first[j], text, links);
        law_reported_is_explored(first, links, j, text);
    }
    law_explored_run_adds_nothing(second, links, at);
}

} // verus!
