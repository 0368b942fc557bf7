//! Which URLs a run hands to the scrapers.

use vstd::prelude::*;
use crate::laws::{law_known_kept, law_sent_was_unknown, texts_of};
use crate::listener::{ListenerAction, ListenerEvent, ListenerPhase};
use crate::runs::{
    RunEvent, RunStep, law_known_later, law_reported_is_explored, law_run_step_keeps_known,
};
use crate::spider::Url;
use crate::state::StateModel;
#[allow(unused_imports)]
use crate::listener::{is_known, is_looked_through};
#[allow(unused_imports)]
use crate::processing_state::{is_queued, is_scraped};
#[allow(unused_imports)]
use crate::runs::{
    finds_links, found_texts, hands_out, is_interrupted, is_run, is_run_step, is_send,
    reports, works_on_handed_out, worked_on,
};
#[allow(unused_imports)]
use crate::state::scraped_ok_outcome;

verus! {

/// A URL that is handed to the scrapers is known from then on.
proof fn lemma_handed_out_known<U: Url>(step: RunStep<U>, text: Seq<char>)
    requires
        is_run_step(step),
        hands_out(step.event, text),
    ensures
        step.known_after.contains_key(text),
        is_send(step.event) ==> !step.known.contains_key(text),
{
    match step.event {
        RunEvent::Start(url) => {
            law_known_kept(step.known, step.known_after, url, scraped_ok_outcome());
        },
        RunEvent::Listen(event, Some(ListenerAction::Send(url))) => {
            law_sent_was_unknown(
                step.listener,
                step.known,
                step.active,
                event,
                step.listener_after,
                step.known_after,
                url,
            );
        },
        _ => {},
    }
}

/// A step changes what is remembered only of a URL that it hands to the scrapers or works on.
proof fn lemma_others_kept<U: Url>(step: RunStep<U>, text: Seq<char>)
    requires
        is_run_step(step),
        !hands_out(step.event, text),
        worked_on(step.event) != Some(text),
    ensures
        step.known_after.contains_key(text) <==> step.known.contains_key(text),
        step.known.contains_key(text) ==> step.known_after[text] == step.known[text],
{
    match step.event {
        RunEvent::Start(url) => {
            law_known_kept(step.known, step.known_after, url, scraped_ok_outcome());
        },
        RunEvent::Scrape(url, outcome) => {
            law_known_kept(step.known, step.known_after, url, outcome);
        },
        RunEvent::Process(url, outcome) => {
            law_known_kept(step.known, step.known_after, url, outcome);
        },
        RunEvent::Listen(ListenerEvent::Received(Some((visited, found))), action) => {
            if step.listener.phase is Receiving {
                let scraped = choose|scraped: Map<Seq<char>, StateModel>|
                    {
                        &&& #[trigger] is_scraped(step.known, scraped, visited, scraped_ok_outcome())
                        &&& is_looked_through(
                            scraped,
                            step.known_after,
                            found@,
                            step.listener_after.phase,
                            action->0,
                        )
                    };
                law_known_kept(step.known, scraped, visited, scraped_ok_outcome());
                lemma_looking_keeps_others(
                    scraped,
                    step.known_after,
                    found@,
                    step.listener_after.phase,
                    action->0,
                    text,
                );
            }
        },
        RunEvent::Listen(ListenerEvent::Sent, action) => {
            if let ListenerPhase::Sending(left) = step.listener.phase {
                lemma_looking_keeps_others(
                    step.known,
                    step.known_after,
                    left@.reverse(),
                    step.listener_after.phase,
                    action->0,
                    text,
                );
            }
        },
        RunEvent::Listen(_, _) => {},
    }
}

/// Looking at found URLs changes what is remembered only of the one that is asked to be sent.
proof fn lemma_looking_keeps_others<U: Url>(
    before: Map<Seq<char>, StateModel>,
    after: Map<Seq<char>, StateModel>,
    found: Seq<U>,
    next: ListenerPhase<U>,
    action: ListenerAction<U>,
    text: Seq<char>,
)
    requires
        is_looked_through(before, after, found, next, action),
        !(action matches ListenerAction::Send(url) && url.model().text == text),
    ensures
        after.contains_key(text) <==> before.contains_key(text),
        before.contains_key(text) ==> after[text] == before[text],
{
    if let ListenerAction::Send(url) = action {
        assert(is_queued(before, after, url));
        law_known_kept(before, after, url, scraped_ok_outcome());
    }
}

/// A URL that became known in a run was handed to the scrapers.
pub proof fn law_known_was_handed_out<U: Url>(steps: Seq<RunStep<U>>, at: int, text: Seq<char>)
    requires
        is_run(steps),
        works_on_handed_out(steps),
        0 <= at < steps.len(),
        steps[at].known_after.contains_key(text),
        !steps[0].known.contains_key(text),
    ensures
        exists|j: int| 0 <= j <= at && hands_out((#[trigger] steps[j]).event, text),
    decreases at,
{
    let step = steps[at];
    if hands_out(step.event, text) {
    } else if worked_on(step.event) == Some(text) {
        let j = choose|j: int| 0 <= j < at && hands_out((#[trigger] steps[j]).event, text);
        assert(hands_out(steps[j].event, text));
    } else {
        lemma_others_kept(step, text);
        if at > 0 {
            assert(step.known == steps[at - 1].known_after);
            law_known_was_handed_out(steps, at - 1, text);
            let j = choose|j: int| 0 <= j <= at - 1 && hands_out((#[trigger] steps[j]).event, text);
            assert(hands_out(steps[j].event, text));
        }
    }
}

/// A URL that was handed to the scrapers is not sent to them again by the control loop.
pub proof fn law_handed_out_once<U: Url>(steps: Seq<RunStep<U>>, i: int, j: int, text: Seq<char>)
    requires
        is_run(steps),
        0 <= i < j < steps.len(),
        hands_out(steps[i].event, text),
        is_send(steps[j].event),
    ensures
        !hands_out(steps[j].event, text),
{
    lemma_handed_out_known(steps[i], text);
    law_known_later(steps, i, j - 1);
    assert(steps[j].known == steps[j - 1].known_after);
    if hands_out(steps[j].event, text) {
        lemma_handed_out_known(steps[j], text);
    }
}

/// What is known when a run begins is known before each of its steps.
proof fn lemma_known_from_start<U: Url>(steps: Seq<RunStep<U>>, at: int, text: Seq<char>)
    requires
        is_run(steps),
        0 <= at < steps.len(),
        steps[0].known.contains_key(text),
    ensures
        steps[at].known.contains_key(text),
{
    if at > 0 {
        law_run_step_keeps_known(steps[0]);
        law_known_later(steps, 0, at - 1);
        assert(steps[at].known == steps[at - 1].known_after);
    }
}

/// The URLs that a run has handed to the scrapers are those that it started from and those
/// that became known since it began.
pub proof fn law_handed_out_exactly<U: Url>(steps: Seq<RunStep<U>>, at: int, text: Seq<char>)
    requires
        is_run(steps),
        works_on_handed_out(steps),
        0 <= at < steps.len(),
    ensures
        (exists|j: int| 0 <= j <= at && hands_out((#[trigger] steps[j]).event, text)) <==> {
            ||| exists|j: int|
                0 <= j <= at && (#[trigger] steps[j]).event is Start && hands_out(
                    steps[j].event,
                    text,
                )
            ||| steps[at].known_after.contains_key(text) && !steps[0].known.contains_key(text)
        },
{
    if exists|j: int| 0 <= j <= at && hands_out((#[trigger] steps[j]).event, text) {
        let j = choose|j: int| 0 <= j <= at && hands_out((#[trigger] steps[j]).event, text);
        lemma_handed_out_known(steps[j], text);
        law_known_later(steps, j, at);
        if is_send(steps[j].event) && steps[0].known.contains_key(text) {
            lemma_known_from_start(steps, j, text);
        }
        assert(steps[j].event is Start || is_send(steps[j].event));
    }
    if steps[at].known_after.contains_key(text) && !steps[0].known.contains_key(text) {
        law_known_was_handed_out(steps, at, text);
    }
}

/// Whether the URL `text` was found in a report that the control loop took before step `at`.
pub open spec fn was_found<U: Url>(steps: Seq<RunStep<U>>, at: int, text: Seq<char>) -> bool {
    exists|j: int|
        0 <= j < at && (#[trigger] steps[j]).listener.phase is Receiving && found_texts(
            steps[j].event,
        ).contains(text)
}

/// What waits to be looked at after looking at found URLs, and what is asked to be sent, is
/// among those found.
proof fn lemma_waiting_among_found<U: Url>(
    before: Map<Seq<char>, StateModel>,
    after: Map<Seq<char>, StateModel>,
    found: Seq<U>,
    next: ListenerPhase<U>,
    action: ListenerAction<U>,
    url: U,
)
    requires
        is_looked_through(before, after, found, next, action),
        action == ListenerAction::Send(url) || (next matches ListenerPhase::Sending(left)
            && left@.contains(url)),
    ensures
        found.contains(url),
{
    if action != ListenerAction::Send(url) {
        let left = next->Sending_0@;
        let place = choose|place: int| 0 <= place < left.len() && left[place] == url;
        if let ListenerAction::Send(sent) = action {
            let at = choose|at: int|
                {
                    &&& 0 <= at < found.len()
                    &&& sent == #[trigger] found[at]
                    &&& !is_known(before, sent)
                    &&& forall|k: int| 0 <= k < at ==> is_known(before, #[trigger] found[k])
                    &&& is_queued(before, after, sent)
                    &&& next matches ListenerPhase::Sending(left) && left@.reverse() == found.skip(
                        at + 1,
                    )
                };
            let back = left.reverse();
            let turned = left.len() - 1 - place;
            assert(back.len() == left.len());
            assert(back[turned] == url);
            assert(found.skip(at + 1)[turned] == found[at + 1 + turned]);
        }
    }
}

/// A URL that the control loop sends in a step, or that waits after it, was found in a report
/// taken then or before.
proof fn lemma_waiting_was_found<U: Url>(steps: Seq<RunStep<U>>, at: int, url: U)
    requires
        is_run(steps),
        0 <= at < steps.len(),
        steps[0].listener.phase !is Sending,
        ({
            ||| steps[at].event matches RunEvent::Listen(_, Some(action)) && action
                == ListenerAction::Send(url)
            ||| steps[at].listener_after.phase matches ListenerPhase::Sending(left)
                && left@.contains(url)
        }),
    ensures
        was_found(steps, at + 1, url.model().text),
    decreases at,
{
    let step = steps[at];
    let text = url.model().text;
    if at > 0 {
        assert(step.listener == steps[at - 1].listener_after);
    }
    match step.event {
        RunEvent::Listen(ListenerEvent::Received(Some((visited, found))), action) if step.listener.phase is Receiving => {
            let scraped = choose|scraped: Map<Seq<char>, StateModel>|
                {
                    &&& #[trigger] is_scraped(step.known, scraped, visited, scraped_ok_outcome())
                    &&& is_looked_through(
                        scraped,
                        step.known_after,
                        found@,
                        step.listener_after.phase,
                        action->0,
                    )
                };
            lemma_waiting_among_found(
                scraped,
                step.known_after,
                found@,
                step.listener_after.phase,
                action->0,
                url,
            );
            let i = choose|i: int| 0 <= i < found@.len() && found@[i] == url;
            assert(texts_of(found@)[i] == text);
            assert(found_texts(steps[at].event).contains(text));
        },
        RunEvent::Listen(ListenerEvent::Sent, action) if step.listener.phase is Sending => {
            let left = step.listener.phase->Sending_0@;
            lemma_waiting_among_found(
                step.known,
                step.known_after,
                left.reverse(),
                step.listener_after.phase,
                action->0,
                url,
            );
            let i = choose|i: int| 0 <= i < left.reverse().len() && left.reverse()[i] == url;
            assert(left[left.len() - 1 - i] == url);
            lemma_waiting_was_found(steps, at - 1, url);
        },
        _ => {
            assert(at > 0);
            lemma_waiting_was_found(steps, at - 1, url);
        },
    }
}

/// A URL that the control loop sends was found in a report, and was not known when the run
/// began.
pub proof fn law_sent_was_found<U: Url>(steps: Seq<RunStep<U>>, at: int, url: U)
    requires
        is_run(steps),
        0 <= at < steps.len(),
        steps[0].listener.phase !is Sending,
        steps[at].event matches RunEvent::Listen(_, Some(action)) && action == ListenerAction::Send(
            url,
        ),
    ensures
        was_found(steps, at + 1, url.model().text),
        !is_known(steps[0].known, url),
{
    let text = url.model().text;
    lemma_waiting_was_found(steps, at, url);
    assert(hands_out(steps[at].event, text));
    lemma_handed_out_known(steps[at], text);
    if steps[0].known.contains_key(text) {
        lemma_known_from_start(steps, at, text);
    }
}

/// What was remembered of a URL when a run began stays as it was throughout, unless the run
/// starts from that URL: it is not handed to the scrapers, nor scraped, processed or reported.
pub proof fn law_saved_stays<U: Url>(steps: Seq<RunStep<U>>, at: int, text: Seq<char>)
    requires
        is_run(steps),
        works_on_handed_out(steps),
        0 <= at < steps.len(),
        steps[0].known.contains_key(text),
        forall|i: int|
            0 <= i <= at && (#[trigger] steps[i]).event is Start ==> !hands_out(
                steps[i].event,
                text,
            ),
    ensures
        !hands_out(steps[at].event, text),
        worked_on(steps[at].event) != Some(text),
        steps[at].known_after.contains_key(text),
        steps[at].known_after[text] == steps[0].known[text],
    decreases at,
{
    let step = steps[at];
    if at > 0 {
        law_saved_stays(steps, at - 1, text);
        assert(step.known == steps[at - 1].known_after);
    }
    if hands_out(step.event, text) {
        lemma_handed_out_known(step, text);
    }
    if worked_on(step.event) == Some(text) {
        let j = choose|j: int| 0 <= j < at && hands_out((#[trigger] steps[j]).event, text);
        law_saved_stays(steps, j, text);
    }
    lemma_others_kept(step, text);
}

/// Whether `path` leads, link by link, from a URL that the run has started from by step `at`
/// over URLs that were not known when it began.
pub open spec fn is_path<U: Url>(
    steps: Seq<RunStep<U>>,
    at: int,
    links: spec_fn(Seq<char>) -> Set<Seq<char>>,
    path: Seq<Seq<char>>,
) -> bool {
    &&& path.len() > 0
    &&& exists|j: int|
        0 <= j <= at && (#[trigger] steps[j]).event is Start && hands_out(steps[j].event, path[0])
    &&& forall|i: int, k: int|
        #![trigger path[i], path[k]]
        0 <= i && k == i + 1 && k < path.len() ==> links(path[i]).contains(path[k])
            && !steps[0].known.contains_key(path[k])
}

/// Whether such a path leads to the URL `text`.
pub open spec fn is_reachable<U: Url>(
    steps: Seq<RunStep<U>>,
    at: int,
    links: spec_fn(Seq<char>) -> Set<Seq<char>>,
    text: Seq<char>,
) -> bool {
    exists|path: Seq<Seq<char>>| #[trigger] is_path(steps, at, links, path) && path.last() == text
}

/// Every URL that is handed to the scrapers is reached, link by link, from one that the run
/// started from, over URLs that were not known when it began.
pub proof fn law_handed_out_is_reachable<U: Url>(
    steps: Seq<RunStep<U>>,
    links: spec_fn(Seq<char>) -> Set<Seq<char>>,
    at: int,
    text: Seq<char>,
)
    requires
        is_run(steps),
        works_on_handed_out(steps),
        finds_links(steps, links),
        0 <= at < steps.len(),
        steps[0].listener.phase !is Sending,
        hands_out(steps[at].event, text),
    ensures
        is_reachable(steps, at, links, text),
    decreases at,
{
    match steps[at].event {
        RunEvent::Start(_) => {
            let path = seq![text];
            assert(path[0] == text);
            assert(is_path(steps, at, links, path));
            assert(path.last() == text);
        },
        RunEvent::Listen(_, Some(ListenerAction::Send(url))) => {
            law_sent_was_found(steps, at, url);
            let j = choose|j: int|
                0 <= j < at + 1 && (#[trigger] steps[j]).listener.phase is Receiving && found_texts(
                    steps[j].event,
                ).contains(text);
            assert(links(worked_on(steps[j].event)->0).contains(text));
            let visited = worked_on(steps[j].event)->0;
            let i = choose|i: int| 0 <= i < j && hands_out((#[trigger] steps[i]).event, visited);
            law_handed_out_is_reachable(steps, links, i, visited);
            let path = choose|path: Seq<Seq<char>>| #[trigger]
                is_path(steps, i, links, path) && path.last() == visited;
            let longer = path.push(text);
            assert(longer[0] == path[0]);
            assert forall|m: int, k: int|
                #![trigger longer[m], longer[k]]
                0 <= m && k == m + 1 && k < longer.len() implies links(longer[m]).contains(longer[k])
                && !steps[0].known.contains_key(longer[k]) by {
                assert(longer[m] == path[m]);
                if k < path.len() {
                    assert(longer[k] == path[k]);
                } else {
                    assert(path[m] == path.last());
                }
            }
            assert(is_path(steps, at, links, longer));
            assert(longer.last() == text);
        },
        _ => {},
    }
}

/// Where a run that was not interrupted has taken a report of every URL that it handed to the
/// scrapers, and no found URL waits any more, every URL that is reached, link by link, from one
/// that the run started from, over URLs that were not known when it began, was handed to the
/// scrapers.
pub proof fn law_reachable_is_handed_out<U: Url>(
    steps: Seq<RunStep<U>>,
    links: spec_fn(Seq<char>) -> Set<Seq<char>>,
    path: Seq<Seq<char>>,
)
    requires
        is_run(steps),
        works_on_handed_out(steps),
        steps.len() > 0,
        steps.last().listener_after.phase !is Sending,
        !is_interrupted(steps),
        forall|i: int, text: Seq<char>|
            0 <= i < steps.len() && #[trigger] hands_out(steps[i].event, text) ==> exists|j: int|
                0 <= j < steps.len() && reports(#[trigger] steps[j], text, links),
        is_path(steps, steps.len() - 1, links, path),
    ensures
        exists|j: int| 0 <= j < steps.len() && hands_out((#[trigger] steps[j]).event, path.last()),
    decreases path.len(),
{
    let last = steps.len() - 1;
    if path.len() == 1 {
        let j = choose|j: int|
            0 <= j <= last && (#[trigger] steps[j]).event is Start && hands_out(
                steps[j].event,
                path[0],
            );
        assert(hands_out(steps[j].event, path.last()));
    } else {
        let shorter = path.drop_last();
        let text = path.last();
        let before = shorter.last();
        assert(shorter[0] == path[0]);
        assert forall|i: int, k: int|
            #![trigger shorter[i], shorter[k]]
            0 <= i && k == i + 1 && k < shorter.len() implies links(shorter[i]).contains(shorter[k])
            && !steps[0].known.contains_key(shorter[k]) by {
            assert(shorter[i] == path[i] && shorter[k] == path[k]);
        }
        assert(is_path(steps, last, links, shorter));
        law_reachable_is_handed_out(steps, links, shorter);
        let i = choose|i: int| 0 <= i < steps.len() && hands_out((#[trigger] steps[i]).event, before);
        let j = choose|j: int| 0 <= j < steps.len() && reports(#[trigger] steps[j], before, links);
        law_reported_is_explored(steps, links, j, before);
        assert(path[path.len() - 2] == before && path[path.len() - 1] == text);
        assert(links(before).contains(text));
        assert(steps[last].known_after.dom().contains(text));
        law_known_was_handed_out(steps, last, text);
        let k = choose|k: int| 0 <= k <= last && hands_out((#[trigger] steps[k]).event, text);
        assert(hands_out(steps[k].event, path.last()));
    }
}

} // verus!
