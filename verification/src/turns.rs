//! What the control loop does with each thing that it is told.

use vstd::prelude::*;
use crate::effects::{law_queueing_forgets, law_scraping_is_taken_down};
use crate::laws::{law_unknown_sent_in_order, law_unknown_texts, texts_of, unknown_texts};
use crate::listener::{Listener, ListenerAction, ListenerEvent, ListenerPhase};
use crate::spider::Url;
use crate::state::{OutcomeModel, StateModel};
use crate::time::Timestamp;
#[allow(unused_imports)]
use crate::listener::{is_known, is_looked_through, is_step};
#[allow(unused_imports)]
use crate::processing_state::{is_queued, is_scraped};
#[allow(unused_imports)]
use crate::state::scraped_ok_outcome;
#[allow(unused_imports)]
use crate::time::duration_of_millis;

verus! {

/// One turn of the control loop: what it waited for, what it was told, and what it asked for.
pub struct Turn<U: Url> {
    pub before: Listener<U>,
    pub known: Map<Seq<char>, StateModel>,
    pub active: usize,
    pub event: ListenerEvent<U>,
    pub after: Listener<U>,
    pub known_after: Map<Seq<char>, StateModel>,
    pub action: Option<ListenerAction<U>>,
}

/// Whether the control loop takes the turn.
pub open spec fn is_turn<U: Url>(turn: Turn<U>) -> bool {
    is_step(
        turn.before,
        turn.known,
        turn.active,
        turn.event,
        turn.after,
        turn.known_after,
        turn.action,
    )
}

/// A URL is known exactly when something is remembered under its text.
pub proof fn law_known_by_text<U: Url>(known: Map<Seq<char>, StateModel>, url: U)
    ensures
        is_known(known, url) <==> known.dom().contains(url.model().text),
{
}

/// The control loop goes on exactly when it is told what it waits for; else nothing changes.
pub proof fn law_answers_are_taken<U: Url>(turn: Turn<U>)
    requires
        is_turn(turn),
    ensures
        turn.before.phase is Waiting ==> (turn.action is Some <==> turn.event is Awake),
        turn.before.phase is Receiving ==> (turn.action is Some <==> turn.event is Received),
        turn.before.phase is Sending ==> (turn.action is Some <==> turn.event is Sent
            || turn.event is Interrupted),
        turn.before.phase is Counting ==> (turn.action is Some <==> turn.event is Counted),
        turn.before.phase is Stopped ==> turn.action is None,
        turn.action is None ==> turn.after == turn.before && turn.known_after == turn.known,
{
}

/// The control loop waits for the answer to what it asked for, over queues of the same size.
pub proof fn law_waits_for_the_answer<U: Url>(turn: Turn<U>)
    requires
        is_turn(turn),
    ensures
        turn.after.crawling_queue_capacity == turn.before.crawling_queue_capacity,
        turn.action == Some(ListenerAction::<U>::TryReceive) ==> turn.after.phase is Receiving,
        turn.action matches Some(ListenerAction::Send(_)) ==> turn.after.phase is Sending,
        turn.action == Some(ListenerAction::<U>::CountCapacity) ==> turn.after.phase is Counting,
        turn.action matches Some(ListenerAction::Sleep(time)) ==> turn.after.phase is Waiting && time
            == duration_of_millis(5),
        turn.action == Some(ListenerAction::<U>::Stop) ==> turn.after.phase is Stopped,
{
}

/// Told the room in the queues, the control loop ends the crawl exactly when both are empty,
/// whatever their size, and no scraper is at work; else it sleeps and goes on.
pub proof fn law_ends_exactly_when_done<U: Url>(turn: Turn<U>, reports: usize, to_visit: usize)
    requires
        is_turn(turn),
        turn.before.phase is Counting,
        turn.event == ListenerEvent::<U>::Counted(reports, to_visit),
    ensures
        turn.action == Some(ListenerAction::<U>::Stop) <==> reports
            == turn.before.crawling_queue_capacity && to_visit
            == turn.before.crawling_queue_capacity && turn.active == 0,
        turn.action != Some(ListenerAction::<U>::Stop) ==> turn.action is Some && turn.action->0 is Sleep,
        turn.known_after == turn.known,
{
}

/// Awake, the control loop ends when the crawl shuts down, and else takes the next report.
pub proof fn law_awake<U: Url>(turn: Turn<U>, shutting_down: bool)
    requires
        is_turn(turn),
        turn.before.phase is Waiting,
        turn.event == ListenerEvent::<U>::Awake(shutting_down),
    ensures
        shutting_down ==> turn.action == Some(ListenerAction::<U>::Stop),
        !shutting_down ==> turn.action == Some(ListenerAction::<U>::TryReceive),
        turn.known_after == turn.known,
{
}

/// Without a report, the control loop counts the room in the queues.
pub proof fn law_no_report<U: Url>(turn: Turn<U>)
    requires
        is_turn(turn),
        turn.before.phase is Receiving,
        turn.event == ListenerEvent::<U>::Received(None),
    ensures
        turn.action == Some(ListenerAction::<U>::CountCapacity),
        turn.known_after == turn.known,
{
}

/// Interrupted while it sends a URL, the control loop ends; what is remembered stays.
pub proof fn law_interrupted<U: Url>(turn: Turn<U>)
    requires
        is_turn(turn),
        turn.before.phase is Sending,
        turn.event is Interrupted,
    ensures
        turn.action == Some(ListenerAction::<U>::Stop),
        turn.known_after == turn.known,
{
}

/// A crawl with no work left ends in one round: awake, without a report, with both queues empty
/// and no scraper at work, the control loop ends.
pub proof fn law_idle_crawl_ends<U: Url>(first: Turn<U>, second: Turn<U>, third: Turn<U>)
    requires
        is_turn(first),
        is_turn(second),
        is_turn(third),
        first.before.phase is Waiting,
        first.event == ListenerEvent::<U>::Awake(false),
        second.before == first.after,
        second.event == ListenerEvent::<U>::Received(None),
        third.before == second.after,
        third.event == ListenerEvent::<U>::Counted(
            first.before.crawling_queue_capacity,
            first.before.crawling_queue_capacity,
        ),
        third.active == 0,
    ensures
        third.action == Some(ListenerAction::<U>::Stop),
        third.after.phase is Stopped,
{
}

/// What follows from looking at `found` while `known` are known: the first URL that is not known
/// is sent and becomes known, and exactly those behind it are left; where all are known, none
/// is sent, none is left, and the room in the queues is counted.
pub open spec fn sends_first_unknown<U: Url>(
    known: Set<Seq<char>>,
    found: Seq<U>,
    known_after: Set<Seq<char>>,
    after: ListenerPhase<U>,
    action: ListenerAction<U>,
) -> bool {
    if forall|i: int| 0 <= i < found.len() ==> known.contains((#[trigger] found[i]).model().text) {
        &&& action is CountCapacity
        &&& after is Counting
        &&& known_after == known
    } else {
        &&& action is Send
        &&& after is Sending
        &&& !known.contains(action->Send_0.model().text)
        &&& known_after == known.insert(action->Send_0.model().text)
        &&& exists|at: int|
            {
                &&& 0 <= at < found.len()
                &&& #[trigger] found[at] == action->Send_0
                &&& forall|i: int|
                    0 <= i < at ==> known.contains((#[trigger] found[i]).model().text)
                &&& after->Sending_0@.reverse() == found.skip(at + 1)
            }
    }
}

/// Looking at found URLs sends the first that is not known.
proof fn lemma_looking_sends_first_unknown<U: Url>(
    known: Map<Seq<char>, StateModel>,
    found: Seq<U>,
    known_after: Map<Seq<char>, StateModel>,
    after: ListenerPhase<U>,
    action: ListenerAction<U>,
)
    requires
        is_looked_through(known, known_after, found, after, action),
    ensures
        sends_first_unknown(known.dom(), found, known_after.dom(), after, action),
        action matches ListenerAction::Send(url) ==> is_queued(known, known_after, url),
        !(action is Send) ==> known_after == known,
{
    match action {
        ListenerAction::Send(url) => {
            let at = choose|at: int|
                {
                    &&& 0 <= at < found.len()
                    &&& url == #[trigger] found[at]
                    &&& !is_known(known, url)
                    &&& forall|i: int| 0 <= i < at ==> is_known(known, #[trigger] found[i])
                    &&& is_queued(known, known_after, url)
                    &&& after matches ListenerPhase::Sending(left) && left@.reverse() == found.skip(
                        at + 1,
                    )
                };
            assert(found[at] == url);
            assert(known_after.dom() =~= known.dom().insert(url.model().text));
            assert forall|i: int| 0 <= i < at implies known.dom().contains(
                (#[trigger] found[i]).model().text,
            ) by {
                assert(is_known(known, found[i]));
            }
        },
        _ => {
            assert forall|i: int| 0 <= i < found.len() implies known.dom().contains(
                (#[trigger] found[i]).model().text,
            ) by {
                assert(is_known(known, found[i]));
            }
        },
    }
}

/// A report counts its URL as scraped without an error, and the first URL found that is not
/// known is queued and sent, whatever URLs were found. The rest of what was remembered stays.
pub proof fn law_report_is_taken<U: Url>(turn: Turn<U>, visited: U, found: Vec<U>)
    requires
        is_turn(turn),
        turn.before.phase is Receiving,
        turn.event == ListenerEvent::Received(Some((visited, found))),
    ensures
        turn.action is Some,
        sends_first_unknown(
            turn.known.dom().insert(visited.model().text),
            found@,
            turn.known_after.dom(),
            turn.after.phase,
            turn.action->0,
        ),
        ({
            let text = visited.model().text;
            let state = turn.known_after[text];
            &&& state.scrape_result == Some(OutcomeModel::Success(Seq::<char>::empty()))
            &&& state.scraped_at matches Some(at) && call_ensures(Timestamp::now, (), at)
            &&& turn.known.contains_key(text) ==> state.url == turn.known[text].url && state.queued
                == turn.known[text].queued && state.processed_at == turn.known[text].processed_at
                && state.process_result == turn.known[text].process_result
            &&& !turn.known.contains_key(text) ==> state.processed_at is None
                && state.process_result is None && call_ensures(Timestamp::now, (), state.queued)
                && exists|copy: U| #[trigger]
                cloned(visited, copy) && state.url == copy.model()
        }),
        turn.action->0 matches ListenerAction::Send(url) ==> is_fresh_record(
            url,
            turn.known_after[url.model().text],
        ),
        forall|text: Seq<char>| #[trigger]
            turn.known.contains_key(text) && text != visited.model().text
                ==> turn.known_after[text] == turn.known[text],
{
    let action = turn.action->0;
    let scraped = choose|scraped: Map<Seq<char>, StateModel>|
        {
            &&& #[trigger] is_scraped(turn.known, scraped, visited, scraped_ok_outcome())
            &&& is_looked_through(scraped, turn.known_after, found@, turn.after.phase, action)
        };
    law_scraping_is_taken_down(turn.known, scraped, visited, scraped_ok_outcome());
    lemma_looking_sends_first_unknown(
        scraped,
        found@,
        turn.known_after,
        turn.after.phase,
        action,
    );
    assert(scraped.dom() =~= turn.known.dom().insert(visited.model().text));
    if let ListenerAction::Send(url) = action {
        law_queueing_forgets(scraped, turn.known_after, url);
        assert(url.model().text != visited.model().text);
        assert(scraped.contains_key(visited.model().text));
        assert forall|text: Seq<char>| #[trigger]
            turn.known.contains_key(text) && text
                != visited.model().text implies turn.known_after[text] == turn.known[text] by {
            assert(scraped.contains_key(text));
        }
    }
}

/// Whether the record is of a copy of `url`, queued as of a reading of the clock, and no more.
pub open spec fn is_fresh_record<U: Url>(url: U, state: StateModel) -> bool {
    &&& exists|copy: U| #[trigger] cloned(url, copy) && state.url == copy.model()
    &&& call_ensures(Timestamp::now, (), state.queued)
    &&& state.scraped_at is None
    &&& state.scrape_result is None
    &&& state.processed_at is None
    &&& state.process_result is None
}

/// Once a URL was sent, the first of those left that is not known is queued and sent. All that
/// was remembered stays.
pub proof fn law_sending_goes_on<U: Url>(turn: Turn<U>, left: Vec<U>)
    requires
        is_turn(turn),
        turn.before.phase == ListenerPhase::Sending(left),
        turn.event is Sent,
    ensures
        turn.action is Some,
        sends_first_unknown(
            turn.known.dom(),
            left@.reverse(),
            turn.known_after.dom(),
            turn.after.phase,
            turn.action->0,
        ),
        turn.action->0 matches ListenerAction::Send(url) ==> is_fresh_record(
            url,
            turn.known_after[url.model().text],
        ),
        forall|text: Seq<char>| #[trigger]
            turn.known.contains_key(text) ==> turn.known_after[text] == turn.known[text],
{
    lemma_looking_sends_first_unknown(
        turn.known,
        left@.reverse(),
        turn.known_after,
        turn.after.phase,
        turn.action->0,
    );
    if let ListenerAction::Send(url) = turn.action->0 {
        law_queueing_forgets(turn.known, turn.known_after, url);
    }
}

/// The texts of the URLs that are asked to be sent in the turns, in order.
pub open spec fn sent_texts<U: Url>(turns: Seq<Turn<U>>) -> Seq<Seq<char>>
    decreases turns.len(),
{
    if turns.len() == 0 {
        Seq::empty()
    } else {
        let rest = sent_texts(turns.skip(1));
        match turns[0].action {
            Some(ListenerAction::Send(url)) => seq![url.model().text] + rest,
            _ => rest,
        }
    }
}

/// Whether the turns follow each other, nothing being taken down in between, and each but the
/// first is told that a URL was sent.
pub open spec fn are_sendings<U: Url>(turns: Seq<Turn<U>>) -> bool {
    &&& forall|i: int| 0 <= i < turns.len() ==> is_turn(#[trigger] turns[i])
    &&& forall|i: int| 0 < i < turns.len() ==> (#[trigger] turns[i]).event is Sent
    &&& forall|i: int, j: int|
        #![trigger turns[i], turns[j]]
        0 <= i && j == i + 1 && j < turns.len() ==> turns[j].before == turns[i].after
            && turns[j].known == turns[i].known_after
}

/// While URLs are sent, those left that are not known are sent, each once and in order.
proof fn lemma_left_is_sent<U: Url>(turns: Seq<Turn<U>>, left: Vec<U>)
    requires
        are_sendings(turns),
        turns.len() > 0,
        turns[0].event is Sent,
        turns[0].before.phase == ListenerPhase::Sending(left),
        turns.last().action == Some(ListenerAction::<U>::CountCapacity),
        forall|i: int|
            0 <= i < turns.len() - 1 ==> (#[trigger] turns[i]).action matches Some(
                ListenerAction::Send(_),
            ),
    ensures
        sent_texts(turns) == unknown_texts(turns[0].known.dom(), texts_of(left@.reverse())),
    decreases turns.len(),
{
    let turn = turns[0];
    law_unknown_sent_in_order(
        turn.known,
        turn.known_after,
        left@.reverse(),
        turn.after.phase,
        turn.action->0,
    );
    let rest = turns.skip(1);
    if turns.len() == 1 {
        assert(turns.last() == turn);
        assert(sent_texts(rest) =~= Seq::<Seq<char>>::empty());
        assert(sent_texts(turns) =~= Seq::<Seq<char>>::empty());
        assert(unknown_texts(turn.known.dom(), texts_of(left@.reverse())) =~= Seq::<
            Seq<char>,
        >::empty());
    } else {
        lemma_sendings_rest(turns);
        let next_left = turn.after.phase->Sending_0;
        assert(turns[1].before == turns[0].after);
        lemma_left_is_sent(rest, next_left);
    }
}

/// What comes after the first of such turns are such turns.
proof fn lemma_sendings_rest<U: Url>(turns: Seq<Turn<U>>)
    requires
        are_sendings(turns),
        turns.len() > 1,
    ensures
        are_sendings(turns.skip(1)),
        turns.skip(1).last() == turns.last(),
        turns.skip(1)[0] == turns[1],
        turns[1].before == turns[0].after,
        turns[1].known == turns[0].known_after,
        forall|i: int|
            0 <= i < turns.len() - 1 ==> #[trigger] turns.skip(1)[i] == turns[i + 1],
{
    let rest = turns.skip(1);
    assert forall|i: int, j: int|
        #![trigger rest[i], rest[j]]
        0 <= i && j == i + 1 && j < rest.len() implies rest[j].before == rest[i].after
        && rest[j].known == rest[i].known_after by {
        assert(rest[i] == turns[i + 1] && rest[j] == turns[j + 1]);
    }
    assert(turns[0].after == turns[1].before);
}

/// For a report, the control loop sends those of the found URLs that are neither known nor the
/// reported URL itself, each once and in the order in which they were found; then it counts
/// the room in the queues.
pub proof fn law_report_sends_unknown<U: Url>(turns: Seq<Turn<U>>, visited: U, found: Vec<U>)
    requires
        are_sendings(turns),
        turns.len() > 0,
        turns[0].before.phase is Receiving,
        turns[0].event == ListenerEvent::Received(Some((visited, found))),
        turns.last().action == Some(ListenerAction::<U>::CountCapacity),
        forall|i: int|
            0 <= i < turns.len() - 1 ==> (#[trigger] turns[i]).action matches Some(
                ListenerAction::Send(_),
            ),
    ensures
        sent_texts(turns) == unknown_texts(
            turns[0].known.dom().insert(visited.model().text),
            texts_of(found@),
        ),
{
    let turn = turns[0];
    let scraped = choose|scraped: Map<Seq<char>, StateModel>|
        {
            &&& #[trigger] is_scraped(turn.known, scraped, visited, scraped_ok_outcome())
            &&& is_looked_through(
                scraped,
                turn.known_after,
                found@,
                turn.after.phase,
                turn.action->0,
            )
        };
    assert(scraped.dom() =~= turn.known.dom().insert(visited.model().text));
    law_unknown_sent_in_order(
        scraped,
        turn.known_after,
        found@,
        turn.after.phase,
        turn.action->0,
    );
    let rest = turns.skip(1);
    if turns.len() == 1 {
        assert(turns.last() == turn);
        assert(sent_texts(rest) =~= Seq::<Seq<char>>::empty());
        assert(sent_texts(turns) =~= Seq::<Seq<char>>::empty());
        assert(unknown_texts(scraped.dom(), texts_of(found@)) =~= Seq::<Seq<char>>::empty());
    } else {
        lemma_sendings_rest(turns);
        lemma_left_is_sent(rest, turn.after.phase->Sending_0);
    }
}

/// The unknown ones among `texts` come in the order in which each first occurs.
pub proof fn law_unknown_texts_in_order(known: Set<Seq<char>>, texts: Seq<Seq<char>>)
    ensures
        forall|i: int, j: int, at: int|
            #![trigger unknown_texts(known, texts)[i], unknown_texts(known, texts)[j], texts[at]]
            0 <= i < j < unknown_texts(known, texts).len() && 0 <= at < texts.len() && texts[at]
                == unknown_texts(known, texts)[j] ==> texts.take(at).contains(
                unknown_texts(known, texts)[i],
            ),
    decreases texts.len(),
{
    if texts.len() > 0 {
        let first = texts[0];
        let rest = texts.skip(1);
        let known_rest = if known.contains(first) {
            known
        } else {
            known.insert(first)
        };
        let tail = unknown_texts(known_rest, rest);
        let all = unknown_texts(known, texts);
        law_unknown_texts_in_order(known_rest, rest);
        law_unknown_texts(known_rest, rest);
        assert forall|i: int, j: int, at: int|
            #![trigger all[i], all[j], texts[at]]
            0 <= i < j < all.len() && 0 <= at < texts.len() && texts[at]
                == all[j] implies texts.take(at).contains(all[i]) by {
            let shift: int = if known.contains(first) {
                0
            } else {
                1
            };
            assert(all[j] == tail[j - shift]);
            assert(tail.contains(tail[j - shift]));
            assert(!known_rest.contains(all[j]));
            assert(known_rest.contains(first));
            assert(at > 0);
            if i < shift {
                assert(texts.take(at)[0] == all[i]);
            } else {
                assert(all[i] == tail[i - shift]);
                assert(rest[at - 1] == texts[at]);
                assert(rest.take(at - 1).contains(tail[i - shift]));
                let front = rest.take(at - 1);
                let wanted = tail[i - shift];
                let place = choose|place: int|
                    0 <= place < front.len() && #[trigger] front[place] == wanted;
                assert(texts.take(at)[place + 1] == all[i]);
            }
        }
    }
}

} // verus!
