//! The control loop of a crawl: it hears of the URLs that scrapers find, queues those that
//! are not known yet, and ends the crawl when no work is left.

use std::time::Duration;
use vstd::prelude::*;
use crate::crawler::Crawler;
use crate::sequence::reversed;
use crate::spider::Url;
#[allow(unused_imports)]
use crate::processing_state::{is_queued, is_scraped};
#[allow(unused_imports)]
use crate::state::{StateModel, scraped_ok_outcome};
#[allow(unused_imports)]
use crate::time::duration_of_millis;

verus! {

/// What the listener waits for.
pub enum ListenerPhase<U: Url> {
    /// Whether the crawl is shutting down.
    Waiting,
    /// The next report of a scraper, if there is one.
    Receiving,
    /// That a URL was sent to the scrapers. These found URLs are yet to be looked at, the
    /// last one first.
    Sending(Vec<U>),
    /// How much room there is in the queues.
    Counting,
    /// Nothing more.
    Stopped,
}

/// What the listener asks for.
pub enum ListenerAction<U: Url> {
    /// Take the next report of a scraper, if there is one.
    TryReceive,
    /// Send this URL to the scrapers, unless the crawl shuts down first.
    Send(U),
    /// Count the room that is left in the queues.
    CountCapacity,
    /// Wait this long, then see whether the crawl is shutting down.
    Sleep(Duration),
    /// End.
    Stop,
}

/// What the listener is told.
pub enum ListenerEvent<U: Url> {
    /// Whether the crawl is shutting down.
    Awake(bool),
    /// A scraper is done with a URL and found these; or there is no report.
    Received(Option<(U, Vec<U>)>),
    /// The URL was sent to the scrapers.
    Sent,
    /// The crawl is shutting down, and the URL may not have been sent.
    Interrupted,
    /// The room for reports and for URLs to visit.
    Counted(usize, usize),
}

/// The control loop, between what it asks for and what it is told.
pub struct Listener<U: Url> {
    pub phase: ListenerPhase<U>,
    /// The room in each queue when it is empty.
    pub crawling_queue_capacity: usize,
}

/// Whether the URL is known.
pub open spec fn is_known<U: Url>(states: Map<Seq<char>, StateModel>, url: U) -> bool {
    states.contains_key(url.model().text)
}

/// `next` follows from looking at the URLs `found`, in order: the first that is not known is
/// queued and asked to be sent, with those behind it left; where all are known, the room in
/// the queues is asked for.
pub open spec fn is_looked_through<U: Url>(
    before: Map<Seq<char>, StateModel>,
    after: Map<Seq<char>, StateModel>,
    found: Seq<U>,
    next: ListenerPhase<U>,
    action: ListenerAction<U>,
) -> bool {
    match action {
        ListenerAction::Send(url) => exists|at: int|
            {
                &&& 0 <= at < found.len()
                &&& url == #[trigger] found[at]
                &&& !is_known(before, url)
                &&& forall|i: int| 0 <= i < at ==> is_known(before, #[trigger] found[i])
                &&& is_queued(before, after, url)
                &&& next matches ListenerPhase::Sending(left) && left@.reverse() == found.skip(
                    at + 1,
                )
            },
        ListenerAction::CountCapacity => {
            &&& forall|i: int| 0 <= i < found.len() ==> is_known(before, #[trigger] found[i])
            &&& after == before
            &&& next is Counting
        },
        _ => false,
    }
}

/// What one step of the control loop does: `before` is told `event` while `known` is
/// remembered and `active` scrapers are at work; it becomes `after`, `known_after` is
/// remembered, and `action` is asked for.
pub open spec fn is_step<U: Url>(
    before: Listener<U>,
    known: Map<Seq<char>, StateModel>,
    active: usize,
    event: ListenerEvent<U>,
    after: Listener<U>,
    known_after: Map<Seq<char>, StateModel>,
    action: Option<ListenerAction<U>>,
) -> bool {
    let capacity = before.crawling_queue_capacity;
    &&& after.crawling_queue_capacity == capacity
    &&& match (before.phase, event) {
        (ListenerPhase::Waiting, ListenerEvent::Awake(shutting_down)) => {
            &&& known_after == known
            &&& if shutting_down {
                after.phase is Stopped && action == Some(ListenerAction::<U>::Stop)
            } else {
                after.phase is Receiving && action == Some(ListenerAction::<U>::TryReceive)
            }
        },
        (ListenerPhase::Receiving, ListenerEvent::Received(None)) => {
            &&& known_after == known
            &&& after.phase is Counting
            &&& action == Some(ListenerAction::<U>::CountCapacity)
        },
        (ListenerPhase::Receiving, ListenerEvent::Received(Some((visited, found)))) => {
            &&& action is Some
            &&& exists|scraped: Map<Seq<char>, StateModel>|
                {
                    &&& #[trigger] is_scraped(known, scraped, visited, scraped_ok_outcome())
                    &&& is_looked_through(scraped, known_after, found@, after.phase, action->0)
                }
        },
        (ListenerPhase::Sending(left), ListenerEvent::Sent) => {
            &&& action is Some
            &&& is_looked_through(known, known_after, left@.reverse(), after.phase, action->0)
        },
        (ListenerPhase::Sending(_), ListenerEvent::Interrupted) => {
            &&& known_after == known
            &&& after.phase is Stopped
            &&& action == Some(ListenerAction::<U>::Stop)
        },
        (ListenerPhase::Counting, ListenerEvent::Counted(reports, to_visit)) => {
            &&& known_after == known
            &&& if reports == capacity && to_visit == capacity && active == 0 {
                after.phase is Stopped && action == Some(ListenerAction::<U>::Stop)
            } else {
                after.phase is Waiting && action == Some(
                    ListenerAction::<U>::Sleep(duration_of_millis(5)),
                )
            }
        },
        _ => {
            &&& known_after == known
            &&& after == before
            &&& action is None
        },
    }
}

impl<U: Url> Listener<U> {
    /// A control loop over queues of the given size.
    pub fn new(crawling_queue_capacity: usize) -> (listener: Self)
        ensures
            listener.phase is Waiting,
            listener.crawling_queue_capacity == crawling_queue_capacity,
    {
        Listener { phase: ListenerPhase::Waiting, crawling_queue_capacity }
    }

    /// Looks at the found URLs, the last one of `stack` first.
    fn look_through(crawler: &mut Crawler<U>, stack: Vec<U>) -> (result: (
        ListenerPhase<U>,
        ListenerAction<U>,
    ))
        requires
            old(crawler).wf(),
        ensures
            final(crawler).wf(),
            final(crawler).same_settings(*old(crawler)),
            final(crawler).statistics == old(crawler).statistics,
            final(crawler).active_spiders == old(crawler).active_spiders,
            is_looked_through(
                old(crawler).visited_urls@,
                final(crawler).visited_urls@,
                stack@.reverse(),
                result.0,
                result.1,
            ),
    {
        let ghost found = stack@.reverse();
        let ghost before = crawler.visited_urls@;
        let mut left = stack;
        let ghost mut at: int = 0;
        while left.len() > 0
            invariant
                found == stack@.reverse(),
                *crawler == *old(crawler),
                crawler.wf(),
                before == crawler.visited_urls@,
                0 <= at <= found.len(),
                left@.reverse() == found.skip(at),
                forall|i: int| 0 <= i < at ==> is_known(before, #[trigger] found[i]),
            decreases left@.len(),
        {
            let ghost rest = left@;
            if let Some(url) = left.pop() {
                proof {
                    assert(rest.reverse().len() == rest.len());
                    assert(at < found.len());
                    assert(rest.reverse()[0] == url);
                    assert(found[at] == found.skip(at)[0]);
                    assert(left@.reverse() =~= rest.reverse().skip(1));
                    assert(found.skip(at).skip(1) =~= found.skip(at + 1));
                }
                if !crawler.visited_urls.contains_key(url.url().as_str()) {
                    crawler.visited_urls.queue(&url);
                    return (ListenerPhase::Sending(left), ListenerAction::Send(url));
                }
                proof {
                    at = at + 1;
                }
            }
        }
        assert(found.skip(at).len() == 0);
        (ListenerPhase::Counting, ListenerAction::CountCapacity)
    }

    /// Takes what the listener is told and says what it asks for next; `None`, with nothing
    /// changed, where that does not answer what it asked for.
    pub fn step(&mut self, crawler: &mut Crawler<U>, event: ListenerEvent<U>) -> (action: Option<
        ListenerAction<U>,
    >)
        requires
            old(crawler).wf(),
        ensures
            final(crawler).wf(),
            final(crawler).same_settings(*old(crawler)),
            final(crawler).statistics == old(crawler).statistics,
            final(crawler).active_spiders == old(crawler).active_spiders,
            is_step(
                *old(self),
                old(crawler).visited_urls@,
                old(crawler).active_spiders,
                event,
                *final(self),
                final(crawler).visited_urls@,
                action,
            ),
    {
        let mut phase = ListenerPhase::Stopped;
        std::mem::swap(&mut phase, &mut self.phase);
        match (phase, event) {
            (ListenerPhase::Waiting, ListenerEvent::Awake(shutting_down)) => {
                if shutting_down {
                    Some(ListenerAction::Stop)
                } else {
                    self.phase = ListenerPhase::Receiving;
                    Some(ListenerAction::TryReceive)
                }
            },
            (ListenerPhase::Receiving, ListenerEvent::Received(None)) => {
                self.phase = ListenerPhase::Counting;
                Some(ListenerAction::CountCapacity)
            },
            (ListenerPhase::Receiving, ListenerEvent::Received(Some((visited, found)))) => {
                crawler.visited_urls.scraped_ok(&visited);
                let stack = reversed(found);
                assert(stack@.reverse() =~= found@);
                let (next, action) = Self::look_through(crawler, stack);
                self.phase = next;
                Some(action)
            },
            (ListenerPhase::Sending(stack), ListenerEvent::Sent) => {
                let (next, action) = Self::look_through(crawler, stack);
                self.phase = next;
                Some(action)
            },
            (ListenerPhase::Sending(_), ListenerEvent::Interrupted) => Some(ListenerAction::Stop),
            (ListenerPhase::Counting, ListenerEvent::Counted(reports, to_visit)) => {
                if reports == self.crawling_queue_capacity && to_visit
                    == self.crawling_queue_capacity && crawler.active_spiders == 0 {
                    Some(ListenerAction::Stop)
                } else {
                    self.phase = ListenerPhase::Waiting;
                    Some(ListenerAction::Sleep(Duration::from_millis(5)))
                }
            },
            (phase, _) => {
                self.phase = phase;
                None
            },
        }
    }
}

} // verus!
