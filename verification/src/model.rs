//! The dispatcher as a state machine, and what follows from its rules.
//!
//! The queue is a sequence of items, oldest first. Producers add at the end;
//! the worker takes from the front, one item in each turn, and does with it
//! what [`worker_step`] says. The theorems below hold for every set of
//! handlers and for whatever the handlers return.

use crate::error::Error;
use crate::message::{MessageView, DEFAULT_RETRIES};
use crate::worker::{invokes, worker_step, ActionView};
use vstd::prelude::*;

verus! {

/// The dispatcher as its worker sees it.
pub struct Dispatcher<T> {
    /// Whether the worker still takes items.
    pub running: bool,
    /// The items that wait, oldest first.
    pub queue: Seq<MessageView<T>>,
}

/// What happens to a dispatcher, seen from its queue.
pub enum Event<T> {
    /// A producer submits an item.
    Submit(MessageView<T>),
    /// The worker takes its turn; the handler, if one is called, returns this.
    Turn(Result<(), Error>),
}

/// The number of turns of the worker among `events`.
pub open spec fn turns<T>(events: Seq<Event<T>>) -> nat
    decreases events.len(),
{
    if events.len() == 0 {
        0
    } else {
        let here: nat = if events[0] is Turn {
            1
        } else {
            0
        };
        here + turns(events.drop_first())
    }
}

/// Whether `events` are turns of the worker and nothing else.
pub open spec fn only_turns<T>(events: Seq<Event<T>>) -> bool {
    forall|i: int| 0 <= i < events.len() ==> (#[trigger] events[i]) is Turn
}

/// Whether the first `count` of `events` are turns in which the handler fails.
pub open spec fn fails_first<T>(events: Seq<Event<T>>, count: int) -> bool {
    &&& count <= events.len()
    &&& forall|i: int| 0 <= i < count ==> (#[trigger] events[i]) matches Event::Turn(Err(_))
}

/// The number of handler calls that the items of `queue` can still cause: one
/// for each item, and one more for each retry that it has left.
pub open spec fn budget<T>(queue: Seq<MessageView<T>>) -> int
    decreases queue.len(),
{
    if queue.len() == 0 {
        0
    } else {
        budget(queue.drop_last()) + queue.last().retries + 1
    }
}

impl<T> Dispatcher<T> {
    /// A dispatcher that has just been started: the worker runs, nothing waits.
    pub open spec fn started() -> Self {
        Dispatcher { running: true, queue: Seq::empty() }
    }

    /// No waiting item has a negative retry counter, or one above the default.
    pub open spec fn wf(self) -> bool {
        forall|i: int| 0 <= i < self.queue.len() ==> (#[trigger] self.queue[i]).wf()
    }

    /// The dispatcher after `item` has been submitted: it waits behind all others.
    pub open spec fn submit(self, item: MessageView<T>) -> Self {
        Dispatcher { running: self.running, queue: self.queue.push(item) }
    }

    /// The dispatcher after the request to shut down: the item that ends the
    /// worker waits behind all others.
    pub open spec fn stop(self) -> Self {
        self.submit(MessageView::exit())
    }

    /// Whether the worker calls a handler in its next turn.
    pub open spec fn calls_handler(self, names: Set<Seq<char>>) -> bool {
        self.running && self.queue.len() > 0 && invokes(names, self.queue[0])
    }

    /// One turn of the worker, where `names` have a handler and `outcome` is
    /// what the handler returns if one is called. A worker that has ended, or
    /// for which nothing waits, changes nothing.
    pub open spec fn turn(self, names: Set<Seq<char>>, outcome: Result<(), Error>) -> Self {
        if !self.running || self.queue.len() == 0 {
            self
        } else {
            let rest = self.queue.drop_first();
            match worker_step(names, self.queue[0], outcome) {
                ActionView::Stop => Dispatcher { running: false, queue: rest },
                ActionView::Retry(next, _) => Dispatcher { running: true, queue: rest.push(next) },
                _ => Dispatcher { running: true, queue: rest },
            }
        }
    }

    /// The dispatcher after one event.
    pub open spec fn after(self, names: Set<Seq<char>>, event: Event<T>) -> Self {
        match event {
            Event::Submit(item) => self.submit(item),
            Event::Turn(outcome) => self.turn(names, outcome),
        }
    }

    /// The dispatcher after `events`, the first of them first: producers and
    /// the worker in any order.
    pub open spec fn play(self, names: Set<Seq<char>>, events: Seq<Event<T>>) -> Self
        decreases events.len(),
    {
        if events.len() == 0 {
            self
        } else {
            self.after(names, events[0]).play(names, events.drop_first())
        }
    }

    /// The number of handler calls that the worker makes during `events`.
    pub open spec fn calls(self, names: Set<Seq<char>>, events: Seq<Event<T>>) -> nat
        decreases events.len(),
    {
        if events.len() == 0 {
            0
        } else {
            let here: nat = if events[0] is Turn && self.calls_handler(names) {
                1
            } else {
                0
            };
            here + self.after(names, events[0]).calls(names, events.drop_first())
        }
    }
}

/// The budget of a queue is that of its first item and that of the rest.
pub proof fn lemma_budget_of_first_and_rest<T>(queue: Seq<MessageView<T>>)
    requires
        queue.len() > 0,
    ensures
        budget(queue) == queue[0].retries + 1 + budget(queue.drop_first()),
    decreases queue.len(),
{
    if queue.len() == 1 {
        assert(queue.drop_last() =~= queue.drop_first());
        assert(budget(queue.drop_first()) == 0);
    } else {
        lemma_budget_of_first_and_rest(queue.drop_last());
        assert(queue.drop_last().drop_first() =~= queue.drop_first().drop_last());
        assert(queue.drop_first().last() == queue.last());
        assert(queue.drop_last()[0] == queue[0]);
    }
}

/// The budget of a queue of well-formed items is at least its length.
pub proof fn lemma_budget_covers_length<T>(queue: Seq<MessageView<T>>)
    requires
        forall|i: int| 0 <= i < queue.len() ==> (#[trigger] queue[i]).wf(),
    ensures
        budget(queue) >= queue.len(),
    decreases queue.len(),
{
    if queue.len() > 0 {
        assert(queue.last().wf());
        lemma_budget_covers_length(queue.drop_last());
    }
}

/// A dispatcher that is started and shut down at once ends in the worker's
/// first turn without a call, whatever handlers are registered.
pub proof fn lemma_start_then_stop_ends<T>(names: Set<Seq<char>>, outcome: Result<(), Error>)
    ensures
        !Dispatcher::<T>::started().stop().calls_handler(names),
        Dispatcher::<T>::started().stop().turn(names, outcome) == (Dispatcher::<T> {
            running: false,
            queue: Seq::empty(),
        }),
{
    let d = Dispatcher::<T>::started().stop();
    assert(d.queue[0] == MessageView::<T>::exit());
    assert(d.queue.drop_first() =~= Seq::empty());
}

/// The item that ends the worker calls no handler and ends the worker in the
/// turn that takes it. What waits behind it is left in the queue.
pub proof fn lemma_exit_ends_the_worker<T>(
    d: Dispatcher<T>,
    names: Set<Seq<char>>,
    outcome: Result<(), Error>,
)
    requires
        d.running,
        d.queue.len() > 0,
        d.queue[0].is_exit(),
    ensures
        !d.calls_handler(names),
        d.turn(names, outcome) == (Dispatcher { running: false, queue: d.queue.drop_first() }),
{
}

/// Once the worker has ended it stays so: it takes no item and calls no
/// handler, whatever is submitted.
pub proof fn lemma_stopped_is_final<T>(
    d: Dispatcher<T>,
    names: Set<Seq<char>>,
    events: Seq<Event<T>>,
)
    requires
        !d.running,
    ensures
        !d.play(names, events).running,
        d.calls(names, events) == 0,
        only_turns(events) ==> d.play(names, events) == d,
    decreases events.len(),
{
    if events.len() > 0 {
        let later = events.drop_first();
        lemma_stopped_is_final(d.after(names, events[0]), names, later);
        if only_turns(events) {
            assert(events[0] is Turn);
            assert forall|i: int| 0 <= i < later.len() implies (#[trigger] later[i]) is Turn by {
                assert(later[i] == events[i + 1]);
            }
        }
    }
}

/// While nothing waits and nothing is submitted, the worker changes nothing
/// and calls no handler.
pub proof fn lemma_idle_worker_waits<T>(
    d: Dispatcher<T>,
    names: Set<Seq<char>>,
    events: Seq<Event<T>>,
)
    requires
        d.queue.len() == 0,
        only_turns(events),
    ensures
        d.play(names, events) == d,
        d.calls(names, events) == 0,
    decreases events.len(),
{
    if events.len() > 0 {
        let later = events.drop_first();
        assert(events[0] is Turn);
        assert forall|i: int| 0 <= i < later.len() implies (#[trigger] later[i]) is Turn by {
            assert(later[i] == events[i + 1]);
        }
        lemma_idle_worker_waits(d, names, later);
    }
}

/// An item whose name has no handler is dropped without a call. The worker
/// goes on, and the items behind it wait in the order they had.
pub proof fn lemma_unknown_name_is_passed_over<T>(
    d: Dispatcher<T>,
    names: Set<Seq<char>>,
    outcome: Result<(), Error>,
)
    requires
        d.running,
        d.queue.len() > 0,
        !d.queue[0].is_exit(),
        !names.contains(d.queue[0].name),
    ensures
        !d.calls_handler(names),
        d.turn(names, outcome) == (Dispatcher { running: true, queue: d.queue.drop_first() }),
{
}

/// A failed item with a retry left goes to the end of the queue, behind
/// everything that waited, with one retry fewer.
pub proof fn lemma_retry_goes_to_the_end<T>(d: Dispatcher<T>, names: Set<Seq<char>>, error: Error)
    requires
        d.calls_handler(names),
        d.queue[0].retries > 0,
    ensures
        d.turn(names, Err(error)) == (Dispatcher {
            running: true,
            queue: d.queue.drop_first().push(d.queue[0].retried()),
        }),
{
}

/// Where the item that ends the worker waits with `ahead` items before it,
/// the worker has ended after `ahead + 1` turns at the latest, whatever the
/// handlers return, whatever is submitted meanwhile and whatever is retried.
pub proof fn lemma_exit_is_reached<T>(
    d: Dispatcher<T>,
    names: Set<Seq<char>>,
    events: Seq<Event<T>>,
    ahead: int,
)
    requires
        0 <= ahead < d.queue.len(),
        d.queue[ahead].is_exit(),
        turns(events) > ahead,
    ensures
        !d.play(names, events).running,
    decreases events.len(),
{
    let next = d.after(names, events[0]);
    let later = events.drop_first();
    if !d.running {
        lemma_stopped_is_final(d, names, events);
    } else {
        match events[0] {
            Event::Submit(item) => {
                assert(next.queue[ahead] == d.queue[ahead]);
                lemma_exit_is_reached(next, names, later, ahead);
            },
            Event::Turn(outcome) => {
                if ahead == 0 {
                    lemma_stopped_is_final(next, names, later);
                } else {
                    assert(d.queue.drop_first()[ahead - 1] == d.queue[ahead]);
                    assert(next.queue[ahead - 1] == d.queue[ahead]);
                    lemma_exit_is_reached(next, names, later, ahead - 1);
                }
            },
        }
    }
}

/// After the request to shut down the worker ends: it needs one turn for
/// each item that waited and one for the request, at the latest, and nothing
/// that producers or handlers do meanwhile keeps it running.
pub proof fn lemma_stop_ends_the_worker<T>(
    d: Dispatcher<T>,
    names: Set<Seq<char>>,
    events: Seq<Event<T>>,
)
    requires
        turns(events) > d.queue.len(),
    ensures
        !d.stop().play(names, events).running,
{
    lemma_exit_is_reached(d.stop(), names, events, d.queue.len() as int);
}

/// Every turn that takes an item lowers the budget of the queue, and leaves
/// the queue well-formed.
pub proof fn lemma_turn_spends_budget<T>(
    d: Dispatcher<T>,
    names: Set<Seq<char>>,
    outcome: Result<(), Error>,
)
    requires
        d.wf(),
        d.running,
        d.queue.len() > 0,
    ensures
        d.turn(names, outcome).wf(),
        budget(d.turn(names, outcome).queue) < budget(d.queue),
{
    let head = d.queue[0];
    let rest = d.queue.drop_first();
    let after = d.turn(names, outcome);
    assert(head.wf());
    assert forall|i: int| 0 <= i < rest.len() implies (#[trigger] rest[i]).wf() by {
        assert(rest[i] == d.queue[i + 1]);
    }
    lemma_budget_of_first_and_rest(d.queue);
    match worker_step(names, head, outcome) {
        ActionView::Retry(next, _) => {
            assert(after.queue.drop_last() =~= rest);
            assert(after.queue.last() == next);
            assert forall|i: int| 0 <= i < after.queue.len() implies (#[trigger] after.queue[i]).wf() by {
                if i < rest.len() {
                    assert(after.queue[i] == rest[i]);
                }
            }
        },
        _ => {},
    }
}

/// The worker does not go on for ever on what waits: left to itself for as
/// many turns as the budget of the queue, it has ended or nothing waits any
/// more, and it has called handlers at most that often.
pub proof fn lemma_backlog_is_worked_off<T>(
    d: Dispatcher<T>,
    names: Set<Seq<char>>,
    events: Seq<Event<T>>,
)
    requires
        d.wf(),
        only_turns(events),
        events.len() >= budget(d.queue),
    ensures
        !d.play(names, events).running || d.play(names, events).queue.len() == 0,
        d.calls(names, events) <= budget(d.queue),
    decreases events.len(),
{
    lemma_budget_covers_length(d.queue);
    if !d.running {
        lemma_stopped_is_final(d, names, events);
    } else if d.queue.len() == 0 {
        lemma_idle_worker_waits(d, names, events);
    } else {
        let later = events.drop_first();
        assert(events[0] is Turn);
        assert forall|i: int| 0 <= i < later.len() implies (#[trigger] later[i]) is Turn by {
            assert(later[i] == events[i + 1]);
        }
        lemma_turn_spends_budget(d, names, events[0]->Turn_0);
        lemma_backlog_is_worked_off(d.after(names, events[0]), names, later);
    }
}

/// An item whose handler fails `failures` times and succeeds after that,
/// with that many retries at hand, is tried `failures + 1` times and never
/// again: with nothing else in the queue, the queue is empty afterwards.
pub proof fn lemma_item_is_tried_until_it_succeeds<T>(
    item: MessageView<T>,
    names: Set<Seq<char>>,
    events: Seq<Event<T>>,
    failures: int,
)
    requires
        invokes(names, item),
        only_turns(events),
        0 <= failures <= item.retries,
        fails_first(events, failures),
        failures < events.len(),
        events[failures] == Event::<T>::Turn(Ok(())),
    ensures
        Dispatcher::started().submit(item).calls(names, events) == failures + 1,
        Dispatcher::started().submit(item).play(names, events) == Dispatcher::<T>::started(),
    decreases failures,
{
    let d = Dispatcher::started().submit(item);
    let next = d.after(names, events[0]);
    let later = events.drop_first();
    assert(d.queue[0] == item);
    assert(d.queue.drop_first() =~= Seq::empty());
    assert forall|i: int| 0 <= i < later.len() implies (#[trigger] later[i]) is Turn by {
        assert(later[i] == events[i + 1]);
    }
    if failures > 0 {
        assert(events[0] matches Event::Turn(Err(_)));
        assert(next.queue =~= Seq::empty().push(item.retried()));
        assert(next == Dispatcher::started().submit(item.retried()));
        assert forall|i: int| 0 <= i < failures - 1 implies (#[trigger] later[i]) matches Event::Turn(
            Err(_),
        ) by {
            assert(later[i] == events[i + 1]);
        }
        assert(later[failures - 1] == events[failures]);
        lemma_item_is_tried_until_it_succeeds(item.retried(), names, later, failures - 1);
    } else {
        assert(next == Dispatcher::<T>::started());
        lemma_idle_worker_waits(next, names, later);
    }
}

/// An item whose handler succeeds at once is tried exactly once: nothing
/// goes back into the queue.
pub proof fn lemma_success_is_not_retried<T>(
    item: MessageView<T>,
    names: Set<Seq<char>>,
    events: Seq<Event<T>>,
)
    requires
        invokes(names, item),
        only_turns(events),
        events.len() > 0,
        events[0] == Event::<T>::Turn(Ok(())),
    ensures
        Dispatcher::started().submit(item).turn(names, Ok(())) == Dispatcher::<T>::started(),
        Dispatcher::started().submit(item).calls(names, events) == 1,
        Dispatcher::started().submit(item).play(names, events) == Dispatcher::<T>::started(),
{
    let d = Dispatcher::started().submit(item);
    let later = events.drop_first();
    assert(d.queue[0] == item);
    assert(d.queue.drop_first() =~= Seq::empty());
    assert forall|i: int| 0 <= i < later.len() implies (#[trigger] later[i]) is Turn by {
        assert(later[i] == events[i + 1]);
    }
    lemma_idle_worker_waits(d.after(names, events[0]), names, later);
}

/// An item whose handler fails every time is tried once and then once for
/// each retry that it has, and is dropped after that: with nothing else in
/// the queue, the handler is called `retries + 1` times and the queue is
/// empty afterwards, however many more turns follow.
pub proof fn lemma_failing_item_is_tried_while_retries_last<T>(
    item: MessageView<T>,
    names: Set<Seq<char>>,
    events: Seq<Event<T>>,
)
    requires
        invokes(names, item),
        0 <= item.retries < events.len(),
        fails_first(events, events.len() as int),
    ensures
        Dispatcher::started().submit(item).calls(names, events) == item.retries + 1,
        Dispatcher::started().submit(item).play(names, events) == Dispatcher::<T>::started(),
    decreases item.retries,
{
    let d = Dispatcher::started().submit(item);
    let next = d.after(names, events[0]);
    let later = events.drop_first();
    assert(d.queue[0] == item);
    assert(d.queue.drop_first() =~= Seq::empty());
    assert(events[0] matches Event::Turn(Err(_)));
    assert forall|i: int| 0 <= i < later.len() implies (#[trigger] later[i]) matches Event::Turn(
        Err(_),
    ) by {
        assert(later[i] == events[i + 1]);
    }
    if item.retries > 0 {
        assert(next.queue =~= Seq::empty().push(item.retried()));
        assert(next == Dispatcher::started().submit(item.retried()));
        lemma_failing_item_is_tried_while_retries_last(item.retried(), names, later);
    } else {
        assert(next == Dispatcher::<T>::started());
        lemma_idle_worker_waits(next, names, later);
    }
}

/// A new item whose handler fails every time is tried eleven times in all:
/// once, and once for each of its ten retries.
pub proof fn lemma_new_item_is_tried_eleven_times<T>(
    name: Seq<char>,
    message: Option<T>,
    names: Set<Seq<char>>,
    events: Seq<Event<T>>,
)
    requires
        invokes(names, MessageView::fresh(name, message)),
        fails_first(events, events.len() as int),
        events.len() > DEFAULT_RETRIES,
    ensures
        Dispatcher::started().submit(MessageView::fresh(name, message)).calls(names, events) == 11,
        Dispatcher::started().submit(MessageView::fresh(name, message)).play(names, events)
            == Dispatcher::<T>::started(),
{
    lemma_failing_item_is_tried_while_retries_last(MessageView::fresh(name, message), names, events);
}

} // verus!
