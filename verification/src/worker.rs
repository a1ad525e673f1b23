//! What the worker does with each item that it takes from the queue.
//!
//! The worker itself is a loop around [`InitialConfig::dispatch`]: it takes
//! the next item, hands it over, and carries out the [`Action`] that comes
//! back. Nothing here waits, sends or prints.

use crate::error::Error;
use crate::message::{Message, MessageView, EXIT};
use crate::registry::InitialConfig;
use crate::text::same_text;
use vstd::prelude::*;
use vstd::string::StringExecFns;

verus! {

/// What the worker has to do after it has looked at one item.
pub enum Action<T: Send + Sync> {
    /// The item was the one that ends the worker: take no further item.
    Stop,
    /// No handler is registered under the item's name. The item, given back
    /// here, is dropped.
    Unhandled(Message<T>),
    /// The handler processed the item.
    Completed,
    /// The handler failed with the given error and a retry was left: the item
    /// given here goes to the end of the queue.
    Retry(Message<T>, Error),
    /// The handler failed with the given error and no retry was left. The
    /// item, given back here, is dropped.
    Exhausted(Message<T>, Error),
}

/// An [`Action`] as a mathematical value.
pub enum ActionView<T> {
    /// Take no further item.
    Stop,
    /// No handler is registered for this item; it is dropped.
    Unhandled(MessageView<T>),
    /// The handler processed the item.
    Completed,
    /// The handler failed with this error; this item goes to the end of the queue.
    Retry(MessageView<T>, Error),
    /// The handler failed with this error, and this item is dropped for good.
    Exhausted(MessageView<T>, Error),
}

impl<T: Send + Sync> View for Action<T> {
    type V = ActionView<T>;

    open spec fn view(&self) -> ActionView<T> {
        match *self {
            Action::Stop => ActionView::Stop,
            Action::Unhandled(item) => ActionView::Unhandled(item@),
            Action::Completed => ActionView::Completed,
            Action::Retry(item, error) => ActionView::Retry(item@, error),
            Action::Exhausted(item, error) => ActionView::Exhausted(item@, error),
        }
    }
}

impl<T> ActionView<T> {
    /// The line that the worker reports for the action, if it reports one.
    pub open spec fn diagnostic(self) -> Option<Seq<char>> {
        match self {
            ActionView::Stop => None,
            ActionView::Completed => None,
            ActionView::Unhandled(item) => Some("No handler for message '"@ + item.name + "'"@),
            ActionView::Retry(item, error) => Some(
                "Task for '"@ + item.name + "' failed with error: '"@ + error.text()
                    + "', retrying"@,
            ),
            ActionView::Exhausted(item, error) => Some(
                "Task for '"@ + item.name + "' failed permanently with error: '"@ + error.text()
                    + "'"@,
            ),
        }
    }
}

/// What follows from a handler's `outcome` on `item`: success ends the item,
/// a failure is retried while a retry is left, and is final after that.
pub open spec fn decide_spec<T>(item: MessageView<T>, outcome: Result<(), Error>) -> ActionView<T> {
    match outcome {
        Ok(_) => ActionView::Completed,
        Err(error) => if item.retries > 0 {
            ActionView::Retry(item.retried(), error)
        } else {
            ActionView::Exhausted(item, error)
        },
    }
}

/// Whether the worker calls a handler for `item`, given the names that have one.
pub open spec fn invokes<T>(names: Set<Seq<char>>, item: MessageView<T>) -> bool {
    !item.is_exit() && names.contains(item.name)
}

/// What the worker does with `item`, given the names that have a handler
/// and, where a handler is called, the `outcome` of that call.
pub open spec fn worker_step<T>(
    names: Set<Seq<char>>,
    item: MessageView<T>,
    outcome: Result<(), Error>,
) -> ActionView<T> {
    if item.is_exit() {
        ActionView::Stop
    } else if !names.contains(item.name) {
        ActionView::Unhandled(item)
    } else {
        decide_spec(item, outcome)
    }
}

/// Decides what becomes of `item` once its handler has returned `outcome`.
pub fn decide<T: Send + Sync>(item: Message<T>, outcome: Result<(), Error>) -> (action: Action<T>)
    ensures
        action@ == decide_spec(item@, outcome),
        item@.wf(),
        action matches Action::Retry(next, _) ==> next@.wf(),
{
    proof {
        use_type_invariant(&item);
    }
    match outcome {
        Ok(_) => Action::Completed,
        Err(error) => match item.retry() {
            Ok(next) => Action::Retry(next, error),
            Err(last) => Action::Exhausted(last, error),
        },
    }
}

impl<T: Send + Sync, H: Fn(&Option<T>) -> Result<(), Error>> InitialConfig<T, H> {
    /// Whether `outcome` is something that the handler for `item` can return
    /// when it is called with the item's data. Where the worker calls no
    /// handler for `item`, every outcome counts.
    pub open spec fn answers(&self, item: MessageView<T>, outcome: Result<(), Error>) -> bool {
        invokes(self@.dom(), item) ==> call_ensures(self@[item.name], (&item.message,), outcome)
    }

    /// Looks at one item from the queue and says what the worker has to do.
    ///
    /// The item that ends the worker calls no handler, whatever is
    /// registered. An item for an unknown name calls none either and is given
    /// back. For any other item the handler is called once, with the item's
    /// data, and what it returns decides as [`decide_spec`] says.
    pub fn dispatch(&self, item: Message<T>) -> (action: Action<T>)
        ensures
            exists|outcome: Result<(), Error>| #[trigger]
                self.answers(item@, outcome) && action@ == worker_step(
                    self@.dom(),
                    item@,
                    outcome,
                ),
            item@.wf(),
    {
        proof {
            use_type_invariant(&item);
        }
        if same_text(item.name(), EXIT) {
            assert(self.answers(item@, Ok(())));
            return Action::Stop;
        }
        match self.handler(item.name()) {
            None => {
                assert(self.answers(item@, Ok(())));
                Action::Unhandled(item)
            },
            Some(handler) => {
                let outcome = handler(item.message());
                assert(self.answers(item@, outcome));
                decide(item, outcome)
            },
        }
    }
}

/// The line that the worker reports when it could not put the failed `item`
/// back in the queue. The item is dropped then, and the worker goes on.
pub fn requeue_failure<T: Send + Sync>(item: &Message<T>) -> (line: String)
    ensures
        line@ == "Failed to requeue task for '"@ + item@.name + "': "@ + Error::SendError.text(),
{
    String::from_str("Failed to requeue task for '").concat(item.name()).concat("': ").concat(
        Error::SendError.to_string().as_str(),
    )
}

impl<T: Send + Sync> Action<T> {
    /// The line that the worker reports for this action, if it reports one.
    pub fn diagnostic(&self) -> (line: Option<String>)
        ensures
            line is Some <==> self@.diagnostic() is Some,
            line is Some ==> line->0@ == self@.diagnostic()->0,
    {
        match self {
            Action::Stop => None,
            Action::Completed => None,
            Action::Unhandled(item) => Some(
                String::from_str("No handler for message '").concat(item.name()).concat("'"),
            ),
            Action::Retry(item, error) => Some(
                String::from_str("Task for '").concat(item.name()).concat(
                    "' failed with error: '",
                ).concat(error.to_string().as_str()).concat("', retrying"),
            ),
            Action::Exhausted(item, error) => Some(
                String::from_str("Task for '").concat(item.name()).concat(
                    "' failed permanently with error: '",
                ).concat(error.to_string().as_str()).concat("'"),
            ),
        }
    }
}

} // verus!
