//! Work items.

use vstd::prelude::*;
use vstd::string::StringExecFns;

verus! {

/// The number of retries that a new work item starts with.
pub const DEFAULT_RETRIES: i32 = 10;

/// The reserved name that ends the worker. No handler can be registered under it.
pub const EXIT: &'static str = "exit";

/// A work item as a mathematical value.
pub struct MessageView<T> {
    /// The name of the handler that the item is meant for.
    pub name: Seq<char>,
    /// The data that the handler is given.
    pub message: Option<T>,
    /// How many more times the item may be tried after a failure.
    pub retries: int,
}

impl<T> MessageView<T> {
    /// The retry counter lies between zero and the default.
    pub open spec fn wf(self) -> bool {
        0 <= self.retries <= DEFAULT_RETRIES
    }

    /// Whether this is the item that ends the worker.
    pub open spec fn is_exit(self) -> bool {
        self.name == EXIT@
    }

    /// The item that takes this one's place after a failed attempt: the same
    /// name and data, with one retry fewer.
    pub open spec fn retried(self) -> MessageView<T> {
        MessageView { name: self.name, message: self.message, retries: self.retries - 1 }
    }

    /// A new item for the handler `name`.
    pub open spec fn fresh(name: Seq<char>, message: Option<T>) -> MessageView<T> {
        MessageView { name, message, retries: DEFAULT_RETRIES as int }
    }

    /// The item that ends the worker.
    pub open spec fn exit() -> MessageView<T> {
        MessageView { name: EXIT@, message: None, retries: 0 }
    }
}

/// One unit of work: the name of a handler, the data for it, and the number
/// of retries that are left.
///
/// The name and the data never change. A failed item is not altered: another
/// item with one retry fewer takes its place.
pub struct Message<T: Send + Sync> {
    name: String,
    message: Option<T>,
    retries: i32,
}

impl<T: Send + Sync> View for Message<T> {
    type V = MessageView<T>;

    closed spec fn view(&self) -> MessageView<T> {
        MessageView { name: self.name@, message: self.message, retries: self.retries as int }
    }
}

impl<T: Send + Sync> Message<T> {
    /// Every work item has a retry counter between zero and the default.
    #[verifier::type_invariant]
    pub open spec fn inv(&self) -> bool {
        self@.wf()
    }

    /// A new item for the handler `name`, with the default number of retries.
    pub fn new(name: String, message: Option<T>) -> (item: Message<T>)
        ensures
            item@ == MessageView::fresh(name@, message),
    {
        Message::<T> { name: name, message: message, retries: DEFAULT_RETRIES }
    }

    /// The item that ends the worker: the reserved name, no data, no retries.
    pub fn exit() -> (item: Message<T>)
        ensures
            item@ == MessageView::<T>::exit(),
    {
        Message::<T> { name: String::from_str(EXIT), message: None, retries: 0 }
    }

    /// The name of the handler that the item is meant for.
    pub fn name(&self) -> (name: &str)
        ensures
            name@ == self@.name,
    {
        self.name.as_str()
    }

    /// The data that the handler is given.
    pub fn message(&self) -> (message: &Option<T>)
        ensures
            *message == self@.message,
    {
        &self.message
    }

    /// How many more times the item may be tried after a failure.
    pub fn retries(&self) -> (retries: i32)
        ensures
            retries == self@.retries,
            self@.wf(),
    {
        proof {
            use_type_invariant(self);
        }
        self.retries
    }

    /// The item that takes this one's place after a failed attempt, or the
    /// item itself when no retry is left.
    pub fn retry(self) -> (next: Result<Message<T>, Message<T>>)
        ensures
            self@.retries > 0 ==> next is Ok && next->Ok_0@ == self@.retried(),
            self@.retries <= 0 ==> next == Err::<Message<T>, Message<T>>(self),
            self@.wf(),
    {
        proof {
            use_type_invariant(&self);
        }
        if self.retries > 0 {
            Ok(Message::<T> { name: self.name, message: self.message, retries: self.retries - 1 })
        } else {
            Err(self)
        }
    }
}

} // verus!
