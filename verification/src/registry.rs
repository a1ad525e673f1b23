//! The registry of handlers.

use crate::error::Error;
use crate::message::EXIT;
use crate::text::same_text;
use std::marker::PhantomData;
use vstd::hash_map::StringHashMap;
use vstd::prelude::*;

verus! {

/// What registering `handler` under `name` does to the handlers `before`: the
/// reserved name and a name that is taken leave them as they are.
pub open spec fn registered<H>(before: Map<Seq<char>, H>, name: Seq<char>, handler: H) -> Map<
    Seq<char>,
    H,
> {
    if name == EXIT@ || before.contains_key(name) {
        before
    } else {
        before.insert(name, handler)
    }
}

/// The answer to registering a handler under `name` where `before` are
/// registered: the reserved name is refused first, then a name that is taken.
pub open spec fn registration<H>(before: Map<Seq<char>, H>, name: String) -> Result<(), Error> {
    if name@ == EXIT@ {
        Err(Error::ExitHandler)
    } else if before.contains_key(name@) {
        Err(Error::DuplicateHandler(name))
    } else {
        Ok(())
    }
}

/// The handlers of a dispatcher, each under its name.
///
/// It is filled before the worker starts and only read afterwards. A handler
/// takes the data of a work item and says whether it could process it.
#[verifier::reject_recursive_types(H)]
pub struct InitialConfig<T: Send + Sync, H: Fn(&Option<T>) -> Result<(), Error>> {
    handlers: StringHashMap<H>,
    data: PhantomData<T>,
}

impl<T: Send + Sync, H: Fn(&Option<T>) -> Result<(), Error>> View for InitialConfig<T, H> {
    type V = Map<Seq<char>, H>;

    closed spec fn view(&self) -> Map<Seq<char>, H> {
        self.handlers@
    }
}

/// Whether `handler` may be called with any data.
pub open spec fn accepts_all<T, H: Fn(&Option<T>) -> Result<(), Error>>(handler: H) -> bool {
    forall|data: &Option<T>| call_requires(handler, (data,))
}

impl<T: Send + Sync, H: Fn(&Option<T>) -> Result<(), Error>> InitialConfig<T, H> {
    #[verifier::type_invariant]
    spec fn inv(&self) -> bool {
        &&& !self.handlers@.contains_key(EXIT@)
        &&& forall|name: Seq<char>| #[trigger]
            self.handlers@.contains_key(name) ==> accepts_all::<T, H>(self.handlers@[name])
    }

    /// A registry without handlers.
    pub fn new() -> (config: Self)
        ensures
            config@ == Map::<Seq<char>, H>::empty(),
    {
        InitialConfig { handlers: StringHashMap::new(), data: PhantomData }
    }

    /// Registers `handler` under `name`.
    ///
    /// The reserved name is refused, and so is a name that already has a
    /// handler: the registry is then left as it was. The handler has to be
    /// one that may be called with any data, as the worker will call it with
    /// whatever the items for it carry.
    pub fn register_handler(&mut self, name: String, handler: H) -> (result: Result<(), Error>)
        requires
            accepts_all::<T, H>(handler),
        ensures
            result == registration(old(self)@, name),
            final(self)@ == registered(old(self)@, name@, handler),
            name@ == EXIT@ ==> result == Err::<(), Error>(Error::ExitHandler),
            result is Err ==> final(self)@ == old(self)@,
    {
        proof {
            use_type_invariant(&*self);
        }
        if same_text(name.as_str(), EXIT) {
            return Err(Error::ExitHandler);
        }
        if self.handlers.contains_key(name.as_str()) {
            return Err(Error::DuplicateHandler(name));
        }
        // The map is taken out while it grows, so that the registry is whole
        // at every call.
        let mut handlers = StringHashMap::new();
        std::mem::swap(&mut self.handlers, &mut handlers);
        handlers.insert(name, handler);
        std::mem::swap(&mut self.handlers, &mut handlers);
        Ok(())
    }

    /// The handler registered under `name`, if there is one. None is ever
    /// found under the reserved name.
    pub fn handler(&self, name: &str) -> (found: Option<&H>)
        ensures
            found is Some <==> self@.contains_key(name@),
            found is Some ==> *found->0 == self@[name@] && accepts_all::<T, H>(*found->0),
            !self@.contains_key(EXIT@),
    {
        proof {
            use_type_invariant(self);
        }
        self.handlers.get(name)
    }
}

/// The reserved name is refused whatever is registered and whatever the
/// handler is, and the registry stays as it was.
pub proof fn lemma_reserved_name_is_refused<H>(before: Map<Seq<char>, H>, name: String, handler: H)
    requires
        name@ == EXIT@,
    ensures
        registration(before, name) == Err::<(), Error>(Error::ExitHandler),
        registered(before, name@, handler) == before,
{
}

/// Of two registrations under one name the second is refused as a
/// duplicate, and the handler of the first stays under the name.
pub proof fn lemma_second_registration_is_refused<H>(
    before: Map<Seq<char>, H>,
    name: String,
    again: String,
    first: H,
    second: H,
)
    requires
        registration(before, name) is Ok,
        again@ == name@,
    ensures
        registration(registered(before, name@, first), again) == Err::<(), Error>(
            Error::DuplicateHandler(again),
        ),
        registered(registered(before, name@, first), again@, second) == registered(
            before,
            name@,
            first,
        ),
        registered(before, name@, first)[name@] == first,
{
}

} // verus!
