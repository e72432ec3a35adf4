use vstd::prelude::*;

verus! {

/// A handler that answers a method name and request bytes with result bytes
/// or an error message.
pub trait GeneratedService: Sized {
    /// What the handler answers, in its present state, to `method` with
    /// `data`.
    spec fn answer(&self, method: Seq<char>, data: Seq<u8>) -> Result<Seq<u8>, Seq<char>>;

    /// The handler's state after it answered `method` with `data`.
    spec fn after(&self, method: Seq<char>, data: Seq<u8>) -> Self;

    fn invoke(&mut self, method: &str, data: &[u8]) -> (r: Result<Vec<u8>, String>)
        ensures
            bytes_or_text(&r) == old(self).answer(method@, data@),
            *final(self) == old(self).after(method@, data@),
    ;
}

/// The model of a handler's result: the bytes, or the error text.
pub open spec fn bytes_or_text(r: &Result<Vec<u8>, String>) -> Result<Seq<u8>, Seq<char>> {
    match r {
        Ok(v) => Ok(v@),
        Err(e) => Err(e@),
    }
}

/// Why an invocation failed.
#[derive(Clone, Debug)]
pub enum DispatchError {
    /// No handler was registered.
    NoHandler,
    /// The handler reported a failure, with its message.
    HandlerError(String),
}

/// The model of a failed invocation.
pub enum Failure {
    NoHandler,
    HandlerError(Seq<char>),
}

/// The model of a dispatcher's result.
pub open spec fn dispatch_view(r: &Result<Vec<u8>, DispatchError>) -> Result<Seq<u8>, Failure> {
    match r {
        Ok(v) => Ok(v@),
        Err(DispatchError::NoHandler) => Err(Failure::NoHandler),
        Err(DispatchError::HandlerError(e)) => Err(Failure::HandlerError(e@)),
    }
}

/// What an invocation of `method` with `data` returns where the slot holds
/// `slot`.
pub open spec fn dispatched<S: GeneratedService>(slot: Option<S>, method: Seq<char>, data: Seq<u8>) -> Result<
    Seq<u8>,
    Failure,
> {
    match slot {
        None => Err(Failure::NoHandler),
        Some(h) => match h.answer(method, data) {
            Ok(b) => Ok(b),
            Err(e) => Err(Failure::HandlerError(e)),
        },
    }
}

/// The slot after `service` was registered: the earlier content is gone.
pub open spec fn registered<S>(slot: Option<S>, service: S) -> Option<S> {
    Some(service)
}

/// The slot after an invocation of `method` with `data`.
pub open spec fn slot_after<S: GeneratedService>(slot: Option<S>, method: Seq<char>, data: Seq<u8>) -> Option<S> {
    match slot {
        None => None,
        Some(h) => Some(h.after(method, data)),
    }
}

/// The single handler slot, empty until a handler is registered.
pub struct Dispatcher<S> {
    slot: Option<S>,
}

impl<S> View for Dispatcher<S> {
    type V = Option<S>;

    closed spec fn view(&self) -> Option<S> {
        self.slot
    }
}

impl<S: GeneratedService> Dispatcher<S> {
    /// A dispatcher with no handler.
    pub fn new() -> (r: Dispatcher<S>)
        ensures
            r@ == None::<S>,
    {
        Dispatcher { slot: None }
    }

    /// Puts `service` in the slot, in place of any earlier handler.
    pub fn register(&mut self, service: S)
        ensures
            final(self)@ == registered(old(self)@, service),
    {
        self.slot = Some(service);
    }

    /// Whether a handler is registered.
    pub fn is_registered(&self) -> (r: bool)
        ensures
            r == self@ is Some,
    {
        self.slot.is_some()
    }

    /// Hands `method` and `data` to the registered handler; fails with
    /// `NoHandler` where there is none, and with `HandlerError` where the
    /// handler fails.
    pub fn invoke(&mut self, method: &str, data: &[u8]) -> (r: Result<Vec<u8>, DispatchError>)
        ensures
            dispatch_view(&r) == dispatched(old(self)@, method@, data@),
            final(self)@ == slot_after(old(self)@, method@, data@),
    {
        match &mut self.slot {
            None => Err(DispatchError::NoHandler),
            Some(h) => match h.invoke(method, data) {
                Ok(v) => Ok(v),
                Err(e) => Err(DispatchError::HandlerError(e)),
            },
        }
    }
}

/// Before any registration every invocation fails with `NoHandler`, and the
/// slot stays empty.
pub proof fn lemma_unregistered_fails<S: GeneratedService>(method: Seq<char>, data: Seq<u8>)
    ensures
        dispatched(None::<S>, method, data) == Err::<Seq<u8>, Failure>(Failure::NoHandler),
        slot_after(None::<S>, method, data) == None::<S>,
{
}

/// After `a` and then `b` are registered, an invocation gets `b`'s answer,
/// whatever the slot held before and whatever `a` is.
pub proof fn lemma_last_writer_wins<S: GeneratedService>(
    slot: Option<S>,
    a: S,
    b: S,
    method: Seq<char>,
    data: Seq<u8>,
)
    ensures
        registered(registered(slot, a), b) == Some(b),
        dispatched(registered(registered(slot, a), b), method, data) == match b.answer(
            method,
            data,
        ) {
            Ok(v) => Ok::<Seq<u8>, Failure>(v),
            Err(e) => Err(Failure::HandlerError(e)),
        },
        slot_after(registered(registered(slot, a), b), method, data) == Some(b.after(method, data)),
{
}

} // verus!
