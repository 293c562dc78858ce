//! Sinks for the kaze edge, and the state machine that adapts a sink
//! whose `send` returns a future to the poll-based sink protocol
//! (ready, start send, flush, close).
//!
//! The futures themselves are driven by the caller: a wrapper in the
//! `Sending` state holds one in-flight send, and the caller reports how
//! polling it went.
use vstd::prelude::*;

verus! {

/// A sink made of a function from items to send futures.
pub struct SinkFn<T> {
    f: T,
}

impl<T> SinkFn<T> {
    /// The send function.
    pub closed spec fn spec_fn(&self) -> T {
        self.f
    }

    /// A sink that sends each item by calling `f`.
    pub fn new(f: T) -> (r: Self)
        ensures
            r.spec_fn() == f,
    {
        SinkFn { f }
    }

    /// The send function, to call with an item.
    pub fn send_fn(&mut self) -> (r: &mut T)
        ensures
            *r == old(self).spec_fn(),
            final(self).spec_fn() == *final(r),
    {
        &mut self.f
    }
}

/// A sink of items: `send` starts sending one and returns what completes
/// the send.
pub trait Sink<Item>: Sized {
    /// The error of a failed send.
    type Error;
    /// What `send` returns: the send in flight.
    type Future: core::future::Future<Output = Result<(), Self::Error>>;

    /// Whether `send` may be called with `item`.
    spec fn send_ok(&self, item: Item) -> bool;

    /// Start sending `item`.
    fn send(&mut self, item: Item) -> Self::Future
        requires
            old(self).send_ok(item),
    ;
}

impl<T, F, Item, E> Sink<Item> for SinkFn<T> where
    T: FnMut(Item) -> F,
    F: core::future::Future<Output = Result<(), E>>,
 {
    type Error = E;
    type Future = F;

    open spec fn send_ok(&self, item: Item) -> bool {
        call_requires(self.spec_fn(), (item,))
    }

    /// Calls the send function with `item`.
    fn send(&mut self, item: Item) -> (r: F)
        ensures
            call_ensures(old(self).spec_fn(), (item,), r),
    {
        (self.f)(item)
    }
}

/// A sink that sends each item by calling `f`.
pub fn sink_fn<T>(f: T) -> (r: SinkFn<T>)
    ensures
        r.spec_fn() == f,
{
    SinkFn::new(f)
}

/// State of a sink wrapper.
#[derive(Clone, Copy, PartialEq, Eq, Structural)]
pub enum State {
    /// Ready to accept a new item.
    Idle,
    /// A send is in flight.
    Sending,
    /// Closed: no more items are accepted.
    Closed,
}

/// How polling the in-flight send went.
#[derive(Clone, Copy, PartialEq, Eq, Structural)]
pub enum SendPoll {
    /// Not finished yet.
    Pending,
    /// Finished successfully.
    Sent,
    /// Finished with an error.
    Failed,
}

/// Answer of the wrapper to a poll.
#[derive(Clone, Copy, PartialEq, Eq, Structural)]
pub enum SinkPoll {
    /// Ready: `Ok(())`.
    Ready,
    /// Not ready yet.
    Pending,
    /// The in-flight send failed; its error is returned.
    SendError,
    /// The sink is closed.
    ClosedError,
}

/// The wrapper refuses an item: it is sending or closed.
#[derive(Clone, Copy, Debug, PartialEq, Eq, Structural)]
pub struct NotReady;

/// Next state and answer of `poll_ready`. `fut` is how polling the
/// in-flight send went; it is only looked at in the `Sending` state. A
/// finished send, failed or not, returns the wrapper to idle.
pub open spec fn spec_poll_ready(state: State, fut: SendPoll) -> (State, SinkPoll) {
    match state {
        State::Idle => (State::Idle, SinkPoll::Ready),
        State::Sending => match fut {
            SendPoll::Pending => (State::Sending, SinkPoll::Pending),
            SendPoll::Sent => (State::Idle, SinkPoll::Ready),
            SendPoll::Failed => (State::Idle, SinkPoll::SendError),
        },
        State::Closed => (State::Closed, SinkPoll::ClosedError),
    }
}

/// Next state and answer of `poll_flush`: a finished send, failed or not,
/// returns the wrapper to idle.
pub open spec fn spec_poll_flush(state: State, fut: SendPoll) -> (State, SinkPoll) {
    match state {
        State::Sending => match fut {
            SendPoll::Pending => (State::Sending, SinkPoll::Pending),
            SendPoll::Sent => (State::Idle, SinkPoll::Ready),
            SendPoll::Failed => (State::Idle, SinkPoll::SendError),
        },
        _ => (state, SinkPoll::Ready),
    }
}

/// Next state and answer of `poll_close`: a failed send returns the wrapper
/// to idle and reports the error.
pub open spec fn spec_poll_close(state: State, fut: SendPoll) -> (State, SinkPoll) {
    match state {
        State::Idle => (State::Closed, SinkPoll::Ready),
        State::Sending => match fut {
            SendPoll::Pending => (State::Sending, SinkPoll::Pending),
            SendPoll::Sent => (State::Closed, SinkPoll::Ready),
            SendPoll::Failed => (State::Idle, SinkPoll::SendError),
        },
        State::Closed => (State::Closed, SinkPoll::Ready),
    }
}

/// A sink and the state of its wrapper.
pub struct SinkWrapper<S> {
    sink: S,
    state: State,
}

impl<S> SinkWrapper<S> {
    pub closed spec fn spec_state(&self) -> State {
        self.state
    }

    pub closed spec fn spec_sink(&self) -> S {
        self.sink
    }

    /// Wrap `sink`, ready to accept an item.
    pub fn new(sink: S) -> (r: Self)
        ensures
            r.spec_state() == State::Idle,
            r.spec_sink() == sink,
    {
        SinkWrapper { sink, state: State::Idle }
    }

    /// The current state.
    pub fn state(&self) -> (r: State)
        ensures
            r == self.spec_state(),
    {
        self.state
    }

    /// The wrapped sink, to start a send with.
    pub fn sink_mut(&mut self) -> (r: &mut S)
        ensures
            *r == old(self).spec_sink(),
            final(self).spec_sink() == *final(r),
            final(self).spec_state() == old(self).spec_state(),
    {
        &mut self.sink
    }

    /// Whether there is an in-flight send to poll.
    pub fn is_sending(&self) -> (r: bool)
        ensures
            r == (self.spec_state() == State::Sending),
    {
        match self.state {
            State::Sending => true,
            _ => false,
        }
    }

    /// Ready when idle; when sending, ready once the send has finished
    /// successfully; an error when the send failed or the sink is closed.
    pub fn poll_ready(&mut self, fut: SendPoll) -> (r: SinkPoll)
        ensures
            (final(self).spec_state(), r) == spec_poll_ready(old(self).spec_state(), fut),
            final(self).spec_sink() == old(self).spec_sink(),
    {
        match self.state {
            State::Idle => SinkPoll::Ready,
            State::Sending => match fut {
                SendPoll::Pending => SinkPoll::Pending,
                SendPoll::Sent => {
                    self.state = State::Idle;
                    SinkPoll::Ready
                },
                SendPoll::Failed => {
                    self.state = State::Idle;
                    SinkPoll::SendError
                },
            },
            State::Closed => SinkPoll::ClosedError,
        }
    }

    /// Accept an item when idle: the caller starts its send and the wrapper
    /// enters the sending state. Otherwise the item is refused.
    pub fn start_send(&mut self) -> (r: Result<(), NotReady>)
        ensures
            r is Ok <==> old(self).spec_state() == State::Idle,
            final(self).spec_state() == if old(self).spec_state() == State::Idle {
                State::Sending
            } else {
                old(self).spec_state()
            },
            final(self).spec_sink() == old(self).spec_sink(),
    {
        match self.state {
            State::Idle => {
                self.state = State::Sending;
                Ok(())
            },
            _ => Err(NotReady),
        }
    }

    /// Wait for the in-flight send, if any. A send that finished, failed
    /// or not, leaves the wrapper idle, as in `poll_ready` and `poll_close`:
    /// a finished send is never polled again, and the next item can be
    /// started.
    pub fn poll_flush(&mut self, fut: SendPoll) -> (r: SinkPoll)
        ensures
            (final(self).spec_state(), r) == spec_poll_flush(old(self).spec_state(), fut),
            final(self).spec_sink() == old(self).spec_sink(),
    {
        match self.state {
            State::Sending => match fut {
                SendPoll::Pending => SinkPoll::Pending,
                SendPoll::Sent => {
                    self.state = State::Idle;
                    SinkPoll::Ready
                },
                SendPoll::Failed => {
                    self.state = State::Idle;
                    SinkPoll::SendError
                },
            },
            _ => SinkPoll::Ready,
        }
    }

    /// Finish the in-flight send, if any, then close.
    pub fn poll_close(&mut self, fut: SendPoll) -> (r: SinkPoll)
        ensures
            (final(self).spec_state(), r) == spec_poll_close(old(self).spec_state(), fut),
            final(self).spec_sink() == old(self).spec_sink(),
    {
        match self.state {
            State::Idle => {
                self.state = State::Closed;
                SinkPoll::Ready
            },
            State::Sending => match fut {
                SendPoll::Pending => SinkPoll::Pending,
                SendPoll::Sent => {
                    self.state = State::Closed;
                    SinkPoll::Ready
                },
                SendPoll::Failed => {
                    self.state = State::Idle;
                    SinkPoll::SendError
                },
            },
            State::Closed => SinkPoll::Ready,
        }
    }
}

impl<S> SinkWrapper<S> {
    /// Accept `item` when idle: start its send on the wrapped sink, enter
    /// the sending state and hand back the send in flight, for the caller
    /// to drive and report on. Otherwise the item is refused.
    pub fn send_item<Item>(&mut self, item: Item) -> (r: Result<S::Future, NotReady>) where
        S: Sink<Item>,
        requires
            old(self).spec_sink().send_ok(item),
        ensures
            r is Ok <==> old(self).spec_state() == State::Idle,
            final(self).spec_state() == if old(self).spec_state() == State::Idle {
                State::Sending
            } else {
                old(self).spec_state()
            },
            r is Err ==> final(self).spec_sink() == old(self).spec_sink(),
    {
        match self.state {
            State::Idle => {
                let fut = self.sink.send(item);
                self.state = State::Sending;
                Ok(fut)
            },
            _ => Err(NotReady),
        }
    }
}

/// A closed sink stays closed and refuses every item: polling it for
/// readiness is an error, flushing and closing it again succeed.
pub proof fn law_closed_is_final(fut: SendPoll)
    ensures
        spec_poll_ready(State::Closed, fut) == (State::Closed, SinkPoll::ClosedError),
        spec_poll_flush(State::Closed, fut) == (State::Closed, SinkPoll::Ready),
        spec_poll_close(State::Closed, fut) == (State::Closed, SinkPoll::Ready),
{
}

/// Whatever the state, a close that returns `Ready` leaves the sink closed,
/// and a ready poll that returns `Ready` leaves it idle.
pub proof fn law_ready_answers(state: State, fut: SendPoll)
    ensures
        spec_poll_close(state, fut).1 == SinkPoll::Ready ==> spec_poll_close(state, fut).0
            == State::Closed,
        spec_poll_ready(state, fut).1 == SinkPoll::Ready ==> spec_poll_ready(state, fut).0
            == State::Idle,
        spec_poll_flush(state, fut).1 == SinkPoll::Ready ==> spec_poll_flush(state, fut).0
            != State::Sending,
{
}

/// What a poll answers, state by state. An idle wrapper is ready; while a
/// send is in flight, polling for readiness or flushing answers pending as
/// long as the send is, ready (and idle) once it finished successfully,
/// and the send's error (and idle) only when it failed. A send error is
/// never answered but for a failed send in flight, and a closed error only
/// by a closed wrapper asked for readiness.
pub proof fn law_poll_outcomes(state: State, fut: SendPoll)
    ensures
        state == State::Idle ==> spec_poll_ready(state, fut) == (State::Idle, SinkPoll::Ready),
        state == State::Idle ==> spec_poll_flush(state, fut) == (State::Idle, SinkPoll::Ready),
        state == State::Idle ==> spec_poll_close(state, fut) == (State::Closed, SinkPoll::Ready),
        state == State::Sending && fut == SendPoll::Sent ==> spec_poll_ready(state, fut) == (
            State::Idle,
            SinkPoll::Ready,
        ),
        state == State::Sending && fut == SendPoll::Sent ==> spec_poll_flush(state, fut) == (
            State::Idle,
            SinkPoll::Ready,
        ),
        state == State::Sending && fut == SendPoll::Sent ==> spec_poll_close(state, fut) == (
            State::Closed,
            SinkPoll::Ready,
        ),
        state == State::Sending && fut == SendPoll::Pending ==> spec_poll_ready(state, fut) == (
            State::Sending,
            SinkPoll::Pending,
        ),
        state == State::Sending && fut == SendPoll::Pending ==> spec_poll_flush(state, fut) == (
            State::Sending,
            SinkPoll::Pending,
        ),
        state == State::Sending && fut == SendPoll::Pending ==> spec_poll_close(state, fut) == (
            State::Sending,
            SinkPoll::Pending,
        ),
        (spec_poll_ready(state, fut).1 == SinkPoll::SendError) <==> (state == State::Sending && fut
            == SendPoll::Failed),
        (spec_poll_flush(state, fut).1 == SinkPoll::SendError) <==> (state == State::Sending && fut
            == SendPoll::Failed),
        (spec_poll_close(state, fut).1 == SinkPoll::SendError) <==> (state == State::Sending && fut
            == SendPoll::Failed),
        spec_poll_ready(state, fut).1 == SinkPoll::SendError ==> spec_poll_ready(state, fut).0
            == State::Idle,
        (spec_poll_ready(state, fut).1 == SinkPoll::ClosedError) <==> (state == State::Closed),
        spec_poll_flush(state, fut).1 != SinkPoll::ClosedError,
        spec_poll_close(state, fut).1 != SinkPoll::ClosedError,
{
}

} // verus!
