//! Feeding a body into a flow-controlled HTTP/2 stream.
//!
//! [`PipeToSendStream`] takes every decision: what to ask of the body and of
//! the stream, in which order, and how to go on from each answer. It performs
//! none of that work itself. Each call of [`PipeToSendStream::poll`] takes the
//! answer to the last [`Action`] and returns the next one.

use vstd::prelude::*;

use crate::data_buf::DataBuf;
use crate::send_buf::SendBuf;

verus! {

/// The reason code of a stream reset that no other code describes better.
pub const INTERNAL_ERROR: u32 = 2;

/// The answer to a request that can be made again later.
pub enum Polled<A> {
    /// There is no answer yet. The task is woken when asking again makes sense.
    Pending,
    /// The answer.
    Ready(A),
}

/// What a body produces.
pub enum Frame<B, T> {
    /// A chunk of data, and whether the body ends with it.
    Data(B, bool),
    /// The trailers, after which nothing follows.
    Trailers(T),
    /// A frame of a kind that is not known.
    Other,
}

/// The failure of a body: its error, and the reason code found in the causes
/// of the error, if there is one.
pub struct BodyFailure<U> {
    /// The error.
    pub error: U,
    /// The reason code found in its causes.
    pub reason: Option<u32>,
}

/// Why a body could not be written to its stream.
pub enum WriteCause<E> {
    /// The stream reported an error.
    Stream(E),
    /// The peer reset the stream, with this reason code.
    Reset(u32),
    /// The stream closed while it was asked for capacity.
    CapacityClosed,
}

/// How a transfer can fail.
pub enum PipeError<E, U> {
    /// The body could not be written.
    BodyWrite(WriteCause<E>),
    /// The body itself failed.
    UserBody(U),
}

/// What is to be done next.
pub enum Action<B, T, E, U> {
    /// Request this much send capacity in all. Answered by [`Event::Reserved`].
    ReserveCapacity(usize),
    /// Read the capacity that is assigned. Answered by [`Event::Capacity`].
    QueryCapacity,
    /// Wait for more capacity. Answered by [`Event::CapacityPolled`].
    PollCapacity,
    /// Ask whether the peer reset the stream. Answered by [`Event::ResetPolled`].
    PollReset,
    /// Ask the body for its next frame. Answered by [`Event::FramePolled`].
    PollFrame,
    /// Send data, and end the stream with it if the flag is set. Answered by [`Event::Sent`].
    SendData(SendBuf<B>, bool),
    /// Send trailers, which end the stream. Answered by [`Event::Sent`].
    SendTrailers(T),
    /// Reset the stream with this reason code. Answered by [`Event::ResetSent`].
    SendReset(u32),
    /// Give up control until woken. Answered by [`Event::Woken`].
    Suspend,
    /// The transfer is over.
    Finish(Result<(), PipeError<E, U>>),
}

/// The answer to an action.
pub enum Event<B, T, E, U> {
    /// The task runs, for the first time or after it was suspended.
    Woken,
    /// The capacity was requested.
    Reserved,
    /// The capacity that is assigned.
    Capacity(usize),
    /// The capacity that has become available, an error, or nothing once the stream is closed.
    CapacityPolled(Polled<Option<Result<usize, E>>>),
    /// The reason code with which the peer reset the stream, or an error.
    ResetPolled(Polled<Result<u32, E>>),
    /// The next frame, the failure of the body, or nothing once the body has ended.
    FramePolled(Polled<Option<Result<Frame<B, T>, BodyFailure<U>>>>),
    /// Whether the stream accepted what was sent.
    Sent(Result<(), E>),
    /// The stream was reset.
    ResetSent,
}

/// The action whose answer is awaited, with what it concerns.
pub enum Phase<B, T, U> {
    /// None: the task is not running.
    Idle,
    /// Requesting capacity for the pending data.
    ReservePending,
    /// Reading the capacity for the pending data.
    CheckPending,
    /// Waiting for capacity for the pending data.
    AwaitCapacity,
    /// Asking for a reset.
    CheckReset,
    /// Asking the body.
    AwaitFrame,
    /// Requesting capacity for a chunk that the body has just produced; the
    /// flag tells whether the body ends with it.
    ReserveChunk(SendBuf<B>, bool),
    /// Reading the capacity for such a chunk, which is not the last one.
    CheckChunk(SendBuf<B>),
    /// Giving capacity back before trailers are sent.
    ReleaseCapacity(T),
    /// Sending; the flag tells whether that ends the stream.
    Sending(bool),
    /// Resetting the stream because the body failed.
    ResetStream(U),
    /// The transfer is over.
    Done,
}

/// The transfer of a body into a stream.
pub struct PipeToSendStream<B, T, U> {
    /// A chunk that waits for capacity, and whether the stream ends with it.
    /// Capacity is requested only for data that is there to be sent.
    pub pending_data: Option<(SendBuf<B>, bool)>,
    /// The action whose answer is awaited.
    pub phase: Phase<B, T, U>,
}

/// The reason code to reset a stream with, given the one found in the causes of an error.
pub fn h2_reason(found: Option<u32>) -> (reason: u32)
    ensures
        reason == spec_h2_reason(found),
        found matches Some(code) ==> reason == code,
        found is None ==> reason == 2,
{
    match found {
        Some(reason) => reason,
        None => INTERNAL_ERROR,
    }
}

/// The reason code that was found, or the one for an internal error.
pub open spec fn spec_h2_reason(found: Option<u32>) -> u32 {
    match found {
        Some(reason) => reason,
        None => INTERNAL_ERROR,
    }
}

/// A reason code that was found is kept, whatever it is: no two of them are
/// taken for one another, and none is replaced by the code for an internal
/// error, 2, which stands for a missing one only.
pub proof fn law_found_reason_is_kept(found: u32)
    ensures
        spec_h2_reason(Some(found)) == found,
        spec_h2_reason(None) == 2,
{
}

impl<B: DataBuf, T, U> PipeToSendStream<B, T, U> {
    /// In the phases that concern pending data there is some, and in all other phases of a
    /// running task there is none.
    pub open spec fn wf(&self) -> bool {
        match self.phase {
            Phase::Idle => true,
            Phase::ReservePending | Phase::CheckPending | Phase::AwaitCapacity => self.pending_data is Some,
            _ => self.pending_data is None,
        }
    }

    /// `event` is an answer to the action that is awaited.
    pub open spec fn accepts<E>(&self, event: Event<B, T, E, U>) -> bool {
        match self.phase {
            Phase::Idle => event is Woken,
            Phase::ReservePending => event is Reserved,
            Phase::CheckPending => event is Capacity,
            Phase::AwaitCapacity => event is CapacityPolled,
            Phase::CheckReset => event is ResetPolled,
            Phase::AwaitFrame => event is FramePolled,
            Phase::ReserveChunk(_, _) => event is Reserved,
            Phase::CheckChunk(_) => event is Capacity,
            Phase::ReleaseCapacity(_) => event is Reserved,
            Phase::Sending(_) => event is Sent,
            Phase::ResetStream(_) => event is ResetSent,
            Phase::Done => false,
        }
    }

    /// A transfer in this phase, with no data pending.
    pub open spec fn at(phase: Phase<B, T, U>) -> Self {
        PipeToSendStream { pending_data: None, phase }
    }

    /// The start of a round: pending data is sent first; without it, the
    /// stream is checked for a reset before the body is asked.
    pub open spec fn round<E>(pending_data: Option<(SendBuf<B>, bool)>) -> (Self, Action<B, T, E, U>) {
        match pending_data {
            Some((buf, _)) => (
                PipeToSendStream { pending_data, phase: Phase::ReservePending },
                Action::ReserveCapacity(buf.content().len() as usize),
            ),
            None => (Self::at(Phase::CheckReset), Action::PollReset),
        }
    }

    /// Waiting for capacity for the pending data, of which `available` is there.
    pub open spec fn with_capacity<E>(self, available: usize) -> (Self, Action<B, T, E, U>) {
        if available == 0 {
            (PipeToSendStream { phase: Phase::AwaitCapacity, ..self }, Action::PollCapacity)
        } else {
            let (buf, last) = self.pending_data->0;
            (Self::at(Phase::Sending(last)), Action::SendData(buf, last))
        }
    }

    /// The end of a transfer whose body cannot be written.
    pub open spec fn failed<E>(cause: WriteCause<E>) -> (Self, Action<B, T, E, U>) {
        (Self::at(Phase::Done), Action::Finish(Err(PipeError::BodyWrite(cause))))
    }

    /// What follows from a frame of the body.
    pub open spec fn framed<E>(frame: Frame<B, T>) -> (Self, Action<B, T, E, U>) {
        match frame {
            Frame::Data(chunk, last) => (
                Self::at(Phase::ReserveChunk(SendBuf::Buf(chunk), last)),
                Action::ReserveCapacity(chunk.content().len() as usize),
            ),
            Frame::Trailers(trailers) => (Self::at(Phase::ReleaseCapacity(trailers)), Action::ReserveCapacity(0)),
            Frame::Other => Self::round(None),
        }
    }

    /// The transfer after `event`, and the action that it asks for.
    pub open spec fn next<E>(self, event: Event<B, T, E, U>) -> (Self, Action<B, T, E, U>) {
        match (self.phase, event) {
            (Phase::Idle, Event::Woken) => Self::round(self.pending_data),
            (Phase::ReservePending, Event::Reserved) => (
                PipeToSendStream { phase: Phase::CheckPending, ..self },
                Action::QueryCapacity,
            ),
            (Phase::CheckPending, Event::Capacity(n)) => self.with_capacity(n),
            (Phase::AwaitCapacity, Event::CapacityPolled(polled)) => match polled {
                Polled::Pending => (PipeToSendStream { phase: Phase::Idle, ..self }, Action::Suspend),
                Polled::Ready(Some(Ok(n))) => self.with_capacity(n),
                Polled::Ready(Some(Err(e))) => Self::failed(WriteCause::Stream(e)),
                Polled::Ready(None) => Self::failed(WriteCause::CapacityClosed),
            },
            (Phase::CheckReset, Event::ResetPolled(polled)) => match polled {
                Polled::Pending => (Self::at(Phase::AwaitFrame), Action::PollFrame),
                Polled::Ready(Ok(reason)) => Self::failed(WriteCause::Reset(reason)),
                Polled::Ready(Err(e)) => Self::failed(WriteCause::Stream(e)),
            },
            (Phase::AwaitFrame, Event::FramePolled(polled)) => match polled {
                Polled::Pending => (Self::at(Phase::Idle), Action::Suspend),
                Polled::Ready(Some(Ok(frame))) => Self::framed(frame),
                Polled::Ready(Some(Err(failure))) => (
                    Self::at(Phase::ResetStream(failure.error)),
                    Action::SendReset(spec_h2_reason(failure.reason)),
                ),
                Polled::Ready(None) => (Self::at(Phase::Sending(true)), Action::SendData(SendBuf::Empty, true)),
            },
            (Phase::ReserveChunk(buf, last), Event::Reserved) => if last {
                (Self::at(Phase::Sending(true)), Action::SendData(buf, true))
            } else {
                (Self::at(Phase::CheckChunk(buf)), Action::QueryCapacity)
            },
            (Phase::CheckChunk(buf), Event::Capacity(n)) => if n >= buf.content().len() {
                (Self::at(Phase::Sending(false)), Action::SendData(buf, false))
            } else {
                Self::round(Some((buf, false)))
            },
            (Phase::ReleaseCapacity(trailers), Event::Reserved) => (
                Self::at(Phase::Sending(true)),
                Action::SendTrailers(trailers),
            ),
            (Phase::Sending(last), Event::Sent(sent)) => match sent {
                Err(e) => Self::failed(WriteCause::Stream(e)),
                Ok(_) => if last {
                    (Self::at(Phase::Done), Action::Finish(Ok(())))
                } else {
                    Self::round(None)
                },
            },
            (Phase::ResetStream(error), Event::ResetSent) => (
                Self::at(Phase::Done),
                Action::Finish(Err(PipeError::UserBody(error))),
            ),
            _ => (self, Action::Suspend),
        }
    }

    /// A transfer that has not begun.
    pub fn new() -> (pipe: Self)
        ensures
            pipe == Self::at(Phase::Idle),
            pipe.pending_data is None,
            pipe.phase is Idle,
            pipe.wf(),
    {
        PipeToSendStream { pending_data: None, phase: Phase::Idle }
    }

    /// Whether `event` is an answer to the action that is awaited.
    pub fn is_awaiting<E>(&self, event: &Event<B, T, E, U>) -> (accepted: bool)
        ensures
            accepted == self.accepts(*event),
    {
        match (&self.phase, event) {
            (Phase::Idle, Event::Woken) => true,
            (Phase::ReservePending, Event::Reserved) => true,
            (Phase::CheckPending, Event::Capacity(_)) => true,
            (Phase::AwaitCapacity, Event::CapacityPolled(_)) => true,
            (Phase::CheckReset, Event::ResetPolled(_)) => true,
            (Phase::AwaitFrame, Event::FramePolled(_)) => true,
            (Phase::ReserveChunk(_, _), Event::Reserved) => true,
            (Phase::CheckChunk(_), Event::Capacity(_)) => true,
            (Phase::ReleaseCapacity(_), Event::Reserved) => true,
            (Phase::Sending(_), Event::Sent(_)) => true,
            (Phase::ResetStream(_), Event::ResetSent) => true,
            _ => false,
        }
    }

    /// Begins a round.
    fn start_round<E>(&mut self) -> (action: Action<B, T, E, U>)
        ensures
            (*final(self), action) == Self::round::<E>(old(self).pending_data),
            final(self).wf(),
    {
        match &self.pending_data {
            Some((buf, _)) => {
                let len: usize = buf.remaining();
                self.phase = Phase::ReservePending;
                Action::ReserveCapacity(len)
            },
            None => {
                self.phase = Phase::CheckReset;
                Action::PollReset
            },
        }
    }

    /// Goes on with the pending data, given how much capacity there is for it.
    fn use_capacity<E>(&mut self, available: usize) -> (action: Action<B, T, E, U>)
        requires
            old(self).pending_data is Some,
        ensures
            (*final(self), action) == old(self).with_capacity::<E>(available),
            final(self).wf(),
    {
        if available == 0 {
            self.phase = Phase::AwaitCapacity;
            return Action::PollCapacity;
        }
        match self.pending_data.take() {
            Some((buf, last)) => {
                self.phase = Phase::Sending(last);
                Action::SendData(buf, last)
            },
            // There is pending data.
            None => Action::Suspend,
        }
    }

    /// Ends the transfer because the body cannot be written.
    fn fail<E>(&mut self, cause: WriteCause<E>) -> (action: Action<B, T, E, U>)
        ensures
            (*final(self), action) == Self::failed(cause),
            final(self).wf(),
    {
        self.pending_data = None;
        self.phase = Phase::Done;
        Action::Finish(Err(PipeError::BodyWrite(cause)))
    }

    /// Resets the stream because the body failed.
    fn on_user_err<E>(&mut self, failure: BodyFailure<U>) -> (action: Action<B, T, E, U>)
        requires
            old(self).pending_data is None,
        ensures
            *final(self) == Self::at(Phase::ResetStream(failure.error)),
            action == Action::<B, T, E, U>::SendReset(spec_h2_reason(failure.reason)),
            final(self).wf(),
    {
        self.phase = Phase::ResetStream(failure.error);
        Action::SendReset(h2_reason(failure.reason))
    }

    /// Ends the stream with an empty piece of data.
    fn send_eos_frame<E>(&mut self) -> (action: Action<B, T, E, U>)
        requires
            old(self).pending_data is None,
        ensures
            *final(self) == Self::at(Phase::Sending(true)),
            action == Action::<B, T, E, U>::SendData(SendBuf::Empty, true),
            final(self).wf(),
    {
        self.phase = Phase::Sending(true);
        Action::SendData(SendBuf::Empty, true)
    }

    /// Takes a frame of the body.
    fn take_frame<E>(&mut self, frame: Frame<B, T>) -> (action: Action<B, T, E, U>)
        requires
            old(self).pending_data is None,
        ensures
            (*final(self), action) == Self::framed::<E>(frame),
            final(self).wf(),
    {
        match frame {
            Frame::Data(chunk, last) => {
                let len: usize = chunk.remaining();
                self.phase = Phase::ReserveChunk(SendBuf::Buf(chunk), last);
                Action::ReserveCapacity(len)
            },
            Frame::Trailers(trailers) => {
                // No more data follows, so the capacity is given back.
                self.phase = Phase::ReleaseCapacity(trailers);
                Action::ReserveCapacity(0)
            },
            Frame::Other => self.start_round(),
        }
    }

    /// Takes the answer to the last action and returns the next one.
    pub fn poll<E>(&mut self, event: Event<B, T, E, U>) -> (action: Action<B, T, E, U>)
        requires
            old(self).wf(),
            old(self).accepts(event),
        ensures
            (*final(self), action) == old(self).next(event),
            final(self).wf(),
    {
        let mut phase = Phase::Idle;
        core::mem::swap(&mut phase, &mut self.phase);
        match (phase, event) {
            (Phase::Idle, Event::Woken) => self.start_round(),
            (Phase::ReservePending, Event::Reserved) => {
                self.phase = Phase::CheckPending;
                Action::QueryCapacity
            },
            (Phase::CheckPending, Event::Capacity(available)) => self.use_capacity(available),
            (Phase::AwaitCapacity, Event::CapacityPolled(polled)) => match polled {
                Polled::Pending => Action::Suspend,
                Polled::Ready(Some(Ok(available))) => self.use_capacity(available),
                Polled::Ready(Some(Err(e))) => self.fail(WriteCause::Stream(e)),
                Polled::Ready(None) => self.fail(WriteCause::CapacityClosed),
            },
            (Phase::CheckReset, Event::ResetPolled(polled)) => match polled {
                Polled::Pending => {
                    self.phase = Phase::AwaitFrame;
                    Action::PollFrame
                },
                Polled::Ready(Ok(reason)) => self.fail(WriteCause::Reset(reason)),
                Polled::Ready(Err(e)) => self.fail(WriteCause::Stream(e)),
            },
            (Phase::AwaitFrame, Event::FramePolled(polled)) => match polled {
                Polled::Pending => Action::Suspend,
                Polled::Ready(Some(Ok(frame))) => self.take_frame(frame),
                Polled::Ready(Some(Err(failure))) => self.on_user_err(failure),
                Polled::Ready(None) => self.send_eos_frame(),
            },
            (Phase::ReserveChunk(buf, last), Event::Reserved) => if last {
                // Nothing is reserved after the last chunk, so it need not
                // wait for capacity: the stream buffers it.
                self.phase = Phase::Sending(true);
                Action::SendData(buf, true)
            } else {
                self.phase = Phase::CheckChunk(buf);
                Action::QueryCapacity
            },
            (Phase::CheckChunk(buf), Event::Capacity(available)) => if available >= buf.remaining() {
                self.phase = Phase::Sending(false);
                Action::SendData(buf, false)
            } else {
                self.pending_data = Some((buf, false));
                self.start_round()
            },
            (Phase::ReleaseCapacity(trailers), Event::Reserved) => {
                self.phase = Phase::Sending(true);
                Action::SendTrailers(trailers)
            },
            (Phase::Sending(last), Event::Sent(sent)) => match sent {
                Err(e) => self.fail(WriteCause::Stream(e)),
                Ok(_) => if last {
                    self.phase = Phase::Done;
                    Action::Finish(Ok(()))
                } else {
                    self.start_round()
                },
            },
            (Phase::ResetStream(error), Event::ResetSent) => {
                self.phase = Phase::Done;
                Action::Finish(Err(PipeError::UserBody(error)))
            },
            // No other event is an answer to the action that is awaited.
            _ => Action::Suspend,
        }
    }
}

} // verus!
