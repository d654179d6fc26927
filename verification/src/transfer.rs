//! What holds of whole transfers, from the first event on.

use vstd::prelude::*;

use crate::data_buf::DataBuf;
use crate::pipe::{
    spec_h2_reason, Action, BodyFailure, Event, Frame, Phase, PipeError, PipeToSendStream, Polled, WriteCause,
};
use crate::send_buf::SendBuf;

verus! {

/// The transfer that a sequence of events leads to, and the actions it asked for, one per event.
pub open spec fn run<B: DataBuf, T, E, U>(events: Seq<Event<B, T, E, U>>) -> (
    PipeToSendStream<B, T, U>,
    Seq<Action<B, T, E, U>>,
)
    decreases events.len(),
{
    if events.len() == 0 {
        (PipeToSendStream::at(Phase::Idle), Seq::empty())
    } else {
        let (pipe, actions) = run(events.drop_last());
        let (after, action) = pipe.next(events.last());
        (after, actions.push(action))
    }
}

/// The transfer that a sequence of events leads to.
pub open spec fn reached<B: DataBuf, T, E, U>(events: Seq<Event<B, T, E, U>>) -> PipeToSendStream<B, T, U> {
    run(events).0
}

/// The actions that a transfer asked for, one per event.
pub open spec fn actions<B: DataBuf, T, E, U>(events: Seq<Event<B, T, E, U>>) -> Seq<Action<B, T, E, U>> {
    run(events).1
}

/// Each event is an answer to the action before it.
pub open spec fn possible<B: DataBuf, T, E, U>(events: Seq<Event<B, T, E, U>>) -> bool
    decreases events.len(),
{
    events.len() == 0 || possible(events.drop_last()) && reached(events.drop_last()).accepts(events.last())
}

/// The data that an event brings.
pub open spec fn data_of<B: DataBuf, T, E, U>(event: Event<B, T, E, U>) -> Seq<u8> {
    match event {
        Event::FramePolled(Polled::Ready(Some(Ok(Frame::Data(chunk, _))))) => chunk.content(),
        _ => Seq::empty(),
    }
}

/// All the data that the body has produced.
pub open spec fn received<B: DataBuf, T, E, U>(events: Seq<Event<B, T, E, U>>) -> Seq<u8>
    decreases events.len(),
{
    if events.len() == 0 {
        Seq::empty()
    } else {
        received(events.drop_last()) + data_of(events.last())
    }
}

/// The data that an action sends.
pub open spec fn data_sent_by<B: DataBuf, T, E, U>(action: Action<B, T, E, U>) -> Seq<u8> {
    match action {
        Action::SendData(buf, _) => buf.content(),
        _ => Seq::empty(),
    }
}

/// All the data that was handed to the stream.
pub open spec fn handed<B: DataBuf, T, E, U>(acts: Seq<Action<B, T, E, U>>) -> Seq<u8>
    decreases acts.len(),
{
    if acts.len() == 0 {
        Seq::empty()
    } else {
        handed(acts.drop_last()) + data_sent_by(acts.last())
    }
}

/// The data that the transfer has from the body and has not sent.
pub open spec fn in_hand<B: DataBuf, T, U>(pipe: PipeToSendStream<B, T, U>) -> Seq<u8> {
    match (pipe.phase, pipe.pending_data) {
        (Phase::ReserveChunk(buf, _), _) => buf.content(),
        (Phase::CheckChunk(buf), _) => buf.content(),
        (_, Some((buf, _))) => buf.content(),
        _ => Seq::empty(),
    }
}

/// The capacity that is requested and not used: the last request, until something is sent.
pub open spec fn requested<B: DataBuf, T, E, U>(acts: Seq<Action<B, T, E, U>>) -> nat
    decreases acts.len(),
{
    if acts.len() == 0 {
        0
    } else {
        match acts.last() {
            Action::ReserveCapacity(n) => n as nat,
            Action::SendData(_, _) => 0,
            _ => requested(acts.drop_last()),
        }
    }
}

/// The action ends the stream.
pub open spec fn ends_stream<B: DataBuf, T, E, U>(action: Action<B, T, E, U>) -> bool {
    match action {
        Action::SendData(_, last) => last,
        Action::SendTrailers(_) => true,
        Action::SendReset(_) => true,
        _ => false,
    }
}

/// Every buffer is of a size that memory can hold. `DataBuf::remaining` has
/// this as a consequence for every buffer that exists.
pub open spec fn sized<B: DataBuf, T, E, U>(events: Seq<Event<B, T, E, U>>) -> bool {
    forall|i: int| 0 <= i < events.len() ==> data_of(#[trigger] events[i]).len() <= usize::MAX
}

/// The event is of the kind that answers the action.
pub open spec fn answers<B: DataBuf, T, E, U>(action: Action<B, T, E, U>, event: Event<B, T, E, U>) -> bool {
    match action {
        Action::ReserveCapacity(_) => event is Reserved,
        Action::QueryCapacity => event is Capacity,
        Action::PollCapacity => event is CapacityPolled,
        Action::PollReset => event is ResetPolled,
        Action::PollFrame => event is FramePolled,
        Action::SendData(_, _) => event is Sent,
        Action::SendTrailers(_) => event is Sent,
        Action::SendReset(_) => event is ResetSent,
        Action::Suspend => event is Woken,
        Action::Finish(_) => false,
    }
}

/// The phase in which a transfer awaits the answer to `action`.
pub(crate) open spec fn awaits<B: DataBuf, T, E, U>(pipe: PipeToSendStream<B, T, U>, action: Action<B, T, E, U>) -> bool {
    match action {
        Action::ReserveCapacity(n) => {
            ||| pipe.phase is ReservePending
            ||| pipe.phase is ReserveChunk
            ||| pipe.phase is ReleaseCapacity && n == 0
        },
        Action::QueryCapacity => pipe.phase is CheckPending || pipe.phase is CheckChunk,
        Action::PollCapacity => pipe.phase is AwaitCapacity,
        Action::PollReset => pipe.phase is CheckReset,
        Action::PollFrame => pipe.phase is AwaitFrame,
        Action::SendData(_, last) => pipe.phase == Phase::<B, T, U>::Sending(last),
        Action::SendTrailers(_) => pipe.phase == Phase::<B, T, U>::Sending(true),
        Action::SendReset(_) => pipe.phase is ResetStream,
        Action::Suspend => pipe.phase is Idle,
        Action::Finish(_) => pipe.phase is Done,
    }
}

/// A transfer is well-formed, asks for one action per event, and awaits the answer to the last one.
pub(crate) proof fn lemma_run<B: DataBuf, T, E, U>(events: Seq<Event<B, T, E, U>>)
    requires
        possible(events),
    ensures
        reached(events).wf(),
        actions(events).len() == events.len(),
        events.len() > 0 ==> awaits(reached(events), actions(events).last()),
        events.len() == 0 ==> reached(events).phase is Idle,
    decreases events.len(),
{
    if events.len() > 0 {
        lemma_run(events.drop_last());
    }
}

/// What a transfer did at its `i`-th event.
pub(crate) proof fn lemma_step<B: DataBuf, T, E, U>(events: Seq<Event<B, T, E, U>>, i: int)
    requires
        possible(events),
        0 <= i < events.len(),
    ensures
        possible(events.take(i)),
        possible(events.take(i + 1)),
        reached(events.take(i)).accepts(events[i]),
        actions(events).len() == events.len(),
        actions(events.take(i)) == actions(events).take(i),
        actions(events.take(i + 1)) == actions(events).take(i + 1),
        actions(events)[i] == reached(events.take(i)).next(events[i]).1,
        reached(events.take(i + 1)) == reached(events.take(i)).next(events[i]).0,
    decreases events.len(),
{
    let before = events.drop_last();
    lemma_run(events);
    lemma_run(before);
    assert(events.take(events.len() as int) =~= events);
    assert(actions(events).take(events.len() as int) =~= actions(events));
    assert(events.take(events.len() - 1) =~= before);
    assert(actions(events).take(events.len() - 1) =~= actions(before));
    if i < events.len() - 1 {
        lemma_step(before, i);
        assert(before.take(i) =~= events.take(i));
        assert(before.take(i + 1) =~= events.take(i + 1));
        assert(actions(before).take(i) =~= actions(events).take(i));
        assert(actions(before).take(i + 1) =~= actions(events).take(i + 1));
    }
}

/// A transfer accepts exactly the answers to its last action; before its first
/// action, it waits to be woken. After the end it accepts nothing.
pub proof fn law_accepts_answers<B: DataBuf, T, E, U>(
    events: Seq<Event<B, T, E, U>>,
    event: Event<B, T, E, U>,
)
    requires
        possible(events),
    ensures
        reached(events).accepts(event) == (if events.len() == 0 {
            event is Woken
        } else {
            answers(actions(events).last(), event)
        }),
{
    lemma_run(events);
}

/// Data is neither lost, nor repeated, nor reordered: until a transfer fails,
/// what was handed to the stream, followed by what is in hand, is what the
/// body produced. Where it fails, what was handed over is a prefix of that.
pub proof fn law_data_is_kept_in_order<B: DataBuf, T, E, U>(events: Seq<Event<B, T, E, U>>)
    requires
        possible(events),
    ensures
        handed(actions(events)).is_prefix_of(received(events)),
        events.len() == 0 || !(actions(events).last() matches Action::Finish(Err(_))) ==> received(events) == handed(
            actions(events),
        ) + in_hand(reached(events)),
    decreases events.len(),
{
    lemma_run(events);
    if events.len() > 0 {
        let before = events.drop_last();
        lemma_run(before);
        law_data_is_kept_in_order(before);
        let pipe = reached(before);
        let (after, action) = pipe.next(events.last());
        assert(actions(events).drop_last() =~= actions(before));
        assert(received(events) =~= received(before) + data_of(events.last()));
        assert(handed(actions(events)) =~= handed(actions(before)) + data_sent_by(action));
        if !(action matches Action::Finish(Err(_))) {
            assert(in_hand(pipe) + data_of(events.last()) =~= data_sent_by(action) + in_hand(after));
            assert(received(events) =~= handed(actions(events)) + in_hand(after));
        }
    }
}

/// Capacity is requested only for data in hand, and for exactly that much: at
/// every moment before the end, the unused request is as large as the data
/// that waits to be sent.
pub proof fn law_capacity_is_requested_for_data_in_hand<B: DataBuf, T, E, U>(events: Seq<Event<B, T, E, U>>)
    requires
        possible(events),
        sized(events),
        events.len() == 0 || !(actions(events).last() is Finish),
    ensures
        requested(actions(events)) == in_hand(reached(events)).len(),
        in_hand(reached(events)).len() <= usize::MAX,
    decreases events.len(),
{
    lemma_run(events);
    if events.len() > 0 {
        let before = events.drop_last();
        lemma_run(before);
        assert(sized(before)) by {
            assert forall|i: int| 0 <= i < before.len() implies data_of(#[trigger] before[i]).len() <= usize::MAX by {
                assert(before[i] == events[i]);
            }
        }
        law_capacity_is_requested_for_data_in_hand(before);
        assert(data_of(events[events.len() - 1]).len() <= usize::MAX);
        assert(actions(events).drop_last() =~= actions(before));
    }
}

/// The body is asked only while no capacity is held: everything that it
/// produced has been handed to the stream, and no request is open. So a
/// transfer whose body is not ready takes nothing from the other streams of
/// its connection.
pub proof fn law_waiting_for_the_body_holds_no_capacity<B: DataBuf, T, E, U>(events: Seq<Event<B, T, E, U>>)
    requires
        possible(events),
        sized(events),
        events.len() > 0,
        actions(events).last() is PollFrame || (actions(events).last() is Suspend && reached(
            events,
        ).pending_data is None),
    ensures
        requested(actions(events)) == 0,
        received(events) == handed(actions(events)),
{
    lemma_run(events);
    law_capacity_is_requested_for_data_in_hand(events);
    law_data_is_kept_in_order(events);
    assert(handed(actions(events)) + in_hand(reached(events)) =~= handed(actions(events)));
}

/// The stream is ended at most once. Nothing is asked for after that but the
/// end of the transfer, and nothing at all after the end of the transfer.
pub proof fn law_stream_is_ended_once<B: DataBuf, T, E, U>(events: Seq<Event<B, T, E, U>>, i: int, j: int)
    requires
        possible(events),
        0 <= i < j < events.len(),
    ensures
        actions(events)[i] !is Finish,
        ends_stream(actions(events)[i]) ==> j == i + 1 && actions(events)[j] is Finish,
    decreases j - i,
{
    lemma_step(events, i);
    lemma_run(events.take(i + 1));
    lemma_step(events, i + 1);
    lemma_run(events.take(i + 2));
    assert(actions(events).take(i + 1).last() == actions(events)[i]);
    assert(actions(events).take(i + 2).last() == actions(events)[i + 1]);
    if j > i + 1 {
        law_stream_is_ended_once(events, i + 1, j);
    }
}

/// A transfer succeeds exactly when the stream accepts the data or the
/// trailers that end it. All the data of the body has been sent then.
pub proof fn law_success_means_all_was_sent<B: DataBuf, T, E, U>(events: Seq<Event<B, T, E, U>>)
    requires
        possible(events),
        events.len() > 0,
    ensures
        (actions(events).last() matches Action::Finish(Ok(_))) <==> {
            &&& events.len() > 1
            &&& events.last() matches Event::Sent(Ok(_))
            &&& ends_stream(actions(events)[events.len() - 2])
        },
        (actions(events).last() matches Action::Finish(Ok(_))) ==> received(events) == handed(actions(events)),
{
    let before = events.drop_last();
    lemma_run(events);
    lemma_run(before);
    assert(actions(events).drop_last() =~= actions(before));
    if events.len() > 1 {
        assert(actions(events)[events.len() - 2] == actions(before).last());
    }
    if actions(events).last() matches Action::Finish(Ok(_)) {
        law_data_is_kept_in_order(events);
        assert(handed(actions(events)) + in_hand(reached(events)) =~= handed(actions(events)));
    }
}

/// The body is asked only right after the stream was found not to be reset.
pub proof fn law_reset_is_checked_before_the_body<B: DataBuf, T, E, U>(events: Seq<Event<B, T, E, U>>, i: int)
    requires
        possible(events),
        0 <= i < events.len(),
        actions(events)[i] is PollFrame,
    ensures
        i > 0,
        actions(events)[i - 1] is PollReset,
        events[i] == Event::<B, T, E, U>::ResetPolled(Polled::Pending),
{
    lemma_step(events, i);
    lemma_run(events.take(i));
    if i > 0 {
        assert(actions(events).take(i).last() == actions(events)[i - 1]);
    }
}

/// Data that does not end the stream is sent only when there is capacity, unless it is empty.
pub proof fn law_data_is_sent_with_capacity<B: DataBuf, T, E, U>(
    events: Seq<Event<B, T, E, U>>,
    i: int,
    buf: SendBuf<B>,
)
    requires
        possible(events),
        0 <= i < events.len(),
        actions(events)[i] == Action::<B, T, E, U>::SendData(buf, false),
    ensures
        match events[i] {
            Event::Capacity(n) => n > 0 || buf.content().len() == 0,
            Event::CapacityPolled(Polled::Ready(Some(Ok(n)))) => n > 0,
            _ => false,
        },
{
    lemma_step(events, i);
    lemma_run(events.take(i));
    law_pending_data_never_ends_the_stream(events.take(i));
}

/// Data that waits for capacity never ends the stream.
pub proof fn law_pending_data_never_ends_the_stream<B: DataBuf, T, E, U>(events: Seq<Event<B, T, E, U>>)
    requires
        possible(events),
    ensures
        reached(events).pending_data matches Some((_, last)) ==> !last,
    decreases events.len(),
{
    if events.len() > 0 {
        law_pending_data_never_ends_the_stream(events.drop_last());
    }
}

/// The last chunk of a body ends the stream, and does not wait for capacity.
pub proof fn law_last_chunk_is_sent_at_once<B: DataBuf, T, E, U>(
    events: Seq<Event<B, T, E, U>>,
    i: int,
    chunk: B,
)
    requires
        possible(events),
        0 <= i < events.len() - 1,
        events[i] == Event::<B, T, E, U>::FramePolled(Polled::Ready(Some(Ok(Frame::Data(chunk, true))))),
    ensures
        actions(events)[i] == Action::<B, T, E, U>::ReserveCapacity(chunk.content().len() as usize),
        actions(events)[i + 1] == Action::<B, T, E, U>::SendData(SendBuf::Buf(chunk), true),
{
    lemma_step(events, i);
    lemma_step(events, i + 1);
}

/// Before trailers are sent, the capacity is given back.
pub proof fn law_trailers_give_capacity_back<B: DataBuf, T, E, U>(
    events: Seq<Event<B, T, E, U>>,
    i: int,
    trailers: T,
)
    requires
        possible(events),
        0 <= i < events.len() - 1,
        events[i] == Event::<B, T, E, U>::FramePolled(Polled::Ready(Some(Ok(Frame::Trailers(trailers))))),
    ensures
        actions(events)[i] == Action::<B, T, E, U>::ReserveCapacity(0),
        actions(events)[i + 1] == Action::<B, T, E, U>::SendTrailers(trailers),
{
    lemma_step(events, i);
    lemma_step(events, i + 1);
}

/// A transfer gives up control only where the stream or the body said that it will wake the task.
pub proof fn law_suspends_only_to_be_woken<B: DataBuf, T, E, U>(events: Seq<Event<B, T, E, U>>, i: int)
    requires
        possible(events),
        0 <= i < events.len(),
        actions(events)[i] is Suspend,
    ensures
        events[i] == Event::<B, T, E, U>::CapacityPolled(Polled::Pending) || events[i] == Event::<
            B,
            T,
            E,
            U,
        >::FramePolled(Polled::Pending),
{
    lemma_step(events, i);
    lemma_run(events.take(i));
}

/// A body that ends without trailers and without a last chunk ends the stream with no data.
pub proof fn law_end_of_body_ends_the_stream<B: DataBuf, T, E, U>(events: Seq<Event<B, T, E, U>>, i: int)
    requires
        possible(events),
        0 <= i < events.len(),
        events[i] == Event::<B, T, E, U>::FramePolled(Polled::Ready(None)),
    ensures
        actions(events)[i] == Action::<B, T, E, U>::SendData(SendBuf::Empty, true),
{
    lemma_step(events, i);
}

/// A body that fails resets the stream, with the reason found in its error,
/// and the transfer then ends with that error.
pub proof fn law_body_failure_resets_the_stream<B: DataBuf, T, E, U>(
    events: Seq<Event<B, T, E, U>>,
    i: int,
    failure: BodyFailure<U>,
)
    requires
        possible(events),
        0 <= i < events.len() - 1,
        events[i] == Event::<B, T, E, U>::FramePolled(Polled::Ready(Some(Err(failure)))),
    ensures
        actions(events)[i] == Action::<B, T, E, U>::SendReset(spec_h2_reason(failure.reason)),
        actions(events)[i + 1] == Action::<B, T, E, U>::Finish(Err(PipeError::UserBody(failure.error))),
{
    lemma_step(events, i);
    lemma_step(events, i + 1);
}

/// A transfer ends with the error of its body only after the body failed with
/// it and the stream was reset on that account.
pub proof fn law_body_error_comes_from_the_body<B: DataBuf, T, E, U>(
    events: Seq<Event<B, T, E, U>>,
    i: int,
    error: U,
)
    requires
        possible(events),
        0 <= i < events.len(),
        actions(events)[i] == Action::<B, T, E, U>::Finish(Err(PipeError::UserBody(error))),
    ensures
        i > 0,
        events[i - 1] matches Event::FramePolled(Polled::Ready(Some(Err(failure)))) && failure.error == error
            && actions(events)[i - 1] == Action::<B, T, E, U>::SendReset(spec_h2_reason(failure.reason)),
{
    lemma_step(events, i);
    lemma_run(events.take(i));
    if i > 0 {
        lemma_step(events, i - 1);
        lemma_run(events.take(i - 1));
    }
}

/// A failure to write the body is what the stream reported: an error, a reset by the
/// peer, or its closing while capacity was awaited.
pub proof fn law_write_failure_comes_from_the_stream<B: DataBuf, T, E, U>(
    events: Seq<Event<B, T, E, U>>,
    i: int,
    cause: WriteCause<E>,
)
    requires
        possible(events),
        0 <= i < events.len(),
    ensures
        actions(events)[i] == Action::<B, T, E, U>::Finish(Err(PipeError::BodyWrite(cause))) <==> match cause {
            WriteCause::Stream(e) => {
                ||| events[i] == Event::<B, T, E, U>::CapacityPolled(Polled::Ready(Some(Err(e))))
                ||| events[i] == Event::<B, T, E, U>::ResetPolled(Polled::Ready(Err(e)))
                ||| events[i] == Event::<B, T, E, U>::Sent(Err(e))
            },
            WriteCause::Reset(reason) => events[i] == Event::<B, T, E, U>::ResetPolled(Polled::Ready(Ok(reason))),
            WriteCause::CapacityClosed => events[i] == Event::<B, T, E, U>::CapacityPolled(Polled::Ready(None)),
        },
{
    lemma_step(events, i);
    lemma_run(events.take(i));
}

} // verus!
